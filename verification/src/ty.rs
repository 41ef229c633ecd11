//! The type algebra and the unifier.
//!
//! Types form a closed variant set. Besides the concrete constructors there
//! are two transient ones: `Unresolved`, the best-effort fallback a component
//! leaves behind after reporting an error, and `Ambiguous`, the candidate set
//! given to a block, `if` or `loop` expression whose final type cannot be
//! determined until its use context is known. The unifier joins two types:
//! identical concrete types join to themselves, `Never` is absorbed by the
//! other operand, an ambiguous operand joins candidate-wise, and any other
//! mismatch is a type error.

use vstd::prelude::*;

use crate::diag::DiagKind;

verus! {

/// The integer widths of the language. `usize`/`isize` are 64 bits wide.
#[derive(Clone, Copy, PartialEq, Eq, Structural, Debug)]
pub enum IntKind {
    U8,
    U32,
    USize,
    I32,
    I64,
    ISize,
}

impl IntKind {
    pub open spec fn signed(self) -> bool {
        self is I32 || self is I64 || self is ISize
    }

    pub open spec fn min_value(self) -> int {
        match self {
            IntKind::U8 => 0,
            IntKind::U32 => 0,
            IntKind::USize => 0,
            IntKind::I32 => -0x8000_0000,
            IntKind::I64 => -0x8000_0000_0000_0000,
            IntKind::ISize => -0x8000_0000_0000_0000,
        }
    }

    pub open spec fn max_value(self) -> int {
        match self {
            IntKind::U8 => 0xff,
            IntKind::U32 => 0xffff_ffff,
            IntKind::USize => 0xffff_ffff_ffff_ffff,
            IntKind::I32 => 0x7fff_ffff,
            IntKind::I64 => 0x7fff_ffff_ffff_ffff,
            IntKind::ISize => 0x7fff_ffff_ffff_ffff,
        }
    }

    /// Whether the mathematical value `v` fits this width.
    pub open spec fn in_range(self, v: int) -> bool {
        self.min_value() <= v <= self.max_value()
    }

    /// Runtime range test over the evaluator's working integer type.
    pub fn fits(self, v: i128) -> (r: bool)
        ensures
            r == self.in_range(v as int),
    {
        match self {
            IntKind::U8 => 0 <= v && v <= 0xff,
            IntKind::U32 => 0 <= v && v <= 0xffff_ffff,
            IntKind::USize => 0 <= v && v <= 0xffff_ffff_ffff_ffff,
            IntKind::I32 => -0x8000_0000 <= v && v <= 0x7fff_ffff,
            IntKind::I64 => -0x8000_0000_0000_0000 <= v && v <= 0x7fff_ffff_ffff_ffff,
            IntKind::ISize => -0x8000_0000_0000_0000 <= v && v <= 0x7fff_ffff_ffff_ffff,
        }
    }
}

/// A type of the analyzed language. Struct, enum and function types are
/// interned: they carry an identifier into the program's definition tables,
/// so that the type value itself stays small. `Ctor` is the value of a bare
/// struct or enum type name — usable to disambiguate `TypeName::Variant`,
/// but not directly callable.
#[derive(Debug)]
pub enum Ty {
    Bool,
    Char,
    Unit,
    /// The type of expressions that never yield a value (`return`, a `loop`
    /// with no value-carrying `break`). Absorbed by any type when joined.
    Never,
    /// Best-effort fallback after an error, so later passes keep running.
    Unresolved,
    Int(IntKind),
    Array { elem: Box<Ty>, len: usize },
    Ref { to: Box<Ty>, mutable: bool },
    Struct(u32),
    Enum(u32),
    /// The constructor value of a bare type name.
    Ctor(u32),
    /// A function type, interned by signature identifier.
    Fun(u32),
    /// The transient candidate set of a control-flow expression used as a
    /// value; resolution must reach a concrete type or unit.
    Ambiguous { first: Box<Ty>, second: Box<Ty> },
}

impl Ty {
    /// Structural size, the termination measure of the recursive operations.
    pub open spec fn size(self) -> nat
        decreases self,
    {
        match self {
            Ty::Array { elem, .. } => 1 + (*elem).size(),
            Ty::Ref { to, .. } => 1 + (*to).size(),
            Ty::Ambiguous { first, second } => 1 + (*first).size() + (*second).size(),
            _ => 1,
        }
    }

    /// Whether no ambiguous candidate set occurs anywhere in the type.
    pub open spec fn is_settled(self) -> bool
        decreases self,
    {
        match self {
            Ty::Ambiguous { .. } => false,
            Ty::Array { elem, .. } => (*elem).is_settled(),
            Ty::Ref { to, .. } => (*to).is_settled(),
            _ => true,
        }
    }
}

impl Clone for Ty {
    /// An identical type value.
    fn clone(&self) -> (r: Ty)
        ensures
            r == *self,
        decreases self.size(),
    {
        match self {
            Ty::Bool => Ty::Bool,
            Ty::Char => Ty::Char,
            Ty::Unit => Ty::Unit,
            Ty::Never => Ty::Never,
            Ty::Unresolved => Ty::Unresolved,
            Ty::Int(k) => Ty::Int(*k),
            Ty::Array { elem, len } => Ty::Array {
                elem: Box::new((&**elem).clone()),
                len: *len,
            },
            Ty::Ref { to, mutable } => Ty::Ref {
                to: Box::new((&**to).clone()),
                mutable: *mutable,
            },
            Ty::Struct(i) => Ty::Struct(*i),
            Ty::Enum(i) => Ty::Enum(*i),
            Ty::Ctor(i) => Ty::Ctor(*i),
            Ty::Fun(i) => Ty::Fun(*i),
            Ty::Ambiguous { first, second } => Ty::Ambiguous {
                first: Box::new((&**first).clone()),
                second: Box::new((&**second).clone()),
            },
        }
    }
}

/// Structural equality test, usable from executable code.
pub fn ty_eq(a: &Ty, b: &Ty) -> (r: bool)
    ensures
        r == (*a == *b),
    decreases a.size(),
{
    match (a, b) {
        (Ty::Bool, Ty::Bool) => true,
        (Ty::Char, Ty::Char) => true,
        (Ty::Unit, Ty::Unit) => true,
        (Ty::Never, Ty::Never) => true,
        (Ty::Unresolved, Ty::Unresolved) => true,
        (Ty::Int(k1), Ty::Int(k2)) => k1 == k2,
        (Ty::Array { elem: e1, len: n1 }, Ty::Array { elem: e2, len: n2 }) => *n1 == *n2
            && ty_eq(&**e1, &**e2),
        (Ty::Ref { to: t1, mutable: m1 }, Ty::Ref { to: t2, mutable: m2 }) => *m1 == *m2
            && ty_eq(&**t1, &**t2),
        (Ty::Struct(i), Ty::Struct(j)) => i == j,
        (Ty::Enum(i), Ty::Enum(j)) => i == j,
        (Ty::Ctor(i), Ty::Ctor(j)) => i == j,
        (Ty::Fun(i), Ty::Fun(j)) => i == j,
        (
            Ty::Ambiguous { first: f1, second: s1 },
            Ty::Ambiguous { first: f2, second: s2 },
        ) => ty_eq(&**f1, &**f2) && ty_eq(&**s1, &**s2),
        _ => false,
    }
}

/// Joins the two halves of a candidate set after each has been unified
/// against the same operand. The candidates are merged pairwise: two equal
/// survivors collapse, two different survivors stay ambiguous, and a half
/// that failed to join makes the whole merge a type error — only `never`
/// and the error fallback are ever absorbed, inside the join itself.
pub open spec fn merge_candidates(l: Option<Ty>, r: Option<Ty>) -> Option<Ty> {
    match (l, r) {
        (Some(x), Some(y)) => if x == y {
            Some(x)
        } else {
            Some(Ty::Ambiguous { first: Box::new(x), second: Box::new(y) })
        },
        _ => None,
    }
}

/// The unifier's join. `None` is a type mismatch. `Never` is absorbed by the
/// other operand; `Unresolved` (the error fallback) likewise yields the other
/// operand so that one error does not cascade; an ambiguous operand joins
/// candidate-wise; concrete types join structurally.
pub open spec fn spec_unify(a: Ty, b: Ty) -> Option<Ty>
    decreases a.size() + b.size(),
{
    if a is Never {
        Some(b)
    } else if b is Never {
        Some(a)
    } else if a is Ambiguous {
        merge_candidates(spec_unify(*a->first, b), spec_unify(*a->second, b))
    } else if b is Ambiguous {
        merge_candidates(spec_unify(a, *b->first), spec_unify(a, *b->second))
    } else if a is Unresolved {
        Some(b)
    } else if b is Unresolved {
        Some(a)
    } else {
        match (a, b) {
            (Ty::Bool, Ty::Bool) => Some(Ty::Bool),
            (Ty::Char, Ty::Char) => Some(Ty::Char),
            (Ty::Unit, Ty::Unit) => Some(Ty::Unit),
            (Ty::Int(k1), Ty::Int(k2)) => if k1 == k2 {
                Some(Ty::Int(k1))
            } else {
                None
            },
            (Ty::Array { elem: e1, len: n1 }, Ty::Array { elem: e2, len: n2 }) => if n1
                == n2 {
                match spec_unify(*e1, *e2) {
                    Some(u) => Some(Ty::Array { elem: Box::new(u), len: n1 }),
                    None => None,
                }
            } else {
                None
            },
            (Ty::Ref { to: t1, mutable: m1 }, Ty::Ref { to: t2, mutable: m2 }) => if m1
                == m2 {
                match spec_unify(*t1, *t2) {
                    Some(u) => Some(Ty::Ref { to: Box::new(u), mutable: m1 }),
                    None => None,
                }
            } else {
                None
            },
            (Ty::Struct(i), Ty::Struct(j)) => if i == j {
                Some(Ty::Struct(i))
            } else {
                None
            },
            (Ty::Enum(i), Ty::Enum(j)) => if i == j {
                Some(Ty::Enum(i))
            } else {
                None
            },
            (Ty::Ctor(i), Ty::Ctor(j)) => if i == j {
                Some(Ty::Ctor(i))
            } else {
                None
            },
            (Ty::Fun(i), Ty::Fun(j)) => if i == j {
                Some(Ty::Fun(i))
            } else {
                None
            },
            _ => None,
        }
    }
}

/// Executable unifier; returns exactly the join the specification defines.
pub fn unify(a: &Ty, b: &Ty) -> (r: Option<Ty>)
    ensures
        r == spec_unify(*a, *b),
    decreases a.size() + b.size(),
{
    if matches!(a, Ty::Never) {
        return Some(b.clone());
    }
    if matches!(b, Ty::Never) {
        return Some(a.clone());
    }
    if let Ty::Ambiguous { first, second } = a {
        let l = unify(&**first, b);
        let r = unify(&**second, b);
        return merge_exec(l, r);
    }
    if let Ty::Ambiguous { first, second } = b {
        let l = unify(a, &**first);
        let r = unify(a, &**second);
        return merge_exec(l, r);
    }
    if matches!(a, Ty::Unresolved) {
        return Some(b.clone());
    }
    if matches!(b, Ty::Unresolved) {
        return Some(a.clone());
    }
    match (a, b) {
        (Ty::Bool, Ty::Bool) => Some(Ty::Bool),
        (Ty::Char, Ty::Char) => Some(Ty::Char),
        (Ty::Unit, Ty::Unit) => Some(Ty::Unit),
        (Ty::Int(k1), Ty::Int(k2)) => if k1 == k2 {
            Some(Ty::Int(*k1))
        } else {
            None
        },
        (Ty::Array { elem: e1, len: n1 }, Ty::Array { elem: e2, len: n2 }) => if *n1
            == *n2 {
            match unify(&**e1, &**e2) {
                Some(u) => Some(Ty::Array { elem: Box::new(u), len: *n1 }),
                None => None,
            }
        } else {
            None
        },
        (Ty::Ref { to: t1, mutable: m1 }, Ty::Ref { to: t2, mutable: m2 }) => if *m1
            == *m2 {
            match unify(&**t1, &**t2) {
                Some(u) => Some(Ty::Ref { to: Box::new(u), mutable: *m1 }),
                None => None,
            }
        } else {
            None
        },
        (Ty::Struct(i), Ty::Struct(j)) => if i == j {
            Some(Ty::Struct(*i))
        } else {
            None
        },
        (Ty::Enum(i), Ty::Enum(j)) => if i == j {
            Some(Ty::Enum(*i))
        } else {
            None
        },
        (Ty::Ctor(i), Ty::Ctor(j)) => if i == j {
            Some(Ty::Ctor(*i))
        } else {
            None
        },
        (Ty::Fun(i), Ty::Fun(j)) => if i == j {
            Some(Ty::Fun(*i))
        } else {
            None
        },
        _ => None,
    }
}

/// Executable counterpart of [`merge_candidates`].
fn merge_exec(l: Option<Ty>, r: Option<Ty>) -> (res: Option<Ty>)
    ensures
        res == merge_candidates(l, r),
{
    match (l, r) {
        (Some(x), Some(y)) => if ty_eq(&x, &y) {
            Some(x)
        } else {
            Some(Ty::Ambiguous { first: Box::new(x), second: Box::new(y) })
        },
        _ => None,
    }
}

/// Whether `actual` is acceptable where `expected` is demanded.
pub open spec fn spec_expect(actual: Ty, expected: Ty) -> bool {
    spec_unify(actual, expected) is Some
}

/// Compatibility check of an `actual` type against an `expected` one; the
/// error value is the diagnostic kind the caller reports.
pub fn expect(actual: &Ty, expected: &Ty) -> (r: Result<(), DiagKind>)
    ensures
        r is Ok <==> spec_expect(*actual, *expected),
        r is Err ==> r->Err_0 == DiagKind::TypeMismatch,
{
    match unify(actual, expected) {
        Some(_) => Ok(()),
        None => Err(DiagKind::TypeMismatch),
    }
}

/// The outcome resolution demands of an ambiguous type at a known-context
/// use: join against the expected type; a surviving candidate set is an
/// unresolved-ambiguity error, a failed join is a type mismatch.
pub open spec fn spec_resolve(t: Ty, expected: Ty) -> Result<Ty, DiagKind> {
    match spec_unify(t, expected) {
        Some(u) => if u is Ambiguous {
            Err(DiagKind::AmbiguousTypeUnresolved)
        } else {
            Ok(u)
        },
        None => Err(DiagKind::TypeMismatch),
    }
}

/// Resolves a (possibly ambiguous) expression type against the type its
/// context expects: the enclosing function's return type, a `let` binding's
/// annotation, or a struct field's declared type.
pub fn resolve_expected(t: &Ty, expected: &Ty) -> (r: Result<Ty, DiagKind>)
    ensures
        r == spec_resolve(*t, *expected),
{
    match unify(t, expected) {
        Some(u) => if matches!(&u, Ty::Ambiguous { .. }) {
            Err(DiagKind::AmbiguousTypeUnresolved)
        } else {
            Ok(u)
        },
        None => Err(DiagKind::TypeMismatch),
    }
}

/// A value discarded by a trailing separator resolves to unit.
pub open spec fn spec_discard(t: Ty) -> Ty {
    if t is Ambiguous {
        Ty::Unit
    } else {
        t
    }
}

/// Resolves the type of an expression whose value is discarded by a trailing
/// separator: an ambiguous set collapses to unit, anything else is kept.
pub fn resolve_discarded(t: Ty) -> (r: Ty)
    ensures
        r == spec_discard(t),
{
    if matches!(&t, Ty::Ambiguous { .. }) {
        Ty::Unit
    } else {
        t
    }
}

/// The type of a `loop` from the types its `break value` expressions carry:
/// no reachable value-carrying break leaves the loop at `Never`; otherwise
/// all break types are unified together.
pub open spec fn spec_loop_type(breaks: Seq<Ty>) -> Result<Ty, DiagKind>
    decreases breaks.len(),
{
    if breaks.len() == 0 {
        Ok(Ty::Never)
    } else {
        match spec_loop_type(breaks.drop_last()) {
            Ok(t) => match spec_unify(t, breaks.last()) {
                Some(u) => Ok(u),
                None => Err(DiagKind::TypeMismatch),
            },
            Err(e) => Err(e),
        }
    }
}

/// Executable loop typing over the collected `break value` types.
pub fn loop_type(breaks: &Vec<Ty>) -> (r: Result<Ty, DiagKind>)
    ensures
        r == spec_loop_type(breaks@),
{
    let mut acc: Result<Ty, DiagKind> = Ok(Ty::Never);
    let mut i: usize = 0;
    while i < breaks.len()
        invariant
            i <= breaks.len(),
            acc == spec_loop_type(breaks@.subrange(0, i as int)),
        decreases breaks.len() - i,
    {
        proof {
            assert(breaks@.subrange(0, (i + 1) as int).drop_last() =~= breaks@.subrange(
                0,
                i as int,
            ));
            assert(breaks@.subrange(0, (i + 1) as int).last() == breaks@[i as int]);
        }
        acc = match acc {
            Ok(t) => match unify(&t, &breaks[i]) {
                Some(u) => Ok(u),
                None => Err(DiagKind::TypeMismatch),
            },
            Err(e) => Err(e),
        };
        i = i + 1;
    }
    proof {
        assert(breaks@.subrange(0, breaks@.len() as int) =~= breaks@);
    }
    acc
}

/// One struct definition: its field types, in declaration order. Field
/// projections refer to fields by index.
#[derive(Debug)]
pub struct StructDef {
    pub fields: Vec<Ty>,
}

impl View for StructDef {
    type V = Seq<Ty>;

    open spec fn view(&self) -> Seq<Ty> {
        self.fields@
    }
}

/// The program's struct definitions, interned by identifier: the table that
/// gives `Ty::Struct(i)` its fields.
#[derive(Debug)]
pub struct StructTable {
    pub structs: Vec<StructDef>,
}

impl View for StructTable {
    type V = Seq<Seq<Ty>>;

    open spec fn view(&self) -> Seq<Seq<Ty>> {
        self.structs@.map(|_i: int, d: StructDef| d@)
    }
}

/// Joins an already-merged candidate (or its failure) with one more
/// candidate: the step an ambiguous set's resolution repeats, in whatever
/// order it visits the candidates.
pub open spec fn opt_join(x: Option<Ty>, y: Ty) -> Option<Ty> {
    match x {
        Some(t) => spec_unify(t, y),
        None => None,
    }
}

/// Candidate resolution is confluent, part one: the unifier's join does not
/// depend on the order of its two operands. Stated for settled operands —
/// the candidates an ambiguous set is built from.
pub proof fn lemma_unify_commutes(a: Ty, b: Ty)
    requires
        a.is_settled(),
        b.is_settled(),
    ensures
        spec_unify(a, b) == spec_unify(b, a),
    decreases a.size() + b.size(),
{
    match (a, b) {
        (Ty::Array { elem: e1, .. }, Ty::Array { elem: e2, .. }) => {
            lemma_unify_commutes(*e1, *e2);
        },
        (Ty::Ref { to: t1, .. }, Ty::Ref { to: t2, .. }) => {
            lemma_unify_commutes(*t1, *t2);
        },
        _ => {},
    }
}

/// The join of settled operands is settled, is `Never` only when both
/// operands were, and is `Unresolved` only when one operand was.
pub proof fn lemma_unify_preserves_settled(a: Ty, b: Ty)
    requires
        a.is_settled(),
        b.is_settled(),
    ensures
        spec_unify(a, b) matches Some(u) ==> {
            &&& u.is_settled()
            &&& (u is Never ==> a is Never && b is Never)
            &&& (u is Unresolved ==> a is Unresolved || b is Unresolved)
        },
    decreases a.size() + b.size(),
{
    match (a, b) {
        (Ty::Array { elem: e1, .. }, Ty::Array { elem: e2, .. }) => {
            lemma_unify_preserves_settled(*e1, *e2);
        },
        (Ty::Ref { to: t1, .. }, Ty::Ref { to: t2, .. }) => {
            lemma_unify_preserves_settled(*t1, *t2);
        },
        _ => {},
    }
}

/// Candidate resolution is confluent, part two: folding one more candidate
/// into an accumulated join may take the remaining candidates in either
/// order. Together with commutativity this makes the final type — or the
/// final error — of resolving a candidate set independent of the order the
/// candidates are unified in, since any order is reachable from any other by
/// such exchanges.
pub proof fn lemma_unify_exchange(a: Ty, b: Ty, c: Ty)
    requires
        a.is_settled(),
        b.is_settled(),
        c.is_settled(),
    ensures
        opt_join(spec_unify(a, b), c) == opt_join(spec_unify(a, c), b),
    decreases a.size() + b.size() + c.size(),
{
    lemma_unify_commutes(a, b);
    lemma_unify_commutes(a, c);
    lemma_unify_commutes(b, c);
    lemma_unify_preserves_settled(a, b);
    lemma_unify_preserves_settled(a, c);
    match (a, b, c) {
        (
            Ty::Array { elem: e1, .. },
            Ty::Array { elem: e2, .. },
            Ty::Array { elem: e3, .. },
        ) => {
            lemma_unify_exchange(*e1, *e2, *e3);
            lemma_unify_preserves_settled(*e1, *e2);
            lemma_unify_preserves_settled(*e1, *e3);
        },
        (Ty::Ref { to: t1, .. }, Ty::Ref { to: t2, .. }, Ty::Ref { to: t3, .. }) => {
            lemma_unify_exchange(*t1, *t2, *t3);
            lemma_unify_preserves_settled(*t1, *t2);
            lemma_unify_preserves_settled(*t1, *t3);
        },
        _ => {},
    }
}

/// Candidate resolution is confluent for arbitrary — even themselves
/// ambiguous — candidates: swapping the two candidates of an ambiguous set
/// changes nothing the analysis can observe. Against any operand, the
/// swapped set fails exactly when the original does, collapses to exactly
/// the same single type, and stays ambiguous exactly when the original
/// does, holding the same two surviving candidates (possibly in swapped
/// order, to which the claim applies again).
pub proof fn lemma_candidate_order_irrelevant(a1: Ty, a2: Ty, b: Ty)
    ensures
        ({
            let l = spec_unify(
                Ty::Ambiguous { first: Box::new(a1), second: Box::new(a2) },
                b,
            );
            let r = spec_unify(
                Ty::Ambiguous { first: Box::new(a2), second: Box::new(a1) },
                b,
            );
            &&& (l is None <==> r is None)
            &&& (l is Some && !(l->0 is Ambiguous) ==> r == l)
            &&& (l is Some && l->0 is Ambiguous ==> r is Some && r->0 is Ambiguous && ((
            *(r->0)->first == *(l->0)->second && *(r->0)->second == *(l->0)->first) || (
            *(r->0)->first == *(l->0)->first && *(r->0)->second == *(l->0)->second)))
        }),
{
}

/// Every member of the sequence is settled (carries no candidate set).
pub open spec fn all_settled(s: Seq<Ty>) -> bool {
    forall|i: int| 0 <= i < s.len() ==> (#[trigger] s[i]).is_settled()
}

/// Resolving a candidate sequence from an accumulated join (or its
/// failure): one candidate at a time, left to right.
pub open spec fn fold_candidates(acc: Option<Ty>, s: Seq<Ty>) -> Option<Ty>
    decreases s.len(),
{
    if s.len() == 0 {
        acc
    } else {
        fold_candidates(opt_join(acc, s[0]), s.subrange(1, s.len() as int))
    }
}

/// Candidate resolution is confluent, part three: exchanging two adjacent
/// candidates leaves the fold's outcome — the final type or the final
/// error — unchanged. Adjacent exchanges generate every reordering, so
/// resolving a candidate set in any order yields the same result.
pub proof fn lemma_fold_exchange_adjacent(acc: Option<Ty>, s: Seq<Ty>, i: int)
    requires
        acc matches Some(t) ==> t.is_settled(),
        all_settled(s),
        0 <= i,
        i + 1 < s.len(),
    ensures
        fold_candidates(acc, s) == fold_candidates(
            acc,
            s.update(i, s[i + 1]).update(i + 1, s[i]),
        ),
    decreases s.len(),
{
    let sw = s.update(i, s[i + 1]).update(i + 1, s[i]);
    assert(sw.len() == s.len());
    if i == 0 {
        let acc2 = opt_join(opt_join(acc, s[0]), s[1]);
        let acc2s = opt_join(opt_join(acc, s[1]), s[0]);
        match acc {
            None => {
                assert(acc2 == acc2s);
            },
            Some(t) => {
                lemma_unify_exchange(t, s[0], s[1]);
                lemma_unify_preserves_settled(t, s[0]);
                lemma_unify_preserves_settled(t, s[1]);
            },
        }
        assert(acc2 == acc2s);
        assert(sw[0] == s[1] && sw[1] == s[0]);
        let t1 = s.subrange(1, s.len() as int);
        let w1 = sw.subrange(1, sw.len() as int);
        assert(t1[0] == s[1] && w1[0] == s[0]);
        assert(t1.subrange(1, t1.len() as int) =~= s.subrange(2, s.len() as int));
        assert(w1.subrange(1, w1.len() as int) =~= s.subrange(2, s.len() as int));
        assert(fold_candidates(acc, s) == fold_candidates(opt_join(acc, s[0]), t1));
        assert(fold_candidates(opt_join(acc, s[0]), t1) == fold_candidates(
            acc2,
            s.subrange(2, s.len() as int),
        ));
        assert(fold_candidates(acc, sw) == fold_candidates(opt_join(acc, s[1]), w1));
        assert(fold_candidates(opt_join(acc, s[1]), w1) == fold_candidates(
            acc2s,
            s.subrange(2, s.len() as int),
        ));
    } else {
        assert(sw[0] == s[0]);
        let tail = s.subrange(1, s.len() as int);
        let tail_sw = sw.subrange(1, sw.len() as int);
        assert(tail_sw =~= tail.update(i - 1, tail[i]).update(i, tail[i - 1]));
        assert(all_settled(tail)) by {
            assert(forall|j: int| 0 <= j < tail.len() ==> tail[j] == s[j + 1]);
        }
        match acc {
            None => {
                lemma_fold_exchange_adjacent(None, tail, i - 1);
            },
            Some(t) => {
                lemma_unify_preserves_settled(t, s[0]);
                lemma_fold_exchange_adjacent(opt_join(acc, s[0]), tail, i - 1);
            },
        }
    }
}

/// The fixed cast-compatibility rule: any two of bool, char and the integer
/// widths are castable to each other; any other source or target — an
/// aggregate, a reference, a function — is rejected.
pub open spec fn spec_cast_ok(from: Ty, to: Ty) -> bool {
    &&& (from is Bool || from is Char || from is Int)
    &&& (to is Bool || to is Char || to is Int)
}

/// Validates a numeric cast `from as to`.
pub fn cast_ok(from: &Ty, to: &Ty) -> (r: bool)
    ensures
        r == spec_cast_ok(*from, *to),
{
    let f = matches!(from, Ty::Bool | Ty::Char | Ty::Int(_));
    let t = matches!(to, Ty::Bool | Ty::Char | Ty::Int(_));
    f && t
}

} // verus!
