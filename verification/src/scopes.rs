//! The symbol and scope table.
//!
//! Scopes form a stack (the lexical chain from the current block outwards).
//! Declaring the same name twice within one scope is an error; declaring it
//! again in a nested scope shadows — hides without destroying — the outer
//! symbol. Resolution is syntactic: it walks the chain from the innermost
//! scope outwards and the innermost match wins.

use vstd::prelude::*;

use crate::diag::DiagKind;
use crate::ty::Ty;

verus! {

/// What a symbol stands for.
#[derive(Clone, Copy, PartialEq, Eq, Structural, Debug)]
pub enum SymKind {
    Variable,
    Parameter,
    Function,
    Struct,
    Enum,
    Variant,
    Constant,
    Associated,
}

/// One name binding: the interned name, the declared type (possibly still
/// `Unresolved` at declaration time), the mutability flag and the kind.
#[derive(Debug)]
pub struct Symbol {
    pub name: u32,
    pub ty: Ty,
    pub mutable: bool,
    pub kind: SymKind,
}

impl Clone for Symbol {
    /// An identical binding.
    fn clone(&self) -> (r: Symbol)
        ensures
            r == *self,
    {
        Symbol {
            name: self.name,
            ty: self.ty.clone(),
            mutable: self.mutable,
            kind: self.kind,
        }
    }
}

/// Why a scope was opened.
#[derive(Clone, Copy, PartialEq, Eq, Structural, Debug)]
pub enum ScopeKind {
    Block,
    Function,
    Loop,
    Item,
}

/// The mathematical reading of one scope.
pub struct ScopeView {
    pub kind: ScopeKind,
    pub syms: Seq<Symbol>,
}

/// One scope: its kind tag and its symbols in declaration order.
#[derive(Debug)]
pub struct Scope {
    pub kind: ScopeKind,
    pub syms: Vec<Symbol>,
}

impl View for Scope {
    type V = ScopeView;

    open spec fn view(&self) -> ScopeView {
        ScopeView { kind: self.kind, syms: self.syms@ }
    }
}

/// The newest declaration of `name` within one scope, if any.
pub open spec fn find_in(syms: Seq<Symbol>, name: u32) -> Option<Symbol>
    decreases syms.len(),
{
    if syms.len() == 0 {
        None
    } else if syms.last().name == name {
        Some(syms.last())
    } else {
        find_in(syms.drop_last(), name)
    }
}

/// Resolution over the scope chain: the innermost scope holding the name
/// wins.
pub open spec fn spec_resolve(scopes: Seq<ScopeView>, name: u32) -> Option<Symbol>
    decreases scopes.len(),
{
    if scopes.len() == 0 {
        None
    } else {
        match find_in(scopes.last().syms, name) {
            Some(s) => Some(s),
            None => spec_resolve(scopes.drop_last(), name),
        }
    }
}

/// The scope stack of one compilation unit's analysis.
pub struct SymbolTable {
    scopes: Vec<Scope>,
}

impl View for SymbolTable {
    type V = Seq<ScopeView>;

    closed spec fn view(&self) -> Seq<ScopeView> {
        self.scopes@.map(|_i: int, s: Scope| s@)
    }
}

impl SymbolTable {
    /// An empty table; the driver opens the outermost scope itself.
    pub fn new() -> (r: SymbolTable)
        ensures
            r@ == Seq::<ScopeView>::empty(),
    {
        let r = SymbolTable { scopes: Vec::new() };
        proof {
            assert(r@ =~= Seq::<ScopeView>::empty());
        }
        r
    }

    /// How many scopes are open.
    pub fn depth(&self) -> (n: usize)
        ensures
            n == self@.len(),
    {
        self.scopes.len()
    }

    /// Opens a scope on entering a syntactic block; returns its identifier
    /// (its depth), to be handed back on exit.
    pub fn enter_scope(&mut self, kind: ScopeKind) -> (id: usize)
        ensures
            final(self)@ == old(self)@.push(
                ScopeView { kind, syms: Seq::<Symbol>::empty() },
            ),
            id == old(self)@.len(),
    {
        let id = self.scopes.len();
        self.scopes.push(Scope { kind, syms: Vec::new() });
        proof {
            assert(self@ =~= old(self)@.push(
                ScopeView { kind, syms: Seq::<Symbol>::empty() },
            ));
        }
        id
    }

    /// Leaves the innermost scope: its symbols become unreachable. Scopes
    /// close in stack order, so `id` must be the innermost one's identifier.
    pub fn exit_scope(&mut self, id: usize)
        requires
            old(self)@.len() > 0,
            id + 1 == old(self)@.len(),
        ensures
            final(self)@ == old(self)@.drop_last(),
    {
        let _ = self.scopes.pop();
        proof {
            assert(self@ =~= old(self)@.drop_last());
        }
    }

    /// Declares a symbol in the innermost scope. A duplicate of a name
    /// already declared in that same scope — not in an outer one — is a name
    /// error and leaves the table unchanged.
    pub fn declare(&mut self, sym: Symbol) -> (r: Result<(), DiagKind>)
        requires
            old(self)@.len() > 0,
        ensures
            r is Ok <==> find_in(old(self)@.last().syms, sym.name) is None,
            r is Ok ==> final(self)@ == old(self)@.update(
                old(self)@.len() - 1,
                ScopeView {
                    kind: old(self)@.last().kind,
                    syms: old(self)@.last().syms.push(sym),
                },
            ),
            r is Err ==> final(self)@ == old(self)@ && r->Err_0 == DiagKind::NameError,
    {
        let mut top = match self.scopes.pop() {
            Some(s) => s,
            None => {
                proof {
                    assert(false);
                }
                Scope { kind: ScopeKind::Block, syms: Vec::new() }
            },
        };
        if Self::find_in_scope(&top.syms, sym.name).is_some() {
            self.scopes.push(top);
            proof {
                assert(self@ =~= old(self)@);
            }
            return Err(DiagKind::NameError);
        }
        top.syms.push(sym);
        self.scopes.push(top);
        proof {
            assert(self@ =~= old(self)@.update(
                old(self)@.len() - 1,
                ScopeView {
                    kind: old(self)@.last().kind,
                    syms: old(self)@.last().syms.push(sym),
                },
            ));
        }
        Ok(())
    }

    /// The newest declaration of `name` in one scope's symbol list.
    fn find_in_scope(syms: &Vec<Symbol>, name: u32) -> (r: Option<Symbol>)
        ensures
            r == find_in(syms@, name),
    {
        let mut i: usize = syms.len();
        proof {
            assert(syms@.subrange(0, syms@.len() as int) =~= syms@);
        }
        while i > 0
            invariant
                i <= syms.len(),
                find_in(syms@, name) == find_in(syms@.subrange(0, i as int), name),
            decreases i,
        {
            i = i - 1;
            proof {
                assert(syms@.subrange(0, (i + 1) as int).drop_last() =~= syms@.subrange(
                    0,
                    i as int,
                ));
                assert(syms@.subrange(0, (i + 1) as int).last() == syms@[i as int]);
            }
            if syms[i].name == name {
                return Some(syms[i].clone());
            }
        }
        proof {
            assert(syms@.subrange(0, 0) =~= Seq::<Symbol>::empty());
        }
        None
    }

    /// Resolves a name at the current point: walks the parent chain from the
    /// innermost scope outwards, innermost match first. `None` is an
    /// undeclared name.
    pub fn resolve(&self, name: u32) -> (r: Option<Symbol>)
        ensures
            r == spec_resolve(self@, name),
    {
        let mut i: usize = self.scopes.len();
        proof {
            assert(self@.subrange(0, self@.len() as int) =~= self@);
        }
        while i > 0
            invariant
                i <= self.scopes.len(),
                spec_resolve(self@, name) == spec_resolve(
                    self@.subrange(0, i as int),
                    name,
                ),
            decreases i,
        {
            i = i - 1;
            proof {
                assert(self@.subrange(0, (i + 1) as int).drop_last() =~= self@.subrange(
                    0,
                    i as int,
                ));
                assert(self@.subrange(0, (i + 1) as int).last() == self@[i as int]);
                assert(self@[i as int] == self.scopes@[i as int]@);
            }
            let found = Self::find_in_scope(&self.scopes[i].syms, name);
            if found.is_some() {
                return found;
            }
        }
        proof {
            assert(self@.subrange(0, 0) =~= Seq::<ScopeView>::empty());
        }
        None
    }

    /// Shorthand for resolution followed by the undeclared-name error.
    pub fn resolve_or_error(&self, name: u32) -> (r: Result<Symbol, DiagKind>)
        ensures
            r is Ok <==> spec_resolve(self@, name) is Some,
            r is Ok ==> Some(r->Ok_0) == spec_resolve(self@, name),
            r is Err ==> r->Err_0 == DiagKind::NameError,
    {
        match self.resolve(name) {
            Some(s) => Ok(s),
            None => Err(DiagKind::NameError),
        }
    }
}

} // verus!
