//! Worked analyses of small representative programs.
//!
//! Each function drives the checker components exactly as the analysis
//! traversal would on the program fragment its doc comment shows, and its
//! contract pins the outcome: which diagnostics come out, in order, and
//! which types the expressions resolve to. Together they exercise every
//! rule of the move tracker, the borrow checker, the mutability checker,
//! the unifier's ambiguous-type resolution, the constant evaluator and the
//! structural checks.

use vstd::prelude::*;

use crate::borrows::BorrowEnv;
use crate::diag::{DiagKind, Diagnostic, Reporter, Span};
use crate::infer::err_at;
use crate::moves::MoveEnv;
use crate::place::Place;
use crate::constval::ConstValue;
use crate::ty::{IntKind, StructDef, StructTable, Ty};

verus! {

/// Reports the error of a failed check, as the analysis traversal does.
fn note(r: Result<(), DiagKind>, span: Span, rep: &mut Reporter)
    ensures
        match r {
            Ok(()) => final(rep)@ == old(rep)@,
            Err(k) => final(rep)@ == old(rep)@.push(err_at(k, span)),
        },
{
    match r {
        Ok(()) => {},
        Err(k) => rep.error(k, span),
    }
}

/// A place is always a prefix of itself.
proof fn lemma_place_self(p: Place)
    ensures
        crate::place::is_prefix(p@, p@),
        crate::place::overlaps(p@, p@),
{
    assert(p@.projs.subrange(0, p@.projs.len() as int) =~= p@.projs);
}

/// A root binding is a strict prefix of any of its one-step projections.
proof fn lemma_root_child(p: Place, c: Place)
    requires
        c@.root == p@.root,
        p@.projs.len() == 0,
        c@.projs.len() == 1,
    ensures
        crate::place::is_strict_prefix(p@, c@),
        crate::place::overlaps(p@, c@),
        crate::place::overlaps(c@, p@),
{
    assert(p@.projs =~= c@.projs.subrange(0, 0));
}

/// The field table of a two-field struct `Point { x: i32, y: i32 }`, the
/// aggregate several of the fragments use.
fn point_table() -> (t: StructTable)
    ensures
        t@.len() == 1,
        t@[0].len() == 2,
        t@[0][0] == Ty::Int(IntKind::I32),
        t@[0][1] == Ty::Int(IntKind::I32),
{
    let mut fields: Vec<Ty> = Vec::new();
    fields.push(Ty::Int(IntKind::I32));
    fields.push(Ty::Int(IntKind::I32));
    let mut structs: Vec<StructDef> = Vec::new();
    structs.push(StructDef { fields });
    let t = StructTable { structs };
    proof {
        assert(t@[0] =~= t.structs@[0]@);
    }
    t
}

// --- mutability and assignability ---

/// `let x = 5; x = 10;` — assignment to an immutable binding reports a
/// mutability error.
pub fn test_immutable_assignment() -> (diags: Vec<Diagnostic>)
    ensures
        diags@.len() == 1,
        diags@[0].kind == DiagKind::MutabilityError,
        diags@[0].is_error(),
{
    let tbl = StructTable { structs: Vec::new() };
    let mut rep = Reporter::new();
    let x = Place::var(0);
    let r = crate::mutability::check_write(&tbl, false, &Ty::Int(IntKind::I32), &x);
    note(r, Span::at(1, 2), &mut rep);
    rep.into_diagnostics()
}

/// `let mut x = 5; x = 10;` — assignment to a mutable binding is fine.
pub fn test_mutable_assignment() -> (diags: Vec<Diagnostic>)
    ensures
        diags@.len() == 0,
{
    let tbl = StructTable { structs: Vec::new() };
    let mut rep = Reporter::new();
    let x = Place::var(0);
    let r = crate::mutability::check_write(&tbl, true, &Ty::Int(IntKind::I32), &x);
    note(r, Span::at(1, 2), &mut rep);
    rep.into_diagnostics()
}

/// `let x = 5; let y = &mut x;` — an exclusive borrow of a place rooted in
/// an immutable binding fails at borrow creation.
pub fn test_mutable_borrow_of_immutable() -> (diags: Vec<Diagnostic>)
    ensures
        diags@.len() == 1,
        diags@[0].kind == DiagKind::MutabilityError,
{
    let mut rep = Reporter::new();
    let mut env = BorrowEnv::new();
    let x = Place::var(0);
    let r = env.borrow_exclusive(&x, false, 0);
    note(r, Span::at(1, 2), &mut rep);
    rep.into_diagnostics()
}

/// `let x = 5; let y = &x;` — a shared borrow of an immutable binding is
/// fine.
pub fn test_immutable_borrow_of_immutable() -> (diags: Vec<Diagnostic>)
    ensures
        diags@.len() == 0,
{
    let mut rep = Reporter::new();
    let mut env = BorrowEnv::new();
    let x = Place::var(0);
    let r = env.borrow_shared(&x, 0);
    note(r, Span::at(1, 2), &mut rep);
    rep.into_diagnostics()
}

/// `let mut x = 5; let y = &mut x;` — an exclusive borrow of a free,
/// mutable binding succeeds.
pub fn test_mutable_borrow_of_mutable() -> (diags: Vec<Diagnostic>)
    ensures
        diags@.len() == 0,
{
    let mut rep = Reporter::new();
    let mut env = BorrowEnv::new();
    let x = Place::var(0);
    let r = env.borrow_exclusive(&x, true, 0);
    note(r, Span::at(1, 2), &mut rep);
    rep.into_diagnostics()
}

/// `let mut x = 5; let y = &mut x; let z = &mut x;` — the second exclusive
/// borrow conflicts with the first.
pub fn test_multiple_mutable_borrows() -> (diags: Vec<Diagnostic>)
    ensures
        diags@.len() == 1,
        diags@[0].kind == DiagKind::BorrowConflict,
{
    let mut rep = Reporter::new();
    let mut env = BorrowEnv::new();
    let x = Place::var(0);
    let r1 = env.borrow_exclusive(&x, true, 0);
    note(r1, Span::at(1, 2), &mut rep);
    proof {
        lemma_place_self(x);
        assert(env@[0].place == x@);
        assert(crate::borrows::some_borrow_overlaps(env@, x@));
    }
    let r2 = env.borrow_exclusive(&x, true, 0);
    note(r2, Span::at(2, 3), &mut rep);
    rep.into_diagnostics()
}

/// `let mut x = 5; let y = &mut x; let z = &x;` — a shared borrow under an
/// outstanding exclusive borrow conflicts.
pub fn test_immutable_borrow_with_mutable_borrow() -> (diags: Vec<Diagnostic>)
    ensures
        diags@.len() == 1,
        diags@[0].kind == DiagKind::BorrowConflict,
{
    let mut rep = Reporter::new();
    let mut env = BorrowEnv::new();
    let x = Place::var(0);
    let r1 = env.borrow_exclusive(&x, true, 0);
    note(r1, Span::at(1, 2), &mut rep);
    proof {
        lemma_place_self(x);
        assert(env@[0].place == x@ && (env@[0].kind) is Exclusive);
        assert(crate::borrows::exclusive_borrow_overlaps(env@, x@));
    }
    let r2 = env.borrow_shared(&x, 0);
    note(r2, Span::at(2, 3), &mut rep);
    rep.into_diagnostics()
}

/// `let x = 5; let y = &x; let z = &mut x;` — an exclusive borrow under an
/// outstanding shared borrow conflicts.
pub fn test_mutable_borrow_with_immutable_borrow() -> (diags: Vec<Diagnostic>)
    ensures
        diags@.len() == 1,
        diags@[0].kind == DiagKind::BorrowConflict,
{
    let mut rep = Reporter::new();
    let mut env = BorrowEnv::new();
    let x = Place::var(0);
    let r1 = env.borrow_shared(&x, 0);
    note(r1, Span::at(1, 2), &mut rep);
    proof {
        lemma_place_self(x);
        assert(env@[0].place == x@);
        assert(crate::borrows::some_borrow_overlaps(env@, x@));
    }
    let r2 = env.borrow_exclusive(&x, true, 0);
    note(r2, Span::at(2, 3), &mut rep);
    rep.into_diagnostics()
}

/// `let p = Point { .. }; p.x = 10;` — a field of an immutable binding is
/// not assignable.
pub fn test_mutable_field_access_on_immutable() -> (diags: Vec<Diagnostic>)
    ensures
        diags@.len() == 1,
        diags@[0].kind == DiagKind::MutabilityError,
{
    let tbl = point_table();
    let mut rep = Reporter::new();
    let px = Place::var(0).field(0);
    proof {
        reveal_with_fuel(crate::mutability::spec_walk, 3);
        assert(px@.projs.subrange(1, 1) =~= Seq::<crate::place::Proj>::empty());
    }
    let r = crate::mutability::check_write(&tbl, false, &Ty::Struct(0), &px);
    note(r, Span::at(1, 2), &mut rep);
    rep.into_diagnostics()
}

/// `let mut p = Point { .. }; p.x = 10;` — a field of a mutable binding is
/// assignable.
pub fn test_mutable_field_access_on_mutable() -> (diags: Vec<Diagnostic>)
    ensures
        diags@.len() == 0,
{
    let tbl = point_table();
    let mut rep = Reporter::new();
    let px = Place::var(0).field(0);
    proof {
        reveal_with_fuel(crate::mutability::spec_walk, 3);
        assert(px@.projs.subrange(1, 1) =~= Seq::<crate::place::Proj>::empty());
    }
    let r = crate::mutability::check_write(&tbl, true, &Ty::Struct(0), &px);
    note(r, Span::at(1, 2), &mut rep);
    rep.into_diagnostics()
}

/// `fn f(x: i32) { x = 10; }` and, in the same scope, `fn f(mut x: i32) {
/// x = 10; }` — the symbol pass runs first and reports the duplicate
/// function name within one scope; then a parameter is a binding like any
/// other: writing the immutable one is the error, writing the mutable one
/// is fine.
pub fn test_mutable_parameter() -> (diags: Vec<Diagnostic>)
    ensures
        diags@.len() == 2,
        diags@[0].kind == DiagKind::NameError,
        diags@[1].kind == DiagKind::MutabilityError,
{
    let tbl = StructTable { structs: Vec::new() };
    let mut rep = Reporter::new();
    let mut table = crate::scopes::SymbolTable::new();
    let scope = table.enter_scope(crate::scopes::ScopeKind::Item);
    let d1 = table.declare(
        crate::scopes::Symbol {
            name: 0,
            ty: Ty::Fun(0),
            mutable: false,
            kind: crate::scopes::SymKind::Function,
        },
    );
    note(d1, Span::at(0, 1), &mut rep);
    let d2 = table.declare(
        crate::scopes::Symbol {
            name: 0,
            ty: Ty::Fun(1),
            mutable: false,
            kind: crate::scopes::SymKind::Function,
        },
    );
    proof {
        reveal_with_fuel(crate::scopes::find_in, 3);
    }
    note(d2, Span::at(1, 2), &mut rep);
    table.exit_scope(scope);
    let x = Place::var(0);
    let r1 = crate::mutability::check_write(&tbl, false, &Ty::Int(IntKind::I32), &x);
    note(r1, Span::at(2, 3), &mut rep);
    let r2 = crate::mutability::check_write(&tbl, true, &Ty::Int(IntKind::I32), &x);
    note(r2, Span::at(3, 4), &mut rep);
    rep.into_diagnostics()
}

/// `let mut x = 5; { let y = &x; let z = &mut x; }` — the shared borrow
/// taken in the nested block still blocks the exclusive one.
pub fn test_nested_mutability() -> (diags: Vec<Diagnostic>)
    ensures
        diags@.len() == 1,
        diags@[0].kind == DiagKind::BorrowConflict,
{
    let mut rep = Reporter::new();
    let mut env = BorrowEnv::new();
    let x = Place::var(0);
    let r1 = env.borrow_shared(&x, 1);
    note(r1, Span::at(1, 2), &mut rep);
    proof {
        lemma_place_self(x);
        assert(env@[0].place == x@);
        assert(crate::borrows::some_borrow_overlaps(env@, x@));
    }
    let r2 = env.borrow_exclusive(&x, true, 1);
    note(r2, Span::at(2, 3), &mut rep);
    rep.into_diagnostics()
}

/// `let arr = [..]; arr[0] = 10;` — an element of an immutable array is not
/// assignable.
pub fn test_immutable_array_index() -> (diags: Vec<Diagnostic>)
    ensures
        diags@.len() == 1,
        diags@[0].kind == DiagKind::MutabilityError,
{
    let tbl = StructTable { structs: Vec::new() };
    let mut rep = Reporter::new();
    let elem = Place::var(0).index();
    let arr_ty = Ty::Array { elem: Box::new(Ty::Int(IntKind::I32)), len: 5 };
    proof {
        reveal_with_fuel(crate::mutability::spec_walk, 3);
        assert(elem@.projs.subrange(1, 1) =~= Seq::<crate::place::Proj>::empty());
    }
    let r = crate::mutability::check_write(&tbl, false, &arr_ty, &elem);
    note(r, Span::at(1, 2), &mut rep);
    rep.into_diagnostics()
}

/// `let mut arr = [..]; arr[0] = 10;` — an element of a mutable array is
/// assignable.
pub fn test_mutable_array_index() -> (diags: Vec<Diagnostic>)
    ensures
        diags@.len() == 0,
{
    let tbl = StructTable { structs: Vec::new() };
    let mut rep = Reporter::new();
    let elem = Place::var(0).index();
    let arr_ty = Ty::Array { elem: Box::new(Ty::Int(IntKind::I32)), len: 5 };
    proof {
        reveal_with_fuel(crate::mutability::spec_walk, 3);
        assert(elem@.projs.subrange(1, 1) =~= Seq::<crate::place::Proj>::empty());
    }
    let r = crate::mutability::check_write(&tbl, true, &arr_ty, &elem);
    note(r, Span::at(1, 2), &mut rep);
    rep.into_diagnostics()
}

/// `let x = 5; let y = &x; let z = *y;` — reading through a shared
/// reference is always fine.
pub fn test_immutable_dereference() -> (diags: Vec<Diagnostic>)
    ensures
        diags@.len() == 0,
{
    let mut rep = Reporter::new();
    let moves = MoveEnv::new();
    let deref = Place::var(1).deref();
    let r = moves.read(&deref);
    note(r, Span::at(2, 3), &mut rep);
    rep.into_diagnostics()
}

/// `let mut x = 5; let y = &mut x; *y = 10;` — writing through a mutable
/// reference rooted in the mutable binding it borrows is fine.
pub fn test_mutable_dereference() -> (diags: Vec<Diagnostic>)
    ensures
        diags@.len() == 0,
{
    let tbl = StructTable { structs: Vec::new() };
    let mut rep = Reporter::new();
    let target = Place::var(1).deref();
    let ref_ty = Ty::Ref { to: Box::new(Ty::Int(IntKind::I32)), mutable: true };
    proof {
        reveal_with_fuel(crate::mutability::spec_walk, 3);
        assert(target@.projs.subrange(1, 1) =~= Seq::<crate::place::Proj>::empty());
    }
    let r = crate::mutability::check_write(&tbl, true, &ref_ty, &target);
    note(r, Span::at(2, 3), &mut rep);
    rep.into_diagnostics()
}

/// `let (x, mut y) = (5, 10); x = 15; y = 20;` — pattern bindings carry
/// their own mutability: the write to `x` errors, the write to `y` is fine.
pub fn test_pattern_matching() -> (diags: Vec<Diagnostic>)
    ensures
        diags@.len() == 1,
        diags@[0].kind == DiagKind::MutabilityError,
{
    let tbl = StructTable { structs: Vec::new() };
    let mut rep = Reporter::new();
    let x = Place::var(0);
    let y = Place::var(1);
    let r1 = crate::mutability::check_write(&tbl, false, &Ty::Int(IntKind::I32), &x);
    note(r1, Span::at(1, 2), &mut rep);
    let r2 = crate::mutability::check_write(&tbl, true, &Ty::Int(IntKind::I32), &y);
    note(r2, Span::at(2, 3), &mut rep);
    rep.into_diagnostics()
}

/// `let &(ref y, ref mut z) = &(a, b);` — a reference pattern takes one
/// shared and one exclusive borrow of two distinct places; neither
/// conflicts.
pub fn test_reference_pattern_matching() -> (diags: Vec<Diagnostic>)
    ensures
        diags@.len() == 0,
{
    let mut rep = Reporter::new();
    let mut env = BorrowEnv::new();
    let a = Place::var(0);
    let b = Place::var(1);
    let r1 = env.borrow_shared(&a, 0);
    note(r1, Span::at(1, 2), &mut rep);
    let r2 = env.borrow_exclusive(&b, true, 0);
    note(r2, Span::at(1, 2), &mut rep);
    rep.into_diagnostics()
}

// --- ownership, moves, and prefix conflicts ---

/// `let p = Point { .. }; let p2 = p; let a = &p2.x; let b = &p.x;` — after
/// the whole struct moves, its own fields are gone (`&p.x` is a move
/// error), while the destination's fields are freely borrowable.
pub fn test_parent_moved_child_cannot_borrow() -> (diags: Vec<Diagnostic>)
    ensures
        diags@.len() == 1,
        diags@[0].kind == DiagKind::MoveError,
{
    let mut rep = Reporter::new();
    let borrows = BorrowEnv::new();
    let mut moves = MoveEnv::new();
    let p = Place::var(0);
    let r1 = moves.move_out(&p, &borrows);
    note(r1, Span::at(1, 2), &mut rep);
    let mut env = BorrowEnv::new();
    let p2x = Place::var(1).field(0);
    let r2 = env.borrow_shared(&p2x, 0);
    note(r2, Span::at(2, 3), &mut rep);
    let px = p.field(0);
    proof {
        lemma_root_child(p, px);
        assert(moves@[0] == p@);
        assert(crate::moves::read_denied(moves@, px@));
    }
    let r3 = moves.read(&px);
    note(r3, Span::at(3, 4), &mut rep);
    rep.into_diagnostics()
}

/// `let p_ref = &p; let m = &mut p.x; let a = &p.x;` — under a shared
/// borrow of the whole struct, a field cannot be exclusively borrowed, but
/// may still be shared.
pub fn test_parent_immutable_borrow_child_mutable_borrow() -> (diags: Vec<Diagnostic>)
    ensures
        diags@.len() == 1,
        diags@[0].kind == DiagKind::BorrowConflict,
{
    let mut rep = Reporter::new();
    let mut env = BorrowEnv::new();
    let p = Place::var(0);
    let px = p.field(0);
    let r1 = env.borrow_shared(&p, 0);
    note(r1, Span::at(1, 2), &mut rep);
    proof {
        lemma_root_child(p, px);
        assert(env@[0].place == p@);
        assert(crate::borrows::some_borrow_overlaps(env@, px@));
    }
    let r2 = env.borrow_exclusive(&px, true, 0);
    note(r2, Span::at(2, 3), &mut rep);
    let r3 = env.borrow_shared(&px, 0);
    note(r3, Span::at(3, 4), &mut rep);
    rep.into_diagnostics()
}

/// `let m = &mut p; let a = &p.x; let b = &mut p.x;` — under an exclusive
/// borrow of the whole struct, neither kind of field borrow is allowed.
pub fn test_parent_mutable_borrow_child_any_borrow() -> (diags: Vec<Diagnostic>)
    ensures
        diags@.len() == 2,
        diags@[0].kind == DiagKind::BorrowConflict,
        diags@[1].kind == DiagKind::BorrowConflict,
{
    let mut rep = Reporter::new();
    let mut env = BorrowEnv::new();
    let p = Place::var(0);
    let px = p.field(0);
    let r1 = env.borrow_exclusive(&p, true, 0);
    note(r1, Span::at(1, 2), &mut rep);
    proof {
        lemma_root_child(p, px);
        assert(env@[0].place == p@ && (env@[0].kind) is Exclusive);
        assert(crate::borrows::exclusive_borrow_overlaps(env@, px@));
        assert(crate::borrows::some_borrow_overlaps(env@, px@));
    }
    let r2 = env.borrow_shared(&px, 0);
    note(r2, Span::at(2, 3), &mut rep);
    let r3 = env.borrow_exclusive(&px, true, 0);
    note(r3, Span::at(3, 4), &mut rep);
    rep.into_diagnostics()
}

/// `let m = &mut arr; let first = &arr[0];` — the whole-array/element
/// relation is a prefix conflict, whatever the index value.
pub fn test_index_access_parent_borrow() -> (diags: Vec<Diagnostic>)
    ensures
        diags@.len() == 1,
        diags@[0].kind == DiagKind::BorrowConflict,
{
    let mut rep = Reporter::new();
    let mut env = BorrowEnv::new();
    let arr = Place::var(0);
    let elem = arr.index();
    let r1 = env.borrow_exclusive(&arr, true, 0);
    note(r1, Span::at(1, 2), &mut rep);
    proof {
        lemma_root_child(arr, elem);
        assert(env@[0].place == arr@ && (env@[0].kind) is Exclusive);
        assert(crate::borrows::exclusive_borrow_overlaps(env@, elem@));
    }
    let r2 = env.borrow_shared(&elem, 0);
    note(r2, Span::at(2, 3), &mut rep);
    rep.into_diagnostics()
}

/// `let m = &mut ptr; let a = &*ptr; let b = &mut *ptr;` — a dereference is
/// a place below the pointer binding, so an exclusive borrow of the pointer
/// blocks both.
pub fn test_deref_access_parent_borrow() -> (diags: Vec<Diagnostic>)
    ensures
        diags@.len() == 2,
        diags@[0].kind == DiagKind::BorrowConflict,
        diags@[1].kind == DiagKind::BorrowConflict,
{
    let mut rep = Reporter::new();
    let mut env = BorrowEnv::new();
    let ptr = Place::var(0);
    let target = ptr.deref();
    let r1 = env.borrow_exclusive(&ptr, true, 0);
    note(r1, Span::at(1, 2), &mut rep);
    proof {
        lemma_root_child(ptr, target);
        assert(env@[0].place == ptr@ && (env@[0].kind) is Exclusive);
        assert(crate::borrows::exclusive_borrow_overlaps(env@, target@));
        assert(crate::borrows::some_borrow_overlaps(env@, target@));
    }
    let r2 = env.borrow_shared(&target, 0);
    note(r2, Span::at(2, 3), &mut rep);
    let r3 = env.borrow_exclusive(&target, true, 0);
    note(r3, Span::at(3, 4), &mut rep);
    rep.into_diagnostics()
}

/// `let a = &arr; let m = &mut arr[0]; let b = &arr[0];` — a shared borrow
/// of the whole array blocks an exclusive borrow of an element but not
/// another shared one.
pub fn test_index_access_immutable_parent_mutable_child() -> (diags: Vec<Diagnostic>)
    ensures
        diags@.len() == 1,
        diags@[0].kind == DiagKind::BorrowConflict,
{
    let mut rep = Reporter::new();
    let mut env = BorrowEnv::new();
    let arr = Place::var(0);
    let elem = arr.index();
    let r1 = env.borrow_shared(&arr, 0);
    note(r1, Span::at(1, 2), &mut rep);
    proof {
        lemma_root_child(arr, elem);
        assert(env@[0].place == arr@);
        assert(crate::borrows::some_borrow_overlaps(env@, elem@));
    }
    let r2 = env.borrow_exclusive(&elem, true, 0);
    note(r2, Span::at(2, 3), &mut rep);
    let r3 = env.borrow_shared(&elem, 0);
    note(r3, Span::at(3, 4), &mut rep);
    rep.into_diagnostics()
}

/// `let x = 5; let y = &x; let z = &x;` — shared borrows stack freely.
pub fn test_immutable_borrow() -> (diags: Vec<Diagnostic>)
    ensures
        diags@.len() == 0,
{
    let mut rep = Reporter::new();
    let mut env = BorrowEnv::new();
    let x = Place::var(0);
    let r1 = env.borrow_shared(&x, 0);
    note(r1, Span::at(1, 2), &mut rep);
    let r2 = env.borrow_shared(&x, 0);
    note(r2, Span::at(2, 3), &mut rep);
    rep.into_diagnostics()
}

/// `let mut x = 5; let y = &mut x; *y = 10;` — one exclusive borrow, then a
/// write through it.
pub fn test_mutable_borrow() -> (diags: Vec<Diagnostic>)
    ensures
        diags@.len() == 0,
{
    let tbl = StructTable { structs: Vec::new() };
    let mut rep = Reporter::new();
    let mut env = BorrowEnv::new();
    let x = Place::var(0);
    let r1 = env.borrow_exclusive(&x, true, 0);
    note(r1, Span::at(1, 2), &mut rep);
    let target = Place::var(1).deref();
    let ref_ty = Ty::Ref { to: Box::new(Ty::Int(IntKind::I32)), mutable: true };
    proof {
        reveal_with_fuel(crate::mutability::spec_walk, 3);
        assert(target@.projs.subrange(1, 1) =~= Seq::<crate::place::Proj>::empty());
    }
    let r2 = crate::mutability::check_write(&tbl, true, &ref_ty, &target);
    note(r2, Span::at(2, 3), &mut rep);
    rep.into_diagnostics()
}

/// `let x = String; let y = x; let z = &x;` — borrowing a moved value is a
/// move error.
pub fn test_borrow_after_move() -> (diags: Vec<Diagnostic>)
    ensures
        diags@.len() == 1,
        diags@[0].kind == DiagKind::MoveError,
{
    let mut rep = Reporter::new();
    let borrows = BorrowEnv::new();
    let mut moves = MoveEnv::new();
    let x = Place::var(0);
    let r1 = moves.move_out(&x, &borrows);
    note(r1, Span::at(1, 2), &mut rep);
    proof {
        lemma_place_self(x);
        assert(moves@[0] == x@);
        assert(crate::moves::read_denied(moves@, x@));
    }
    let r2 = moves.read(&x);
    note(r2, Span::at(2, 3), &mut rep);
    rep.into_diagnostics()
}

/// `let a = &p.x; let b = &mut p.y;` — sibling fields never conflict: a
/// shared borrow of one leaves the other exclusively borrowable.
pub fn test_field_borrow() -> (diags: Vec<Diagnostic>)
    ensures
        diags@.len() == 0,
{
    let mut rep = Reporter::new();
    let mut env = BorrowEnv::new();
    let p = Place::var(0);
    let px = p.field(0);
    let py = p.field(1);
    let r1 = env.borrow_shared(&px, 0);
    note(r1, Span::at(1, 2), &mut rep);
    proof {
        crate::place::lemma_diverging_paths_unrelated(px@, py@, 0);
        assert(env@[0].place == px@);
    }
    let r2 = env.borrow_exclusive(&py, true, 0);
    note(r2, Span::at(2, 3), &mut rep);
    rep.into_diagnostics()
}

/// `let m = &mut p.y; *m = 3; let a = &p.x;` — the exclusive borrow of one
/// field does not block a shared borrow of its sibling.
pub fn test_mutable_field_borrow() -> (diags: Vec<Diagnostic>)
    ensures
        diags@.len() == 0,
{
    let mut rep = Reporter::new();
    let mut env = BorrowEnv::new();
    let p = Place::var(0);
    let px = p.field(0);
    let py = p.field(1);
    let r1 = env.borrow_exclusive(&py, true, 0);
    note(r1, Span::at(1, 2), &mut rep);
    proof {
        crate::place::lemma_diverging_paths_unrelated(py@, px@, 0);
        assert(env@[0].place == py@);
    }
    let r2 = env.borrow_shared(&px, 0);
    note(r2, Span::at(2, 3), &mut rep);
    rep.into_diagnostics()
}

/// `let first = &arr[0]; let second = &mut arr[1];` — every index
/// projection names the same element place, so the exclusive borrow
/// conflicts with the outstanding shared one.
pub fn test_index_borrow() -> (diags: Vec<Diagnostic>)
    ensures
        diags@.len() == 1,
        diags@[0].kind == DiagKind::BorrowConflict,
{
    let mut rep = Reporter::new();
    let mut env = BorrowEnv::new();
    let elem = Place::var(0).index();
    let r1 = env.borrow_shared(&elem, 0);
    note(r1, Span::at(1, 2), &mut rep);
    proof {
        lemma_place_self(elem);
        assert(env@[0].place == elem@);
        assert(crate::borrows::some_borrow_overlaps(env@, elem@));
    }
    let r2 = env.borrow_exclusive(&elem, true, 0);
    note(r2, Span::at(2, 3), &mut rep);
    rep.into_diagnostics()
}

/// `let m = &mut arr[0]; *m = 10; let second = &arr[1];` — the outstanding
/// exclusive element borrow blocks the shared one.
pub fn test_mutable_index_borrow() -> (diags: Vec<Diagnostic>)
    ensures
        diags@.len() == 1,
        diags@[0].kind == DiagKind::BorrowConflict,
{
    let mut rep = Reporter::new();
    let mut env = BorrowEnv::new();
    let elem = Place::var(0).index();
    let r1 = env.borrow_exclusive(&elem, true, 0);
    note(r1, Span::at(1, 2), &mut rep);
    proof {
        lemma_place_self(elem);
        assert(env@[0].place == elem@ && (env@[0].kind) is Exclusive);
        assert(crate::borrows::exclusive_borrow_overlaps(env@, elem@));
    }
    let r2 = env.borrow_shared(&elem, 0);
    note(r2, Span::at(2, 3), &mut rep);
    rep.into_diagnostics()
}

/// `let r = &x; let dr = &*r;` — re-borrowing through a shared reference is
/// fine.
pub fn test_deref_borrow() -> (diags: Vec<Diagnostic>)
    ensures
        diags@.len() == 0,
{
    let mut rep = Reporter::new();
    let mut env = BorrowEnv::new();
    let x = Place::var(0);
    let r1 = env.borrow_shared(&x, 0);
    note(r1, Span::at(1, 2), &mut rep);
    let target = Place::var(1).deref();
    proof {
        crate::place::lemma_different_roots_unrelated(x@, target@);
        assert(env@[0].place == x@);
    }
    let r2 = env.borrow_shared(&target, 0);
    note(r2, Span::at(2, 3), &mut rep);
    rep.into_diagnostics()
}

/// `let x = 5;` then, in the same block, `let mut x = 5; let y = &mut x;
/// *y = 10;` — the symbol pass reports the same-scope duplicate first
/// (shadowing is legal only across nested scopes), and the borrow pass
/// reports the exclusive borrow of the immutable first binding; the later
/// exclusive borrow and write through the `mut` binding are legal.
pub fn test_mutable_variable_requirement() -> (diags: Vec<Diagnostic>)
    ensures
        diags@.len() == 2,
        diags@[0].kind == DiagKind::NameError,
        diags@[1].kind == DiagKind::MutabilityError,
{
    let mut rep = Reporter::new();
    let mut table = crate::scopes::SymbolTable::new();
    let scope = table.enter_scope(crate::scopes::ScopeKind::Block);
    let d1 = table.declare(
        crate::scopes::Symbol {
            name: 0,
            ty: Ty::Int(IntKind::I32),
            mutable: false,
            kind: crate::scopes::SymKind::Variable,
        },
    );
    note(d1, Span::at(0, 1), &mut rep);
    let d2 = table.declare(
        crate::scopes::Symbol {
            name: 0,
            ty: Ty::Int(IntKind::I32),
            mutable: true,
            kind: crate::scopes::SymKind::Variable,
        },
    );
    proof {
        reveal_with_fuel(crate::scopes::find_in, 3);
    }
    note(d2, Span::at(1, 2), &mut rep);
    table.exit_scope(scope);
    let mut env = BorrowEnv::new();
    let x = Place::var(0);
    let r1 = env.borrow_exclusive(&x, false, 0);
    note(r1, Span::at(2, 3), &mut rep);
    let x2 = Place::var(1);
    let r2 = env.borrow_exclusive(&x2, true, 0);
    note(r2, Span::at(3, 4), &mut rep);
    rep.into_diagnostics()
}

// --- ambiguous block types and their resolution ---

/// `let result = if true { if true { 42 } } else { 0 }; let x: i32 =
/// result;` — the inner else-less `if` contributes the candidates `{i32,
/// unit}`, and the candidates are merged pairwise against the binding's
/// `i32` annotation: the implicit unit candidate does not unify with
/// `i32`, so a type mismatch is reported and the type falls back.
pub fn test_ambiguous_block_in_if() -> (r: (Ty, Vec<Diagnostic>))
    ensures
        r.0 == Ty::Unresolved,
        r.1@.len() == 1,
        r.1@[0].kind == DiagKind::TypeMismatch,
{
    let mut rep = Reporter::new();
    let inner = Ty::Ambiguous {
        first: Box::new(Ty::Int(IntKind::I32)),
        second: Box::new(Ty::Unit),
    };
    let outer = Ty::Ambiguous {
        first: Box::new(inner),
        second: Box::new(Ty::Int(IntKind::I32)),
    };
    proof {
        reveal_with_fuel(crate::ty::spec_unify, 8);
    }
    let t = match crate::ty::resolve_expected(&outer, &Ty::Int(IntKind::I32)) {
        Ok(t) => t,
        Err(k) => {
            rep.error(k, Span::at(1, 2));
            Ty::Unresolved
        },
    };
    (t, rep.into_diagnostics())
}

/// `let result = loop { if true { break 42; } }; let x: i32 = result;` —
/// one value-carrying break types the loop `i32`.
pub fn test_ambiguous_block_in_loop() -> (r: (Ty, Vec<Diagnostic>))
    ensures
        r.0 == Ty::Int(IntKind::I32),
        r.1@.len() == 0,
{
    let mut rep = Reporter::new();
    let mut breaks: Vec<Ty> = Vec::new();
    breaks.push(Ty::Int(IntKind::I32));
    proof {
        reveal_with_fuel(crate::ty::spec_loop_type, 3);
        reveal_with_fuel(crate::ty::spec_unify, 4);
    }
    let lt = match crate::ty::loop_type(&breaks) {
        Ok(t) => t,
        Err(k) => {
            rep.error(k, Span::at(1, 2));
            Ty::Unresolved
        },
    };
    let t = match crate::ty::resolve_expected(&lt, &Ty::Int(IntKind::I32)) {
        Ok(t) => t,
        Err(k) => {
            rep.error(k, Span::at(2, 3));
            Ty::Unresolved
        },
    };
    (t, rep.into_diagnostics())
}

/// `let result = if true { if true { 42 } } else { if false { 24 } };
/// let x: i32 = result;` — the two else-less branches merge candidate-wise
/// into one ambiguous set that still carries their implicit unit
/// candidates, so the `i32` annotation cannot settle it: the mismatch is
/// reported once, at resolution.
pub fn test_ambiguous_block_type_merging() -> (r: (Ty, Vec<Diagnostic>))
    ensures
        r.0 == Ty::Unresolved,
        r.1@.len() == 1,
        r.1@[0].kind == DiagKind::TypeMismatch,
{
    let mut rep = Reporter::new();
    let then_branch = Ty::Ambiguous {
        first: Box::new(Ty::Int(IntKind::I32)),
        second: Box::new(Ty::Unit),
    };
    let else_branch = Ty::Ambiguous {
        first: Box::new(Ty::Int(IntKind::I32)),
        second: Box::new(Ty::Unit),
    };
    let outer = Ty::Ambiguous {
        first: Box::new(then_branch),
        second: Box::new(else_branch),
    };
    proof {
        reveal_with_fuel(crate::ty::spec_unify, 8);
    }
    let t = match crate::ty::resolve_expected(&outer, &Ty::Int(IntKind::I32)) {
        Ok(t) => t,
        Err(k) => {
            rep.error(k, Span::at(1, 2));
            Ty::Unresolved
        },
    };
    (t, rep.into_diagnostics())
}

/// `let result = if true { if true { () } }; let x: () = result;` — the
/// candidate set collapses to unit.
pub fn test_ambiguous_block_with_unit() -> (r: (Ty, Vec<Diagnostic>))
    ensures
        r.0 == Ty::Unit,
        r.1@.len() == 0,
{
    let mut rep = Reporter::new();
    let inner = Ty::Ambiguous { first: Box::new(Ty::Unit), second: Box::new(Ty::Unit) };
    let outer = Ty::Ambiguous { first: Box::new(inner), second: Box::new(Ty::Unit) };
    proof {
        reveal_with_fuel(crate::ty::spec_unify, 8);
    }
    let t = match crate::ty::resolve_expected(&outer, &Ty::Unit) {
        Ok(t) => t,
        Err(k) => {
            rep.error(k, Span::at(1, 2));
            Ty::Unresolved
        },
    };
    (t, rep.into_diagnostics())
}

/// `fn get_value() -> i32 { if true { 42 } }` — the declared return type is
/// the context propagated into the tail expression's ambiguous set; the
/// missing else contributes a unit candidate that does not unify with
/// `i32`, so the resolution reports a type mismatch.
pub fn test_ambiguous_block_in_function_return() -> (r: (Ty, Vec<Diagnostic>))
    ensures
        r.0 == Ty::Unresolved,
        r.1@.len() == 1,
        r.1@[0].kind == DiagKind::TypeMismatch,
{
    let mut rep = Reporter::new();
    let body = Ty::Ambiguous {
        first: Box::new(Ty::Int(IntKind::I32)),
        second: Box::new(Ty::Unit),
    };
    proof {
        reveal_with_fuel(crate::ty::spec_unify, 6);
    }
    let t = match crate::ty::resolve_expected(&body, &Ty::Int(IntKind::I32)) {
        Ok(t) => t,
        Err(k) => {
            rep.error(k, Span::at(1, 2));
            Ty::Unresolved
        },
    };
    (t, rep.into_diagnostics())
}

/// `TestStruct { value: if true { 42 } }` — the declared field type is the
/// resolving context, exactly like a binding annotation; the else-less
/// initializer's unit candidate fails against the `i32` field, so the
/// mismatch is reported.
pub fn test_ambiguous_block_in_struct_field() -> (r: (Ty, Vec<Diagnostic>))
    ensures
        r.0 == Ty::Unresolved,
        r.1@.len() == 1,
        r.1@[0].kind == DiagKind::TypeMismatch,
{
    let mut rep = Reporter::new();
    let tbl = point_table();
    let init = Ty::Ambiguous {
        first: Box::new(Ty::Int(IntKind::I32)),
        second: Box::new(Ty::Unit),
    };
    let field_ty = &tbl.structs[0].fields[0];
    proof {
        assert(tbl@[0] =~= tbl.structs@[0]@);
        reveal_with_fuel(crate::ty::spec_unify, 6);
    }
    let t = match crate::ty::resolve_expected(&init, field_ty) {
        Ok(t) => t,
        Err(k) => {
            rep.error(k, Span::at(1, 2));
            Ty::Unresolved
        },
    };
    (t, rep.into_diagnostics())
}

/// `if true { if true { if false { 42 } else { 24 } } } else { 0 }` with a
/// `let x: i32` context — the innermost if-else agrees on `i32`, but the
/// middle `if` has no else and so carries a unit candidate; the pairwise
/// merge against `i32` therefore fails, once.
pub fn test_nested_ambiguous_blocks() -> (r: (Ty, Vec<Diagnostic>))
    ensures
        r.0 == Ty::Unresolved,
        r.1@.len() == 1,
        r.1@[0].kind == DiagKind::TypeMismatch,
{
    let mut rep = Reporter::new();
    let innermost = Ty::Ambiguous {
        first: Box::new(Ty::Int(IntKind::I32)),
        second: Box::new(Ty::Int(IntKind::I32)),
    };
    let middle = Ty::Ambiguous { first: Box::new(innermost), second: Box::new(Ty::Unit) };
    let outer = Ty::Ambiguous {
        first: Box::new(middle),
        second: Box::new(Ty::Int(IntKind::I32)),
    };
    proof {
        reveal_with_fuel(crate::ty::spec_unify, 10);
    }
    let t = match crate::ty::resolve_expected(&outer, &Ty::Int(IntKind::I32)) {
        Ok(t) => t,
        Err(k) => {
            rep.error(k, Span::at(1, 2));
            Ty::Unresolved
        },
    };
    (t, rep.into_diagnostics())
}

// --- return, break, and function return types ---

/// `fn f() -> i32 { let x: i32 = if c { return 1 } else { return 2 }; 3 }`
/// — both branches diverge, `never` is absorbed by the annotation, and the
/// tail literal satisfies the return type.
pub fn test_if_return() -> (r: (Ty, Vec<Diagnostic>))
    ensures
        r.0 == Ty::Int(IntKind::I32),
        r.1@.len() == 0,
{
    let mut rep = Reporter::new();
    let branches = Ty::Ambiguous {
        first: Box::new(Ty::Never),
        second: Box::new(Ty::Never),
    };
    proof {
        reveal_with_fuel(crate::ty::spec_unify, 6);
    }
    let x_ty = match crate::ty::resolve_expected(&branches, &Ty::Int(IntKind::I32)) {
        Ok(t) => t,
        Err(k) => {
            rep.error(k, Span::at(1, 2));
            Ty::Unresolved
        },
    };
    proof {
        assert(x_ty == Ty::Int(IntKind::I32));
    }
    let t = crate::infer::check_fn_return(
        &Ty::Int(IntKind::I32),
        &Ty::Int(IntKind::I32),
        Span::at(2, 3),
        &mut rep,
    );
    (t, rep.into_diagnostics())
}

/// `fn f() -> i32 { return 42; }` — a body that always diverges satisfies
/// any return type.
pub fn test_return_value() -> (r: (Ty, Vec<Diagnostic>))
    ensures
        r.0 == Ty::Int(IntKind::I32),
        r.1@.len() == 0,
{
    let mut rep = Reporter::new();
    let t = crate::infer::check_fn_return(
        &Ty::Int(IntKind::I32),
        &Ty::Never,
        Span::at(1, 2),
        &mut rep,
    );
    (t, rep.into_diagnostics())
}

/// `fn f() { return; }` — the same, against the implicit unit return type.
pub fn test_return_unit() -> (r: (Ty, Vec<Diagnostic>))
    ensures
        r.0 == Ty::Unit,
        r.1@.len() == 0,
{
    let mut rep = Reporter::new();
    let t = crate::infer::check_fn_return(&Ty::Unit, &Ty::Never, Span::at(1, 2), &mut rep);
    (t, rep.into_diagnostics())
}

/// `fn f() -> i32 { let result = loop { if c { break 42; } }; result }` —
/// the break value types the loop and the binding.
pub fn test_loop_break() -> (r: (Ty, Vec<Diagnostic>))
    ensures
        r.0 == Ty::Int(IntKind::I32),
        r.1@.len() == 0,
{
    let mut rep = Reporter::new();
    let mut breaks: Vec<Ty> = Vec::new();
    breaks.push(Ty::Int(IntKind::I32));
    proof {
        reveal_with_fuel(crate::ty::spec_loop_type, 3);
        reveal_with_fuel(crate::ty::spec_unify, 4);
    }
    let lt = match crate::ty::loop_type(&breaks) {
        Ok(t) => t,
        Err(k) => {
            rep.error(k, Span::at(1, 2));
            Ty::Unresolved
        },
    };
    let t = crate::infer::check_fn_return(
        &Ty::Int(IntKind::I32),
        &lt,
        Span::at(2, 3),
        &mut rep,
    );
    (t, rep.into_diagnostics())
}

/// `loop { if c { break; } }` — a bare break carries unit, and the loop in
/// statement position resolves to unit.
pub fn test_loop_break_unit() -> (r: (Ty, Vec<Diagnostic>))
    ensures
        r.0 == Ty::Unit,
        r.1@.len() == 0,
{
    let mut rep = Reporter::new();
    let mut breaks: Vec<Ty> = Vec::new();
    breaks.push(Ty::Unit);
    proof {
        reveal_with_fuel(crate::ty::spec_loop_type, 3);
        reveal_with_fuel(crate::ty::spec_unify, 4);
    }
    let lt = match crate::ty::loop_type(&breaks) {
        Ok(t) => t,
        Err(k) => {
            rep.error(k, Span::at(1, 2));
            Ty::Unresolved
        },
    };
    let t = crate::ty::resolve_discarded(lt);
    (t, rep.into_diagnostics())
}

/// `fn f() -> i32 { if a { if b { return 1 } else { return 2 } } else {
/// return 3 } }` — every path diverges; the nested candidate set is all
/// `never` and the declared type absorbs it.
pub fn test_nested_if_return() -> (r: (Ty, Vec<Diagnostic>))
    ensures
        r.0 == Ty::Int(IntKind::I32),
        r.1@.len() == 0,
{
    let mut rep = Reporter::new();
    let inner = Ty::Ambiguous { first: Box::new(Ty::Never), second: Box::new(Ty::Never) };
    let outer = Ty::Ambiguous { first: Box::new(inner), second: Box::new(Ty::Never) };
    proof {
        reveal_with_fuel(crate::ty::spec_unify, 8);
    }
    let t = crate::infer::check_fn_return(
        &Ty::Int(IntKind::I32),
        &outer,
        Span::at(1, 2),
        &mut rep,
    );
    (t, rep.into_diagnostics())
}

/// `fn f() -> i32 { let x: i32 = if c { 1 } else { 2 }; x }` — both
/// branches agree, the set collapses, and the tail satisfies the return
/// type.
pub fn test_if_no_return() -> (r: (Ty, Vec<Diagnostic>))
    ensures
        r.0 == Ty::Int(IntKind::I32),
        r.1@.len() == 0,
{
    let mut rep = Reporter::new();
    let branches = Ty::Ambiguous {
        first: Box::new(Ty::Int(IntKind::I32)),
        second: Box::new(Ty::Int(IntKind::I32)),
    };
    proof {
        reveal_with_fuel(crate::ty::spec_unify, 6);
    }
    let x_ty = match crate::ty::resolve_expected(&branches, &Ty::Int(IntKind::I32)) {
        Ok(t) => t,
        Err(k) => {
            rep.error(k, Span::at(1, 2));
            Ty::Unresolved
        },
    };
    let t = crate::infer::check_fn_return(
        &Ty::Int(IntKind::I32),
        &x_ty,
        Span::at(2, 3),
        &mut rep,
    );
    (t, rep.into_diagnostics())
}

/// `fn f() -> i32 { 42 }` — the tail type matches the declared return type
/// and nothing is reported.
pub fn test_valid_function() -> (r: (Ty, Vec<Diagnostic>))
    ensures
        r.0 == Ty::Int(IntKind::I32),
        r.1@.len() == 0,
{
    let mut rep = Reporter::new();
    let t = crate::infer::check_fn_return(
        &Ty::Int(IntKind::I32),
        &Ty::Int(IntKind::I32),
        Span::at(1, 2),
        &mut rep,
    );
    (t, rep.into_diagnostics())
}

/// `fn f() -> i32 { true }` — the boolean body against the `i32` return
/// type is a structural error.
pub fn test_invalid_function() -> (diags: Vec<Diagnostic>)
    ensures
        diags@.len() == 1,
        diags@[0].kind == DiagKind::StructuralError,
{
    let mut rep = Reporter::new();
    let _ = crate::infer::check_fn_return(
        &Ty::Int(IntKind::I32),
        &Ty::Bool,
        Span::at(1, 2),
        &mut rep,
    );
    rep.into_diagnostics()
}

/// `fn f() { let x = 5; }` — no declared return type means unit, and the
/// statement-only body is unit.
pub fn test_unit_function() -> (r: (Ty, Vec<Diagnostic>))
    ensures
        r.0 == Ty::Unit,
        r.1@.len() == 0,
{
    let mut rep = Reporter::new();
    let t = crate::infer::check_fn_return(&Ty::Unit, &Ty::Unit, Span::at(1, 2), &mut rep);
    (t, rep.into_diagnostics())
}

/// `fn f() { 42 }` — an `i32` tail in a function with no declared return
/// type is a structural error.
pub fn test_implicit_return_mismatch() -> (diags: Vec<Diagnostic>)
    ensures
        diags@.len() == 1,
        diags@[0].kind == DiagKind::StructuralError,
{
    let mut rep = Reporter::new();
    let _ = crate::infer::check_fn_return(
        &Ty::Unit,
        &Ty::Int(IntKind::I32),
        Span::at(1, 2),
        &mut rep,
    );
    rep.into_diagnostics()
}

// --- the terminal-call position rule ---

/// `fn f() { exit(0) }` — a terminal call in tail position is the last
/// statement; nothing is reported.
pub fn main_return() -> (diags: Vec<Diagnostic>)
    ensures
        diags@.len() == 0,
{
    let mut rep = Reporter::new();
    let mut flags: Vec<bool> = Vec::new();
    flags.push(true);
    proof {
        reveal_with_fuel(crate::infer::count_true, 2);
    }
    crate::infer::check_terminal_positions(&flags, Span::at(1, 2), &mut rep);
    rep.into_diagnostics()
}

/// `fn other_function() { exit(1); }` — the rule is per function, so a
/// terminal call ending any function is fine.
pub fn other_function() -> (diags: Vec<Diagnostic>)
    ensures
        diags@.len() == 0,
{
    let mut rep = Reporter::new();
    let mut flags: Vec<bool> = Vec::new();
    flags.push(true);
    proof {
        reveal_with_fuel(crate::infer::count_true, 2);
    }
    crate::infer::check_terminal_positions(&flags, Span::at(1, 2), &mut rep);
    rep.into_diagnostics()
}

/// `fn main_ok() { other_function(); }` — an ordinary call is no terminal
/// call; nothing is reported.
pub fn main_ok() -> (diags: Vec<Diagnostic>)
    ensures
        diags@.len() == 0,
{
    let mut rep = Reporter::new();
    let mut flags: Vec<bool> = Vec::new();
    flags.push(false);
    proof {
        reveal_with_fuel(crate::infer::count_true, 2);
    }
    crate::infer::check_terminal_positions(&flags, Span::at(1, 2), &mut rep);
    rep.into_diagnostics()
}

/// `fn main_bad() { exit(0); println(..); }` — a terminal call followed by
/// another statement is a structural error.
pub fn main_bad() -> (diags: Vec<Diagnostic>)
    ensures
        diags@.len() == 1,
        diags@[0].kind == DiagKind::StructuralError,
{
    let mut rep = Reporter::new();
    let mut flags: Vec<bool> = Vec::new();
    flags.push(true);
    flags.push(false);
    proof {
        reveal_with_fuel(crate::infer::count_true, 3);
        assert(flags@.drop_last() =~= seq![true]);
        assert(seq![true].drop_last() =~= Seq::<bool>::empty());
    }
    crate::infer::check_terminal_positions(&flags, Span::at(1, 2), &mut rep);
    rep.into_diagnostics()
}

// --- methods of the aggregate fragments ---

/// The field table of the one-field struct `Counter { value: i32 }`.
fn counter_table() -> (t: StructTable)
    ensures
        t@.len() == 1,
        t@[0].len() == 1,
        t@[0][0] == Ty::Int(IntKind::I32),
{
    let mut fields: Vec<Ty> = Vec::new();
    fields.push(Ty::Int(IntKind::I32));
    let mut structs: Vec<StructDef> = Vec::new();
    structs.push(StructDef { fields });
    let t = StructTable { structs };
    proof {
        assert(t@[0] =~= t.structs@[0]@);
    }
    t
}

/// The `Counter { value: i32 }` fragment: its methods, each analysed as
/// the traversal would analyse the method body.
pub struct Counter;

impl Counter {
    /// `fn new() -> Counter { Counter { value: 0 } }` — the literal's field
    /// satisfies the declared field type and the body type matches the
    /// declared return type.
    pub fn new() -> (r: (Ty, Vec<Diagnostic>))
        ensures
            r.0 == Ty::Struct(0),
            r.1@.len() == 0,
    {
        let tbl = counter_table();
        let mut rep = Reporter::new();
        let init = crate::ty::expect(&Ty::Int(IntKind::I32), &tbl.structs[0].fields[0]);
        proof {
            assert(tbl@[0] =~= tbl.structs@[0]@);
        }
        match init {
            Ok(()) => {},
            Err(k) => rep.error(k, Span::at(1, 2)),
        }
        let t = crate::infer::check_fn_return(
            &Ty::Struct(0),
            &Ty::Struct(0),
            Span::at(2, 3),
            &mut rep,
        );
        (t, rep.into_diagnostics())
    }

    /// `fn increment(&mut self) { self.value += 1; }` — the write target
    /// `(*self).value` is reached through a mutable reference rooted in the
    /// mutable borrowed binding, so the write is legal.
    pub fn increment() -> (diags: Vec<Diagnostic>)
        ensures
            diags@.len() == 0,
    {
        let tbl = counter_table();
        let mut rep = Reporter::new();
        let target = Place::var(0).deref().field(0);
        let self_ty = Ty::Ref { to: Box::new(Ty::Struct(0)), mutable: true };
        proof {
            reveal_with_fuel(crate::mutability::spec_walk, 4);
        }
        let r = crate::mutability::check_write(&tbl, true, &self_ty, &target);
        note(r, Span::at(1, 2), &mut rep);
        rep.into_diagnostics()
    }

    /// `fn get_value(&self) -> i32 { self.value }` — a read of an owned
    /// field through `&self`, of the field's declared type.
    pub fn get_value() -> (r: (Ty, Vec<Diagnostic>))
        ensures
            r.0 == Ty::Int(IntKind::I32),
            r.1@.len() == 0,
    {
        let tbl = counter_table();
        let mut rep = Reporter::new();
        let moves = MoveEnv::new();
        let target = Place::var(0).deref().field(0);
        let rd = moves.read(&target);
        note(rd, Span::at(1, 2), &mut rep);
        let self_ty = Ty::Ref { to: Box::new(Ty::Struct(0)), mutable: false };
        proof {
            reveal_with_fuel(crate::mutability::spec_walk, 4);
        }
        let t = match crate::mutability::walk_place(&tbl, &self_ty, &target.projs, false) {
            Some((t, _w)) => t,
            None => {
                rep.error(DiagKind::TypeMismatch, Span::at(1, 2));
                Ty::Unresolved
            },
        };
        (t, rep.into_diagnostics())
    }

    /// `fn reset(&mut self) { self.value = 0; }` — the same write
    /// discipline as `increment`.
    pub fn reset() -> (diags: Vec<Diagnostic>)
        ensures
            diags@.len() == 0,
    {
        let tbl = counter_table();
        let mut rep = Reporter::new();
        let target = Place::var(0).deref().field(0);
        let self_ty = Ty::Ref { to: Box::new(Ty::Struct(0)), mutable: true };
        proof {
            reveal_with_fuel(crate::mutability::spec_walk, 4);
        }
        let r = crate::mutability::check_write(&tbl, true, &self_ty, &target);
        note(r, Span::at(1, 2), &mut rep);
        rep.into_diagnostics()
    }

    /// `fn double_value(&self) -> i32 { self.value * 2 }` — reading through
    /// `&self` is fine and the product of two `i32` operands is `i32`.
    pub fn double_value() -> (r: (Ty, Vec<Diagnostic>))
        ensures
            r.0 == Ty::Int(IntKind::I32),
            r.1@.len() == 0,
    {
        let mut rep = Reporter::new();
        let moves = MoveEnv::new();
        let target = Place::var(0).deref().field(0);
        let rd = moves.read(&target);
        note(rd, Span::at(1, 2), &mut rep);
        let t = match crate::ty::unify(&Ty::Int(IntKind::I32), &Ty::Int(IntKind::I32)) {
            Some(t) => t,
            None => {
                rep.error(DiagKind::TypeMismatch, Span::at(1, 2));
                Ty::Unresolved
            },
        };
        (t, rep.into_diagnostics())
    }
}

/// The `Point { x: i32, y: i32 }` fragment: its methods, each analysed as
/// the traversal would analyse the method body.
pub struct Point;

impl Point {
    /// `fn get_x(&self) -> i32 { self.x }` — a field read through `&self`.
    pub fn get_x() -> (r: (Ty, Vec<Diagnostic>))
        ensures
            r.0 == Ty::Int(IntKind::I32),
            r.1@.len() == 0,
    {
        let tbl = point_table();
        let mut rep = Reporter::new();
        let moves = MoveEnv::new();
        let target = Place::var(0).deref().field(0);
        let rd = moves.read(&target);
        note(rd, Span::at(1, 2), &mut rep);
        let self_ty = Ty::Ref { to: Box::new(Ty::Struct(0)), mutable: false };
        proof {
            reveal_with_fuel(crate::mutability::spec_walk, 4);
        }
        let t = match crate::mutability::walk_place(&tbl, &self_ty, &target.projs, false) {
            Some((t, _w)) => t,
            None => {
                rep.error(DiagKind::TypeMismatch, Span::at(1, 2));
                Ty::Unresolved
            },
        };
        (t, rep.into_diagnostics())
    }

    /// `fn set_x(&mut self, x: i32) { self.x = x; }` — the argument
    /// satisfies the field type and the write goes through the mutable
    /// reference.
    pub fn set_x() -> (diags: Vec<Diagnostic>)
        ensures
            diags@.len() == 0,
    {
        let tbl = point_table();
        let mut rep = Reporter::new();
        let arg = crate::ty::expect(&Ty::Int(IntKind::I32), &tbl.structs[0].fields[0]);
        proof {
            assert(tbl@[0] =~= tbl.structs@[0]@);
        }
        match arg {
            Ok(()) => {},
            Err(k) => rep.error(k, Span::at(1, 2)),
        }
        let target = Place::var(0).deref().field(0);
        let self_ty = Ty::Ref { to: Box::new(Ty::Struct(0)), mutable: true };
        proof {
            reveal_with_fuel(crate::mutability::spec_walk, 4);
        }
        let r = crate::mutability::check_write(&tbl, true, &self_ty, &target);
        note(r, Span::at(2, 3), &mut rep);
        rep.into_diagnostics()
    }

    /// `fn consume(self) -> i32 { self.x + self.y }` — the by-value
    /// receiver is owned inside the method: both field reads succeed and
    /// the sum is `i32`.
    pub fn consume() -> (r: (Ty, Vec<Diagnostic>))
        ensures
            r.0 == Ty::Int(IntKind::I32),
            r.1@.len() == 0,
    {
        let mut rep = Reporter::new();
        let moves = MoveEnv::new();
        let rx = moves.read(&Place::var(0).field(0));
        note(rx, Span::at(1, 2), &mut rep);
        let ry = moves.read(&Place::var(0).field(1));
        note(ry, Span::at(2, 3), &mut rep);
        let t = match crate::ty::unify(&Ty::Int(IntKind::I32), &Ty::Int(IntKind::I32)) {
            Some(t) => t,
            None => {
                rep.error(DiagKind::TypeMismatch, Span::at(3, 4));
                Ty::Unresolved
            },
        };
        (t, rep.into_diagnostics())
    }

    /// `fn borrow_self(&self) -> &i32 { &self.x }` — a shared borrow of a
    /// field through `&self`, of type `&i32`.
    pub fn borrow_self() -> (r: (Ty, Vec<Diagnostic>))
        ensures
            r.0 == (Ty::Ref { to: Box::new(Ty::Int(IntKind::I32)), mutable: false }),
            r.1@.len() == 0,
    {
        let mut rep = Reporter::new();
        let mut env = BorrowEnv::new();
        let target = Place::var(0).deref().field(0);
        let b = env.borrow_shared(&target, 0);
        note(b, Span::at(1, 2), &mut rep);
        (
            Ty::Ref { to: Box::new(Ty::Int(IntKind::I32)), mutable: false },
            rep.into_diagnostics(),
        )
    }

    /// `fn borrow_mut_self(&mut self) -> &mut i32 { &mut self.x }` — an
    /// exclusive borrow of a field rooted in the mutable borrowed binding.
    pub fn borrow_mut_self() -> (r: (Ty, Vec<Diagnostic>))
        ensures
            r.0 == (Ty::Ref { to: Box::new(Ty::Int(IntKind::I32)), mutable: true }),
            r.1@.len() == 0,
    {
        let mut rep = Reporter::new();
        let mut env = BorrowEnv::new();
        let target = Place::var(0).deref().field(0);
        let b = env.borrow_exclusive(&target, true, 0);
        note(b, Span::at(1, 2), &mut rep);
        (
            Ty::Ref { to: Box::new(Ty::Int(IntKind::I32)), mutable: true },
            rep.into_diagnostics(),
        )
    }

    /// `fn clone_self(&self) -> Self { Point { x: self.x, y: self.y } }` —
    /// both field reads succeed, each initializer satisfies its field type,
    /// and the literal has the struct's type.
    pub fn clone_self() -> (r: (Ty, Vec<Diagnostic>))
        ensures
            r.0 == Ty::Struct(0),
            r.1@.len() == 0,
    {
        let tbl = point_table();
        let mut rep = Reporter::new();
        let moves = MoveEnv::new();
        let rx = moves.read(&Place::var(0).deref().field(0));
        note(rx, Span::at(1, 2), &mut rep);
        let ry = moves.read(&Place::var(0).deref().field(1));
        note(ry, Span::at(2, 3), &mut rep);
        proof {
            assert(tbl@[0] =~= tbl.structs@[0]@);
        }
        let ix = crate::ty::expect(&Ty::Int(IntKind::I32), &tbl.structs[0].fields[0]);
        match ix {
            Ok(()) => {},
            Err(k) => rep.error(k, Span::at(3, 4)),
        }
        let iy = crate::ty::expect(&Ty::Int(IntKind::I32), &tbl.structs[0].fields[1]);
        match iy {
            Ok(()) => {},
            Err(k) => rep.error(k, Span::at(4, 5)),
        }
        (Ty::Struct(0), rep.into_diagnostics())
    }
}

/// The `MyStruct { field1: i32, field2: i32 }` fragment and its associated
/// function.
pub struct MyStruct;

impl MyStruct {
    /// `fn new() -> MyStruct { MyStruct { field1: 0, field2: 0 } }`,
    /// reached as the path `MyStruct::new` — the path resolves to the
    /// associated function, the nullary call yields the struct, and the
    /// body satisfies the declared return type.
    pub fn new() -> (r: (Ty, Vec<Diagnostic>))
        ensures
            r.0 == Ty::Struct(0),
            r.1@.len() == 0,
    {
        let mut rep = Reporter::new();
        let items = crate::paths::ItemTable {
            types: {
                let mut v: Vec<crate::paths::TypeItems> = Vec::new();
                v.push(
                    crate::paths::TypeItems {
                        variants: Vec::new(),
                        assoc_fns: {
                            let mut f: Vec<(u32, u32)> = Vec::new();
                            f.push((7, 0));
                            f
                        },
                        assoc_consts: Vec::new(),
                    },
                );
                v
            },
        };
        proof {
            assert(items@[0] == items.types@[0]@);
            reveal_with_fuel(crate::paths::find_assoc_fn, 3);
            reveal_with_fuel(crate::paths::find_variant, 2);
        }
        let sig: u32 = match crate::paths::resolve_path(&items, 0, Some(7)) {
            Ok(crate::paths::PathResolution::Function { sig }) => sig,
            _ => {
                rep.error(DiagKind::NameError, Span::at(1, 2));
                0
            },
        };
        let params: Vec<Ty> = Vec::new();
        let args: Vec<Ty> = Vec::new();
        let _ = sig;
        let t = match crate::infer::check_call(&params, &Ty::Struct(0), &args) {
            Ok(t) => t,
            Err(k) => {
                rep.error(k, Span::at(2, 3));
                Ty::Unresolved
            },
        };
        let t2 = crate::infer::check_fn_return(&Ty::Struct(0), &t, Span::at(3, 4), &mut rep);
        (t2, rep.into_diagnostics())
    }
}

/// The `MyEnum { VariantA, VariantB(i32), VariantC { .. } }` fragment and
/// its associated items.
pub struct MyEnum;

impl MyEnum {
    /// `fn associated_function() -> i32 { return 42; }`, reached as the
    /// path `MyEnum::associated_function` — the path resolves past the
    /// variants to the associated function, and the diverging body
    /// satisfies the declared `i32` return type.
    pub fn associated_function() -> (r: (Ty, Vec<Diagnostic>))
        ensures
            r.0 == Ty::Int(IntKind::I32),
            r.1@.len() == 0,
    {
        let mut rep = Reporter::new();
        let items = crate::paths::ItemTable {
            types: {
                let mut v: Vec<crate::paths::TypeItems> = Vec::new();
                v.push(
                    crate::paths::TypeItems {
                        variants: {
                            let mut n: Vec<u32> = Vec::new();
                            n.push(1);
                            n.push(2);
                            n.push(3);
                            n
                        },
                        assoc_fns: {
                            let mut f: Vec<(u32, u32)> = Vec::new();
                            f.push((4, 1));
                            f
                        },
                        assoc_consts: {
                            let mut c: Vec<(u32, Ty)> = Vec::new();
                            c.push((5, Ty::Int(IntKind::I32)));
                            c
                        },
                    },
                );
                v
            },
        };
        proof {
            assert(items@[0] == items.types@[0]@);
            reveal_with_fuel(crate::paths::find_variant, 5);
            reveal_with_fuel(crate::paths::find_assoc_fn, 3);
        }
        match crate::paths::resolve_path(&items, 0, Some(4)) {
            Ok(crate::paths::PathResolution::Function { .. }) => {},
            _ => rep.error(DiagKind::NameError, Span::at(1, 2)),
        }
        let t = crate::infer::check_fn_return(
            &Ty::Int(IntKind::I32),
            &Ty::Never,
            Span::at(2, 3),
            &mut rep,
        );
        (t, rep.into_diagnostics())
    }
}

// --- operator grouping over constant operands ---

/// `let z = *y * 2; let a = *y * *y;` with `x = 5`, `y = &x` — the unary
/// dereferences bind first, then the binary multiplication: 10 and 25.
pub fn test_dereference_and_multiplication() -> (r: (i128, i128))
    ensures
        r.0 == 10,
        r.1 == 25,
{
    let five = ConstValue::Int { kind: IntKind::I32, val: 5 };
    let two = ConstValue::Int { kind: IntKind::I32, val: 2 };
    let z = match crate::constval::eval_bin(crate::constval::BinOp::Mul, &five, &two) {
        Ok(ConstValue::Int { val, .. }) => val,
        _ => 0,
    };
    let a = match crate::constval::eval_bin(crate::constval::BinOp::Mul, &five, &five) {
        Ok(ConstValue::Int { val, .. }) => val,
        _ => 0,
    };
    (z, a)
}

/// `let z = x & 3; let a = *y & 2;` with `x = 5` — the borrow and the
/// dereference are unary; the binary `&` is bitwise and: 1 and 0.
pub fn test_borrow_and_bitwise_and() -> (r: (i128, i128))
    ensures
        r.0 == 1,
        r.1 == 0,
{
    proof {
        assert(5u64 & 3u64 == 1u64) by (bit_vector);
        assert(5u64 & 2u64 == 0u64) by (bit_vector);
    }
    let five = ConstValue::Int { kind: IntKind::I32, val: 5 };
    let three = ConstValue::Int { kind: IntKind::I32, val: 3 };
    let two = ConstValue::Int { kind: IntKind::I32, val: 2 };
    let z = match crate::constval::eval_bin(crate::constval::BinOp::BitAnd, &five, &three) {
        Ok(ConstValue::Int { val, .. }) => val,
        _ => -1,
    };
    let a = match crate::constval::eval_bin(crate::constval::BinOp::BitAnd, &five, &two) {
        Ok(ConstValue::Int { val, .. }) => val,
        _ => -1,
    };
    (z, a)
}

/// `let y = -x; let z = x - 2; let a = -x - -y;` with `x = 5` — negation is
/// unary, subtraction binary: y = -5, z = 3, a = -10.
pub fn test_negation_and_subtraction() -> (r: (i128, i128, i128))
    ensures
        r.0 == -5,
        r.1 == 3,
        r.2 == -10,
{
    let y = match crate::constval::neg_exec(IntKind::I32, 5) {
        Ok(ConstValue::Int { val, .. }) => val,
        _ => 0,
    };
    let five = ConstValue::Int { kind: IntKind::I32, val: 5 };
    let two = ConstValue::Int { kind: IntKind::I32, val: 2 };
    let z = match crate::constval::eval_bin(crate::constval::BinOp::Sub, &five, &two) {
        Ok(ConstValue::Int { val, .. }) => val,
        _ => 0,
    };
    // -x - -y, with y == -5: both negations first, then the subtraction.
    let minus_x = ConstValue::Int { kind: IntKind::I32, val: -5 };
    let minus_y = match crate::constval::neg_exec(IntKind::I32, y) {
        Ok(v) => v,
        _ => ConstValue::Int { kind: IntKind::I32, val: 0 },
    };
    let a = match crate::constval::eval_bin(crate::constval::BinOp::Sub, &minus_x, &minus_y) {
        Ok(ConstValue::Int { val, .. }) => val,
        _ => 0,
    };
    (y, z, a)
}

/// `let z = *y * 2 + x & 3 - -x;` with `x = 5` — grouped as
/// `((*y * 2) + x) & (3 - -x)`: 15 & 8 = 8.
pub fn test_complex_expression() -> (z: i128)
    ensures
        z == 8,
{
    proof {
        assert(15u64 & 8u64 == 8u64) by (bit_vector);
    }
    let five = ConstValue::Int { kind: IntKind::I32, val: 5 };
    let two = ConstValue::Int { kind: IntKind::I32, val: 2 };
    let three = ConstValue::Int { kind: IntKind::I32, val: 3 };
    let prod = match crate::constval::eval_bin(crate::constval::BinOp::Mul, &five, &two) {
        Ok(v) => v,
        _ => five,
    };
    let sum = match crate::constval::eval_bin(crate::constval::BinOp::Add, &prod, &five) {
        Ok(v) => v,
        _ => five,
    };
    let neg_x = match crate::constval::neg_exec(IntKind::I32, 5) {
        Ok(v) => v,
        _ => five,
    };
    let diff = match crate::constval::eval_bin(crate::constval::BinOp::Sub, &three, &neg_x) {
        Ok(v) => v,
        _ => five,
    };
    match crate::constval::eval_bin(crate::constval::BinOp::BitAnd, &sum, &diff) {
        Ok(ConstValue::Int { val, .. }) => val,
        _ => 0,
    }
}

} // verus!
