//! The unifier: structural joins, `never` absorption, ambiguous candidate
//! sets and their order-independent resolution, and the cast table.

use semck::diag::DiagKind;
use semck::ty::{
    cast_ok, loop_type, resolve_discarded, resolve_expected, ty_eq, unify, IntKind, Ty,
};

fn i32_ty() -> Ty {
    Ty::Int(IntKind::I32)
}

fn amb(a: Ty, b: Ty) -> Ty {
    Ty::Ambiguous { first: Box::new(a), second: Box::new(b) }
}

#[test]
fn identical_primitives_unify_to_themselves() {
    assert!(ty_eq(&unify(&i32_ty(), &i32_ty()).unwrap(), &i32_ty()));
    assert!(ty_eq(&unify(&Ty::Bool, &Ty::Bool).unwrap(), &Ty::Bool));
    assert!(ty_eq(&unify(&Ty::Unit, &Ty::Unit).unwrap(), &Ty::Unit));
}

#[test]
fn never_is_absorbed_by_the_other_operand() {
    assert!(ty_eq(&unify(&Ty::Never, &i32_ty()).unwrap(), &i32_ty()));
    assert!(ty_eq(&unify(&i32_ty(), &Ty::Never).unwrap(), &i32_ty()));
    assert!(ty_eq(&unify(&Ty::Never, &Ty::Never).unwrap(), &Ty::Never));
}

#[test]
fn mismatched_concrete_types_fail() {
    assert!(unify(&i32_ty(), &Ty::Bool).is_none());
    assert!(unify(&Ty::Char, &Ty::Unit).is_none());
    assert!(unify(&Ty::Int(IntKind::I32), &Ty::Int(IntKind::U32)).is_none());
}

#[test]
fn arrays_unify_structurally() {
    let a = Ty::Array { elem: Box::new(i32_ty()), len: 3 };
    let b = Ty::Array { elem: Box::new(i32_ty()), len: 3 };
    assert!(ty_eq(&unify(&a, &b).unwrap(), &a));
    let c = Ty::Array { elem: Box::new(i32_ty()), len: 4 };
    assert!(unify(&a, &c).is_none());
    let d = Ty::Array { elem: Box::new(Ty::Bool), len: 3 };
    assert!(unify(&a, &d).is_none());
}

#[test]
fn references_unify_structurally() {
    let a = Ty::Ref { to: Box::new(i32_ty()), mutable: false };
    let b = Ty::Ref { to: Box::new(i32_ty()), mutable: false };
    assert!(ty_eq(&unify(&a, &b).unwrap(), &a));
    let m = Ty::Ref { to: Box::new(i32_ty()), mutable: true };
    assert!(unify(&a, &m).is_none());
}

#[test]
fn nominal_types_unify_by_identity() {
    assert!(ty_eq(&unify(&Ty::Struct(0), &Ty::Struct(0)).unwrap(), &Ty::Struct(0)));
    assert!(unify(&Ty::Struct(0), &Ty::Struct(1)).is_none());
    assert!(unify(&Ty::Struct(0), &Ty::Enum(0)).is_none());
}

#[test]
fn agreeing_candidates_collapse_under_the_context() {
    let t = amb(i32_ty(), i32_ty());
    assert!(ty_eq(&resolve_expected(&t, &i32_ty()).unwrap(), &i32_ty()));
    let t = amb(i32_ty(), Ty::Never);
    assert!(ty_eq(&resolve_expected(&t, &i32_ty()).unwrap(), &i32_ty()));
}

#[test]
fn any_failing_candidate_is_a_type_error() {
    // {i32, unit} — the candidates of an else-less `if` consumed as a
    // value — merges pairwise: whichever side the context matches, the
    // other candidate's mismatch is an error.
    let t = amb(i32_ty(), Ty::Unit);
    assert_eq!(
        resolve_expected(&t, &i32_ty()).unwrap_err(),
        DiagKind::TypeMismatch
    );
    assert_eq!(
        resolve_expected(&t, &Ty::Unit).unwrap_err(),
        DiagKind::TypeMismatch
    );
    assert_eq!(
        resolve_expected(&t, &Ty::Bool).unwrap_err(),
        DiagKind::TypeMismatch
    );
}

#[test]
fn ambiguity_that_no_context_settles_is_reported() {
    let t = amb(i32_ty(), Ty::Unit);
    assert_eq!(
        resolve_expected(&t, &Ty::Unresolved).unwrap_err(),
        DiagKind::AmbiguousTypeUnresolved
    );
}

#[test]
fn discarded_value_resolves_to_unit() {
    assert!(ty_eq(&resolve_discarded(amb(i32_ty(), Ty::Unit)), &Ty::Unit));
    assert!(ty_eq(&resolve_discarded(i32_ty()), &i32_ty()));
}

#[test]
fn candidate_resolution_is_order_independent() {
    // Folding the candidates {i32, never, unresolved} against a context in
    // any order yields the same final type.
    let cands = [i32_ty(), Ty::Never, Ty::Unresolved];
    let orders: [[usize; 3]; 6] = [
        [0, 1, 2],
        [0, 2, 1],
        [1, 0, 2],
        [1, 2, 0],
        [2, 0, 1],
        [2, 1, 0],
    ];
    for order in orders {
        let mut acc = i32_ty();
        for i in order {
            acc = unify(&acc, &cands[i]).unwrap();
        }
        assert!(ty_eq(&acc, &i32_ty()));
    }
}

#[test]
fn failing_resolution_fails_in_every_order() {
    // {i32, bool} cannot be joined, whichever is tried first.
    let first = unify(&i32_ty(), &Ty::Bool);
    let second = unify(&Ty::Bool, &i32_ty());
    assert!(first.is_none());
    assert!(second.is_none());
}

#[test]
fn loop_without_break_is_never() {
    let breaks: Vec<Ty> = Vec::new();
    assert!(ty_eq(&loop_type(&breaks).unwrap(), &Ty::Never));
}

#[test]
fn loop_breaks_unify_together() {
    let breaks = vec![i32_ty(), i32_ty()];
    assert!(ty_eq(&loop_type(&breaks).unwrap(), &i32_ty()));
    let mixed = vec![i32_ty(), Ty::Bool];
    assert_eq!(loop_type(&mixed).unwrap_err(), DiagKind::TypeMismatch);
}

#[test]
fn cast_table_accepts_scalars_only() {
    assert!(cast_ok(&Ty::Bool, &i32_ty()));
    assert!(cast_ok(&i32_ty(), &Ty::Char));
    assert!(cast_ok(&Ty::Bool, &Ty::Bool));
    assert!(cast_ok(&Ty::Char, &Ty::Bool));
    assert!(!cast_ok(&Ty::Struct(0), &i32_ty()));
    assert!(!cast_ok(&i32_ty(), &Ty::Struct(0)));
    assert!(!cast_ok(&Ty::Unit, &i32_ty()));
    let arr = Ty::Array { elem: Box::new(i32_ty()), len: 2 };
    assert!(!cast_ok(&arr, &i32_ty()));
}

#[test]
fn error_fallback_does_not_cascade() {
    // `Unresolved` joins with anything, so one failed expression does not
    // produce a second mismatch at its use site.
    assert!(ty_eq(&unify(&Ty::Unresolved, &i32_ty()).unwrap(), &i32_ty()));
    assert!(ty_eq(&unify(&i32_ty(), &Ty::Unresolved).unwrap(), &i32_ty()));
}
