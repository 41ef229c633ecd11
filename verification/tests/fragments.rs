//! The aggregate fragments' methods, run end to end: each analysis must be
//! clean and yield the stated type.

use semck::scenarios::{Counter, MyEnum, MyStruct, Point};
use semck::ty::{ty_eq, IntKind, Ty};

#[test]
fn counter_new_outcome() {
    let (t, diags) = Counter::new();
    assert!(diags.is_empty());
    assert!(ty_eq(&t, &Ty::Struct(0)));
}

#[test]
fn counter_increment_outcome() {
    assert!(Counter::increment().is_empty());
}

#[test]
fn counter_get_value_outcome() {
    let (t, diags) = Counter::get_value();
    assert!(diags.is_empty());
    assert!(ty_eq(&t, &Ty::Int(IntKind::I32)));
}

#[test]
fn counter_reset_outcome() {
    assert!(Counter::reset().is_empty());
}

#[test]
fn counter_double_value_outcome() {
    let (t, diags) = Counter::double_value();
    assert!(diags.is_empty());
    assert!(ty_eq(&t, &Ty::Int(IntKind::I32)));
}

#[test]
fn point_get_x_outcome() {
    let (t, diags) = Point::get_x();
    assert!(diags.is_empty());
    assert!(ty_eq(&t, &Ty::Int(IntKind::I32)));
}

#[test]
fn point_set_x_outcome() {
    assert!(Point::set_x().is_empty());
}

#[test]
fn point_consume_outcome() {
    let (t, diags) = Point::consume();
    assert!(diags.is_empty());
    assert!(ty_eq(&t, &Ty::Int(IntKind::I32)));
}

#[test]
fn point_borrow_self_outcome() {
    let (t, diags) = Point::borrow_self();
    assert!(diags.is_empty());
    assert!(ty_eq(
        &t,
        &Ty::Ref { to: Box::new(Ty::Int(IntKind::I32)), mutable: false }
    ));
}

#[test]
fn point_borrow_mut_self_outcome() {
    let (t, diags) = Point::borrow_mut_self();
    assert!(diags.is_empty());
    assert!(ty_eq(
        &t,
        &Ty::Ref { to: Box::new(Ty::Int(IntKind::I32)), mutable: true }
    ));
}

#[test]
fn point_clone_self_outcome() {
    let (t, diags) = Point::clone_self();
    assert!(diags.is_empty());
    assert!(ty_eq(&t, &Ty::Struct(0)));
}

#[test]
fn my_struct_new_outcome() {
    let (t, diags) = MyStruct::new();
    assert!(diags.is_empty());
    assert!(ty_eq(&t, &Ty::Struct(0)));
}

#[test]
fn my_enum_associated_function_outcome() {
    let (t, diags) = MyEnum::associated_function();
    assert!(diags.is_empty());
    assert!(ty_eq(&t, &Ty::Int(IntKind::I32)));
}
