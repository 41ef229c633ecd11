//! Two-segment path expressions: `Enum::Variant`, `Type::function`,
//! `Type::CONST`, and the bare type name as a constructor value.

use semck::diag::DiagKind;
use semck::paths::{resolution_ty, resolve_path, ItemTable, PathResolution, TypeItems};
use semck::ty::{ty_eq, IntKind, Ty};

// Interned names used by the sample declarations below.
const VARIANT_A: u32 = 1;
const VARIANT_B: u32 = 2;
const VARIANT_C: u32 = 3;
const ASSOCIATED_FUNCTION: u32 = 4;
const ASSOCIATED_CONST: u32 = 5;
const NEW: u32 = 6;

/// `enum MyEnum { VariantA, VariantB(i32), VariantC { .. } }` with an
/// associated function and an associated constant, as type 0; `struct
/// MyStruct` with `fn new` (signature 7), as type 1.
fn table() -> ItemTable {
    ItemTable {
        types: vec![
            TypeItems {
                variants: vec![VARIANT_A, VARIANT_B, VARIANT_C],
                assoc_fns: vec![(ASSOCIATED_FUNCTION, 3)],
                assoc_consts: vec![(ASSOCIATED_CONST, Ty::Int(IntKind::I32))],
            },
            TypeItems {
                variants: vec![],
                assoc_fns: vec![(NEW, 7)],
                assoc_consts: vec![],
            },
        ],
    }
}

#[test]
fn variants_resolve_by_index() {
    let items = table();
    let r = resolve_path(&items, 0, Some(VARIANT_A)).unwrap();
    assert!(matches!(r, PathResolution::Variant { ty: 0, index: 0 }));
    let r = resolve_path(&items, 0, Some(VARIANT_B)).unwrap();
    assert!(matches!(r, PathResolution::Variant { ty: 0, index: 1 }));
    assert!(ty_eq(&resolution_ty(&r), &Ty::Enum(0)));
}

#[test]
fn associated_function_resolves_to_its_signature() {
    let items = table();
    let r = resolve_path(&items, 0, Some(ASSOCIATED_FUNCTION)).unwrap();
    assert!(matches!(r, PathResolution::Function { sig: 3 }));
    assert!(ty_eq(&resolution_ty(&r), &Ty::Fun(3)));
    let r = resolve_path(&items, 1, Some(NEW)).unwrap();
    assert!(matches!(r, PathResolution::Function { sig: 7 }));
}

#[test]
fn associated_constant_resolves_to_its_declared_type() {
    let items = table();
    let r = resolve_path(&items, 0, Some(ASSOCIATED_CONST)).unwrap();
    assert!(ty_eq(&resolution_ty(&r), &Ty::Int(IntKind::I32)));
}

#[test]
fn bare_type_name_is_a_constructor_value() {
    let items = table();
    let r = resolve_path(&items, 0, None).unwrap();
    assert!(matches!(r, PathResolution::TypeCtor { ty: 0 }));
    assert!(ty_eq(&resolution_ty(&r), &Ty::Ctor(0)));
}

#[test]
fn unknown_items_and_types_are_name_errors() {
    let items = table();
    assert_eq!(resolve_path(&items, 0, Some(99)).unwrap_err(), DiagKind::NameError);
    assert_eq!(resolve_path(&items, 9, Some(VARIANT_A)).unwrap_err(), DiagKind::NameError);
    // A struct has no variants, so a variant-looking item falls through to
    // the name error.
    assert_eq!(resolve_path(&items, 1, Some(VARIANT_A)).unwrap_err(), DiagKind::NameError);
}
