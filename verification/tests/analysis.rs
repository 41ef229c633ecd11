//! The worked program analyses, run end to end: each scenario must
//! report exactly the diagnostics its fragment deserves.

use semck::diag::DiagKind;
use semck::scenarios::{
    main_bad,
    main_ok,
    main_return,
    other_function,
    test_ambiguous_block_in_function_return,
    test_ambiguous_block_in_if,
    test_ambiguous_block_in_loop,
    test_ambiguous_block_in_struct_field,
    test_ambiguous_block_type_merging,
    test_ambiguous_block_with_unit,
    test_borrow_after_move,
    test_borrow_and_bitwise_and,
    test_complex_expression,
    test_deref_access_parent_borrow,
    test_deref_borrow,
    test_dereference_and_multiplication,
    test_field_borrow,
    test_if_no_return,
    test_if_return,
    test_immutable_array_index,
    test_immutable_assignment,
    test_immutable_borrow,
    test_immutable_borrow_of_immutable,
    test_immutable_borrow_with_mutable_borrow,
    test_immutable_dereference,
    test_implicit_return_mismatch,
    test_index_access_immutable_parent_mutable_child,
    test_index_access_parent_borrow,
    test_index_borrow,
    test_invalid_function,
    test_loop_break,
    test_loop_break_unit,
    test_multiple_mutable_borrows,
    test_mutable_array_index,
    test_mutable_assignment,
    test_mutable_borrow,
    test_mutable_borrow_of_immutable,
    test_mutable_borrow_of_mutable,
    test_mutable_borrow_with_immutable_borrow,
    test_mutable_dereference,
    test_mutable_field_access_on_immutable,
    test_mutable_field_access_on_mutable,
    test_mutable_field_borrow,
    test_mutable_index_borrow,
    test_mutable_parameter,
    test_mutable_variable_requirement,
    test_negation_and_subtraction,
    test_nested_ambiguous_blocks,
    test_nested_if_return,
    test_nested_mutability,
    test_parent_immutable_borrow_child_mutable_borrow,
    test_parent_moved_child_cannot_borrow,
    test_parent_mutable_borrow_child_any_borrow,
    test_pattern_matching,
    test_reference_pattern_matching,
    test_return_unit,
    test_return_value,
    test_unit_function,
    test_valid_function,
};
use semck::ty::{ty_eq, IntKind, Ty};

#[test]
fn main_bad_outcome() {
    let diags = main_bad();
    assert_eq!(diags.len(), 1);
    assert_eq!(diags[0].kind, DiagKind::StructuralError);
}

#[test]
fn test_borrow_after_move_outcome() {
    let diags = test_borrow_after_move();
    assert_eq!(diags.len(), 1);
    assert_eq!(diags[0].kind, DiagKind::MoveError);
}

#[test]
fn test_deref_access_parent_borrow_outcome() {
    let diags = test_deref_access_parent_borrow();
    assert_eq!(diags.len(), 2);
    assert_eq!(diags[0].kind, DiagKind::BorrowConflict);
    assert_eq!(diags[1].kind, DiagKind::BorrowConflict);
}

#[test]
fn test_immutable_array_index_outcome() {
    let diags = test_immutable_array_index();
    assert_eq!(diags.len(), 1);
    assert_eq!(diags[0].kind, DiagKind::MutabilityError);
}

#[test]
fn test_immutable_assignment_outcome() {
    let diags = test_immutable_assignment();
    assert_eq!(diags.len(), 1);
    assert_eq!(diags[0].kind, DiagKind::MutabilityError);
}

#[test]
fn test_immutable_borrow_with_mutable_borrow_outcome() {
    let diags = test_immutable_borrow_with_mutable_borrow();
    assert_eq!(diags.len(), 1);
    assert_eq!(diags[0].kind, DiagKind::BorrowConflict);
}

#[test]
fn test_implicit_return_mismatch_outcome() {
    let diags = test_implicit_return_mismatch();
    assert_eq!(diags.len(), 1);
    assert_eq!(diags[0].kind, DiagKind::StructuralError);
}

#[test]
fn test_index_access_immutable_parent_mutable_child_outcome() {
    let diags = test_index_access_immutable_parent_mutable_child();
    assert_eq!(diags.len(), 1);
    assert_eq!(diags[0].kind, DiagKind::BorrowConflict);
}

#[test]
fn test_index_access_parent_borrow_outcome() {
    let diags = test_index_access_parent_borrow();
    assert_eq!(diags.len(), 1);
    assert_eq!(diags[0].kind, DiagKind::BorrowConflict);
}

#[test]
fn test_index_borrow_outcome() {
    let diags = test_index_borrow();
    assert_eq!(diags.len(), 1);
    assert_eq!(diags[0].kind, DiagKind::BorrowConflict);
}

#[test]
fn test_invalid_function_outcome() {
    let diags = test_invalid_function();
    assert_eq!(diags.len(), 1);
    assert_eq!(diags[0].kind, DiagKind::StructuralError);
}

#[test]
fn test_multiple_mutable_borrows_outcome() {
    let diags = test_multiple_mutable_borrows();
    assert_eq!(diags.len(), 1);
    assert_eq!(diags[0].kind, DiagKind::BorrowConflict);
}

#[test]
fn test_mutable_borrow_of_immutable_outcome() {
    let diags = test_mutable_borrow_of_immutable();
    assert_eq!(diags.len(), 1);
    assert_eq!(diags[0].kind, DiagKind::MutabilityError);
}

#[test]
fn test_mutable_borrow_with_immutable_borrow_outcome() {
    let diags = test_mutable_borrow_with_immutable_borrow();
    assert_eq!(diags.len(), 1);
    assert_eq!(diags[0].kind, DiagKind::BorrowConflict);
}

#[test]
fn test_mutable_field_access_on_immutable_outcome() {
    let diags = test_mutable_field_access_on_immutable();
    assert_eq!(diags.len(), 1);
    assert_eq!(diags[0].kind, DiagKind::MutabilityError);
}

#[test]
fn test_mutable_index_borrow_outcome() {
    let diags = test_mutable_index_borrow();
    assert_eq!(diags.len(), 1);
    assert_eq!(diags[0].kind, DiagKind::BorrowConflict);
}

#[test]
fn test_mutable_parameter_outcome() {
    let diags = test_mutable_parameter();
    assert_eq!(diags.len(), 2);
    assert_eq!(diags[0].kind, DiagKind::NameError);
    assert_eq!(diags[1].kind, DiagKind::MutabilityError);
}

#[test]
fn test_mutable_variable_requirement_outcome() {
    let diags = test_mutable_variable_requirement();
    assert_eq!(diags.len(), 2);
    assert_eq!(diags[0].kind, DiagKind::NameError);
    assert_eq!(diags[1].kind, DiagKind::MutabilityError);
}

#[test]
fn test_nested_mutability_outcome() {
    let diags = test_nested_mutability();
    assert_eq!(diags.len(), 1);
    assert_eq!(diags[0].kind, DiagKind::BorrowConflict);
}

#[test]
fn test_parent_immutable_borrow_child_mutable_borrow_outcome() {
    let diags = test_parent_immutable_borrow_child_mutable_borrow();
    assert_eq!(diags.len(), 1);
    assert_eq!(diags[0].kind, DiagKind::BorrowConflict);
}

#[test]
fn test_parent_moved_child_cannot_borrow_outcome() {
    let diags = test_parent_moved_child_cannot_borrow();
    assert_eq!(diags.len(), 1);
    assert_eq!(diags[0].kind, DiagKind::MoveError);
}

#[test]
fn test_parent_mutable_borrow_child_any_borrow_outcome() {
    let diags = test_parent_mutable_borrow_child_any_borrow();
    assert_eq!(diags.len(), 2);
    assert_eq!(diags[0].kind, DiagKind::BorrowConflict);
    assert_eq!(diags[1].kind, DiagKind::BorrowConflict);
}

#[test]
fn test_pattern_matching_outcome() {
    let diags = test_pattern_matching();
    assert_eq!(diags.len(), 1);
    assert_eq!(diags[0].kind, DiagKind::MutabilityError);
}

#[test]
fn test_mutable_assignment_outcome() {
    let diags = test_mutable_assignment();
    assert!(diags.is_empty());
}

#[test]
fn test_immutable_borrow_of_immutable_outcome() {
    let diags = test_immutable_borrow_of_immutable();
    assert!(diags.is_empty());
}

#[test]
fn test_mutable_borrow_of_mutable_outcome() {
    let diags = test_mutable_borrow_of_mutable();
    assert!(diags.is_empty());
}

#[test]
fn test_mutable_field_access_on_mutable_outcome() {
    let diags = test_mutable_field_access_on_mutable();
    assert!(diags.is_empty());
}

#[test]
fn test_mutable_array_index_outcome() {
    let diags = test_mutable_array_index();
    assert!(diags.is_empty());
}

#[test]
fn test_immutable_dereference_outcome() {
    let diags = test_immutable_dereference();
    assert!(diags.is_empty());
}

#[test]
fn test_mutable_dereference_outcome() {
    let diags = test_mutable_dereference();
    assert!(diags.is_empty());
}

#[test]
fn test_reference_pattern_matching_outcome() {
    let diags = test_reference_pattern_matching();
    assert!(diags.is_empty());
}

#[test]
fn test_immutable_borrow_outcome() {
    let diags = test_immutable_borrow();
    assert!(diags.is_empty());
}

#[test]
fn test_mutable_borrow_outcome() {
    let diags = test_mutable_borrow();
    assert!(diags.is_empty());
}

#[test]
fn test_field_borrow_outcome() {
    let diags = test_field_borrow();
    assert!(diags.is_empty());
}

#[test]
fn test_mutable_field_borrow_outcome() {
    let diags = test_mutable_field_borrow();
    assert!(diags.is_empty());
}

#[test]
fn test_deref_borrow_outcome() {
    let diags = test_deref_borrow();
    assert!(diags.is_empty());
}

#[test]
fn main_return_outcome() {
    let diags = main_return();
    assert!(diags.is_empty());
}

#[test]
fn other_function_outcome() {
    let diags = other_function();
    assert!(diags.is_empty());
}

#[test]
fn main_ok_outcome() {
    let diags = main_ok();
    assert!(diags.is_empty());
}

#[test]
fn test_ambiguous_block_in_function_return_outcome() {
    let (t, diags) = test_ambiguous_block_in_function_return();
    assert_eq!(diags.len(), 1);
    assert_eq!(diags[0].kind, DiagKind::TypeMismatch);
    assert!(ty_eq(&t, &Ty::Unresolved));
}

#[test]
fn test_ambiguous_block_in_if_outcome() {
    let (t, diags) = test_ambiguous_block_in_if();
    assert_eq!(diags.len(), 1);
    assert_eq!(diags[0].kind, DiagKind::TypeMismatch);
    assert!(ty_eq(&t, &Ty::Unresolved));
}

#[test]
fn test_ambiguous_block_in_loop_outcome() {
    let (t, diags) = test_ambiguous_block_in_loop();
    assert!(diags.is_empty());
    assert!(ty_eq(&t, &Ty::Int(IntKind::I32)));
}

#[test]
fn test_ambiguous_block_in_struct_field_outcome() {
    let (t, diags) = test_ambiguous_block_in_struct_field();
    assert_eq!(diags.len(), 1);
    assert_eq!(diags[0].kind, DiagKind::TypeMismatch);
    assert!(ty_eq(&t, &Ty::Unresolved));
}

#[test]
fn test_ambiguous_block_type_merging_outcome() {
    let (t, diags) = test_ambiguous_block_type_merging();
    assert_eq!(diags.len(), 1);
    assert_eq!(diags[0].kind, DiagKind::TypeMismatch);
    assert!(ty_eq(&t, &Ty::Unresolved));
}

#[test]
fn test_ambiguous_block_with_unit_outcome() {
    let (t, diags) = test_ambiguous_block_with_unit();
    assert!(diags.is_empty());
    assert!(ty_eq(&t, &Ty::Unit));
}

#[test]
fn test_if_no_return_outcome() {
    let (t, diags) = test_if_no_return();
    assert!(diags.is_empty());
    assert!(ty_eq(&t, &Ty::Int(IntKind::I32)));
}

#[test]
fn test_if_return_outcome() {
    let (t, diags) = test_if_return();
    assert!(diags.is_empty());
    assert!(ty_eq(&t, &Ty::Int(IntKind::I32)));
}

#[test]
fn test_loop_break_outcome() {
    let (t, diags) = test_loop_break();
    assert!(diags.is_empty());
    assert!(ty_eq(&t, &Ty::Int(IntKind::I32)));
}

#[test]
fn test_loop_break_unit_outcome() {
    let (t, diags) = test_loop_break_unit();
    assert!(diags.is_empty());
    assert!(ty_eq(&t, &Ty::Unit));
}

#[test]
fn test_nested_ambiguous_blocks_outcome() {
    let (t, diags) = test_nested_ambiguous_blocks();
    assert_eq!(diags.len(), 1);
    assert_eq!(diags[0].kind, DiagKind::TypeMismatch);
    assert!(ty_eq(&t, &Ty::Unresolved));
}

#[test]
fn test_nested_if_return_outcome() {
    let (t, diags) = test_nested_if_return();
    assert!(diags.is_empty());
    assert!(ty_eq(&t, &Ty::Int(IntKind::I32)));
}

#[test]
fn test_return_unit_outcome() {
    let (t, diags) = test_return_unit();
    assert!(diags.is_empty());
    assert!(ty_eq(&t, &Ty::Unit));
}

#[test]
fn test_return_value_outcome() {
    let (t, diags) = test_return_value();
    assert!(diags.is_empty());
    assert!(ty_eq(&t, &Ty::Int(IntKind::I32)));
}

#[test]
fn test_unit_function_outcome() {
    let (t, diags) = test_unit_function();
    assert!(diags.is_empty());
    assert!(ty_eq(&t, &Ty::Unit));
}

#[test]
fn test_valid_function_outcome() {
    let (t, diags) = test_valid_function();
    assert!(diags.is_empty());
    assert!(ty_eq(&t, &Ty::Int(IntKind::I32)));
}

#[test]
fn test_dereference_and_multiplication_values() {
    assert_eq!(test_dereference_and_multiplication(), (10, 25));
}

#[test]
fn test_borrow_and_bitwise_and_values() {
    assert_eq!(test_borrow_and_bitwise_and(), (1, 0));
}

#[test]
fn test_negation_and_subtraction_values() {
    assert_eq!(test_negation_and_subtraction(), (-5, 3, -10));
}

#[test]
fn test_complex_expression_value() {
    assert_eq!(test_complex_expression(), 8);
}
