//! Moves, borrows and their interplay: the prefix conflict rule, partial
//! moves, reassignment, scope-end release, and per-place states.

use semck::borrows::{BorrowEnv, BorrowState};
use semck::diag::DiagKind;
use semck::moves::{read_access, MoveEnv, MoveState};
use semck::place::Place;

#[test]
fn move_denies_read_and_reassignment_permits_it() {
    let borrows = BorrowEnv::new();
    let mut moves = MoveEnv::new();
    let x = Place::var(0);
    assert!(moves.read(&x).is_ok());
    assert!(moves.move_out(&x, &borrows).is_ok());
    assert_eq!(moves.read(&x).unwrap_err(), DiagKind::MoveError);
    moves.reassign(&x);
    assert!(moves.read(&x).is_ok());
}

#[test]
fn moving_a_moved_place_errors() {
    let borrows = BorrowEnv::new();
    let mut moves = MoveEnv::new();
    let x = Place::var(0);
    assert!(moves.move_out(&x, &borrows).is_ok());
    assert_eq!(moves.move_out(&x, &borrows).unwrap_err(), DiagKind::MoveError);
}

#[test]
fn partial_move_spares_siblings_and_blocks_the_aggregate() {
    let borrows = BorrowEnv::new();
    let mut moves = MoveEnv::new();
    let p = Place::var(0);
    let px = p.field(0);
    let py = p.field(1);
    assert!(moves.move_out(&px, &borrows).is_ok());
    // The sibling field stays readable and movable.
    assert!(moves.read(&py).is_ok());
    // The whole aggregate is no longer readable.
    assert_eq!(moves.read(&p).unwrap_err(), DiagKind::MoveError);
    // States: the field is moved, the aggregate partially moved.
    assert_eq!(moves.state_of(&px), MoveState::Moved);
    assert_eq!(moves.state_of(&p), MoveState::PartiallyMoved);
    assert_eq!(moves.state_of(&py), MoveState::Owned);
    // The sibling can still be moved afterwards.
    assert!(moves.move_out(&py, &borrows).is_ok());
}

#[test]
fn nested_field_moves_track_the_whole_chain() {
    let borrows = BorrowEnv::new();
    let mut moves = MoveEnv::new();
    let tsa = Place::var(0).field(0).field(0);
    let tsb = Place::var(0).field(0).field(1);
    assert!(moves.move_out(&tsa, &borrows).is_ok());
    assert!(moves.move_out(&tsb, &borrows).is_ok());
    assert_eq!(moves.state_of(&Place::var(0)), MoveState::PartiallyMoved);
}

#[test]
fn moved_children_of_a_partial_move() {
    let borrows = BorrowEnv::new();
    let mut moves = MoveEnv::new();
    let p = Place::var(0);
    let px = p.field(0);
    assert!(moves.move_out(&px, &borrows).is_ok());
    let children = moves.moved_children(&p);
    assert_eq!(children.len(), 1);
    assert!(children[0].is_prefix_of(&px) && px.is_prefix_of(&children[0]));
    assert!(moves.moved_children(&px).is_empty());
}

#[test]
fn reassignment_resets_descendants() {
    let borrows = BorrowEnv::new();
    let mut moves = MoveEnv::new();
    let p = Place::var(0);
    let px = p.field(0);
    assert!(moves.move_out(&px, &borrows).is_ok());
    moves.reassign(&p);
    assert!(moves.read(&p).is_ok());
    assert!(moves.read(&px).is_ok());
    assert_eq!(moves.state_of(&p), MoveState::Owned);
}

#[test]
fn scope_exit_clears_move_state_of_its_locals() {
    let borrows = BorrowEnv::new();
    let mut moves = MoveEnv::new();
    let x = Place::var(3);
    assert!(moves.move_out(&x, &borrows).is_ok());
    moves.clear_root(3);
    assert!(moves.read(&x).is_ok());
}

#[test]
fn moving_a_borrowed_place_is_a_borrow_conflict() {
    let mut borrows = BorrowEnv::new();
    let mut moves = MoveEnv::new();
    let x = Place::var(0);
    assert!(borrows.borrow_shared(&x, 0).is_ok());
    assert_eq!(
        moves.move_out(&x, &borrows).unwrap_err(),
        DiagKind::BorrowConflict
    );
}

#[test]
fn moving_under_a_field_borrow_conflicts_too() {
    let mut borrows = BorrowEnv::new();
    let mut moves = MoveEnv::new();
    let p = Place::var(0);
    let px = p.field(0);
    assert!(borrows.borrow_shared(&px, 0).is_ok());
    assert_eq!(
        moves.move_out(&p, &borrows).unwrap_err(),
        DiagKind::BorrowConflict
    );
}

#[test]
fn read_blocked_while_exclusively_borrowed_and_freed_at_scope_end() {
    // `let mut x = 5; { let y = &mut x; /* read x here: error */ } x` —
    // the exclusive borrow lives until its holding scope ends.
    let mut borrows = BorrowEnv::new();
    let moves = MoveEnv::new();
    let x = Place::var(0);
    assert!(borrows.borrow_exclusive(&x, true, 1).is_ok());
    assert_eq!(
        read_access(&moves, &borrows, &x).unwrap_err(),
        DiagKind::BorrowConflict
    );
    borrows.release_scope(1);
    assert!(read_access(&moves, &borrows, &x).is_ok());
}

#[test]
fn shared_borrows_do_not_block_reading() {
    let mut borrows = BorrowEnv::new();
    let moves = MoveEnv::new();
    let x = Place::var(0);
    assert!(borrows.borrow_shared(&x, 0).is_ok());
    assert!(read_access(&moves, &borrows, &x).is_ok());
}

#[test]
fn prefix_conflict_rule_on_places() {
    let p = Place::var(0);
    let px = p.field(0);
    let py = p.field(1);
    let pxi = px.index();
    assert!(p.conflicts_with(&px));
    assert!(px.conflicts_with(&p));
    assert!(px.conflicts_with(&pxi));
    assert!(!px.conflicts_with(&py));
    assert!(!py.conflicts_with(&pxi));
    assert!(!Place::var(0).conflicts_with(&Place::var(1)));
    assert!(p.conflicts_with(&p));
}

#[test]
fn exclusive_on_prefix_blocks_descendant_and_ancestor() {
    let mut env = BorrowEnv::new();
    let p = Place::var(0);
    let px = p.field(0);
    assert!(env.borrow_exclusive(&px, true, 0).is_ok());
    // Borrowing the ancestor conflicts with the exclusive child borrow.
    assert_eq!(env.borrow_shared(&p, 0).unwrap_err(), DiagKind::BorrowConflict);
    assert_eq!(
        env.borrow_exclusive(&p, true, 0).unwrap_err(),
        DiagKind::BorrowConflict
    );
}

#[test]
fn unrelated_fields_borrow_independently() {
    let mut env = BorrowEnv::new();
    let px = Place::var(0).field(0);
    let py = Place::var(0).field(1);
    assert!(env.borrow_exclusive(&px, true, 0).is_ok());
    assert!(env.borrow_exclusive(&py, true, 0).is_ok());
    assert!(env.borrow_shared(&Place::var(1), 0).is_ok());
}

#[test]
fn per_place_borrow_states() {
    let mut env = BorrowEnv::new();
    let x = Place::var(0);
    let y = Place::var(1);
    assert_eq!(env.state_of(&x), BorrowState::Free);
    assert!(env.borrow_shared(&x, 1).is_ok());
    assert!(env.borrow_shared(&x, 1).is_ok());
    assert_eq!(env.state_of(&x), BorrowState::Shared(2));
    assert!(env.borrow_exclusive(&y, true, 1).is_ok());
    assert_eq!(env.state_of(&y), BorrowState::Exclusive);
    env.release_scope(1);
    assert_eq!(env.state_of(&x), BorrowState::Free);
    assert_eq!(env.state_of(&y), BorrowState::Free);
}

#[test]
fn release_is_per_scope() {
    let mut env = BorrowEnv::new();
    let x = Place::var(0);
    let y = Place::var(1);
    assert!(env.borrow_shared(&x, 1).is_ok());
    assert!(env.borrow_shared(&y, 2).is_ok());
    env.release_scope(2);
    assert_eq!(env.state_of(&x), BorrowState::Shared(1));
    assert_eq!(env.state_of(&y), BorrowState::Free);
}
