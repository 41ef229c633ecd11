//! The ownership / move tracker.
//!
//! The environment records the set of places that have been moved out of.
//! The per-place move state of the data model is derived from that set: a
//! place is `Moved` when it or an ancestor is in the set, `PartiallyMoved`
//! when only a strict descendant is (some but not all of its fields are
//! gone), and `Owned` otherwise. Sibling fields are never invalidated by a
//! move of an unrelated field.

use vstd::prelude::*;

use crate::borrows::{some_borrow_overlaps, BorrowEnv};
use crate::diag::DiagKind;
use crate::place::{is_prefix, is_strict_prefix, overlaps, Place, PlaceView};

verus! {

/// The per-place ownership state. `PartiallyMoved` stands for an aggregate
/// whose moved children are exactly the recorded entries below the place.
#[derive(Clone, Copy, PartialEq, Eq, Structural, Debug)]
pub enum MoveState {
    Owned,
    Moved,
    PartiallyMoved,
}

/// The place itself, or an ancestor of it, has been moved out of.
pub open spec fn moved_at(env: Seq<PlaceView>, p: PlaceView) -> bool {
    exists|i: int| 0 <= i < env.len() && is_prefix(#[trigger] env[i], p)
}

/// Some strict descendant of the place has been moved out of.
pub open spec fn partially_moved_at(env: Seq<PlaceView>, p: PlaceView) -> bool {
    exists|i: int| 0 <= i < env.len() && is_strict_prefix(p, #[trigger] env[i])
}

/// Whether a whole-value read of `p` must be rejected: `p` (or an ancestor)
/// is moved, or `p` is an aggregate with a moved child. A `PartiallyMoved`
/// ancestor alone does not deny reading a still-owned field.
pub open spec fn read_denied(env: Seq<PlaceView>, p: PlaceView) -> bool {
    exists|i: int|
        0 <= i < env.len() && (is_prefix(#[trigger] env[i], p) || is_strict_prefix(
            p,
            env[i],
        ))
}

/// The derived per-place state.
pub open spec fn spec_move_state(env: Seq<PlaceView>, p: PlaceView) -> MoveState {
    if moved_at(env, p) {
        MoveState::Moved
    } else if partially_moved_at(env, p) {
        MoveState::PartiallyMoved
    } else {
        MoveState::Owned
    }
}

/// The move environment of one function's analysis: the set of places moved
/// out of at the current program point.
pub struct MoveEnv {
    moved: Vec<Place>,
}

impl View for MoveEnv {
    type V = Seq<PlaceView>;

    closed spec fn view(&self) -> Seq<PlaceView> {
        self.moved@.map(|_i: int, p: Place| p@)
    }
}

impl MoveEnv {
    /// The environment at function entry: everything is owned.
    pub fn new() -> (r: MoveEnv)
        ensures
            r@ == Seq::<PlaceView>::empty(),
    {
        let r = MoveEnv { moved: Vec::new() };
        proof {
            assert(r@ =~= Seq::<PlaceView>::empty());
        }
        r
    }

    /// Validates a whole-value read of `p`: errors exactly when `p` or an
    /// ancestor is moved, or a strict descendant of `p` is moved (a read of
    /// a partially moved aggregate).
    pub fn read(&self, p: &Place) -> (r: Result<(), DiagKind>)
        ensures
            r is Ok <==> !read_denied(self@, p@),
            r is Err ==> r->Err_0 == DiagKind::MoveError,
    {
        let mut i: usize = 0;
        while i < self.moved.len()
            invariant
                i <= self.moved.len(),
                forall|j: int|
                    0 <= j < i ==> !(is_prefix(#[trigger] self@[j], p@)
                        || is_strict_prefix(p@, self@[j])),
            decreases self.moved.len() - i,
        {
            let anc = self.moved[i].is_prefix_of(p);
            let desc = p.is_prefix_of(&self.moved[i])
                && p.projs.len() < self.moved[i].projs.len();
            proof {
                assert(p@.projs.len() == p.projs.len());
                assert(self@[i as int].projs.len() == self.moved[i as int].projs.len());
            }
            if anc || desc {
                assert(is_prefix(self@[i as int], p@) || is_strict_prefix(
                    p@,
                    self@[i as int],
                ));
                return Err(DiagKind::MoveError);
            }
            i = i + 1;
        }
        Ok(())
    }

    /// The derived move state of `p`.
    pub fn state_of(&self, p: &Place) -> (s: MoveState)
        ensures
            s == spec_move_state(self@, p@),
    {
        let mut partial = false;
        let mut i: usize = 0;
        while i < self.moved.len()
            invariant
                i <= self.moved.len(),
                forall|j: int| 0 <= j < i ==> !is_prefix(#[trigger] self@[j], p@),
                partial == (exists|j: int|
                    0 <= j < i && is_strict_prefix(p@, #[trigger] self@[j])),
            decreases self.moved.len() - i,
        {
            if self.moved[i].is_prefix_of(p) {
                assert(is_prefix(self@[i as int], p@));
                return MoveState::Moved;
            }
            let desc = p.is_prefix_of(&self.moved[i])
                && p.projs.len() < self.moved[i].projs.len();
            proof {
                assert(p@.projs.len() == p.projs.len());
                assert(self@[i as int].projs.len() == self.moved[i as int].projs.len());
            }
            if desc {
                assert(is_strict_prefix(p@, self@[i as int]));
                partial = true;
            }
            i = i + 1;
        }
        if partial {
            MoveState::PartiallyMoved
        } else {
            MoveState::Owned
        }
    }

    /// The moved-children set of a partially moved aggregate: every
    /// recorded entry strictly below `p`, the fields (or further
    /// descendants) whose values are gone while their siblings stay usable.
    pub fn moved_children(&self, p: &Place) -> (r: Vec<Place>)
        ensures
            forall|i: int|
                0 <= i < r@.len() ==> self@.contains(#[trigger] r@[i]@)
                    && is_strict_prefix(p@, r@[i]@),
            forall|j: int|
                0 <= j < self@.len() && is_strict_prefix(p@, #[trigger] self@[j])
                    ==> r@.map(|_x: int, q: Place| q@).contains(self@[j]),
    {
        let mut out: Vec<Place> = Vec::new();
        let mut i: usize = 0;
        while i < self.moved.len()
            invariant
                i <= self.moved.len(),
                forall|k: int|
                    0 <= k < out@.len() ==> self@.contains(#[trigger] out@[k]@)
                        && is_strict_prefix(p@, out@[k]@),
                forall|j: int|
                    0 <= j < i && is_strict_prefix(p@, #[trigger] self@[j]) ==> out@.map(
                        |_x: int, q: Place| q@,
                    ).contains(self@[j]),
            decreases self.moved.len() - i,
        {
            let desc = p.is_prefix_of(&self.moved[i])
                && p.projs.len() < self.moved[i].projs.len();
            proof {
                assert(p@.projs.len() == p.projs.len());
                assert(self@[i as int].projs.len() == self.moved[i as int].projs.len());
            }
            if desc {
                let q = self.moved[i].clone();
                proof {
                    assert(q@ == self@[i as int]);
                }
                let ghost prev = out@;
                out.push(q);
                proof {
                    let f = |_x: int, q2: Place| q2@;
                    assert(self@.contains(out@[prev.len() as int]@)) by {
                        assert(self@[i as int] == out@[prev.len() as int]@);
                    }
                    assert forall|y: PlaceView| prev.map(f).contains(y)
                        implies out@.map(f).contains(y) by {
                        let k = choose|k: int|
                            0 <= k < prev.map(f).len() && prev.map(f)[k] == y;
                        assert(out@.map(f)[k] == y);
                    }
                    assert(out@.map(f)[prev.len() as int] == self@[i as int]);
                }
            }
            i = i + 1;
        }
        out
    }

    /// Moves the value out of `p`. Errors when `p` is under any outstanding
    /// borrow, or when `p` is already (even partially) gone. On success the
    /// place is recorded as moved, which makes every strict ancestor
    /// partially moved without touching sibling fields.
    pub fn move_out(&mut self, p: &Place, borrows: &BorrowEnv) -> (r: Result<
        (),
        DiagKind,
    >)
        ensures
            r is Ok <==> !some_borrow_overlaps(borrows@, p@) && !read_denied(
                old(self)@,
                p@,
            ),
            r is Ok ==> final(self)@ == old(self)@.push(p@),
            r is Err ==> final(self)@ == old(self)@,
            r is Err ==> r->Err_0 == (if some_borrow_overlaps(borrows@, p@) {
                DiagKind::BorrowConflict
            } else {
                DiagKind::MoveError
            }),
    {
        if borrows.any_overlapping(p) {
            return Err(DiagKind::BorrowConflict);
        }
        match self.read(p) {
            Err(_) => Err(DiagKind::MoveError),
            Ok(()) => {
                self.moved.push(p.clone());
                proof {
                    assert(self@ =~= old(self)@.push(p@));
                }
                Ok(())
            },
        }
    }

    /// Reassignment to `p`: the place and all its descendants become owned
    /// again. Entries elsewhere are untouched.
    pub fn reassign(&mut self, p: &Place)
        ensures
            forall|i: int|
                0 <= i < final(self)@.len() ==> old(self)@.contains(
                    #[trigger] final(self)@[i],
                ) && !is_prefix(p@, final(self)@[i]),
            forall|j: int|
                0 <= j < old(self)@.len() && !is_prefix(p@, #[trigger] old(self)@[j])
                    ==> final(self)@.contains(old(self)@[j]),
    {
        let ghost orig = self@;
        let mut kept: Vec<Place> = Vec::new();
        let mut i: usize = 0;
        while i < self.moved.len()
            invariant
                i <= self.moved.len(),
                self@ == orig,
                forall|k: int|
                    0 <= k < kept@.len() ==> orig.contains(#[trigger] kept@[k]@)
                        && !is_prefix(p@, kept@[k]@),
                forall|j: int|
                    0 <= j < i && !is_prefix(p@, #[trigger] orig[j]) ==> kept@.map(
                        |_x: int, q: Place| q@,
                    ).contains(orig[j]),
            decreases self.moved.len() - i,
        {
            if !p.is_prefix_of(&self.moved[i]) {
                let q = self.moved[i].clone();
                proof {
                    assert(q@ == orig[i as int]);
                }
                let ghost prev = kept@;
                kept.push(q);
                proof {
                    let f = |_x: int, q2: Place| q2@;
                    assert(orig.contains(kept@[prev.len() as int]@)) by {
                        assert(orig[i as int] == kept@[prev.len() as int]@);
                    }
                    assert forall|y: PlaceView| prev.map(f).contains(y)
                        implies kept@.map(f).contains(y) by {
                        let k = choose|k: int|
                            0 <= k < prev.map(f).len() && prev.map(f)[k] == y;
                        assert(kept@.map(f)[k] == y);
                    }
                    assert(kept@.map(f)[prev.len() as int] == orig[i as int]);
                }
            }
            i = i + 1;
        }
        self.moved = kept;
        proof {
            assert(forall|k: int|
                0 <= k < self@.len() ==> self@[k] == (#[trigger] kept@[k])@);
        }
    }

    /// Scope exit: forgets the move state of every place rooted in the given
    /// binding, which has just gone out of scope.
    pub fn clear_root(&mut self, root: u32)
        ensures
            forall|i: int|
                0 <= i < final(self)@.len() ==> old(self)@.contains(
                    #[trigger] final(self)@[i],
                ) && final(self)@[i].root != root,
            forall|j: int|
                0 <= j < old(self)@.len() && (#[trigger] old(self)@[j]).root != root
                    ==> final(self)@.contains(old(self)@[j]),
    {
        let ghost orig = self@;
        let mut kept: Vec<Place> = Vec::new();
        let mut i: usize = 0;
        while i < self.moved.len()
            invariant
                i <= self.moved.len(),
                self@ == orig,
                forall|k: int|
                    0 <= k < kept@.len() ==> orig.contains(#[trigger] kept@[k]@)
                        && kept@[k]@.root != root,
                forall|j: int|
                    0 <= j < i && (#[trigger] orig[j]).root != root ==> kept@.map(
                        |_x: int, q: Place| q@,
                    ).contains(orig[j]),
            decreases self.moved.len() - i,
        {
            if self.moved[i].root != root {
                let q = self.moved[i].clone();
                proof {
                    assert(q@ == orig[i as int]);
                }
                let ghost prev = kept@;
                kept.push(q);
                proof {
                    let f = |_x: int, q2: Place| q2@;
                    assert(orig.contains(kept@[prev.len() as int]@)) by {
                        assert(orig[i as int] == kept@[prev.len() as int]@);
                    }
                    assert forall|y: PlaceView| prev.map(f).contains(y)
                        implies kept@.map(f).contains(y) by {
                        let k = choose|k: int|
                            0 <= k < prev.map(f).len() && prev.map(f)[k] == y;
                        assert(kept@.map(f)[k] == y);
                    }
                    assert(kept@.map(f)[prev.len() as int] == orig[i as int]);
                }
            }
            i = i + 1;
        }
        self.moved = kept;
        proof {
            assert(forall|k: int|
                0 <= k < self@.len() ==> self@[k] == (#[trigger] kept@[k])@);
        }
    }
}

/// A whole-value read needs shared access: it is rejected when the place is
/// (even partially) moved, or when an outstanding exclusive borrow overlaps
/// it. Shared borrows do not block reading.
pub fn read_access(moves: &MoveEnv, borrows: &BorrowEnv, p: &Place) -> (r: Result<
    (),
    DiagKind,
>)
    ensures
        r is Ok <==> !read_denied(moves@, p@) && !crate::borrows::exclusive_borrow_overlaps(
            borrows@,
            p@,
        ),
        r is Err ==> r->Err_0 == (if read_denied(moves@, p@) {
            DiagKind::MoveError
        } else {
            DiagKind::BorrowConflict
        }),
{
    match moves.read(p) {
        Err(k) => Err(k),
        Ok(()) => {
            if borrows.exclusive_overlapping(p) {
                Err(DiagKind::BorrowConflict)
            } else {
                Ok(())
            }
        },
    }
}

/// Moving a place denies a subsequent read of that exact place, and any
/// reassignment of it — any environment in which every surviving entry comes
/// from before and none lies at or below the place — permits the read again.
pub proof fn lemma_move_denies_reassign_permits(
    env0: Seq<PlaceView>,
    env2: Seq<PlaceView>,
    p: PlaceView,
)
    requires
        !read_denied(env0, p),
        forall|i: int|
            0 <= i < env2.len() ==> env0.push(p).contains(#[trigger] env2[i])
                && !is_prefix(p, env2[i]),
    ensures
        read_denied(env0.push(p), p),
        !read_denied(env2, p),
{
    assert(p.projs.subrange(0, p.projs.len() as int) =~= p.projs);
    assert(is_prefix(p, p));
    assert(env0.push(p)[env0.len() as int] == p);
    assert forall|i: int|
        0 <= i < env2.len() implies !(is_prefix(#[trigger] env2[i], p)
        || is_strict_prefix(p, env2[i])) by {
        let m = env2[i];
        if is_prefix(m, p) {
            let k = choose|k: int|
                0 <= k < env0.push(p).len() && env0.push(p)[k] == m;
            if k < env0.len() {
                assert(env0[k] == m);
                assert(read_denied(env0, p));
            } else {
                assert(m == p);
                assert(is_prefix(p, m));
            }
        }
    }
}

/// Moving a place leaves the readability of every unrelated place — in
/// particular any sibling field — exactly as it was.
pub proof fn lemma_move_spares_unrelated(
    env0: Seq<PlaceView>,
    a: PlaceView,
    b: PlaceView,
)
    requires
        !overlaps(a, b),
    ensures
        read_denied(env0.push(a), b) == read_denied(env0, b),
        moved_at(env0.push(a), b) == moved_at(env0, b),
{
    assert(forall|i: int|
        0 <= i < env0.len() ==> (#[trigger] env0.push(a)[i]) == env0[i]);
    assert(env0.push(a)[env0.len() as int] == a);
    if read_denied(env0, b) {
        let i = choose|i: int|
            0 <= i < env0.len() && (is_prefix(#[trigger] env0[i], b) || is_strict_prefix(
                b,
                env0[i],
            ));
        assert(is_prefix(env0.push(a)[i], b) || is_strict_prefix(b, env0.push(a)[i]));
    }
    if read_denied(env0.push(a), b) {
        let i = choose|i: int|
            0 <= i < env0.push(a).len() && (is_prefix(#[trigger] env0.push(a)[i], b)
                || is_strict_prefix(b, env0.push(a)[i]));
        if i < env0.len() {
            assert(is_prefix(env0[i], b) || is_strict_prefix(b, env0[i]));
        } else {
            assert(is_prefix(a, b) || is_strict_prefix(b, a));
        }
    }
    if moved_at(env0, b) {
        let i = choose|i: int| 0 <= i < env0.len() && is_prefix(#[trigger] env0[i], b);
        assert(is_prefix(env0.push(a)[i], b));
    }
    if moved_at(env0.push(a), b) {
        let i = choose|i: int|
            0 <= i < env0.push(a).len() && is_prefix(#[trigger] env0.push(a)[i], b);
        if i < env0.len() {
            assert(is_prefix(env0[i], b));
        }
    }
}

/// After a field is moved, reading the whole aggregate — any strict ancestor
/// of the moved place — is denied.
pub proof fn lemma_moved_child_blocks_aggregate(
    env0: Seq<PlaceView>,
    a: PlaceView,
    c: PlaceView,
)
    requires
        is_strict_prefix(c, a),
    ensures
        read_denied(env0.push(a), c),
{
    assert(env0.push(a)[env0.len() as int] == a);
}

} // verus!
