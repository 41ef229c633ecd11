//! The borrow checker's environment: outstanding shared and exclusive
//! borrows per place.
//!
//! A borrow lives for the lexical scope of the binding that holds the
//! borrowing reference (the conservative scope-end release policy), so each
//! entry records the scope it belongs to. Conflicts follow the prefix rule
//! of [`crate::place`]: a borrow constrains the borrowed place, all its
//! ancestors and all its descendants, and nothing else.

use vstd::prelude::*;

use crate::diag::DiagKind;
use crate::place::{is_strict_prefix, overlaps, Place, PlaceView};

verus! {

#[derive(Clone, Copy, PartialEq, Eq, Structural, Debug)]
pub enum BorrowKind {
    Shared,
    Exclusive,
}

/// The per-place state the data model assigns: free, shared `n >= 1` times,
/// or exclusively borrowed once.
#[derive(Clone, Copy, PartialEq, Eq, Structural, Debug)]
pub enum BorrowState {
    Free,
    Shared(usize),
    Exclusive,
}

/// The mathematical reading of one outstanding borrow.
pub struct BorrowView {
    pub place: PlaceView,
    pub kind: BorrowKind,
    pub scope: u32,
}

/// One outstanding borrow: the borrowed place, its kind, and the scope of
/// the binding holding the reference (which bounds the borrow's life).
#[derive(Debug)]
pub struct Borrow {
    pub place: Place,
    pub kind: BorrowKind,
    pub scope: u32,
}

impl View for Borrow {
    type V = BorrowView;

    closed spec fn view(&self) -> BorrowView {
        BorrowView { place: self.place@, kind: self.kind, scope: self.scope }
    }
}

/// Whether some outstanding borrow overlaps `p` (blocks an exclusive borrow
/// of `p`, and blocks moving out of `p`).
pub open spec fn some_borrow_overlaps(env: Seq<BorrowView>, p: PlaceView) -> bool {
    exists|i: int| 0 <= i < env.len() && overlaps(#[trigger] env[i].place, p)
}

/// Whether an outstanding exclusive borrow overlaps `p` (blocks a shared
/// borrow of `p`).
pub open spec fn exclusive_borrow_overlaps(env: Seq<BorrowView>, p: PlaceView) -> bool {
    exists|i: int|
        0 <= i < env.len() && (#[trigger] env[i].kind) is Exclusive && overlaps(
            env[i].place,
            p,
        )
}

/// How many shared borrows rest on exactly the place `p`.
pub open spec fn shared_count_at(env: Seq<BorrowView>, p: PlaceView) -> nat
    decreases env.len(),
{
    if env.len() == 0 {
        0
    } else {
        shared_count_at(env.drop_last(), p) + if env.last().kind is Shared
            && env.last().place == p {
            1nat
        } else {
            0nat
        }
    }
}

/// Whether an exclusive borrow rests on exactly the place `p`.
pub open spec fn exclusive_at(env: Seq<BorrowView>, p: PlaceView) -> bool {
    exists|i: int|
        0 <= i < env.len() && (#[trigger] env[i].kind) is Exclusive && env[i].place == p
}

/// The per-place borrow state the environment induces.
pub open spec fn spec_state(env: Seq<BorrowView>, p: PlaceView) -> BorrowState {
    if exclusive_at(env, p) {
        BorrowState::Exclusive
    } else if shared_count_at(env, p) > 0 {
        BorrowState::Shared(shared_count_at(env, p) as usize)
    } else {
        BorrowState::Free
    }
}

/// The set of borrows outstanding at one program point of one function.
pub struct BorrowEnv {
    borrows: Vec<Borrow>,
}

impl View for BorrowEnv {
    type V = Seq<BorrowView>;

    closed spec fn view(&self) -> Seq<BorrowView> {
        self.borrows@.map(|_i: int, b: Borrow| b@)
    }
}

impl BorrowEnv {
    /// The environment at function entry: nothing is borrowed.
    pub fn new() -> (r: BorrowEnv)
        ensures
            r@ == Seq::<BorrowView>::empty(),
    {
        let r = BorrowEnv { borrows: Vec::new() };
        proof {
            assert(r@ =~= Seq::<BorrowView>::empty());
        }
        r
    }

    /// Whether some outstanding borrow overlaps `p`: the test `move_out`
    /// makes before transferring ownership away.
    pub fn any_overlapping(&self, p: &Place) -> (r: bool)
        ensures
            r == some_borrow_overlaps(self@, p@),
    {
        let mut i: usize = 0;
        while i < self.borrows.len()
            invariant
                i <= self.borrows.len(),
                forall|j: int| 0 <= j < i ==> !overlaps(#[trigger] self@[j].place, p@),
            decreases self.borrows.len() - i,
        {
            if self.borrows[i].place.conflicts_with(p) {
                assert(overlaps(self@[i as int].place, p@));
                return true;
            }
            i = i + 1;
        }
        false
    }

    /// Whether an outstanding exclusive borrow overlaps `p`: what blocks a
    /// plain read of `p`.
    pub fn exclusive_overlapping(&self, p: &Place) -> (r: bool)
        ensures
            r == exclusive_borrow_overlaps(self@, p@),
    {
        let mut i: usize = 0;
        while i < self.borrows.len()
            invariant
                i <= self.borrows.len(),
                forall|j: int|
                    0 <= j < i ==> !((#[trigger] self@[j].kind) is Exclusive && overlaps(
                        self@[j].place,
                        p@,
                    )),
            decreases self.borrows.len() - i,
        {
            if self.borrows[i].kind == BorrowKind::Exclusive
                && self.borrows[i].place.conflicts_with(p) {
                assert((self@[i as int].kind) is Exclusive && overlaps(
                    self@[i as int].place,
                    p@,
                ));
                return true;
            }
            i = i + 1;
        }
        false
    }

    /// Takes a shared borrow of `p` for the life of scope `scope`. Errors —
    /// with a borrow conflict — exactly when an outstanding exclusive borrow
    /// overlaps `p`; shared borrows stack freely.
    pub fn borrow_shared(&mut self, p: &Place, scope: u32) -> (r: Result<(), DiagKind>)
        ensures
            r is Ok <==> !exclusive_borrow_overlaps(old(self)@, p@),
            r is Ok ==> final(self)@ == old(self)@.push(
                BorrowView { place: p@, kind: BorrowKind::Shared, scope },
            ),
            r is Err ==> final(self)@ == old(self)@ && r->Err_0
                == DiagKind::BorrowConflict,
    {
        if self.exclusive_overlapping(p) {
            Err(DiagKind::BorrowConflict)
        } else {
            self.borrows.push(Borrow { place: p.clone(), kind: BorrowKind::Shared, scope });
            proof {
                assert(self@ =~= old(self)@.push(
                    BorrowView { place: p@, kind: BorrowKind::Shared, scope },
                ));
            }
            Ok(())
        }
    }

    /// Takes an exclusive borrow of `p` for the life of scope `scope`.
    /// A place rooted in an immutable binding cannot be exclusively borrowed
    /// at all (the mutability checker's rule applies at borrow creation);
    /// otherwise the borrow errors exactly when any outstanding borrow
    /// overlaps `p`.
    pub fn borrow_exclusive(&mut self, p: &Place, root_mutable: bool, scope: u32) -> (r:
        Result<(), DiagKind>)
        ensures
            r is Ok <==> root_mutable && !some_borrow_overlaps(old(self)@, p@),
            r is Ok ==> final(self)@ == old(self)@.push(
                BorrowView { place: p@, kind: BorrowKind::Exclusive, scope },
            ),
            r is Err ==> final(self)@ == old(self)@,
            r is Err ==> r->Err_0 == (if root_mutable {
                DiagKind::BorrowConflict
            } else {
                DiagKind::MutabilityError
            }),
    {
        if !root_mutable {
            return Err(DiagKind::MutabilityError);
        }
        if self.any_overlapping(p) {
            Err(DiagKind::BorrowConflict)
        } else {
            self.borrows.push(
                Borrow { place: p.clone(), kind: BorrowKind::Exclusive, scope },
            );
            proof {
                assert(self@ =~= old(self)@.push(
                    BorrowView { place: p@, kind: BorrowKind::Exclusive, scope },
                ));
            }
            Ok(())
        }
    }

    /// Releases every borrow whose holding binding belongs to scope `scope`:
    /// the scope has ended, so the references in it are gone. Shared counts
    /// drop by the released entries; nothing else changes.
    pub fn release_scope(&mut self, scope: u32)
        ensures
            forall|i: int|
                0 <= i < final(self)@.len() ==> old(self)@.contains(
                    #[trigger] final(self)@[i],
                ) && final(self)@[i].scope != scope,
            forall|j: int|
                0 <= j < old(self)@.len() && (#[trigger] old(self)@[j]).scope != scope
                    ==> final(self)@.contains(old(self)@[j]),
    {
        let ghost orig = self@;
        let mut kept: Vec<Borrow> = Vec::new();
        let mut i: usize = 0;
        while i < self.borrows.len()
            invariant
                i <= self.borrows.len(),
                self@ == orig,
                forall|k: int|
                    0 <= k < kept@.len() ==> orig.contains(#[trigger] kept@[k]@)
                        && kept@[k]@.scope != scope,
                forall|j: int|
                    0 <= j < i && (#[trigger] orig[j]).scope != scope ==> kept@.map(
                        |_x: int, b: Borrow| b@,
                    ).contains(orig[j]),
            decreases self.borrows.len() - i,
        {
            if self.borrows[i].scope != scope {
                let b = Borrow {
                    place: self.borrows[i].place.clone(),
                    kind: self.borrows[i].kind,
                    scope: self.borrows[i].scope,
                };
                proof {
                    assert(b@ == orig[i as int]);
                }
                let ghost prev = kept@;
                kept.push(b);
                proof {
                    let f = |_x: int, b2: Borrow| b2@;
                    assert(orig.contains(b@)) by {
                        assert(orig[i as int] == b@);
                    }
                    assert forall|y: BorrowView| prev.map(f).contains(y) implies kept@.map(
                        f,
                    ).contains(y) by {
                        let k = choose|k: int|
                            0 <= k < prev.map(f).len() && prev.map(f)[k] == y;
                        assert(kept@.map(f)[k] == y);
                    }
                    assert(kept@.map(f)[prev.len() as int] == b@);
                }
            }
            i = i + 1;
        }
        self.borrows = kept;
        proof {
            assert(forall|k: int|
                0 <= k < self@.len() ==> self@[k] == (#[trigger] kept@[k])@);
        }
    }

    /// The per-place borrow state of exactly the place `p`.
    pub fn state_of(&self, p: &Place) -> (s: BorrowState)
        ensures
            s == spec_state(self@, p@),
    {
        let mut count: usize = 0;
        let mut i: usize = 0;
        while i < self.borrows.len()
            invariant
                i <= self.borrows.len(),
                count == shared_count_at(self@.subrange(0, i as int), p@),
                count <= i,
                forall|j: int|
                    0 <= j < i ==> !((#[trigger] self@[j].kind) is Exclusive
                        && self@[j].place == p@),
            decreases self.borrows.len() - i,
        {
            proof {
                assert(self@.subrange(0, (i + 1) as int).drop_last() =~= self@.subrange(
                    0,
                    i as int,
                ));
                assert(self@.subrange(0, (i + 1) as int).last() == self@[i as int]);
            }
            let exact = self.borrows[i].place.is_prefix_of(p)
                && p.is_prefix_of(&self.borrows[i].place);
            proof {
                if exact {
                    assert(self@[i as int].place.projs =~= p@.projs);
                    assert(self@[i as int].place == p@);
                } else {
                    assert(p@.projs.subrange(0, p@.projs.len() as int) =~= p@.projs);
                    assert(self@[i as int].place != p@);
                }
            }
            if exact && self.borrows[i].kind == BorrowKind::Exclusive {
                proof {
                    assert((self@[i as int].kind) is Exclusive && self@[i as int].place
                        == p@);
                }
                return BorrowState::Exclusive;
            }
            if exact && self.borrows[i].kind == BorrowKind::Shared {
                count = count + 1;
            }
            i = i + 1;
        }
        proof {
            assert(self@.subrange(0, self@.len() as int) =~= self@);
        }
        if count > 0 {
            BorrowState::Shared(count)
        } else {
            BorrowState::Free
        }
    }
}

/// Prefix-related places conflict under an exclusive borrow: if the
/// environment holds an exclusive borrow of `a`, and `a` is a strict prefix
/// of `b` or `b` of `a`, then neither a shared nor an exclusive borrow of
/// `b` is allowed.
pub proof fn lemma_exclusive_prefix_conflicts(
    env: Seq<BorrowView>,
    i: int,
    a: PlaceView,
    b: PlaceView,
)
    requires
        0 <= i < env.len(),
        env[i].place == a,
        env[i].kind is Exclusive,
        is_strict_prefix(a, b) || is_strict_prefix(b, a),
    ensures
        exclusive_borrow_overlaps(env, b),
        some_borrow_overlaps(env, b),
{
}

/// Borrows of unrelated places never conflict: recording a borrow of `a`
/// leaves both admissibility tests of any place `b` that `a` does not
/// overlap exactly as they were.
pub proof fn lemma_unrelated_borrow_no_conflict(
    env: Seq<BorrowView>,
    nb: BorrowView,
    b: PlaceView,
)
    requires
        !overlaps(nb.place, b),
    ensures
        exclusive_borrow_overlaps(env.push(nb), b) == exclusive_borrow_overlaps(env, b),
        some_borrow_overlaps(env.push(nb), b) == some_borrow_overlaps(env, b),
{
    assert(forall|i: int|
        0 <= i < env.len() ==> (#[trigger] env.push(nb)[i]) == env[i]);
    assert(env.push(nb)[env.len() as int] == nb);
    if exclusive_borrow_overlaps(env, b) {
        let i = choose|i: int|
            0 <= i < env.len() && (#[trigger] env[i].kind) is Exclusive && overlaps(
                env[i].place,
                b,
            );
        assert((env.push(nb)[i].kind) is Exclusive && overlaps(env.push(nb)[i].place, b));
    }
    if some_borrow_overlaps(env, b) {
        let i = choose|i: int| 0 <= i < env.len() && overlaps(#[trigger] env[i].place, b);
        assert(overlaps(env.push(nb)[i].place, b));
    }
    if exclusive_borrow_overlaps(env.push(nb), b) {
        let i = choose|i: int|
            0 <= i < env.push(nb).len() && (#[trigger] env.push(nb)[i].kind) is Exclusive
                && overlaps(env.push(nb)[i].place, b);
        assert(i < env.len());
        assert((env[i].kind) is Exclusive && overlaps(env[i].place, b));
    }
    if some_borrow_overlaps(env.push(nb), b) {
        let i = choose|i: int|
            0 <= i < env.push(nb).len() && overlaps(#[trigger] env.push(nb)[i].place, b);
        assert(i < env.len());
        assert(overlaps(env[i].place, b));
    }
}

} // verus!
