//! Places: rooted, possibly nested access paths.
//!
//! A place is a root binding followed by projections — `p.field`, `p[i]`,
//! `*p` — and is the unit of granularity for both move tracking and borrow
//! tracking. Two places conflict exactly when one is a prefix of the other:
//! `p.x` conflicts with `p`, but not with `p.y`.

use vstd::prelude::*;

verus! {

/// One projection step of an access path. Field projections carry the field
/// index; all index expressions project to the same `Index` step, because the
/// whole-array/element relation is treated as a prefix conflict regardless of
/// the index value.
#[derive(Clone, Copy, PartialEq, Eq, Structural, Debug)]
pub enum Proj {
    Field(u32),
    Index,
    Deref,
}

/// The mathematical reading of a place: a root binding identifier and the
/// sequence of projections applied to it.
pub struct PlaceView {
    pub root: u32,
    pub projs: Seq<Proj>,
}

/// A rooted access path. The root is a binding identifier assigned by the
/// symbol table; the projections are applied left to right.
#[derive(Debug)]
pub struct Place {
    pub root: u32,
    pub projs: Vec<Proj>,
}

impl View for Place {
    type V = PlaceView;

    open spec fn view(&self) -> PlaceView {
        PlaceView { root: self.root, projs: self.projs@ }
    }
}

/// `a` names `b` or an ancestor of `b`: same root, and `a`'s projections are
/// an initial segment of `b`'s.
pub open spec fn is_prefix(a: PlaceView, b: PlaceView) -> bool {
    &&& a.root == b.root
    &&& a.projs.len() <= b.projs.len()
    &&& a.projs == b.projs.subrange(0, a.projs.len() as int)
}

/// `a` names a strict ancestor of `b`.
pub open spec fn is_strict_prefix(a: PlaceView, b: PlaceView) -> bool {
    is_prefix(a, b) && a.projs.len() < b.projs.len()
}

/// The conflict relation of the tracker maps: one place is a prefix of the
/// other. Unrelated places — different roots, or diverging projections —
/// never conflict.
pub open spec fn overlaps(a: PlaceView, b: PlaceView) -> bool {
    is_prefix(a, b) || is_prefix(b, a)
}

impl Clone for Place {
    /// An identical access path (same root, same projections).
    fn clone(&self) -> (r: Place)
        ensures
            r@ == self@,
    {
        let mut projs: Vec<Proj> = Vec::new();
        let mut i: usize = 0;
        while i < self.projs.len()
            invariant
                i <= self.projs.len(),
                projs@ == self.projs@.subrange(0, i as int),
            decreases self.projs.len() - i,
        {
            projs.push(self.projs[i]);
            i = i + 1;
        }
        assert(projs@ == self.projs@);
        Place { root: self.root, projs }
    }
}

impl Place {
    /// The bare binding `root`, with no projections.
    pub fn var(root: u32) -> (r: Place)
        ensures
            r@.root == root,
            r@.projs == Seq::<Proj>::empty(),
    {
        Place { root, projs: Vec::new() }
    }

    /// This place extended by one projection step.
    pub fn child(&self, step: Proj) -> (r: Place)
        ensures
            r@.root == self@.root,
            r@.projs == self@.projs.push(step),
    {
        let mut r = self.clone();
        r.projs.push(step);
        r
    }

    /// The field projection `self.field`.
    pub fn field(&self, idx: u32) -> (r: Place)
        ensures
            r@.root == self@.root,
            r@.projs == self@.projs.push(Proj::Field(idx)),
    {
        self.child(Proj::Field(idx))
    }

    /// The index projection `self[..]`.
    pub fn index(&self) -> (r: Place)
        ensures
            r@.root == self@.root,
            r@.projs == self@.projs.push(Proj::Index),
    {
        self.child(Proj::Index)
    }

    /// The dereference projection `*self`.
    pub fn deref(&self) -> (r: Place)
        ensures
            r@.root == self@.root,
            r@.projs == self@.projs.push(Proj::Deref),
    {
        self.child(Proj::Deref)
    }

    /// Whether this place names `other` or an ancestor of it.
    pub fn is_prefix_of(&self, other: &Place) -> (r: bool)
        ensures
            r == is_prefix(self@, other@),
    {
        if self.root != other.root || self.projs.len() > other.projs.len() {
            return false;
        }
        let mut i: usize = 0;
        while i < self.projs.len()
            invariant
                i <= self.projs.len() <= other.projs.len(),
                self@.root == other@.root,
                forall|j: int| 0 <= j < i ==> self.projs@[j] == other.projs@[j],
            decreases self.projs.len() - i,
        {
            if self.projs[i] != other.projs[i] {
                assert(self@.projs[i as int] != other@.projs.subrange(
                    0,
                    self@.projs.len() as int,
                )[i as int]);
                return false;
            }
            i = i + 1;
        }
        assert(self@.projs =~= other@.projs.subrange(0, self@.projs.len() as int));
        true
    }

    /// Whether the two places conflict: one is a prefix of the other.
    pub fn conflicts_with(&self, other: &Place) -> (r: bool)
        ensures
            r == overlaps(self@, other@),
    {
        self.is_prefix_of(other) || other.is_prefix_of(self)
    }
}

/// Places whose projection paths diverge at some step are unrelated: neither
/// is a prefix of the other, so they never conflict. In particular sibling
/// fields `p.x` and `p.y` never conflict.
pub proof fn lemma_diverging_paths_unrelated(a: PlaceView, b: PlaceView, k: int)
    requires
        0 <= k < a.projs.len(),
        k < b.projs.len(),
        a.projs[k] != b.projs[k],
    ensures
        !overlaps(a, b),
{
    if is_prefix(a, b) {
        assert(a.projs[k] == b.projs.subrange(0, a.projs.len() as int)[k]);
    }
    if is_prefix(b, a) {
        assert(b.projs[k] == a.projs.subrange(0, b.projs.len() as int)[k]);
    }
}

/// Places with different roots never conflict.
pub proof fn lemma_different_roots_unrelated(a: PlaceView, b: PlaceView)
    requires
        a.root != b.root,
    ensures
        !overlaps(a, b),
{
}

} // verus!
