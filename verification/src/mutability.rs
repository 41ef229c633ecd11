//! The mutability / assignability checker.
//!
//! Given a write target resolved to a place, the check walks from the root
//! binding along the projections: the write is legal only if the root
//! binding is declared mutable and every reference the path dereferences is
//! a mutable reference. (An exclusive borrow of a place rooted in an
//! immutable binding is already rejected at borrow creation, in
//! [`crate::borrows`].)

use vstd::prelude::*;

use crate::diag::DiagKind;
use crate::place::{Place, Proj};
use crate::ty::{StructTable, Ty};

verus! {

/// Walks a projection path from a value of type `t`, carrying whether the
/// path so far may be written through (`writable` starts as the root
/// binding's mutability and is only dimmed, by dereferencing an immutable
/// reference). `None` means the path does not fit the type — typing already
/// failed upstream.
pub open spec fn spec_walk(
    tbl: Seq<Seq<Ty>>,
    t: Ty,
    projs: Seq<Proj>,
    writable: bool,
) -> Option<(Ty, bool)>
    decreases projs.len(),
{
    if projs.len() == 0 {
        Some((t, writable))
    } else {
        let rest = projs.subrange(1, projs.len() as int);
        match projs[0] {
            Proj::Field(f) => match t {
                Ty::Struct(sid) => if sid < tbl.len() && f < tbl[sid as int].len() {
                    spec_walk(tbl, tbl[sid as int][f as int], rest, writable)
                } else {
                    None
                },
                _ => None,
            },
            Proj::Index => match t {
                Ty::Array { elem, .. } => spec_walk(tbl, *elem, rest, writable),
                _ => None,
            },
            Proj::Deref => match t {
                Ty::Ref { to, mutable } => spec_walk(tbl, *to, rest, writable && mutable),
                _ => None,
            },
        }
    }
}

/// Whether the place is a legal write target, walking from a root binding
/// of type `t` declared mutable or not; `None` when the path does not fit
/// the type.
pub open spec fn spec_write_allowed(
    tbl: Seq<Seq<Ty>>,
    root_mutable: bool,
    t: Ty,
    projs: Seq<Proj>,
) -> Option<bool> {
    match spec_walk(tbl, t, projs, root_mutable) {
        Some((_ty, w)) => Some(w),
        None => None,
    }
}

/// Executable walk along a projection path, from a value of type `root_ty`,
/// starting with writability `writable0`.
pub fn walk_place(tbl: &StructTable, root_ty: &Ty, projs: &Vec<Proj>, writable0: bool)
    -> (r: Option<(Ty, bool)>)
    ensures
        r == spec_walk(tbl@, *root_ty, projs@, writable0),
{
    let mut cur: Ty = root_ty.clone();
    let mut writable = writable0;
    let mut i: usize = 0;
    proof {
        assert(projs@.subrange(0, projs@.len() as int) =~= projs@);
    }
    while i < projs.len()
        invariant
            i <= projs.len(),
            spec_walk(tbl@, *root_ty, projs@, writable0) == spec_walk(
                tbl@,
                cur,
                projs@.subrange(i as int, projs@.len() as int),
                writable,
            ),
        decreases projs.len() - i,
    {
        proof {
            let tail = projs@.subrange(i as int, projs@.len() as int);
            assert(tail[0] == projs@[i as int]);
            assert(tail.subrange(1, tail.len() as int) =~= projs@.subrange(
                (i + 1) as int,
                projs@.len() as int,
            ));
        }
        match projs[i] {
            Proj::Field(f) => {
                let next: Option<Ty> = match &cur {
                    Ty::Struct(sid) => {
                        if (*sid as usize) < tbl.structs.len()
                            && (f as usize) < tbl.structs[*sid as usize].fields.len() {
                            proof {
                                assert(tbl@[*sid as int] == tbl.structs@[*sid as int]@);
                            }
                            Some(tbl.structs[*sid as usize].fields[f as usize].clone())
                        } else {
                            None
                        }
                    },
                    _ => None,
                };
                match next {
                    Some(t) => {
                        cur = t;
                    },
                    None => {
                        return None;
                    },
                }
            },
            Proj::Index => {
                let next: Option<Ty> = match cur {
                    Ty::Array { elem, .. } => Some(*elem),
                    _ => None,
                };
                match next {
                    Some(t) => {
                        cur = t;
                    },
                    None => {
                        return None;
                    },
                }
            },
            Proj::Deref => {
                let next: Option<(Ty, bool)> = match cur {
                    Ty::Ref { to, mutable } => Some((*to, mutable)),
                    _ => None,
                };
                match next {
                    Some((t, m)) => {
                        cur = t;
                        writable = writable && m;
                    },
                    None => {
                        return None;
                    },
                }
            },
        }
        i = i + 1;
    }
    proof {
        assert(projs@.subrange(projs@.len() as int, projs@.len() as int) =~= Seq::<
            Proj,
        >::empty());
    }
    Some((cur, writable))
}

/// Validates a write to the place `p`, whose root binding has type
/// `root_ty` and mutability `root_mutable`. A path that does not fit the
/// type is a type mismatch (typing already reported upstream); a path that
/// fits but is not writable — immutable root, or an immutable reference
/// dereferenced on the way — is a mutability error.
pub fn check_write(tbl: &StructTable, root_mutable: bool, root_ty: &Ty, p: &Place) -> (r:
    Result<(), DiagKind>)
    ensures
        r is Ok <==> spec_write_allowed(tbl@, root_mutable, *root_ty, p@.projs) == Some(
            true,
        ),
        r is Err ==> r->Err_0 == (if spec_write_allowed(
            tbl@,
            root_mutable,
            *root_ty,
            p@.projs,
        ) is None {
            DiagKind::TypeMismatch
        } else {
            DiagKind::MutabilityError
        }),
{
    match walk_place(tbl, root_ty, &p.projs, root_mutable) {
        Some((_t, true)) => Ok(()),
        Some((_t, false)) => Err(DiagKind::MutabilityError),
        None => Err(DiagKind::TypeMismatch),
    }
}

} // verus!
