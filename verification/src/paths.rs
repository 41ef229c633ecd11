//! Resolution of path expressions.
//!
//! A two-segment path `Type::item` looks `item` up on `Type` as an enum
//! variant, an associated function, or an associated constant — in that
//! order — and yields a tagged resolution, not a dispatch through any
//! hierarchy. A single-segment reference to a struct or enum type name
//! alone yields a constructor value, usable to disambiguate
//! `TypeName::Variant` but not directly callable.

use vstd::prelude::*;

use crate::diag::DiagKind;
use crate::ty::Ty;

verus! {

/// The associated items of one named type, as the declaration pass
/// collected them: variant names (empty for a struct), associated
/// functions with their signature identifiers, and associated constants
/// with their declared types.
#[derive(Debug)]
pub struct TypeItems {
    pub variants: Vec<u32>,
    pub assoc_fns: Vec<(u32, u32)>,
    pub assoc_consts: Vec<(u32, Ty)>,
}

/// The mathematical reading of one type's item lists.
pub struct TypeItemsView {
    pub variants: Seq<u32>,
    pub assoc_fns: Seq<(u32, u32)>,
    pub assoc_consts: Seq<(u32, Ty)>,
}

impl View for TypeItems {
    type V = TypeItemsView;

    open spec fn view(&self) -> TypeItemsView {
        TypeItemsView {
            variants: self.variants@,
            assoc_fns: self.assoc_fns@,
            assoc_consts: self.assoc_consts@,
        }
    }
}

/// The item lists of every named type, indexed by type identifier.
#[derive(Debug)]
pub struct ItemTable {
    pub types: Vec<TypeItems>,
}

impl View for ItemTable {
    type V = Seq<TypeItemsView>;

    open spec fn view(&self) -> Seq<TypeItemsView> {
        self.types@.map(|_i: int, t: TypeItems| t@)
    }
}

/// What a path expression names: one flat tagged variant, as the design
/// calls for.
#[derive(Debug)]
pub enum PathResolution {
    /// `TypeName` alone: the constructor value of type `ty`.
    TypeCtor { ty: u32 },
    /// `Enum::Variant`, by variant index.
    Variant { ty: u32, index: u32 },
    /// `Type::function`, by signature identifier.
    Function { sig: u32 },
    /// `Type::CONST`, with its declared type.
    Constant { ty: Ty },
}

/// Index of `name` among the variant names, if declared.
pub open spec fn find_variant(variants: Seq<u32>, name: u32) -> Option<int>
    decreases variants.len(),
{
    if variants.len() == 0 {
        None
    } else if variants.last() == name {
        Some(variants.len() - 1)
    } else {
        find_variant(variants.drop_last(), name)
    }
}

/// The signature of the associated function `name`, if declared.
pub open spec fn find_assoc_fn(fns: Seq<(u32, u32)>, name: u32) -> Option<u32>
    decreases fns.len(),
{
    if fns.len() == 0 {
        None
    } else if fns.last().0 == name {
        Some(fns.last().1)
    } else {
        find_assoc_fn(fns.drop_last(), name)
    }
}

/// The declared type of the associated constant `name`, if declared.
pub open spec fn find_assoc_const(consts: Seq<(u32, Ty)>, name: u32) -> Option<Ty>
    decreases consts.len(),
{
    if consts.len() == 0 {
        None
    } else if consts.last().0 == name {
        Some(consts.last().1)
    } else {
        find_assoc_const(consts.drop_last(), name)
    }
}

/// The whole dispatch of `Type::item`: a variant first, then an associated
/// function, then an associated constant; an unknown type or item is a
/// name error.
pub open spec fn spec_resolve_path(
    items: Seq<TypeItemsView>,
    ty: u32,
    item: Option<u32>,
) -> Result<PathResolution, DiagKind> {
    if ty >= items.len() {
        Err(DiagKind::NameError)
    } else {
        match item {
            None => Ok(PathResolution::TypeCtor { ty }),
            Some(name) => match find_variant(items[ty as int].variants, name) {
                Some(i) => Ok(PathResolution::Variant { ty, index: i as u32 }),
                None => match find_assoc_fn(items[ty as int].assoc_fns, name) {
                    Some(sig) => Ok(PathResolution::Function { sig }),
                    None => match find_assoc_const(items[ty as int].assoc_consts, name) {
                        Some(t) => Ok(PathResolution::Constant { ty: t }),
                        None => Err(DiagKind::NameError),
                    },
                },
            },
        }
    }
}

fn variant_index(variants: &Vec<u32>, name: u32) -> (r: Option<usize>)
    ensures
        match r {
            Some(i) => find_variant(variants@, name) == Some(i as int),
            None => find_variant(variants@, name) is None,
        },
{
    let mut i: usize = variants.len();
    proof {
        assert(variants@.subrange(0, variants@.len() as int) =~= variants@);
    }
    while i > 0
        invariant
            i <= variants@.len(),
            find_variant(variants@, name) == find_variant(
                variants@.subrange(0, i as int),
                name,
            ),
        decreases i,
    {
        i = i - 1;
        proof {
            assert(variants@.subrange(0, (i + 1) as int).drop_last() =~= variants@
                .subrange(0, i as int));
            assert(variants@.subrange(0, (i + 1) as int).last() == variants@[i as int]);
        }
        if variants[i] == name {
            return Some(i);
        }
    }
    proof {
        assert(variants@.subrange(0, 0) =~= Seq::<u32>::empty());
    }
    None
}

fn assoc_fn_sig(fns: &Vec<(u32, u32)>, name: u32) -> (r: Option<u32>)
    ensures
        r == find_assoc_fn(fns@, name),
{
    let mut i: usize = fns.len();
    proof {
        assert(fns@.subrange(0, fns@.len() as int) =~= fns@);
    }
    while i > 0
        invariant
            i <= fns@.len(),
            find_assoc_fn(fns@, name) == find_assoc_fn(fns@.subrange(0, i as int), name),
        decreases i,
    {
        i = i - 1;
        proof {
            assert(fns@.subrange(0, (i + 1) as int).drop_last() =~= fns@.subrange(
                0,
                i as int,
            ));
            assert(fns@.subrange(0, (i + 1) as int).last() == fns@[i as int]);
        }
        if fns[i].0 == name {
            return Some(fns[i].1);
        }
    }
    proof {
        assert(fns@.subrange(0, 0) =~= Seq::<(u32, u32)>::empty());
    }
    None
}

fn assoc_const_ty(consts: &Vec<(u32, Ty)>, name: u32) -> (r: Option<Ty>)
    ensures
        r == find_assoc_const(consts@, name),
{
    let mut i: usize = consts.len();
    proof {
        assert(consts@.subrange(0, consts@.len() as int) =~= consts@);
    }
    while i > 0
        invariant
            i <= consts@.len(),
            find_assoc_const(consts@, name) == find_assoc_const(
                consts@.subrange(0, i as int),
                name,
            ),
        decreases i,
    {
        i = i - 1;
        proof {
            assert(consts@.subrange(0, (i + 1) as int).drop_last() =~= consts@.subrange(
                0,
                i as int,
            ));
            assert(consts@.subrange(0, (i + 1) as int).last() == consts@[i as int]);
        }
        if consts[i].0 == name {
            return Some(consts[i].1.clone());
        }
    }
    proof {
        assert(consts@.subrange(0, 0) =~= Seq::<(u32, Ty)>::empty());
    }
    None
}

/// Resolves `Type::item` (or a bare `Type`, with `item` absent); see
/// [`spec_resolve_path`].
pub fn resolve_path(items: &ItemTable, ty: u32, item: Option<u32>) -> (r: Result<
    PathResolution,
    DiagKind,
>)
    ensures
        r == spec_resolve_path(items@, ty, item),
{
    if (ty as usize) >= items.types.len() {
        return Err(DiagKind::NameError);
    }
    let entry = &items.types[ty as usize];
    proof {
        assert(items@[ty as int] == items.types@[ty as int]@);
    }
    match item {
        None => Ok(PathResolution::TypeCtor { ty }),
        Some(name) => match variant_index(&entry.variants, name) {
            Some(i) => Ok(PathResolution::Variant { ty, index: i as u32 }),
            None => match assoc_fn_sig(&entry.assoc_fns, name) {
                Some(sig) => Ok(PathResolution::Function { sig }),
                None => match assoc_const_ty(&entry.assoc_consts, name) {
                    Some(t) => Ok(PathResolution::Constant { ty: t }),
                    None => Err(DiagKind::NameError),
                },
            },
        },
    }
}

/// The type of the value a resolved path stands for: a variant is a value
/// of its enum, an associated function a function value of its signature,
/// an associated constant a value of its declared type, and a bare type
/// name the (not directly callable) constructor value.
pub open spec fn spec_resolution_ty(r: PathResolution) -> Ty {
    match r {
        PathResolution::TypeCtor { ty } => Ty::Ctor(ty),
        PathResolution::Variant { ty, .. } => Ty::Enum(ty),
        PathResolution::Function { sig } => Ty::Fun(sig),
        PathResolution::Constant { ty } => ty,
    }
}

/// Executable counterpart of [`spec_resolution_ty`].
pub fn resolution_ty(r: &PathResolution) -> (t: Ty)
    ensures
        t == spec_resolution_ty(*r),
{
    match r {
        PathResolution::TypeCtor { ty } => Ty::Ctor(*ty),
        PathResolution::Variant { ty, .. } => Ty::Enum(*ty),
        PathResolution::Function { sig } => Ty::Fun(*sig),
        PathResolution::Constant { ty } => ty.clone(),
    }
}

} // verus!
