//! Type descriptors and footprints.
//!
//! A [`TypeDesc`] is a tagged tree describing, from static type
//! information, how a structured value is laid out when spread across
//! consecutive storage slots: a leaf occupies one slot, a struct occupies
//! its fields' slots in declaration order, an array repeats its element,
//! and an enum stores a dispatch slot holding the active variant's
//! discriminant followed by that variant's fields.
//!
//! The *footprint* of a type is the number of consecutive slots a
//! spread-persisted value of it occupies: fields add up, arrays multiply,
//! and an enum takes the maximum over its variants (each counted with its
//! dispatch slot) as a conservative upper bound, since only one variant is
//! live at a time.

use vstd::prelude::*;

verus! {

/// The mathematical model of a type descriptor.
pub enum TypeDescView {
    Leaf,
    Struct(Seq<TypeDescView>),
    Array(Box<TypeDescView>, u32),
    Enum(Seq<Seq<TypeDescView>>),
}

/// Describes how one type's data is spread across storage slots.
#[derive(Debug, PartialEq)]
pub enum TypeDesc {
    /// A single slot holding one packed-encoded scalar.
    Leaf,
    /// An ordered sequence of field types.
    Struct(Vec<TypeDesc>),
    /// `len` repetitions of one element type.
    Array(Box<TypeDesc>, u32),
    /// A dispatch slot plus one field list per variant.
    Enum(Vec<Vec<TypeDesc>>),
}

/// The model of one descriptor.
pub open spec fn ty_view(t: TypeDesc) -> TypeDescView
    decreases t, 0int,
{
    match t {
        TypeDesc::Leaf => TypeDescView::Leaf,
        TypeDesc::Struct(fields) => TypeDescView::Struct(ty_views(fields@)),
        TypeDesc::Array(elem, len) => TypeDescView::Array(Box::new(ty_view(*elem)), len),
        TypeDesc::Enum(variants) => TypeDescView::Enum(variant_views(variants@)),
    }
}

/// The models of a field list.
pub open spec fn ty_views(ts: Seq<TypeDesc>) -> Seq<TypeDescView>
    decreases ts, 0int,
{
    if ts.len() == 0 {
        Seq::empty()
    } else {
        seq![ty_view(ts[0])] + ty_views(ts.drop_first())
    }
}

/// The models of a variant list.
pub open spec fn variant_views(vs: Seq<Vec<TypeDesc>>) -> Seq<Seq<TypeDescView>>
    decreases vs, 0int,
{
    if vs.len() == 0 {
        Seq::empty()
    } else {
        seq![ty_views(vs[0]@)] + variant_views(vs.drop_first())
    }
}

impl View for TypeDesc {
    type V = TypeDescView;

    open spec fn view(&self) -> TypeDescView {
        ty_view(*self)
    }
}

pub proof fn lemma_ty_views_len(ts: Seq<TypeDesc>)
    ensures
        ty_views(ts).len() == ts.len(),
    decreases ts,
{
    if ts.len() > 0 {
        lemma_ty_views_len(ts.drop_first());
    }
}

pub proof fn lemma_ty_views_index(ts: Seq<TypeDesc>, i: int)
    requires
        0 <= i < ts.len(),
    ensures
        ty_views(ts).len() == ts.len(),
        ty_views(ts)[i] == ty_view(ts[i]),
    decreases ts,
{
    lemma_ty_views_len(ts);
    if i > 0 {
        lemma_ty_views_index(ts.drop_first(), i - 1);
    }
}

pub proof fn lemma_variant_views_index(vs: Seq<Vec<TypeDesc>>, i: int)
    requires
        0 <= i < vs.len(),
    ensures
        variant_views(vs).len() == vs.len(),
        variant_views(vs)[i] == ty_views(vs[i]@),
    decreases vs,
{
    lemma_variant_views_len(vs);
    if i > 0 {
        lemma_variant_views_index(vs.drop_first(), i - 1);
    }
}

pub proof fn lemma_variant_views_len(vs: Seq<Vec<TypeDesc>>)
    ensures
        variant_views(vs).len() == vs.len(),
    decreases vs,
{
    if vs.len() > 0 {
        lemma_variant_views_len(vs.drop_first());
    }
}

/// Number of consecutive slots a spread value of type `t` occupies.
pub open spec fn footprint(t: TypeDescView) -> nat
    decreases t, 0int,
{
    match t {
        TypeDescView::Leaf => 1,
        TypeDescView::Struct(fields) => footprint_list(fields),
        TypeDescView::Array(elem, len) => (len as nat) * footprint(*elem),
        TypeDescView::Enum(variants) => footprint_variants(variants),
    }
}

/// Sum of the footprints of a field list, in declaration order.
pub open spec fn footprint_list(ts: Seq<TypeDescView>) -> nat
    decreases ts, 0int,
{
    if ts.len() == 0 {
        0
    } else {
        footprint(ts[0]) + footprint_list(ts.drop_first())
    }
}

/// Maximum over the variants of the dispatch slot plus the variant's
/// field footprints.
pub open spec fn footprint_variants(vs: Seq<Seq<TypeDescView>>) -> nat
    decreases vs, 0int,
{
    if vs.len() == 0 {
        0
    } else {
        let head = 1 + footprint_list(vs[0]);
        let rest = footprint_variants(vs.drop_first());
        if head >= rest {
            head
        } else {
            rest
        }
    }
}

/// A descriptor is well-formed when every enum node has at least one
/// variant, so that a default value exists for every type.
pub open spec fn wf_ty(t: TypeDescView) -> bool
    decreases t, 0int,
{
    match t {
        TypeDescView::Leaf => true,
        TypeDescView::Struct(fields) => wf_ty_list(fields),
        TypeDescView::Array(elem, len) => wf_ty(*elem),
        TypeDescView::Enum(variants) => variants.len() >= 1 && wf_ty_variants(variants),
    }
}

pub open spec fn wf_ty_list(ts: Seq<TypeDescView>) -> bool
    decreases ts, 0int,
{
    if ts.len() == 0 {
        true
    } else {
        wf_ty(ts[0]) && wf_ty_list(ts.drop_first())
    }
}

pub open spec fn wf_ty_variants(vs: Seq<Seq<TypeDescView>>) -> bool
    decreases vs, 0int,
{
    if vs.len() == 0 {
        true
    } else {
        wf_ty_list(vs[0]) && wf_ty_variants(vs.drop_first())
    }
}

/// A field list's footprint splits at any point into the footprint of the
/// fields before it plus the footprint of the fields after it.
pub proof fn lemma_footprint_list_split(ts: Seq<TypeDescView>, i: int)
    requires
        0 <= i <= ts.len(),
    ensures
        footprint_list(ts) == footprint_list(ts.take(i)) + footprint_list(ts.skip(i)),
    decreases i,
{
    if i == 0 {
        assert(ts.take(0) =~= Seq::empty());
        assert(ts.skip(0) =~= ts);
    } else {
        assert(ts.take(i)[0] == ts[0]);
        assert(ts.take(i).drop_first() =~= ts.drop_first().take(i - 1));
        assert(ts.skip(i) =~= ts.drop_first().skip(i - 1));
        lemma_footprint_list_split(ts.drop_first(), i - 1);
    }
}

/// Every variant's dispatch slot plus field footprint is bounded by the
/// enum's footprint.
pub proof fn lemma_footprint_variants_bound(vs: Seq<Seq<TypeDescView>>, d: int)
    requires
        0 <= d < vs.len(),
    ensures
        1 + footprint_list(vs[d]) <= footprint_variants(vs),
    decreases vs,
{
    if d > 0 {
        lemma_footprint_variants_bound(vs.drop_first(), d - 1);
    }
}

/// Each field's footprint is bounded by its list's footprint.
pub proof fn lemma_footprint_list_elem_bound(ts: Seq<TypeDescView>, i: int)
    requires
        0 <= i < ts.len(),
    ensures
        footprint(ts[i]) <= footprint_list(ts),
    decreases ts,
{
    if i > 0 {
        lemma_footprint_list_elem_bound(ts.drop_first(), i - 1);
    }
}

impl TypeDesc {
    /// Computes the footprint of this descriptor.
    pub fn footprint_of(&self) -> (r: u64)
        requires
            footprint(self@) <= u64::MAX,
        ensures
            r == footprint(self@),
        decreases *self, 0int,
    {
        match self {
            TypeDesc::Leaf => 1,
            TypeDesc::Struct(fields) => footprint_of_fields(fields.as_slice()),
            TypeDesc::Array(elem, len) => {
                if *len == 0 {
                    0
                } else {
                    proof {
                        if footprint(ty_view(**elem)) > 0 {
                            vstd::arithmetic::mul::lemma_mul_increases(
                                *len as int,
                                footprint(ty_view(**elem)) as int,
                            );
                        }
                    }
                    let fe = elem.footprint_of();
                    let r = (*len as u64) * fe;
                    proof {
                        assert(footprint(self@) == (*len as nat) * footprint(ty_view(**elem)));
                        assert(r == (*len as nat) * footprint(ty_view(**elem)));
                    }
                    r
                }
            },
            TypeDesc::Enum(variants) => footprint_of_variants(variants.as_slice()),
        }
    }
}

/// Computes the summed footprint of a field list.
pub fn footprint_of_fields(ts: &[TypeDesc]) -> (r: u64)
    requires
        footprint_list(ty_views(ts@)) <= u64::MAX,
    ensures
        r == footprint_list(ty_views(ts@)),
    decreases ts@, 0int,
{
    if ts.len() == 0 {
        0
    } else {
        proof {
            lemma_ty_views_len(ts@);
            assert(ty_views(ts@)[0] == ty_view(ts@[0]));
            assert(ts@.subrange(1, ts@.len() as int) =~= ts@.drop_first());
            assert(ty_views(ts@).drop_first() =~= ty_views(ts@.drop_first()));
        }
        let f0 = ts[0].footprint_of();
        let rest = footprint_of_fields(vstd::slice::slice_subrange(ts, 1, ts.len()));
        f0 + rest
    }
}

/// Computes the footprint of an enum from its variant lists.
pub fn footprint_of_variants(vs: &[Vec<TypeDesc>]) -> (r: u64)
    requires
        footprint_variants(variant_views(vs@)) <= u64::MAX,
    ensures
        r == footprint_variants(variant_views(vs@)),
    decreases vs@, 0int,
{
    if vs.len() == 0 {
        0
    } else {
        proof {
            lemma_variant_views_len(vs@);
            assert(variant_views(vs@)[0] == ty_views(vs@[0]@));
            assert(vs@.subrange(1, vs@.len() as int) =~= vs@.drop_first());
            assert(variant_views(vs@).drop_first() =~= variant_views(vs@.drop_first()));
        }
        let head = 1 + footprint_of_fields(vs[0].as_slice());
        let rest = footprint_of_variants(vstd::slice::slice_subrange(vs, 1, vs.len()));
        if head >= rest {
            head
        } else {
            rest
        }
    }
}

} // verus!
