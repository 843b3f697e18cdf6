//! Spread persistence: values that span multiple consecutive slots.
//!
//! Pushing writes a value's fields in declaration order, each field at the
//! cursor position its predecessors' footprints determine; pulling reads
//! the same positions back and is the exact inverse; clearing removes the
//! same slots; allocating produces the default value while advancing the
//! cursor exactly as pulling would, without touching the store.
//!
//! An enum stores the active variant's discriminant in its dispatch slot
//! (the first slot of its region) and that variant's fields right after
//! it; the rest of the enum's footprint region stays untouched, since the
//! footprint is a conservative bound over all variants.

use vstd::prelude::*;

use crate::codec::leaf_bytes;
use crate::codec::encode_leaf;
use crate::codec::decode_leaf;
use crate::desc::TypeDesc;
use crate::desc::TypeDescView;
use crate::desc::footprint;
use crate::desc::footprint_list;
use crate::desc::footprint_of_fields;
use crate::desc::ty_views;
use crate::desc::variant_views;
use crate::desc::lemma_footprint_list_split;
use crate::desc::lemma_footprint_variants_bound;
use crate::desc::lemma_ty_views_index;
use crate::desc::lemma_ty_views_len;
use crate::desc::lemma_variant_views_index;
use crate::desc::lemma_variant_views_len;
use crate::key::Cursor;
use crate::key::KEY_SPACE;
use crate::packed::read_slot;
use crate::store::Store;
use crate::value::Value;
use crate::value::ValueView;
use crate::value::val_view;
use crate::value::val_views;
use crate::value::lemma_val_views_index;
use crate::value::lemma_val_views_len;
use crate::value::conforms;
use crate::value::conforms_list;
use crate::value::conforms_array;
use crate::value::default_value;
use crate::value::default_list;
use crate::value::default_array;
use crate::error::Error;

verus! {

broadcast use crate::key::lemma_cursor_nonneg;

/// What pushing value `v` of type `t` at key `k` makes of store `s`.
pub open spec fn spec_push(s: Map<int, Seq<u8>>, v: ValueView, t: TypeDescView, k: int) -> Map<
    int,
    Seq<u8>,
>
    decreases t, 0int,
{
    match t {
        TypeDescView::Leaf => match v {
            ValueView::Leaf(n) => s.insert(k, leaf_bytes(n)),
            _ => s,
        },
        TypeDescView::Struct(fields) => match v {
            ValueView::Struct(vals) => spec_push_list(s, vals, fields, k),
            _ => s,
        },
        TypeDescView::Array(elem, len) => match v {
            ValueView::Array(vals) => spec_push_array(s, vals, *elem, k),
            _ => s,
        },
        TypeDescView::Enum(variants) => match v {
            ValueView::Enum(d, vals) => if (d as int) < variants.len() {
                spec_push_list(s.insert(k, leaf_bytes(d)), vals, variants[d as int], k + 1)
            } else {
                s
            },
            _ => s,
        },
    }
}

/// Pushes fields left to right, each at the key its predecessors'
/// footprints determine.
pub open spec fn spec_push_list(
    s: Map<int, Seq<u8>>,
    vs: Seq<ValueView>,
    ts: Seq<TypeDescView>,
    k: int,
) -> Map<int, Seq<u8>>
    decreases ts, 0int,
{
    if ts.len() == 0 || vs.len() == 0 {
        s
    } else {
        spec_push_list(
            spec_push(s, vs[0], ts[0], k),
            vs.drop_first(),
            ts.drop_first(),
            k + footprint(ts[0]),
        )
    }
}

/// Pushes array elements left to right with the element footprint as
/// stride.
pub open spec fn spec_push_array(
    s: Map<int, Seq<u8>>,
    vs: Seq<ValueView>,
    elem: TypeDescView,
    k: int,
) -> Map<int, Seq<u8>>
    decreases elem, vs.len(),
{
    if vs.len() == 0 {
        s
    } else {
        spec_push_array(
            spec_push(s, vs[0], elem, k),
            vs.drop_first(),
            elem,
            k + footprint(elem),
        )
    }
}

/// What pulling a value of type `t` at key `k` from store `s` yields.
pub open spec fn spec_pull(s: Map<int, Seq<u8>>, t: TypeDescView, k: int) -> Result<
    ValueView,
    Error,
>
    decreases t, 0int,
{
    match t {
        TypeDescView::Leaf => match read_slot(s, k) {
            Ok(n) => Ok(ValueView::Leaf(n)),
            Err(e) => Err(e),
        },
        TypeDescView::Struct(fields) => match spec_pull_list(s, fields, k) {
            Ok(vals) => Ok(ValueView::Struct(vals)),
            Err(e) => Err(e),
        },
        TypeDescView::Array(elem, len) => match spec_pull_array(s, *elem, len as int, k) {
            Ok(vals) => Ok(ValueView::Array(vals)),
            Err(e) => Err(e),
        },
        TypeDescView::Enum(variants) => if variants.len() == 0 {
            // An enum with no variants holds no values, so no stored
            // bytes can decode to one.
            Err(Error::DecodeFailure)
        } else {
            match read_slot(s, k) {
                Err(e) => Err(e),
                Ok(d) => if variants.len() <= d as int {
                    Err(Error::DecodeFailure)
                } else {
                    match spec_pull_list(s, variants[d as int], k + 1) {
                        Ok(vals) => Ok(ValueView::Enum(d, vals)),
                        Err(e) => Err(e),
                    }
                },
            }
        },
    }
}

/// Pulls fields left to right from the keys push assigns them.
pub open spec fn spec_pull_list(s: Map<int, Seq<u8>>, ts: Seq<TypeDescView>, k: int) -> Result<
    Seq<ValueView>,
    Error,
>
    decreases ts, 0int,
{
    if ts.len() == 0 {
        Ok(Seq::empty())
    } else {
        match spec_pull(s, ts[0], k) {
            Err(e) => Err(e),
            Ok(v) => match spec_pull_list(s, ts.drop_first(), k + footprint(ts[0])) {
                Err(e) => Err(e),
                Ok(rest) => Ok(seq![v] + rest),
            },
        }
    }
}

/// Pulls `len` array elements with the element footprint as stride.
pub open spec fn spec_pull_array(
    s: Map<int, Seq<u8>>,
    elem: TypeDescView,
    len: int,
    k: int,
) -> Result<Seq<ValueView>, Error>
    decreases elem, len,
{
    if len <= 0 {
        Ok(Seq::empty())
    } else {
        match spec_pull(s, elem, k) {
            Err(e) => Err(e),
            Ok(v) => match spec_pull_array(s, elem, len - 1, k + footprint(elem)) {
                Err(e) => Err(e),
                Ok(rest) => Ok(seq![v] + rest),
            },
        }
    }
}

/// What clearing value `v` of type `t` at key `k` makes of store `s`:
/// exactly the slots push writes are removed.
pub open spec fn spec_clear(s: Map<int, Seq<u8>>, v: ValueView, t: TypeDescView, k: int) -> Map<
    int,
    Seq<u8>,
>
    decreases t, 0int,
{
    match t {
        TypeDescView::Leaf => s.remove(k),
        TypeDescView::Struct(fields) => match v {
            ValueView::Struct(vals) => spec_clear_list(s, vals, fields, k),
            _ => s,
        },
        TypeDescView::Array(elem, len) => match v {
            ValueView::Array(vals) => spec_clear_array(s, vals, *elem, k),
            _ => s,
        },
        TypeDescView::Enum(variants) => match v {
            ValueView::Enum(d, vals) => if (d as int) < variants.len() {
                spec_clear_list(s.remove(k), vals, variants[d as int], k + 1)
            } else {
                s
            },
            _ => s,
        },
    }
}

pub open spec fn spec_clear_list(
    s: Map<int, Seq<u8>>,
    vs: Seq<ValueView>,
    ts: Seq<TypeDescView>,
    k: int,
) -> Map<int, Seq<u8>>
    decreases ts, 0int,
{
    if ts.len() == 0 || vs.len() == 0 {
        s
    } else {
        spec_clear_list(
            spec_clear(s, vs[0], ts[0], k),
            vs.drop_first(),
            ts.drop_first(),
            k + footprint(ts[0]),
        )
    }
}

pub open spec fn spec_clear_array(
    s: Map<int, Seq<u8>>,
    vs: Seq<ValueView>,
    elem: TypeDescView,
    k: int,
) -> Map<int, Seq<u8>>
    decreases elem, vs.len(),
{
    if vs.len() == 0 {
        s
    } else {
        spec_clear_array(
            spec_clear(s, vs[0], elem, k),
            vs.drop_first(),
            elem,
            k + footprint(elem),
        )
    }
}

/// The two stores hold the same blob (or the same absence) at slot `j`.
pub open spec fn slot_eq(s1: Map<int, Seq<u8>>, s2: Map<int, Seq<u8>>, j: int) -> bool {
    (s1.contains_key(j) <==> s2.contains_key(j)) && (s1.contains_key(j) ==> s1[j] == s2[j])
}

/// The two stores agree on every slot outside `[k, k + n)`.
pub open spec fn same_outside(
    s1: Map<int, Seq<u8>>,
    s2: Map<int, Seq<u8>>,
    k: int,
    n: int,
) -> bool {
    forall|j: int| j < k || j >= k + n ==> #[trigger] slot_eq(s1, s2, j)
}

/// The two stores agree on every slot inside `[k, k + n)`.
pub open spec fn same_inside(
    s1: Map<int, Seq<u8>>,
    s2: Map<int, Seq<u8>>,
    k: int,
    n: int,
) -> bool {
    forall|j: int| k <= j < k + n ==> #[trigger] slot_eq(s1, s2, j)
}

/// Pushing only writes inside the value's footprint region.
pub proof fn lemma_push_frame(s: Map<int, Seq<u8>>, v: ValueView, t: TypeDescView, k: int)
    requires
        conforms(v, t),
    ensures
        same_outside(s, spec_push(s, v, t, k), k, footprint(t) as int),
    decreases t, 0int,
{
    match t {
        TypeDescView::Leaf => {},
        TypeDescView::Struct(fields) => {
            if let ValueView::Struct(vals) = v {
                lemma_push_list_frame(s, vals, fields, k);
            }
        },
        TypeDescView::Array(elem, len) => {
            if let ValueView::Array(vals) = v {
                lemma_push_array_frame(s, vals, *elem, len as int, k);
            }
        },
        TypeDescView::Enum(variants) => {
            if let ValueView::Enum(d, vals) = v {
                let s1 = s.insert(k, leaf_bytes(d));
                let s2 = spec_push_list(s1, vals, variants[d as int], k + 1);
                lemma_footprint_variants_bound(variants, d as int);
                lemma_push_list_frame(s1, vals, variants[d as int], k + 1);
                assert forall|j: int| j < k || j >= k + footprint(t) implies #[trigger] slot_eq(
                    s,
                    s2,
                    j,
                ) by {
                    assert(slot_eq(s, s1, j));
                    assert(slot_eq(s1, s2, j));
                }
            }
        },
    }
}

pub proof fn lemma_push_list_frame(
    s: Map<int, Seq<u8>>,
    vs: Seq<ValueView>,
    ts: Seq<TypeDescView>,
    k: int,
)
    requires
        conforms_list(vs, ts),
    ensures
        same_outside(s, spec_push_list(s, vs, ts, k), k, footprint_list(ts) as int),
    decreases ts, 0int,
{
    if ts.len() > 0 && vs.len() > 0 {
        let s1 = spec_push(s, vs[0], ts[0], k);
        let s2 = spec_push_list(s1, vs.drop_first(), ts.drop_first(), k + footprint(ts[0]));
        lemma_push_frame(s, vs[0], ts[0], k);
        lemma_push_list_frame(s1, vs.drop_first(), ts.drop_first(), k + footprint(ts[0]));
        assert forall|j: int| j < k || j >= k + footprint_list(ts) implies #[trigger] slot_eq(
            s,
            s2,
            j,
        ) by {
            assert(slot_eq(s, s1, j));
            assert(slot_eq(s1, s2, j));
        }
    }
}

pub proof fn lemma_push_array_frame(
    s: Map<int, Seq<u8>>,
    vs: Seq<ValueView>,
    elem: TypeDescView,
    len: int,
    k: int,
)
    requires
        conforms_array(vs, elem, len),
    ensures
        same_outside(s, spec_push_array(s, vs, elem, k), k, len * footprint(elem)),
    decreases elem, len,
{
    if len > 0 {
        let f = footprint(elem) as int;
        let s1 = spec_push(s, vs[0], elem, k);
        let s2 = spec_push_array(s1, vs.drop_first(), elem, k + f);
        lemma_push_frame(s, vs[0], elem, k);
        lemma_push_array_frame(s1, vs.drop_first(), elem, len - 1, k + f);
        assert((len - 1) * f == len * f - f) by (nonlinear_arith);
        assert forall|j: int| j < k || j >= k + len * f implies #[trigger] slot_eq(s, s2, j) by {
            assert(slot_eq(s, s1, j));
            assert(slot_eq(s1, s2, j));
        }
    }
}

/// Pulling reads only inside the type's footprint region: stores that
/// agree there pull alike.
pub proof fn lemma_pull_agree(
    s1: Map<int, Seq<u8>>,
    s2: Map<int, Seq<u8>>,
    t: TypeDescView,
    k: int,
)
    requires
        same_inside(s1, s2, k, footprint(t) as int),
    ensures
        spec_pull(s1, t, k) == spec_pull(s2, t, k),
    decreases t, 0int,
{
    match t {
        TypeDescView::Leaf => {
            assert(slot_eq(s1, s2, k));
        },
        TypeDescView::Struct(fields) => {
            lemma_pull_list_agree(s1, s2, fields, k);
        },
        TypeDescView::Array(elem, len) => {
            lemma_pull_array_agree(s1, s2, *elem, len as int, k);
        },
        TypeDescView::Enum(variants) => {
            if variants.len() > 0 {
                lemma_footprint_variants_bound(variants, 0);
                assert(slot_eq(s1, s2, k));
                match read_slot(s1, k) {
                    Err(_) => {},
                    Ok(d) => {
                        if (d as int) < variants.len() {
                            lemma_footprint_variants_bound(variants, d as int);
                            lemma_pull_list_agree(s1, s2, variants[d as int], k + 1);
                        }
                    },
                }
            }
        },
    }
}

pub proof fn lemma_pull_list_agree(
    s1: Map<int, Seq<u8>>,
    s2: Map<int, Seq<u8>>,
    ts: Seq<TypeDescView>,
    k: int,
)
    requires
        same_inside(s1, s2, k, footprint_list(ts) as int),
    ensures
        spec_pull_list(s1, ts, k) == spec_pull_list(s2, ts, k),
    decreases ts, 0int,
{
    if ts.len() > 0 {
        lemma_pull_agree(s1, s2, ts[0], k);
        lemma_pull_list_agree(s1, s2, ts.drop_first(), k + footprint(ts[0]));
    }
}

pub proof fn lemma_pull_array_agree(
    s1: Map<int, Seq<u8>>,
    s2: Map<int, Seq<u8>>,
    elem: TypeDescView,
    len: int,
    k: int,
)
    requires
        same_inside(s1, s2, k, len * footprint(elem)),
    ensures
        spec_pull_array(s1, elem, len, k) == spec_pull_array(s2, elem, len, k),
    decreases elem, len,
{
    if len > 0 {
        let f = footprint(elem) as int;
        assert((len - 1) * f == len * f - f) by (nonlinear_arith);
        assert(f <= len * f) by (nonlinear_arith)
            requires len >= 1 && f >= 0
        ;
        lemma_pull_agree(s1, s2, elem, k);
        lemma_pull_array_agree(s1, s2, elem, len - 1, k + f);
    }
}

/// The round-trip law: pulling immediately after pushing the conforming
/// value `v` from the same starting key yields `v` again, whatever the
/// store held before.
pub proof fn lemma_push_then_pull(s: Map<int, Seq<u8>>, v: ValueView, t: TypeDescView, k: int)
    requires
        conforms(v, t),
    ensures
        spec_pull(spec_push(s, v, t, k), t, k) == Ok::<ValueView, Error>(v),
    decreases t, 0int,
{
    match t {
        TypeDescView::Leaf => {
            if let ValueView::Leaf(n) = v {
                crate::codec::lemma_leaf_roundtrip(n);
            }
        },
        TypeDescView::Struct(fields) => {
            if let ValueView::Struct(vals) = v {
                lemma_push_then_pull_list(s, vals, fields, k);
            }
        },
        TypeDescView::Array(elem, len) => {
            if let ValueView::Array(vals) = v {
                lemma_push_then_pull_array(s, vals, *elem, len as int, k);
            }
        },
        TypeDescView::Enum(variants) => {
            if let ValueView::Enum(d, vals) = v {
                let body = variants[d as int];
                let s1 = s.insert(k, leaf_bytes(d));
                let s2 = spec_push_list(s1, vals, body, k + 1);
                lemma_push_list_frame(s1, vals, body, k + 1);
                assert(slot_eq(s1, s2, k));
                crate::codec::lemma_leaf_roundtrip(d);
                assert(read_slot(s2, k) == Ok::<u32, Error>(d));
                lemma_push_then_pull_list(s1, vals, body, k + 1);
            }
        },
    }
}

pub proof fn lemma_push_then_pull_list(
    s: Map<int, Seq<u8>>,
    vs: Seq<ValueView>,
    ts: Seq<TypeDescView>,
    k: int,
)
    requires
        conforms_list(vs, ts),
    ensures
        spec_pull_list(spec_push_list(s, vs, ts, k), ts, k) == Ok::<Seq<ValueView>, Error>(vs),
    decreases ts, 0int,
{
    if ts.len() == 0 {
        assert(vs =~= Seq::empty());
    } else {
        let f0 = footprint(ts[0]) as int;
        let s1 = spec_push(s, vs[0], ts[0], k);
        let s2 = spec_push_list(s1, vs.drop_first(), ts.drop_first(), k + f0);
        lemma_push_list_frame(s1, vs.drop_first(), ts.drop_first(), k + f0);
        assert forall|j: int| k <= j < k + f0 implies #[trigger] slot_eq(s2, s1, j) by {
            assert(slot_eq(s1, s2, j));
        }
        lemma_pull_agree(s2, s1, ts[0], k);
        lemma_push_then_pull(s, vs[0], ts[0], k);
        lemma_push_then_pull_list(s1, vs.drop_first(), ts.drop_first(), k + f0);
        assert(seq![vs[0]] + vs.drop_first() =~= vs);
    }
}

pub proof fn lemma_push_then_pull_array(
    s: Map<int, Seq<u8>>,
    vs: Seq<ValueView>,
    elem: TypeDescView,
    len: int,
    k: int,
)
    requires
        conforms_array(vs, elem, len),
    ensures
        spec_pull_array(spec_push_array(s, vs, elem, k), elem, len, k) == Ok::<
            Seq<ValueView>,
            Error,
        >(vs),
    decreases elem, len,
{
    if len <= 0 {
        assert(vs =~= Seq::empty());
    } else {
        let f = footprint(elem) as int;
        assert((len - 1) * f == len * f - f) by (nonlinear_arith);
        let s1 = spec_push(s, vs[0], elem, k);
        let s2 = spec_push_array(s1, vs.drop_first(), elem, k + f);
        lemma_push_array_frame(s1, vs.drop_first(), elem, len - 1, k + f);
        assert forall|j: int| k <= j < k + f implies #[trigger] slot_eq(s2, s1, j) by {
            assert(slot_eq(s1, s2, j));
        }
        lemma_pull_agree(s2, s1, elem, k);
        lemma_push_then_pull(s, vs[0], elem, k);
        lemma_push_then_pull_array(s1, vs.drop_first(), elem, len - 1, k + f);
        assert(seq![vs[0]] + vs.drop_first() =~= vs);
    }
}

/// Footprint additivity over slot positions: pushing a field list is the
/// same as pushing the first `i` fields from `k` and then the remaining
/// fields from `k` plus the summed footprint of the first `i`.  Together
/// with [`lemma_footprint_list_split`] this pins every field to the slot
/// run `k`, `k + f1`, `k + f1 + f2`, ... in declaration order.
pub proof fn lemma_push_list_split(
    s: Map<int, Seq<u8>>,
    vs: Seq<ValueView>,
    ts: Seq<TypeDescView>,
    k: int,
    i: int,
)
    requires
        conforms_list(vs, ts),
        0 <= i <= ts.len(),
    ensures
        spec_push_list(s, vs, ts, k) == spec_push_list(
            spec_push_list(s, vs.take(i), ts.take(i), k),
            vs.skip(i),
            ts.skip(i),
            k + footprint_list(ts.take(i)),
        ),
    decreases i,
{
    if i == 0 {
        assert(ts.take(0) =~= Seq::empty());
        assert(vs.take(0) =~= Seq::empty());
        assert(ts.skip(0) =~= ts);
        assert(vs.skip(0) =~= vs);
    } else {
        let s1 = spec_push(s, vs[0], ts[0], k);
        assert(ts.take(i)[0] == ts[0]);
        assert(vs.take(i)[0] == vs[0]);
        assert(ts.take(i).drop_first() =~= ts.drop_first().take(i - 1));
        assert(vs.take(i).drop_first() =~= vs.drop_first().take(i - 1));
        assert(ts.skip(i) =~= ts.drop_first().skip(i - 1));
        assert(vs.skip(i) =~= vs.drop_first().skip(i - 1));
        lemma_footprint_list_split(ts, 1);
        assert(ts.skip(1) =~= ts.drop_first());
        assert(ts.take(1) =~= seq![ts[0]]);
        lemma_push_list_split(s1, vs.drop_first(), ts.drop_first(), k + footprint(ts[0]), i - 1);
        lemma_footprint_list_split(ts.take(i), 1);
        assert(ts.take(i).skip(1) =~= ts.take(i).drop_first());
        assert(ts.take(i).take(1) =~= seq![ts[0]]);
    }
}

/// The model of an exec pull result.
pub open spec fn res_view(r: Result<Value, Error>) -> Result<ValueView, Error> {
    match r {
        Ok(v) => Ok(val_view(v)),
        Err(e) => Err(e),
    }
}

/// The model of an exec field-list pull result.
pub open spec fn res_views(r: Result<Vec<Value>, Error>) -> Result<Seq<ValueView>, Error> {
    match r {
        Ok(vs) => Ok(val_views(vs@)),
        Err(e) => Err(e),
    }
}

/// Writes `v`'s fields in declaration order, each field consuming and
/// advancing the cursor by its own footprint.
pub fn push_spread(v: &Value, t: &TypeDesc, store: &mut Store, cur: &mut Cursor)
    requires
        conforms(v@, t@),
        old(cur)@ + footprint(t@) <= KEY_SPACE,
    ensures
        final(cur)@ == old(cur)@ + footprint(t@),
        final(store)@ == spec_push(old(store)@, v@, t@, old(cur)@),
    decreases *t, 0int,
{
    match t {
        TypeDesc::Leaf => {
            if let Value::Leaf(n) = v {
                let k = cur.slot();
                cur.advance_by(1);
                store.set(k, encode_leaf(*n));
            } else {
                proof {
                    assert(false);
                }
            }
        },
        TypeDesc::Struct(fields) => {
            if let Value::Struct(vals) = v {
                push_fields(vals.as_slice(), fields.as_slice(), store, cur);
            } else {
                proof {
                    assert(false);
                }
            }
        },
        TypeDesc::Array(elem, len) => {
            if let Value::Array(vals) = v {
                proof {
                    lemma_val_views_len(vals@);
                }
                push_elems(vals.as_slice(), elem, store, cur);
            } else {
                proof {
                    assert(false);
                }
            }
        },
        TypeDesc::Enum(variants) => {
            if let Value::Enum(d, vals) = v {
                proof {
                    lemma_variant_views_len(variants@);
                    lemma_variant_views_index(variants@, *d as int);
                    lemma_footprint_variants_bound(variant_views(variants@), *d as int);
                }
                let kstart = cur.key();
                let k = cur.slot();
                cur.advance_by(1);
                store.set(k, encode_leaf(*d));
                push_fields(vals.as_slice(), variants[*d as usize].as_slice(), store, cur);
                let fpt = t.footprint_of();
                let know = cur.key();
                cur.advance_by(fpt - (know - kstart));
            } else {
                proof {
                    assert(false);
                }
            }
        },
    }
}

/// Pushes a field list left to right.
fn push_fields(vs: &[Value], ts: &[TypeDesc], store: &mut Store, cur: &mut Cursor)
    requires
        conforms_list(val_views(vs@), ty_views(ts@)),
        old(cur)@ + footprint_list(ty_views(ts@)) <= KEY_SPACE,
    ensures
        final(cur)@ == old(cur)@ + footprint_list(ty_views(ts@)),
        final(store)@ == spec_push_list(
            old(store)@,
            val_views(vs@),
            ty_views(ts@),
            old(cur)@,
        ),
    decreases ts@, 0int,
{
    proof {
        lemma_ty_views_len(ts@);
        lemma_val_views_len(vs@);
    }
    if ts.len() > 0 {
        proof {
            lemma_ty_views_index(ts@, 0);
            lemma_val_views_index(vs@, 0);
            assert(ts@.subrange(1, ts@.len() as int) =~= ts@.drop_first());
            assert(vs@.subrange(1, vs@.len() as int) =~= vs@.drop_first());
            assert(ty_views(ts@).drop_first() =~= ty_views(ts@.drop_first()));
            assert(val_views(vs@).drop_first() =~= val_views(vs@.drop_first()));
        }
        push_spread(&vs[0], &ts[0], store, cur);
        push_fields(
            vstd::slice::slice_subrange(vs, 1, vs.len()),
            vstd::slice::slice_subrange(ts, 1, ts.len()),
            store,
            cur,
        );
    }
}

/// Pushes array elements left to right with the element footprint as
/// stride.
fn push_elems(vs: &[Value], elem: &TypeDesc, store: &mut Store, cur: &mut Cursor)
    requires
        conforms_array(val_views(vs@), elem@, vs@.len() as int),
        old(cur)@ + vs@.len() * footprint(elem@) <= KEY_SPACE,
    ensures
        final(cur)@ == old(cur)@ + vs@.len() * footprint(elem@),
        final(store)@ == spec_push_array(old(store)@, val_views(vs@), elem@, old(cur)@),
    decreases *elem, vs@.len(),
{
    proof {
        lemma_val_views_len(vs@);
    }
    if vs.len() > 0 {
        let ghost f = footprint(elem@) as int;
        let ghost n = vs@.len() as int;
        proof {
            lemma_val_views_index(vs@, 0);
            assert(vs@.subrange(1, vs@.len() as int) =~= vs@.drop_first());
            assert(val_views(vs@).drop_first() =~= val_views(vs@.drop_first()));
            assert((n - 1) * f == n * f - f) by (nonlinear_arith);
            assert(f <= n * f) by (nonlinear_arith)
                requires
                    n >= 1 && f >= 0,
            ;
        }
        push_spread(&vs[0], elem, store, cur);
        push_elems(vstd::slice::slice_subrange(vs, 1, vs.len()), elem, store, cur);
    } else {
        proof {
            assert(vs@.len() * footprint(elem@) == 0) by (nonlinear_arith)
                requires
                    vs@.len() == 0,
            ;
        }
    }
}

/// Reads a value of type `t` from the cursor position, consuming exactly
/// the type's footprint whether or not the read succeeds.
///
/// Returns [`Error::NotFound`] when a required slot is absent and
/// [`Error::DecodeFailure`] when stored bytes are malformed for `t`, as
/// [`spec_pull`] prescribes slot by slot.
pub fn pull_spread(t: &TypeDesc, store: &Store, cur: &mut Cursor) -> (r: Result<Value, Error>)
    requires
        old(cur)@ + footprint(t@) <= KEY_SPACE,
    ensures
        final(cur)@ == old(cur)@ + footprint(t@),
        res_view(r) == spec_pull(store@, t@, old(cur)@),
    decreases *t, 0int,
{
    match t {
        TypeDesc::Leaf => {
            let k = cur.slot();
            cur.advance_by(1);
            match store.get(k) {
                None => Err(Error::NotFound),
                Some(bytes) => {
                    if bytes.len() != 4 {
                        Err(Error::DecodeFailure)
                    } else {
                        Ok(Value::Leaf(decode_leaf(bytes.as_slice())))
                    }
                },
            }
        },
        TypeDesc::Struct(fields) => {
            match pull_fields(fields.as_slice(), store, cur) {
                Ok(vals) => Ok(Value::Struct(vals)),
                Err(e) => Err(e),
            }
        },
        TypeDesc::Array(elem, len) => {
            match pull_elems(elem, *len, store, cur) {
                Ok(vals) => Ok(Value::Array(vals)),
                Err(e) => Err(e),
            }
        },
        TypeDesc::Enum(variants) => {
            proof {
                lemma_variant_views_len(variants@);
            }
            if variants.len() == 0 {
                Err(Error::DecodeFailure)
            } else {
                proof {
                    lemma_footprint_variants_bound(variant_views(variants@), 0);
                }
                let kstart = cur.key();
                let k = cur.slot();
                cur.advance_by(1);
                let fpt = t.footprint_of();
                match store.get(k) {
                    None => {
                        cur.advance_by(fpt - 1);
                        Err(Error::NotFound)
                    },
                    Some(bytes) => {
                        if bytes.len() != 4 {
                            cur.advance_by(fpt - 1);
                            Err(Error::DecodeFailure)
                        } else {
                            let d = decode_leaf(bytes.as_slice());
                            if (d as usize) >= variants.len() {
                                cur.advance_by(fpt - 1);
                                Err(Error::DecodeFailure)
                            } else {
                                proof {
                                    lemma_variant_views_index(variants@, d as int);
                                    lemma_footprint_variants_bound(
                                        variant_views(variants@),
                                        d as int,
                                    );
                                }
                                let r = pull_fields(
                                    variants[d as usize].as_slice(),
                                    store,
                                    cur,
                                );
                                let know = cur.key();
                                cur.advance_by(fpt - (know - kstart));
                                match r {
                                    Ok(vals) => Ok(Value::Enum(d, vals)),
                                    Err(e) => Err(e),
                                }
                            }
                        }
                    },
                }
            }
        },
    }
}

/// Pulls a field list left to right from the keys push assigns them.
fn pull_fields(ts: &[TypeDesc], store: &Store, cur: &mut Cursor) -> (r: Result<Vec<Value>, Error>)
    requires
        old(cur)@ + footprint_list(ty_views(ts@)) <= KEY_SPACE,
    ensures
        final(cur)@ == old(cur)@ + footprint_list(ty_views(ts@)),
        res_views(r) == spec_pull_list(store@, ty_views(ts@), old(cur)@),
    decreases ts@, 0int,
{
    proof {
        lemma_ty_views_len(ts@);
    }
    if ts.len() == 0 {
        let r: Vec<Value> = Vec::new();
        proof {
            assert(val_views(r@) =~= Seq::<ValueView>::empty());
        }
        Ok(r)
    } else {
        proof {
            lemma_ty_views_index(ts@, 0);
            assert(ts@.subrange(1, ts@.len() as int) =~= ts@.drop_first());
            assert(ty_views(ts@).drop_first() =~= ty_views(ts@.drop_first()));
        }
        match pull_spread(&ts[0], store, cur) {
            Err(e) => {
                let n = footprint_of_fields(vstd::slice::slice_subrange(ts, 1, ts.len()));
                cur.advance_by(n);
                Err(e)
            },
            Ok(v) => {
                match pull_fields(vstd::slice::slice_subrange(ts, 1, ts.len()), store, cur) {
                    Err(e) => Err(e),
                    Ok(mut rest) => {
                        let ghost rest0 = rest@;
                        rest.insert(0, v);
                        proof {
                            assert(rest@.drop_first() =~= rest0);
                            lemma_val_views_len(rest@);
                            assert(val_views(rest@) =~= seq![val_view(v)] + val_views(rest0));
                        }
                        Ok(rest)
                    },
                }
            },
        }
    }
}

/// Pulls `len` array elements with the element footprint as stride.
fn pull_elems(elem: &TypeDesc, len: u32, store: &Store, cur: &mut Cursor) -> (r: Result<
    Vec<Value>,
    Error,
>)
    requires
        old(cur)@ + (len as int) * footprint(elem@) <= KEY_SPACE,
    ensures
        final(cur)@ == old(cur)@ + (len as int) * footprint(elem@),
        res_views(r) == spec_pull_array(store@, elem@, len as int, old(cur)@),
    decreases *elem, len,
{
    if len == 0 {
        let r: Vec<Value> = Vec::new();
        proof {
            assert(val_views(r@) =~= Seq::<ValueView>::empty());
            assert((len as int) * footprint(elem@) == 0) by (nonlinear_arith)
                requires
                    len == 0,
            ;
        }
        Ok(r)
    } else {
        let ghost f = footprint(elem@) as int;
        let ghost n = len as int;
        proof {
            assert((n - 1) * f == n * f - f) by (nonlinear_arith);
            assert(f <= n * f) by (nonlinear_arith)
                requires
                    n >= 1 && f >= 0,
            ;
        }
        match pull_spread(elem, store, cur) {
            Err(e) => {
                let fe = elem.footprint_of();
                cur.advance_by(((len - 1) as u64) * fe);
                Err(e)
            },
            Ok(v) => {
                match pull_elems(elem, len - 1, store, cur) {
                    Err(e) => Err(e),
                    Ok(mut rest) => {
                        let ghost rest0 = rest@;
                        rest.insert(0, v);
                        proof {
                            assert(rest@.drop_first() =~= rest0);
                            lemma_val_views_len(rest@);
                            assert(val_views(rest@) =~= seq![val_view(v)] + val_views(rest0));
                        }
                        Ok(rest)
                    },
                }
            },
        }
    }
}

/// Removes the slots `v`'s fields occupy, visiting them in the same
/// order and at the same positions push writes them.
pub fn clear_spread(v: &Value, t: &TypeDesc, store: &mut Store, cur: &mut Cursor)
    requires
        conforms(v@, t@),
        old(cur)@ + footprint(t@) <= KEY_SPACE,
    ensures
        final(cur)@ == old(cur)@ + footprint(t@),
        final(store)@ == spec_clear(old(store)@, v@, t@, old(cur)@),
    decreases *t, 0int,
{
    match t {
        TypeDesc::Leaf => {
            let k = cur.slot();
            cur.advance_by(1);
            store.clear(k);
        },
        TypeDesc::Struct(fields) => {
            if let Value::Struct(vals) = v {
                clear_fields(vals.as_slice(), fields.as_slice(), store, cur);
            } else {
                proof {
                    assert(false);
                }
            }
        },
        TypeDesc::Array(elem, len) => {
            if let Value::Array(vals) = v {
                proof {
                    lemma_val_views_len(vals@);
                }
                clear_elems(vals.as_slice(), elem, store, cur);
            } else {
                proof {
                    assert(false);
                }
            }
        },
        TypeDesc::Enum(variants) => {
            if let Value::Enum(d, vals) = v {
                proof {
                    lemma_variant_views_len(variants@);
                    lemma_variant_views_index(variants@, *d as int);
                    lemma_footprint_variants_bound(variant_views(variants@), *d as int);
                }
                let kstart = cur.key();
                let k = cur.slot();
                cur.advance_by(1);
                store.clear(k);
                clear_fields(vals.as_slice(), variants[*d as usize].as_slice(), store, cur);
                let fpt = t.footprint_of();
                let know = cur.key();
                cur.advance_by(fpt - (know - kstart));
            } else {
                proof {
                    assert(false);
                }
            }
        },
    }
}

/// Clears a field list left to right.
fn clear_fields(vs: &[Value], ts: &[TypeDesc], store: &mut Store, cur: &mut Cursor)
    requires
        conforms_list(val_views(vs@), ty_views(ts@)),
        old(cur)@ + footprint_list(ty_views(ts@)) <= KEY_SPACE,
    ensures
        final(cur)@ == old(cur)@ + footprint_list(ty_views(ts@)),
        final(store)@ == spec_clear_list(
            old(store)@,
            val_views(vs@),
            ty_views(ts@),
            old(cur)@,
        ),
    decreases ts@, 0int,
{
    proof {
        lemma_ty_views_len(ts@);
        lemma_val_views_len(vs@);
    }
    if ts.len() > 0 {
        proof {
            lemma_ty_views_index(ts@, 0);
            lemma_val_views_index(vs@, 0);
            assert(ts@.subrange(1, ts@.len() as int) =~= ts@.drop_first());
            assert(vs@.subrange(1, vs@.len() as int) =~= vs@.drop_first());
            assert(ty_views(ts@).drop_first() =~= ty_views(ts@.drop_first()));
            assert(val_views(vs@).drop_first() =~= val_views(vs@.drop_first()));
        }
        clear_spread(&vs[0], &ts[0], store, cur);
        clear_fields(
            vstd::slice::slice_subrange(vs, 1, vs.len()),
            vstd::slice::slice_subrange(ts, 1, ts.len()),
            store,
            cur,
        );
    }
}

/// Clears array elements left to right with the element footprint as
/// stride.
fn clear_elems(vs: &[Value], elem: &TypeDesc, store: &mut Store, cur: &mut Cursor)
    requires
        conforms_array(val_views(vs@), elem@, vs@.len() as int),
        old(cur)@ + vs@.len() * footprint(elem@) <= KEY_SPACE,
    ensures
        final(cur)@ == old(cur)@ + vs@.len() * footprint(elem@),
        final(store)@ == spec_clear_array(old(store)@, val_views(vs@), elem@, old(cur)@),
    decreases *elem, vs@.len(),
{
    proof {
        lemma_val_views_len(vs@);
    }
    if vs.len() > 0 {
        let ghost f = footprint(elem@) as int;
        let ghost n = vs@.len() as int;
        proof {
            lemma_val_views_index(vs@, 0);
            assert(vs@.subrange(1, vs@.len() as int) =~= vs@.drop_first());
            assert(val_views(vs@).drop_first() =~= val_views(vs@.drop_first()));
            assert((n - 1) * f == n * f - f) by (nonlinear_arith);
            assert(f <= n * f) by (nonlinear_arith)
                requires
                    n >= 1 && f >= 0,
            ;
        }
        clear_spread(&vs[0], elem, store, cur);
        clear_elems(vstd::slice::slice_subrange(vs, 1, vs.len()), elem, store, cur);
    } else {
        proof {
            assert(vs@.len() * footprint(elem@) == 0) by (nonlinear_arith)
                requires
                    vs@.len() == 0,
            ;
        }
    }
}

/// Produces the default value of `t` while advancing the cursor exactly
/// as pull would, without issuing any read against the store.
pub fn allocate_spread(t: &TypeDesc, cur: &mut Cursor) -> (v: Value)
    requires
        crate::desc::wf_ty(t@),
        old(cur)@ + footprint(t@) <= KEY_SPACE,
    ensures
        final(cur)@ == old(cur)@ + footprint(t@),
        v@ == default_value(t@),
        conforms(v@, t@),
    decreases *t, 0int,
{
    proof {
        crate::value::lemma_default_conforms(t@);
    }
    match t {
        TypeDesc::Leaf => {
            cur.advance_by(1);
            Value::Leaf(0)
        },
        TypeDesc::Struct(fields) => {
            let vals = allocate_fields(fields.as_slice(), cur);
            Value::Struct(vals)
        },
        TypeDesc::Array(elem, len) => {
            let vals = allocate_elems(elem, *len, cur);
            Value::Array(vals)
        },
        TypeDesc::Enum(variants) => {
            proof {
                lemma_variant_views_len(variants@);
                lemma_variant_views_index(variants@, 0);
                lemma_footprint_variants_bound(variant_views(variants@), 0);
                assert(crate::desc::wf_ty_variants(variant_views(variants@)));
                assert(crate::desc::wf_ty_list(variant_views(variants@)[0]));
            }
            let kstart = cur.key();
            cur.advance_by(1);
            let vals = allocate_fields(variants[0].as_slice(), cur);
            let fpt = t.footprint_of();
            let know = cur.key();
            cur.advance_by(fpt - (know - kstart));
            Value::Enum(0, vals)
        },
    }
}

/// Allocates default values for a field list.
fn allocate_fields(ts: &[TypeDesc], cur: &mut Cursor) -> (vs: Vec<Value>)
    requires
        crate::desc::wf_ty_list(ty_views(ts@)),
        old(cur)@ + footprint_list(ty_views(ts@)) <= KEY_SPACE,
    ensures
        final(cur)@ == old(cur)@ + footprint_list(ty_views(ts@)),
        val_views(vs@) == default_list(ty_views(ts@)),
    decreases ts@, 0int,
{
    proof {
        lemma_ty_views_len(ts@);
    }
    if ts.len() == 0 {
        let vs: Vec<Value> = Vec::new();
        proof {
            assert(val_views(vs@) =~= default_list(ty_views(ts@)));
        }
        vs
    } else {
        proof {
            lemma_ty_views_index(ts@, 0);
            assert(ts@.subrange(1, ts@.len() as int) =~= ts@.drop_first());
            assert(ty_views(ts@).drop_first() =~= ty_views(ts@.drop_first()));
        }
        let v = allocate_spread(&ts[0], cur);
        let mut rest = allocate_fields(vstd::slice::slice_subrange(ts, 1, ts.len()), cur);
        let ghost rest0 = rest@;
        rest.insert(0, v);
        proof {
            assert(rest@.drop_first() =~= rest0);
            lemma_val_views_len(rest@);
            assert(val_views(rest@) =~= seq![val_view(v)] + val_views(rest0));
        }
        rest
    }
}

/// Allocates `len` default array elements.
fn allocate_elems(elem: &TypeDesc, len: u32, cur: &mut Cursor) -> (vs: Vec<Value>)
    requires
        crate::desc::wf_ty(elem@),
        old(cur)@ + (len as int) * footprint(elem@) <= KEY_SPACE,
    ensures
        final(cur)@ == old(cur)@ + (len as int) * footprint(elem@),
        val_views(vs@) == default_array(elem@, len as int),
    decreases *elem, len,
{
    if len == 0 {
        let vs: Vec<Value> = Vec::new();
        proof {
            assert(val_views(vs@) =~= default_array(elem@, len as int));
            assert((len as int) * footprint(elem@) == 0) by (nonlinear_arith)
                requires
                    len == 0,
            ;
        }
        vs
    } else {
        let ghost f = footprint(elem@) as int;
        let ghost n = len as int;
        proof {
            assert((n - 1) * f == n * f - f) by (nonlinear_arith);
            assert(f <= n * f) by (nonlinear_arith)
                requires
                    n >= 1 && f >= 0,
            ;
        }
        let v = allocate_spread(elem, cur);
        let mut rest = allocate_elems(elem, len - 1, cur);
        let ghost rest0 = rest@;
        rest.insert(0, v);
        proof {
            assert(rest@.drop_first() =~= rest0);
            lemma_val_views_len(rest@);
            assert(val_views(rest@) =~= seq![val_view(v)] + val_views(rest0));
        }
        rest
    }
}

} // verus!
