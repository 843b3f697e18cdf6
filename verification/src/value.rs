//! Structured values and their conformance to type descriptors.
//!
//! A [`Value`] is the runtime shape of a piece of structured state: a
//! tagged tree whose leaves are packed scalars.  A value *conforms* to a
//! [`TypeDesc`](crate::desc::TypeDesc) when its tree has exactly the shape
//! the descriptor prescribes; persistence operations require and preserve
//! conformance.

use vstd::prelude::*;

use crate::desc::TypeDesc;
use crate::desc::TypeDescView;
use crate::desc::ty_views;
use crate::desc::lemma_ty_views_len;
use crate::desc::lemma_ty_views_index;
use crate::desc::lemma_variant_views_len;
use crate::desc::lemma_variant_views_index;

verus! {

/// The mathematical model of a structured value.
pub enum ValueView {
    Leaf(u32),
    Struct(Seq<ValueView>),
    Array(Seq<ValueView>),
    Enum(u32, Seq<ValueView>),
}

/// A structured value, shaped as the tagged tree its type prescribes.
#[derive(Debug, PartialEq)]
pub enum Value {
    /// One packed scalar, occupying a single slot.
    Leaf(u32),
    /// Field values in declaration order.
    Struct(Vec<Value>),
    /// Element values.
    Array(Vec<Value>),
    /// The active variant's discriminant and its field values.
    Enum(u32, Vec<Value>),
}

/// The model of one value.
pub open spec fn val_view(v: Value) -> ValueView
    decreases v, 0int,
{
    match v {
        Value::Leaf(n) => ValueView::Leaf(n),
        Value::Struct(fields) => ValueView::Struct(val_views(fields@)),
        Value::Array(elems) => ValueView::Array(val_views(elems@)),
        Value::Enum(d, fields) => ValueView::Enum(d, val_views(fields@)),
    }
}

/// The models of a list of values.
pub open spec fn val_views(vs: Seq<Value>) -> Seq<ValueView>
    decreases vs, 0int,
{
    if vs.len() == 0 {
        Seq::empty()
    } else {
        seq![val_view(vs[0])] + val_views(vs.drop_first())
    }
}

impl View for Value {
    type V = ValueView;

    open spec fn view(&self) -> ValueView {
        val_view(*self)
    }
}

pub proof fn lemma_val_views_len(vs: Seq<Value>)
    ensures
        val_views(vs).len() == vs.len(),
    decreases vs,
{
    if vs.len() > 0 {
        lemma_val_views_len(vs.drop_first());
    }
}

pub proof fn lemma_val_views_index(vs: Seq<Value>, i: int)
    requires
        0 <= i < vs.len(),
    ensures
        val_views(vs).len() == vs.len(),
        val_views(vs)[i] == val_view(vs[i]),
    decreases vs,
{
    lemma_val_views_len(vs);
    if i > 0 {
        lemma_val_views_index(vs.drop_first(), i - 1);
    }
}

/// Whether value `v` has exactly the shape descriptor `t` prescribes.
pub open spec fn conforms(v: ValueView, t: TypeDescView) -> bool
    decreases t, 0int,
{
    match t {
        TypeDescView::Leaf => v is Leaf,
        TypeDescView::Struct(fields) => v matches ValueView::Struct(vals)
            && conforms_list(vals, fields),
        TypeDescView::Array(elem, len) => v matches ValueView::Array(vals)
            && conforms_array(vals, *elem, len as int),
        TypeDescView::Enum(variants) => v matches ValueView::Enum(d, vals)
            && (d as int) < variants.len() && conforms_list(vals, variants[d as int]),
    }
}

/// Pairwise conformance of field values to field types.
pub open spec fn conforms_list(vs: Seq<ValueView>, ts: Seq<TypeDescView>) -> bool
    decreases ts, 0int,
{
    if ts.len() == 0 {
        vs.len() == 0
    } else {
        vs.len() == ts.len() && conforms(vs[0], ts[0]) && conforms_list(
            vs.drop_first(),
            ts.drop_first(),
        )
    }
}

/// Conformance of `len` array elements to the element type.
pub open spec fn conforms_array(vs: Seq<ValueView>, elem: TypeDescView, len: int) -> bool
    decreases elem, len,
{
    if len <= 0 {
        vs.len() == 0
    } else {
        vs.len() == len && conforms(vs[0], elem) && conforms_array(vs.drop_first(), elem, len - 1)
    }
}

/// The default value of a type: zero at every leaf, and the first variant
/// of every enum.
pub open spec fn default_value(t: TypeDescView) -> ValueView
    decreases t, 0int,
{
    match t {
        TypeDescView::Leaf => ValueView::Leaf(0),
        TypeDescView::Struct(fields) => ValueView::Struct(default_list(fields)),
        TypeDescView::Array(elem, len) => ValueView::Array(default_array(*elem, len as int)),
        TypeDescView::Enum(variants) => if variants.len() == 0 {
            ValueView::Enum(0, Seq::empty())
        } else {
            ValueView::Enum(0, default_list(variants[0]))
        },
    }
}

pub open spec fn default_list(ts: Seq<TypeDescView>) -> Seq<ValueView>
    decreases ts, 0int,
{
    if ts.len() == 0 {
        Seq::empty()
    } else {
        seq![default_value(ts[0])] + default_list(ts.drop_first())
    }
}

pub open spec fn default_array(elem: TypeDescView, len: int) -> Seq<ValueView>
    decreases elem, len,
{
    if len <= 0 {
        Seq::empty()
    } else {
        seq![default_value(elem)] + default_array(elem, len - 1)
    }
}

/// The default value of a well-formed type conforms to it.
pub proof fn lemma_default_conforms(t: TypeDescView)
    requires
        crate::desc::wf_ty(t),
    ensures
        conforms(default_value(t), t),
    decreases t, 0int,
{
    match t {
        TypeDescView::Leaf => {},
        TypeDescView::Struct(fields) => {
            lemma_default_list_conforms(fields);
        },
        TypeDescView::Array(elem, len) => {
            lemma_default_array_conforms(*elem, len as int);
        },
        TypeDescView::Enum(variants) => {
            assert(crate::desc::wf_ty_variants(variants));
            assert(crate::desc::wf_ty_list(variants[0]));
            lemma_default_list_conforms(variants[0]);
        },
    }
}

pub proof fn lemma_default_list_conforms(ts: Seq<TypeDescView>)
    requires
        crate::desc::wf_ty_list(ts),
    ensures
        conforms_list(default_list(ts), ts),
    decreases ts, 0int,
{
    if ts.len() > 0 {
        lemma_default_conforms(ts[0]);
        lemma_default_list_conforms(ts.drop_first());
        lemma_default_list_len(ts);
        assert(default_list(ts).drop_first() =~= default_list(ts.drop_first()));
    }
}

pub proof fn lemma_default_array_conforms(elem: TypeDescView, len: int)
    requires
        crate::desc::wf_ty(elem),
    ensures
        conforms_array(default_array(elem, len), elem, len),
    decreases elem, len,
{
    if len > 0 {
        lemma_default_conforms(elem);
        lemma_default_array_conforms(elem, len - 1);
        lemma_default_array_len(elem, len);
        assert(default_array(elem, len).drop_first() =~= default_array(elem, len - 1));
    }
}

pub proof fn lemma_default_list_len(ts: Seq<TypeDescView>)
    ensures
        default_list(ts).len() == ts.len(),
    decreases ts,
{
    if ts.len() > 0 {
        lemma_default_list_len(ts.drop_first());
    }
}

pub proof fn lemma_default_array_len(elem: TypeDescView, len: int)
    ensures
        default_array(elem, len).len() == if len <= 0 { 0int } else { len },
    decreases len,
{
    if len > 0 {
        lemma_default_array_len(elem, len - 1);
    }
}

/// Checks whether `v` conforms to `t`.
pub fn conforms_to(v: &Value, t: &TypeDesc) -> (r: bool)
    ensures
        r == conforms(v@, t@),
    decreases *t, 0int,
{
    match t {
        TypeDesc::Leaf => matches!(v, Value::Leaf(_)),
        TypeDesc::Struct(fields) => match v {
            Value::Struct(vals) => conforms_to_list(vals.as_slice(), fields.as_slice()),
            _ => false,
        },
        TypeDesc::Array(elem, len) => match v {
            Value::Array(vals) => conforms_to_array(vals.as_slice(), elem, *len),
            _ => false,
        },
        TypeDesc::Enum(variants) => match v {
            Value::Enum(d, vals) => {
                proof {
                    lemma_variant_views_len(variants@);
                }
                if (*d as usize) < variants.len() {
                    proof {
                        lemma_variant_views_index(variants@, *d as int);
                    }
                    conforms_to_list(vals.as_slice(), variants[*d as usize].as_slice())
                } else {
                    false
                }
            },
            _ => false,
        },
    }
}

fn conforms_to_list(vs: &[Value], ts: &[TypeDesc]) -> (r: bool)
    ensures
        r == conforms_list(crate::value::val_views(vs@), ty_views(ts@)),
    decreases ts@, 0int,
{
    proof {
        lemma_ty_views_len(ts@);
        lemma_val_views_len(vs@);
    }
    if ts.len() == 0 {
        vs.len() == 0
    } else if vs.len() != ts.len() {
        false
    } else {
        proof {
            lemma_ty_views_index(ts@, 0);
            lemma_val_views_index(vs@, 0);
            assert(ts@.subrange(1, ts@.len() as int) =~= ts@.drop_first());
            assert(vs@.subrange(1, vs@.len() as int) =~= vs@.drop_first());
            assert(ty_views(ts@).drop_first() =~= ty_views(ts@.drop_first()));
            assert(val_views(vs@).drop_first() =~= val_views(vs@.drop_first()));
        }
        conforms_to(&vs[0], &ts[0]) && conforms_to_list(
            vstd::slice::slice_subrange(vs, 1, vs.len()),
            vstd::slice::slice_subrange(ts, 1, ts.len()),
        )
    }
}

fn conforms_to_array(vs: &[Value], elem: &TypeDesc, len: u32) -> (r: bool)
    ensures
        r == conforms_array(val_views(vs@), elem@, len as int),
    decreases *elem, len,
{
    proof {
        lemma_val_views_len(vs@);
    }
    if len == 0 {
        vs.len() == 0
    } else if vs.len() != len as usize {
        false
    } else {
        proof {
            lemma_val_views_index(vs@, 0);
            assert(vs@.subrange(1, vs@.len() as int) =~= vs@.drop_first());
            assert(val_views(vs@).drop_first() =~= val_views(vs@.drop_first()));
        }
        conforms_to(&vs[0], elem) && conforms_to_array(
            vstd::slice::slice_subrange(vs, 1, vs.len()),
            elem,
            len - 1,
        )
    }
}

/// Deep-copies a value.
pub fn clone_value(v: &Value) -> (r: Value)
    ensures
        r@ == v@,
    decreases *v, 0int,
{
    match v {
        Value::Leaf(n) => Value::Leaf(*n),
        Value::Struct(vals) => Value::Struct(clone_values(vals.as_slice())),
        Value::Array(vals) => Value::Array(clone_values(vals.as_slice())),
        Value::Enum(d, vals) => Value::Enum(*d, clone_values(vals.as_slice())),
    }
}

/// Deep-copies a list of values.
fn clone_values(vs: &[Value]) -> (r: Vec<Value>)
    ensures
        val_views(r@) == val_views(vs@),
    decreases vs@, 0int,
{
    if vs.len() == 0 {
        let r: Vec<Value> = Vec::new();
        proof {
            assert(val_views(r@) =~= val_views(vs@));
        }
        r
    } else {
        proof {
            assert(vs@.subrange(1, vs@.len() as int) =~= vs@.drop_first());
        }
        let v = clone_value(&vs[0]);
        let mut rest = clone_values(vstd::slice::slice_subrange(vs, 1, vs.len()));
        let ghost rest0 = rest@;
        rest.insert(0, v);
        proof {
            assert(rest@.drop_first() =~= rest0);
            assert(val_views(rest@) =~= seq![val_view(v)] + val_views(rest0));
        }
        rest
    }
}

} // verus!
