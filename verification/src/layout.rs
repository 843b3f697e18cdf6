//! The layout description model.
//!
//! A layout is a tagged tree describing where and how a type's data lives
//! in the store: a cell (one slot with a key and a type), a struct of
//! named-or-unnamed field layouts, an array, an enum (a dispatch key plus
//! per-discriminant variant bodies), or a hash-collection (a root key, a
//! hashing strategy and one element's layout).  Building a layout never
//! touches the store; it only records keys and type identities from
//! static type information.
//!
//! The type parameter is the form the cells' type information takes:
//! full [`TypeDescriptor`]s while a layout is being built, and small
//! integer handles in the portable form the
//! [`Registry`](crate::registry::Registry) compacts it into.

use vstd::prelude::*;

use crate::registry::Registry;
use crate::registry::TypeDescriptor;
use crate::registry::spec_register;

verus! {

/// A key of the storage layout, rendered for metadata as a fixed-width
/// hexadecimal string.
pub struct LayoutKey {
    pub key: u32,
}

impl View for LayoutKey {
    type V = u32;

    open spec fn view(&self) -> u32 {
        self.key
    }
}

impl LayoutKey {
    /// Wraps a raw storage key.
    pub fn new(key: u32) -> (r: LayoutKey)
        ensures
            r@ == key,
    {
        LayoutKey { key }
    }
}

/// The value of an enum's discriminant.
pub struct Discriminant(pub u32);

impl View for Discriminant {
    type V = u32;

    open spec fn view(&self) -> u32 {
        self.0
    }
}

/// The hash functions a hashing strategy can name.
#[derive(Clone, Copy, PartialEq, Eq, Structural, Debug)]
pub enum CryptoHasher {
    Blake2x256,
    Sha2x256,
    Keccak256,
}

/// A hashing strategy: a hasher identity plus the prefix and postfix
/// bytes that namespace derived keys, so collisions across sibling
/// collections are structurally avoided.
pub struct HashingStrategy {
    pub hasher: CryptoHasher,
    pub prefix: Vec<u8>,
    pub postfix: Vec<u8>,
}

impl View for HashingStrategy {
    type V = (CryptoHasher, Seq<u8>, Seq<u8>);

    open spec fn view(&self) -> (CryptoHasher, Seq<u8>, Seq<u8>) {
        (self.hasher, self.prefix@, self.postfix@)
    }
}

impl HashingStrategy {
    /// Creates the strategy from its three parts.
    pub fn new(hasher: CryptoHasher, prefix: Vec<u8>, postfix: Vec<u8>) -> (r: HashingStrategy)
        ensures
            r@ == (hasher, prefix@, postfix@),
    {
        HashingStrategy { hasher, prefix, postfix }
    }
}

/// A single slot holding a packed-encoded value.
pub struct CellLayout<T> {
    pub key: LayoutKey,
    pub ty: T,
}

/// One field of a struct layout: an optional name and the field's own
/// layout.
pub struct FieldLayout<T> {
    pub name: Option<Vec<u8>>,
    pub layout: Layout<T>,
}

/// An ordered sequence of field layouts.
pub struct StructLayout<T> {
    pub fields: Vec<FieldLayout<T>>,
}

/// A dispatch key plus one struct body per discriminant.
pub struct EnumLayout<T> {
    pub dispatch_key: LayoutKey,
    pub variants: Vec<(Discriminant, StructLayout<T>)>,
}

/// An array of `len` elements laid out with a fixed per-element stride.
pub struct ArrayLayout<T> {
    pub offset: LayoutKey,
    pub len: u32,
    pub cells_per_elem: u64,
    pub elem: Box<Layout<T>>,
}

/// An unbounded collection: a root key, the strategy deriving element
/// keys, and one stored element's layout.
pub struct HashLayout<T> {
    pub offset: LayoutKey,
    pub strategy: HashingStrategy,
    pub elem: Box<Layout<T>>,
}

/// Where and how a type's data lives in the store.
pub enum Layout<T> {
    Cell(CellLayout<T>),
    Struct(StructLayout<T>),
    Array(ArrayLayout<T>),
    Enum(EnumLayout<T>),
    Hash(HashLayout<T>),
}

/// The portable form: cells carry registry handles instead of full type
/// descriptors.
pub type PortableLayout = Layout<usize>;

/// The model of one field layout.
pub struct FieldLayoutView<TV> {
    pub name: Option<Seq<u8>>,
    pub layout: LayoutView<TV>,
}

/// The model of a layout tree.
pub enum LayoutView<TV> {
    Cell { key: u32, ty: TV },
    Struct { fields: Seq<FieldLayoutView<TV>> },
    Array { offset: u32, len: u32, stride: u64, elem: Box<LayoutView<TV>> },
    Enum { dispatch_key: u32, variants: Seq<(u32, Seq<FieldLayoutView<TV>>)> },
    Hash {
        offset: u32,
        hasher: CryptoHasher,
        prefix: Seq<u8>,
        postfix: Seq<u8>,
        elem: Box<LayoutView<TV>>,
    },
}

/// The model of one layout.
pub open spec fn layout_view<T: View>(l: Layout<T>) -> LayoutView<T::V>
    decreases l, 0int,
{
    match l {
        Layout::Cell(c) => LayoutView::Cell { key: c.key@, ty: c.ty@ },
        Layout::Struct(s) => LayoutView::Struct { fields: fields_view(s.fields@) },
        Layout::Array(a) => LayoutView::Array {
            offset: a.offset@,
            len: a.len,
            stride: a.cells_per_elem,
            elem: Box::new(layout_view(*a.elem)),
        },
        Layout::Enum(e) => LayoutView::Enum {
            dispatch_key: e.dispatch_key@,
            variants: variants_view(e.variants@),
        },
        Layout::Hash(h) => LayoutView::Hash {
            offset: h.offset@,
            hasher: h.strategy.hasher,
            prefix: h.strategy.prefix@,
            postfix: h.strategy.postfix@,
            elem: Box::new(layout_view(*h.elem)),
        },
    }
}

/// The models of a field-layout list.
pub open spec fn fields_view<T: View>(fs: Seq<FieldLayout<T>>) -> Seq<FieldLayoutView<T::V>>
    decreases fs, 0int,
{
    if fs.len() == 0 {
        Seq::empty()
    } else {
        let name = match fs[0].name {
            Some(n) => Some(n@),
            None => None,
        };
        seq![FieldLayoutView { name, layout: layout_view(fs[0].layout) }] + fields_view(
            fs.drop_first(),
        )
    }
}

/// The models of an enum's variant list.
pub open spec fn variants_view<T: View>(vs: Seq<(Discriminant, StructLayout<T>)>) -> Seq<
    (u32, Seq<FieldLayoutView<T::V>>),
>
    decreases vs, 0int,
{
    if vs.len() == 0 {
        Seq::empty()
    } else {
        seq![(vs[0].0@, fields_view(vs[0].1.fields@))] + variants_view(vs.drop_first())
    }
}

impl<T: View> View for Layout<T> {
    type V = LayoutView<T::V>;

    open spec fn view(&self) -> LayoutView<T::V> {
        layout_view(*self)
    }
}

impl<T: View> View for FieldLayout<T> {
    type V = FieldLayoutView<T::V>;

    open spec fn view(&self) -> FieldLayoutView<T::V> {
        FieldLayoutView {
            name: match self.name {
                Some(n) => Some(n@),
                None => None,
            },
            layout: layout_view(self.layout),
        }
    }
}

impl<T: View> View for StructLayout<T> {
    type V = Seq<FieldLayoutView<T::V>>;

    open spec fn view(&self) -> Seq<FieldLayoutView<T::V>> {
        fields_view(self.fields@)
    }
}

impl<T: View> View for EnumLayout<T> {
    type V = (u32, Seq<(u32, Seq<FieldLayoutView<T::V>>)>);

    open spec fn view(&self) -> (u32, Seq<(u32, Seq<FieldLayoutView<T::V>>)>) {
        (self.dispatch_key@, variants_view(self.variants@))
    }
}

pub proof fn lemma_fields_view_len<T: View>(fs: Seq<FieldLayout<T>>)
    ensures
        fields_view(fs).len() == fs.len(),
    decreases fs,
{
    if fs.len() > 0 {
        lemma_fields_view_len(fs.drop_first());
    }
}

pub proof fn lemma_fields_view_index<T: View>(fs: Seq<FieldLayout<T>>, i: int)
    requires
        0 <= i < fs.len(),
    ensures
        fields_view(fs).len() == fs.len(),
        fields_view(fs)[i] == fs[i]@,
    decreases fs,
{
    lemma_fields_view_len(fs);
    if i > 0 {
        lemma_fields_view_index(fs.drop_first(), i - 1);
    }
}

pub proof fn lemma_variants_view_len<T: View>(vs: Seq<(Discriminant, StructLayout<T>)>)
    ensures
        variants_view(vs).len() == vs.len(),
    decreases vs,
{
    if vs.len() > 0 {
        lemma_variants_view_len(vs.drop_first());
    }
}

pub proof fn lemma_variants_view_index<T: View>(vs: Seq<(Discriminant, StructLayout<T>)>, i: int)
    requires
        0 <= i < vs.len(),
    ensures
        variants_view(vs).len() == vs.len(),
        variants_view(vs)[i] == (vs[i].0@, fields_view(vs[i].1.fields@)),
    decreases vs,
{
    lemma_variants_view_len(vs);
    if i > 0 {
        lemma_variants_view_index(vs.drop_first(), i - 1);
    }
}

impl<T> CellLayout<T> {
    /// Creates a cell at `key` whose contents have type `ty`.
    pub fn new(key: LayoutKey, ty: T) -> (r: CellLayout<T>)
        ensures
            r.key == key,
            r.ty == ty,
    {
        CellLayout { key, ty }
    }
}

impl<T> FieldLayout<T> {
    /// Creates a field from its optional name and its layout.
    pub fn new(name: Option<Vec<u8>>, layout: Layout<T>) -> (r: FieldLayout<T>)
        ensures
            r.name == name,
            r.layout == layout,
    {
        FieldLayout { name, layout }
    }
}

impl<T> StructLayout<T> {
    /// Creates a struct layout from its fields, in declaration order.
    pub fn new(fields: Vec<FieldLayout<T>>) -> (r: StructLayout<T>)
        ensures
            r.fields == fields,
    {
        StructLayout { fields }
    }
}

impl<T> EnumLayout<T> {
    /// Creates an enum layout whose dispatch key is the enum's root key.
    pub fn new(key: LayoutKey, variants: Vec<(Discriminant, StructLayout<T>)>) -> (r: EnumLayout<
        T,
    >)
        ensures
            r.dispatch_key == key,
            r.variants == variants,
    {
        EnumLayout { dispatch_key: key, variants }
    }
}

impl<T> HashLayout<T> {
    /// Creates a hash-collection layout from its root key, strategy and
    /// element layout.
    pub fn new(offset: LayoutKey, strategy: HashingStrategy, elem: Layout<T>) -> (r: HashLayout<
        T,
    >)
        ensures
            r.offset == offset,
            r.strategy == strategy,
            *r.elem == elem,
    {
        HashLayout { offset, strategy, elem: Box::new(elem) }
    }
}

/// What compacting a layout against a registry table yields: the portable
/// tree with each cell's descriptor replaced by its handle, and the table
/// extended with every descriptor not yet registered, in first-encounter
/// order.
pub open spec fn spec_portable(l: LayoutView<Seq<u8>>, regs: Seq<Seq<u8>>) -> (
    LayoutView<usize>,
    Seq<Seq<u8>>,
)
    decreases l, 0int,
{
    match l {
        LayoutView::Cell { key, ty } => {
            let r = spec_register(regs, ty);
            (LayoutView::Cell { key, ty: r.1 as usize }, r.0)
        },
        LayoutView::Struct { fields } => {
            let r = spec_portable_fields(fields, regs);
            (LayoutView::Struct { fields: r.0 }, r.1)
        },
        LayoutView::Array { offset, len, stride, elem } => {
            let r = spec_portable(*elem, regs);
            (LayoutView::Array { offset, len, stride, elem: Box::new(r.0) }, r.1)
        },
        LayoutView::Enum { dispatch_key, variants } => {
            let r = spec_portable_variants(variants, regs);
            (LayoutView::Enum { dispatch_key, variants: r.0 }, r.1)
        },
        LayoutView::Hash { offset, hasher, prefix, postfix, elem } => {
            let r = spec_portable(*elem, regs);
            (LayoutView::Hash { offset, hasher, prefix, postfix, elem: Box::new(r.0) }, r.1)
        },
    }
}

pub open spec fn spec_portable_fields(
    fs: Seq<FieldLayoutView<Seq<u8>>>,
    regs: Seq<Seq<u8>>,
) -> (Seq<FieldLayoutView<usize>>, Seq<Seq<u8>>)
    decreases fs, 0int,
{
    if fs.len() == 0 {
        (Seq::empty(), regs)
    } else {
        let head = spec_portable(fs[0].layout, regs);
        let rest = spec_portable_fields(fs.drop_first(), head.1);
        (seq![FieldLayoutView { name: fs[0].name, layout: head.0 }] + rest.0, rest.1)
    }
}

pub open spec fn spec_portable_variants(
    vs: Seq<(u32, Seq<FieldLayoutView<Seq<u8>>>)>,
    regs: Seq<Seq<u8>>,
) -> (Seq<(u32, Seq<FieldLayoutView<usize>>)>, Seq<Seq<u8>>)
    decreases vs, 0int,
{
    if vs.len() == 0 {
        (Seq::empty(), regs)
    } else {
        let head = spec_portable_fields(vs[0].1, regs);
        let rest = spec_portable_variants(vs.drop_first(), head.1);
        (seq![(vs[0].0, head.0)] + rest.0, rest.1)
    }
}

impl Layout<TypeDescriptor> {
    /// Compacts this layout into its portable form, registering every
    /// distinct cell type descriptor with `registry` the first time it
    /// is seen.
    pub fn into_portable(&self, registry: &mut Registry) -> (r: PortableLayout)
        ensures
            r@ == spec_portable(self@, old(registry)@).0,
            final(registry)@ == spec_portable(self@, old(registry)@).1,
        decreases *self, 0int,
    {
        match self {
            Layout::Cell(c) => {
                let h = registry.register(c.ty.duplicate());
                Layout::Cell(CellLayout { key: LayoutKey { key: c.key.key }, ty: h })
            },
            Layout::Struct(s) => {
                let fields = portable_fields(s.fields.as_slice(), registry);
                Layout::Struct(StructLayout { fields })
            },
            Layout::Array(a) => {
                let elem = a.elem.into_portable(registry);
                Layout::Array(
                    ArrayLayout {
                        offset: LayoutKey { key: a.offset.key },
                        len: a.len,
                        cells_per_elem: a.cells_per_elem,
                        elem: Box::new(elem),
                    },
                )
            },
            Layout::Enum(e) => {
                let variants = portable_variants(e.variants.as_slice(), registry);
                Layout::Enum(
                    EnumLayout { dispatch_key: LayoutKey { key: e.dispatch_key.key }, variants },
                )
            },
            Layout::Hash(h) => {
                let elem = h.elem.into_portable(registry);
                Layout::Hash(
                    HashLayout {
                        offset: LayoutKey { key: h.offset.key },
                        strategy: HashingStrategy {
                            hasher: h.strategy.hasher,
                            prefix: clone_bytes(&h.strategy.prefix),
                            postfix: clone_bytes(&h.strategy.postfix),
                        },
                        elem: Box::new(elem),
                    },
                )
            },
        }
    }
}

/// Compacts a field-layout list left to right.
fn portable_fields(fs: &[FieldLayout<TypeDescriptor>], registry: &mut Registry) -> (r: Vec<
    FieldLayout<usize>,
>)
    ensures
        fields_view(r@) == spec_portable_fields(fields_view(fs@), old(registry)@).0,
        final(registry)@ == spec_portable_fields(fields_view(fs@), old(registry)@).1,
    decreases fs@, 0int,
{
    proof {
        lemma_fields_view_len(fs@);
    }
    if fs.len() == 0 {
        let r: Vec<FieldLayout<usize>> = Vec::new();
        proof {
            assert(fields_view(r@) =~= spec_portable_fields(fields_view(fs@), old(registry)@).0);
        }
        r
    } else {
        proof {
            lemma_fields_view_index(fs@, 0);
            assert(fs@.subrange(1, fs@.len() as int) =~= fs@.drop_first());
            assert(fields_view(fs@).drop_first() =~= fields_view(fs@.drop_first()));
        }
        let name = clone_name(&fs[0].name);
        let layout = fs[0].layout.into_portable(registry);
        let mut rest = portable_fields(
            vstd::slice::slice_subrange(fs, 1, fs.len()),
            registry,
        );
        let ghost rest0 = rest@;
        let head = FieldLayout { name, layout };
        rest.insert(0, head);
        proof {
            assert(rest@.drop_first() =~= rest0);
            lemma_fields_view_len(rest@);
            assert(fields_view(rest@) =~= seq![head@] + fields_view(rest0));
        }
        rest
    }
}

/// Compacts an enum's variant list left to right.
fn portable_variants(
    vs: &[(Discriminant, StructLayout<TypeDescriptor>)],
    registry: &mut Registry,
) -> (r: Vec<(Discriminant, StructLayout<usize>)>)
    ensures
        variants_view(r@) == spec_portable_variants(variants_view(vs@), old(registry)@).0,
        final(registry)@ == spec_portable_variants(variants_view(vs@), old(registry)@).1,
    decreases vs@, 0int,
{
    proof {
        lemma_variants_view_len(vs@);
    }
    if vs.len() == 0 {
        let r: Vec<(Discriminant, StructLayout<usize>)> = Vec::new();
        proof {
            assert(variants_view(r@) =~= spec_portable_variants(
                variants_view(vs@),
                old(registry)@,
            ).0);
        }
        r
    } else {
        proof {
            lemma_variants_view_index(vs@, 0);
            assert(vs@.subrange(1, vs@.len() as int) =~= vs@.drop_first());
            assert(variants_view(vs@).drop_first() =~= variants_view(vs@.drop_first()));
        }
        let fields = portable_fields(vs[0].1.fields.as_slice(), registry);
        let head = (Discriminant(vs[0].0.0), StructLayout { fields });
        let mut rest = portable_variants(
            vstd::slice::slice_subrange(vs, 1, vs.len()),
            registry,
        );
        let ghost rest0 = rest@;
        rest.insert(0, head);
        proof {
            assert(rest@.drop_first() =~= rest0);
            lemma_variants_view_len(rest@);
            assert(variants_view(rest@) =~= seq![(head.0@, fields_view(head.1.fields@))]
                + variants_view(rest0));
        }
        rest
    }
}

/// Copies a byte string.
pub fn clone_bytes(bytes: &Vec<u8>) -> (r: Vec<u8>)
    ensures
        r@ == bytes@,
{
    let mut out: Vec<u8> = Vec::new();
    let mut i: usize = 0;
    while i < bytes.len()
        invariant
            i <= bytes.len(),
            out@ == bytes@.take(i as int),
        decreases bytes.len() - i,
    {
        out.push(bytes[i]);
        proof {
            assert(bytes@.take(i + 1 as int) =~= bytes@.take(i as int).push(bytes@[i as int]));
        }
        i = i + 1;
    }
    proof {
        assert(bytes@.take(bytes@.len() as int) =~= bytes@);
    }
    out
}

/// Copies an optional field name.
fn clone_name(name: &Option<Vec<u8>>) -> (r: Option<Vec<u8>>)
    ensures
        match (r, name) {
            (Some(a), Some(b)) => a@ == b@,
            (None, None) => true,
            _ => false,
        },
{
    match name {
        None => None,
        Some(n) => {
            let mut out: Vec<u8> = Vec::new();
            let mut i: usize = 0;
            while i < n.len()
                invariant
                    i <= n.len(),
                    out@ == n@.take(i as int),
                decreases n.len() - i,
            {
                out.push(n[i]);
                proof {
                    assert(n@.take(i + 1 as int) =~= n@.take(i as int).push(n@[i as int]));
                }
                i = i + 1;
            }
            proof {
                assert(n@.take(n@.len() as int) =~= n@);
            }
            Some(out)
        },
    }
}

/// One field as the layout builders take it: an optional field name and
/// the field type's descriptor.
pub struct FieldDef {
    pub name: Option<Vec<u8>>,
    pub ty: TypeDescriptor,
}

impl View for FieldDef {
    type V = (Option<Seq<u8>>, Seq<u8>);

    open spec fn view(&self) -> (Option<Seq<u8>>, Seq<u8>) {
        (
            match self.name {
                Some(n) => Some(n@),
                None => None,
            },
            self.ty@,
        )
    }
}

/// The models of a field-definition list.
pub open spec fn field_defs_view(fs: Seq<FieldDef>) -> Seq<(Option<Seq<u8>>, Seq<u8>)>
    decreases fs,
{
    if fs.len() == 0 {
        Seq::empty()
    } else {
        seq![fs[0]@] + field_defs_view(fs.drop_first())
    }
}

/// The models of a variant-definition list.
pub open spec fn variant_defs_view(vs: Seq<Vec<FieldDef>>) -> Seq<Seq<(Option<Seq<u8>>, Seq<u8>)>>
    decreases vs,
{
    if vs.len() == 0 {
        Seq::empty()
    } else {
        seq![field_defs_view(vs[0]@)] + variant_defs_view(vs.drop_first())
    }
}

pub proof fn lemma_field_defs_view_index(fs: Seq<FieldDef>, i: int)
    requires
        0 <= i < fs.len(),
    ensures
        field_defs_view(fs).len() == fs.len(),
        field_defs_view(fs)[i] == fs[i]@,
    decreases fs,
{
    lemma_field_defs_view_len(fs);
    if i > 0 {
        lemma_field_defs_view_index(fs.drop_first(), i - 1);
    }
}

pub proof fn lemma_field_defs_view_len(fs: Seq<FieldDef>)
    ensures
        field_defs_view(fs).len() == fs.len(),
    decreases fs,
{
    if fs.len() > 0 {
        lemma_field_defs_view_len(fs.drop_first());
    }
}

pub proof fn lemma_variant_defs_view_index(vs: Seq<Vec<FieldDef>>, i: int)
    requires
        0 <= i < vs.len(),
    ensures
        variant_defs_view(vs).len() == vs.len(),
        variant_defs_view(vs)[i] == field_defs_view(vs[i]@),
    decreases vs,
{
    lemma_variant_defs_view_len(vs);
    if i > 0 {
        lemma_variant_defs_view_index(vs.drop_first(), i - 1);
    }
}

pub proof fn lemma_variant_defs_view_len(vs: Seq<Vec<FieldDef>>)
    ensures
        variant_defs_view(vs).len() == vs.len(),
    decreases vs,
{
    if vs.len() > 0 {
        lemma_variant_defs_view_len(vs.drop_first());
    }
}

/// The struct layout a root key and a field list determine: every field
/// is a cell at the root key itself, so field-level distinction comes
/// from field order and type handles, not from key arithmetic.
pub open spec fn spec_struct_at(key: u32, fs: Seq<(Option<Seq<u8>>, Seq<u8>)>) -> Seq<
    FieldLayoutView<Seq<u8>>,
>
    decreases fs,
{
    if fs.len() == 0 {
        Seq::empty()
    } else {
        seq![
            FieldLayoutView { name: fs[0].0, layout: LayoutView::Cell { key, ty: fs[0].1 } },
        ] + spec_struct_at(key, fs.drop_first())
    }
}

/// The variant table a root key and variant bodies determine, with
/// discriminants assigned in declaration order starting at `d0`.
pub open spec fn spec_variants_at(
    key: u32,
    vs: Seq<Seq<(Option<Seq<u8>>, Seq<u8>)>>,
    d0: int,
) -> Seq<(u32, Seq<FieldLayoutView<Seq<u8>>>)>
    decreases vs,
{
    if vs.len() == 0 {
        Seq::empty()
    } else {
        seq![((d0 as u32), spec_struct_at(key, vs[0]))] + spec_variants_at(
            key,
            vs.drop_first(),
            d0 + 1,
        )
    }
}

/// The enum layout a root key and variant bodies determine: the dispatch
/// key is the root key itself.
pub open spec fn spec_enum_at(key: u32, vs: Seq<Seq<(Option<Seq<u8>>, Seq<u8>)>>) -> (
    u32,
    Seq<(u32, Seq<FieldLayoutView<Seq<u8>>>)>,
) {
    (key, spec_variants_at(key, vs, 0))
}

/// Builds the struct layout of a type laid out from `key`: one cell per
/// field, every cell at the root key.
pub fn struct_layout_at(key: u32, fields: &[FieldDef]) -> (r: StructLayout<TypeDescriptor>)
    ensures
        r@ == spec_struct_at(key, field_defs_view(fields@)),
    decreases fields@.len(),
{
    proof {
        lemma_field_defs_view_len(fields@);
    }
    if fields.len() == 0 {
        let r = StructLayout { fields: Vec::new() };
        proof {
            assert(r@ =~= spec_struct_at(key, field_defs_view(fields@)));
        }
        r
    } else {
        proof {
            lemma_field_defs_view_index(fields@, 0);
            assert(fields@.subrange(1, fields@.len() as int) =~= fields@.drop_first());
            assert(field_defs_view(fields@).drop_first() =~= field_defs_view(
                fields@.drop_first(),
            ));
        }
        let head = FieldLayout {
            name: clone_name(&fields[0].name),
            layout: Layout::Cell(
                CellLayout { key: LayoutKey { key }, ty: fields[0].ty.duplicate() },
            ),
        };
        let mut rest = struct_layout_at(
            key,
            vstd::slice::slice_subrange(fields, 1, fields.len()),
        ).fields;
        let ghost rest0 = rest@;
        rest.insert(0, head);
        proof {
            assert(rest@.drop_first() =~= rest0);
            lemma_fields_view_len(rest@);
            assert(fields_view(rest@) =~= seq![head@] + fields_view(rest0));
        }
        StructLayout { fields: rest }
    }
}

/// Builds the variant table from `d0` upward.
fn variants_at(key: u32, vs: &[Vec<FieldDef>], d0: u32) -> (r: Vec<
    (Discriminant, StructLayout<TypeDescriptor>),
>)
    requires
        d0 + vs@.len() <= u32::MAX,
    ensures
        variants_view(r@) == spec_variants_at(key, variant_defs_view(vs@), d0 as int),
    decreases vs@.len(),
{
    proof {
        lemma_variant_defs_view_len(vs@);
    }
    if vs.len() == 0 {
        let r: Vec<(Discriminant, StructLayout<TypeDescriptor>)> = Vec::new();
        proof {
            assert(variants_view(r@) =~= spec_variants_at(
                key,
                variant_defs_view(vs@),
                d0 as int,
            ));
        }
        r
    } else {
        proof {
            lemma_variant_defs_view_index(vs@, 0);
            assert(vs@.subrange(1, vs@.len() as int) =~= vs@.drop_first());
            assert(variant_defs_view(vs@).drop_first() =~= variant_defs_view(vs@.drop_first()));
        }
        let head = (Discriminant(d0), struct_layout_at(key, vs[0].as_slice()));
        let mut rest = variants_at(key, vstd::slice::slice_subrange(vs, 1, vs.len()), d0 + 1);
        let ghost rest0 = rest@;
        rest.insert(0, head);
        proof {
            assert(rest@.drop_first() =~= rest0);
            lemma_variants_view_len(rest@);
            assert(variants_view(rest@) =~= seq![(head.0@, fields_view(head.1.fields@))]
                + variants_view(rest0));
        }
        rest
    }
}

/// Builds the enum layout of a type laid out from `key`: the dispatch
/// key is the root key, and each variant body is the struct layout the
/// same root key determines, with discriminants in declaration order.
pub fn enum_layout_at(key: u32, variants: &[Vec<FieldDef>]) -> (r: EnumLayout<TypeDescriptor>)
    requires
        variants@.len() <= u32::MAX,
    ensures
        r@ == spec_enum_at(key, variant_defs_view(variants@)),
{
    EnumLayout { dispatch_key: LayoutKey { key }, variants: variants_at(key, variants, 0) }
}

/// Each built field is a cell at the root key holding the field's own
/// name and type: offsets come from field order alone.
pub proof fn lemma_struct_cells_at_root(key: u32, fs: Seq<(Option<Seq<u8>>, Seq<u8>)>, j: int)
    requires
        0 <= j < fs.len(),
    ensures
        spec_struct_at(key, fs).len() == fs.len(),
        spec_struct_at(key, fs)[j] == (FieldLayoutView {
            name: fs[j].0,
            layout: LayoutView::Cell { key, ty: fs[j].1 },
        }),
    decreases fs,
{
    lemma_struct_at_len(key, fs);
    if j > 0 {
        lemma_struct_cells_at_root(key, fs.drop_first(), j - 1);
    }
}

pub proof fn lemma_struct_at_len(key: u32, fs: Seq<(Option<Seq<u8>>, Seq<u8>)>)
    ensures
        spec_struct_at(key, fs).len() == fs.len(),
    decreases fs,
{
    if fs.len() > 0 {
        lemma_struct_at_len(key, fs.drop_first());
    }
}

proof fn lemma_variants_at_index(
    key: u32,
    vs: Seq<Seq<(Option<Seq<u8>>, Seq<u8>)>>,
    d0: int,
    i: int,
)
    requires
        0 <= i < vs.len(),
        0 <= d0,
        d0 + vs.len() <= u32::MAX,
    ensures
        spec_variants_at(key, vs, d0).len() == vs.len(),
        spec_variants_at(key, vs, d0)[i] == (((d0 + i) as u32), spec_struct_at(key, vs[i])),
    decreases vs,
{
    lemma_variants_at_len(key, vs, d0);
    if i > 0 {
        lemma_variants_at_index(key, vs.drop_first(), d0 + 1, i - 1);
    }
}

proof fn lemma_variants_at_len(key: u32, vs: Seq<Seq<(Option<Seq<u8>>, Seq<u8>)>>, d0: int)
    ensures
        spec_variants_at(key, vs, d0).len() == vs.len(),
    decreases vs,
{
    if vs.len() > 0 {
        lemma_variants_at_len(key, vs.drop_first(), d0 + 1);
    }
}

/// Enum dispatch law: the dispatch key equals the enum's root key, and
/// each variant's body is exactly the struct layout built from that same
/// root key, so its field cells are keyed identically to the root key
/// and field-level distinction comes from field order, not from the
/// discriminant.
pub proof fn lemma_enum_dispatch(key: u32, vs: Seq<Seq<(Option<Seq<u8>>, Seq<u8>)>>)
    requires
        vs.len() <= u32::MAX,
    ensures
        spec_enum_at(key, vs).0 == key,
        spec_enum_at(key, vs).1.len() == vs.len(),
        forall|i: int|
            0 <= i < vs.len() ==> spec_enum_at(key, vs).1[i] == ((i as u32), spec_struct_at(
                key,
                vs[i],
            )),
{
    lemma_variants_at_len(key, vs, 0);
    assert forall|i: int| 0 <= i < vs.len() implies spec_enum_at(key, vs).1[i] == ((i as u32),
    spec_struct_at(key, vs[i])) by {
        lemma_variants_at_index(key, vs, 0, i);
    }
}

/// Hash-collection strategy law: compaction carries the hasher identity
/// and the prefix and postfix bytes into the portable form unchanged,
/// along with the root key.
pub proof fn lemma_hash_strategy_unchanged(
    offset: u32,
    hasher: CryptoHasher,
    prefix: Seq<u8>,
    postfix: Seq<u8>,
    elem: LayoutView<Seq<u8>>,
    regs: Seq<Seq<u8>>,
)
    ensures
        ({
            let p = spec_portable(
                LayoutView::Hash { offset, hasher, prefix, postfix, elem: Box::new(elem) },
                regs,
            ).0;
            p == (LayoutView::Hash {
                offset,
                hasher,
                prefix,
                postfix,
                elem: Box::new(spec_portable(elem, regs).0),
            })
        }),
{
}

} // verus!
