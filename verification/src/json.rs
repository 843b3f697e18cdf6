//! JSON rendering of portable metadata.
//!
//! The portable layout tree and the registry's descriptor table are
//! rendered as JSON text for offline consumption.  Keys are fixed-width
//! lowercase hexadecimal strings prefixed `0x`; byte strings render the
//! same way, except that an empty byte string renders as the empty
//! string; an enum's variant table is keyed by the discriminant's decimal
//! string; and a hash-collection's strategy exposes hasher, prefix and
//! postfix in that fixed order.

use vstd::prelude::*;

use crate::layout::CryptoHasher;
use crate::layout::FieldLayout;
use crate::layout::FieldLayoutView;
use crate::layout::Layout;
use crate::layout::LayoutKey;
use crate::layout::LayoutView;
use crate::layout::PortableLayout;
use crate::layout::Discriminant;
use crate::layout::StructLayout;
use crate::layout::fields_view;
use crate::layout::variants_view;
use crate::layout::layout_view;
use crate::layout::lemma_fields_view_index;
use crate::layout::lemma_fields_view_len;
use crate::layout::lemma_variants_view_index;
use crate::layout::lemma_variants_view_len;
use crate::registry::Registry;

verus! {

/// Relies on String::push: appends exactly the one character to the
/// string.
#[verifier::external_body]
fn push_char(out: &mut String, c: char)
    ensures
        final(out)@ == old(out)@ + seq![c],
{
    out.push(c);
}

/// The lowercase hexadecimal digit for a value below sixteen.
pub open spec fn hex_digit(n: int) -> char {
    if n < 10 {
        ((48 + n) as u8) as char
    } else {
        ((87 + n) as u8) as char
    }
}

/// Eight lowercase hexadecimal digits of a key.
pub open spec fn hex_u32(k: u32) -> Seq<char> {
    seq![
        hex_digit(((k >> 28) & 0xf) as int),
        hex_digit(((k >> 24) & 0xf) as int),
        hex_digit(((k >> 20) & 0xf) as int),
        hex_digit(((k >> 16) & 0xf) as int),
        hex_digit(((k >> 12) & 0xf) as int),
        hex_digit(((k >> 8) & 0xf) as int),
        hex_digit(((k >> 4) & 0xf) as int),
        hex_digit((k & 0xf) as int),
    ]
}

/// A key as JSON: a quoted, `0x`-prefixed, fixed-width hexadecimal
/// string.
pub open spec fn key_json(k: u32) -> Seq<char> {
    seq!['"', '0', 'x'] + hex_u32(k) + seq!['"']
}

/// Two lowercase hexadecimal digits per byte.
pub open spec fn hex_bytes(s: Seq<u8>) -> Seq<char>
    decreases s,
{
    if s.len() == 0 {
        Seq::empty()
    } else {
        seq![hex_digit((s[0] >> 4) as int), hex_digit((s[0] & 0xf) as int)] + hex_bytes(
            s.drop_first(),
        )
    }
}

/// A byte string as JSON: quoted `0x`-prefixed hexadecimal, except that
/// no bytes render as the empty string.
pub open spec fn byte_str_json(s: Seq<u8>) -> Seq<char> {
    if s.len() == 0 {
        seq!['"', '"']
    } else {
        seq!['"', '0', 'x'] + hex_bytes(s) + seq!['"']
    }
}

/// The decimal digits of a number.
pub open spec fn dec_nat(n: nat) -> Seq<char>
    decreases n,
{
    if n < 10 {
        seq![((48 + n) as u8) as char]
    } else {
        dec_nat(n / 10) + seq![((48 + (n % 10)) as u8) as char]
    }
}

/// One byte of a field name inside a JSON string: printable ASCII other
/// than quote and backslash stands for itself, and everything else is a
/// `\u00..` escape.
pub open spec fn escape_byte(b: u8) -> Seq<char> {
    if b == 34 {
        seq!['\\', '"']
    } else if b == 92 {
        seq!['\\', '\\']
    } else if 32 <= b < 127 {
        seq![b as char]
    } else {
        seq!['\\', 'u', '0', '0', hex_digit((b >> 4) as int), hex_digit((b & 0xf) as int)]
    }
}

pub open spec fn escape_bytes(s: Seq<u8>) -> Seq<char>
    decreases s,
{
    if s.len() == 0 {
        Seq::empty()
    } else {
        escape_byte(s[0]) + escape_bytes(s.drop_first())
    }
}

/// An optional field name as JSON: a quoted string, or `null`.
pub open spec fn name_json(name: Option<Seq<u8>>) -> Seq<char> {
    match name {
        None => "null"@,
        Some(n) => seq!['"'] + escape_bytes(n) + seq!['"'],
    }
}

/// The hasher's identity as JSON.
pub open spec fn hasher_json(h: CryptoHasher) -> Seq<char> {
    match h {
        CryptoHasher::Blake2x256 => "\"Blake2x256\""@,
        CryptoHasher::Sha2x256 => "\"Sha2x256\""@,
        CryptoHasher::Keccak256 => "\"Keccak256\""@,
    }
}

/// The JSON document of a portable layout tree.
pub open spec fn layout_json(l: LayoutView<usize>) -> Seq<char>
    decreases l, 0int,
{
    match l {
        LayoutView::Cell { key, ty } => "{\"cell\":{\"key\":"@ + key_json(key) + ",\"ty\":"@
            + dec_nat(ty as nat) + "}}"@,
        LayoutView::Struct { fields } => "{\"struct\":{\"fields\":["@ + fields_json(fields)
            + "]}}"@,
        LayoutView::Array { offset, len, stride, elem } => "{\"array\":{\"offset\":"@ + key_json(
            offset,
        ) + ",\"len\":"@ + dec_nat(len as nat) + ",\"cellsPerElem\":"@ + dec_nat(stride as nat)
            + ",\"layout\":"@ + layout_json(*elem) + "}}"@,
        LayoutView::Enum { dispatch_key, variants } => "{\"enum\":{\"dispatchKey\":"@ + key_json(
            dispatch_key,
        ) + ",\"variants\":{"@ + variants_json(variants) + "}}}"@,
        LayoutView::Hash { offset, hasher, prefix, postfix, elem } => "{\"hash\":{\"offset\":"@
            + key_json(offset) + ",\"layout\":"@ + layout_json(*elem) + ",\"strategy\":{\"hasher\":"@
            + hasher_json(hasher) + ",\"prefix\":"@ + byte_str_json(prefix) + ",\"postfix\":"@
            + byte_str_json(postfix) + "}}}"@,
    }
}

/// One field of a struct body.
pub open spec fn field_json(f: FieldLayoutView<usize>) -> Seq<char>
    decreases f, 0int,
{
    "{\"layout\":"@ + layout_json(f.layout) + ",\"name\":"@ + name_json(f.name) + "}"@
}

/// A comma-separated field list.
pub open spec fn fields_json(fs: Seq<FieldLayoutView<usize>>) -> Seq<char>
    decreases fs, 1int,
{
    if fs.len() == 0 {
        Seq::empty()
    } else {
        field_json(fs[0]) + fields_json_rest(fs.drop_first())
    }
}

pub open spec fn fields_json_rest(fs: Seq<FieldLayoutView<usize>>) -> Seq<char>
    decreases fs, 2int,
{
    if fs.len() == 0 {
        Seq::empty()
    } else {
        seq![','] + field_json(fs[0]) + fields_json_rest(fs.drop_first())
    }
}

/// One variant-table entry, keyed by the discriminant's decimal string.
pub open spec fn variant_json(v: (u32, Seq<FieldLayoutView<usize>>)) -> Seq<char>
    decreases v, 0int,
{
    seq!['"'] + dec_nat(v.0 as nat) + "\":{\"fields\":["@ + fields_json(v.1) + "]}"@
}

/// The comma-separated variant table body.
pub open spec fn variants_json(vs: Seq<(u32, Seq<FieldLayoutView<usize>>)>) -> Seq<char>
    decreases vs, 1int,
{
    if vs.len() == 0 {
        Seq::empty()
    } else {
        variant_json(vs[0]) + variants_json_rest(vs.drop_first())
    }
}

pub open spec fn variants_json_rest(vs: Seq<(u32, Seq<FieldLayoutView<usize>>)>) -> Seq<char>
    decreases vs, 2int,
{
    if vs.len() == 0 {
        Seq::empty()
    } else {
        seq![','] + variant_json(vs[0]) + variants_json_rest(vs.drop_first())
    }
}

/// The descriptor table as JSON: an array of the registered names.
pub open spec fn registry_json(regs: Seq<Seq<u8>>) -> Seq<char>
    decreases regs, 1int,
{
    if regs.len() == 0 {
        "[]"@
    } else {
        seq!['[', '"'] + escape_bytes(regs[0]) + seq!['"'] + registry_json_rest(
            regs.drop_first(),
        ) + seq![']']
    }
}

pub open spec fn registry_json_rest(regs: Seq<Seq<u8>>) -> Seq<char>
    decreases regs, 2int,
{
    if regs.len() == 0 {
        Seq::empty()
    } else {
        seq![',', '"'] + escape_bytes(regs[0]) + seq!['"'] + registry_json_rest(
            regs.drop_first(),
        )
    }
}

/// Appends the eight hexadecimal digits of `k`.
fn push_hex_u32(out: &mut String, k: u32)
    ensures
        final(out)@ == old(out)@ + hex_u32(k),
{
    proof {
        assert((k >> 28) & 0xf < 16 && (k >> 24) & 0xf < 16 && (k >> 20) & 0xf < 16 && (k >> 16)
            & 0xf < 16 && (k >> 12) & 0xf < 16 && (k >> 8) & 0xf < 16 && (k >> 4) & 0xf < 16 && k
            & 0xf < 16) by (bit_vector);
    }
    push_hex_digit(out, ((k >> 28) & 0xf) as u8);
    push_hex_digit(out, ((k >> 24) & 0xf) as u8);
    push_hex_digit(out, ((k >> 20) & 0xf) as u8);
    push_hex_digit(out, ((k >> 16) & 0xf) as u8);
    push_hex_digit(out, ((k >> 12) & 0xf) as u8);
    push_hex_digit(out, ((k >> 8) & 0xf) as u8);
    push_hex_digit(out, ((k >> 4) & 0xf) as u8);
    push_hex_digit(out, (k & 0xf) as u8);
    proof {
        assert(final(out)@ =~= old(out)@ + hex_u32(k));
    }
}

/// Appends one hexadecimal digit.
fn push_hex_digit(out: &mut String, d: u8)
    requires
        d < 16,
    ensures
        final(out)@ == old(out)@ + seq![hex_digit(d as int)],
{
    let c: u8 = if d < 10 {
        48 + d
    } else {
        87 + d
    };
    push_char(out, c as char);
}

/// Appends a quoted `0x`-prefixed key.
fn push_key(out: &mut String, k: u32)
    ensures
        final(out)@ == old(out)@ + key_json(k),
{
    push_char(out, '"');
    push_char(out, '0');
    push_char(out, 'x');
    push_hex_u32(out, k);
    push_char(out, '"');
    proof {
        assert(final(out)@ =~= old(out)@ + key_json(k));
    }
}

/// Appends the decimal digits of `n`.
fn push_dec(out: &mut String, n: u64)
    ensures
        final(out)@ == old(out)@ + dec_nat(n as nat),
    decreases n,
{
    if n < 10 {
        push_char(out, (48 + (n as u8)) as char);
    } else {
        push_dec(out, n / 10);
        push_char(out, (48 + ((n % 10) as u8)) as char);
    }
    proof {
        assert(final(out)@ =~= old(out)@ + dec_nat(n as nat));
    }
}

/// Appends the hexadecimal digits of a byte string.
fn push_hex_bytes(out: &mut String, bytes: &[u8])
    ensures
        final(out)@ == old(out)@ + hex_bytes(bytes@),
    decreases bytes@.len(),
{
    if bytes.len() > 0 {
        proof {
            assert(bytes@.subrange(1, bytes@.len() as int) =~= bytes@.drop_first());
        }
        let b0 = bytes[0];
        proof {
            assert(b0 >> 4 < 16 && b0 & 0xf < 16) by (bit_vector);
        }
        push_hex_digit(out, b0 >> 4);
        push_hex_digit(out, b0 & 0xf);
        push_hex_bytes(out, vstd::slice::slice_subrange(bytes, 1, bytes.len()));
        proof {
            assert(final(out)@ =~= old(out)@ + hex_bytes(bytes@));
        }
    } else {
        proof {
            assert(final(out)@ =~= old(out)@ + hex_bytes(bytes@));
        }
    }
}

/// Appends a byte string as quoted hexadecimal, the empty byte string as
/// an empty JSON string.
fn push_byte_str(out: &mut String, bytes: &[u8])
    ensures
        final(out)@ == old(out)@ + byte_str_json(bytes@),
{
    push_char(out, '"');
    if bytes.len() > 0 {
        push_char(out, '0');
        push_char(out, 'x');
        push_hex_bytes(out, bytes);
    }
    push_char(out, '"');
    proof {
        assert(final(out)@ =~= old(out)@ + byte_str_json(bytes@));
    }
}

/// Appends one escaped name byte.
fn push_escaped_byte(out: &mut String, b: u8)
    ensures
        final(out)@ == old(out)@ + escape_byte(b),
{
    if b == 34 {
        push_char(out, '\\');
        push_char(out, '"');
    } else if b == 92 {
        push_char(out, '\\');
        push_char(out, '\\');
    } else if 32 <= b && b < 127 {
        push_char(out, b as char);
    } else {
        push_char(out, '\\');
        push_char(out, 'u');
        push_char(out, '0');
        push_char(out, '0');
        proof {
            assert(b >> 4 < 16 && b & 0xf < 16) by (bit_vector);
        }
        push_hex_digit(out, b >> 4);
        push_hex_digit(out, b & 0xf);
    }
    proof {
        assert(final(out)@ =~= old(out)@ + escape_byte(b));
    }
}

/// Appends the escaped bytes of a name.
fn push_escaped_bytes(out: &mut String, bytes: &[u8])
    ensures
        final(out)@ == old(out)@ + escape_bytes(bytes@),
    decreases bytes@.len(),
{
    if bytes.len() > 0 {
        proof {
            assert(bytes@.subrange(1, bytes@.len() as int) =~= bytes@.drop_first());
        }
        push_escaped_byte(out, bytes[0]);
        push_escaped_bytes(out, vstd::slice::slice_subrange(bytes, 1, bytes.len()));
    }
    proof {
        assert(final(out)@ =~= old(out)@ + escape_bytes(bytes@));
    }
}

/// Appends an optional name as a JSON string or `null`.
fn push_name(out: &mut String, name: &Option<Vec<u8>>)
    ensures
        final(out)@ == old(out)@ + name_json(
            match name {
                Some(n) => Some(n@),
                None => None,
            },
        ),
{
    match name {
        None => {
            out.append("null");
        },
        Some(n) => {
            push_char(out, '"');
            push_escaped_bytes(out, n.as_slice());
            push_char(out, '"');
        },
    }
    proof {
        assert(final(out)@ =~= old(out)@ + name_json(
            match name {
                Some(n) => Some(n@),
                None => None,
            },
        ));
    }
}

/// Appends the JSON document of a portable layout.
#[verifier::rlimit(100)]
fn push_layout(out: &mut String, l: &PortableLayout)
    ensures
        final(out)@ == old(out)@ + layout_json(l@),
    decreases *l, 0int,
{
    match l {
        Layout::Cell(c) => {
            out.append("{\"cell\":{\"key\":");
            push_key(out, c.key.key);
            out.append(",\"ty\":");
            push_dec(out, c.ty as u64);
            out.append("}}");
        },
        Layout::Struct(s) => {
            out.append("{\"struct\":{\"fields\":[");
            push_fields(out, s.fields.as_slice());
            out.append("]}}");
        },
        Layout::Array(a) => {
            out.append("{\"array\":{\"offset\":");
            push_key(out, a.offset.key);
            out.append(",\"len\":");
            push_dec(out, a.len as u64);
            out.append(",\"cellsPerElem\":");
            push_dec(out, a.cells_per_elem);
            out.append(",\"layout\":");
            push_layout(out, &a.elem);
            out.append("}}");
        },
        Layout::Enum(e) => {
            out.append("{\"enum\":{\"dispatchKey\":");
            push_key(out, e.dispatch_key.key);
            out.append(",\"variants\":{");
            push_variants(out, e.variants.as_slice());
            out.append("}}}");
        },
        Layout::Hash(h) => {
            out.append("{\"hash\":{\"offset\":");
            push_key(out, h.offset.key);
            out.append(",\"layout\":");
            push_layout(out, &h.elem);
            out.append(",\"strategy\":{\"hasher\":");
            match h.strategy.hasher {
                CryptoHasher::Blake2x256 => out.append("\"Blake2x256\""),
                CryptoHasher::Sha2x256 => out.append("\"Sha2x256\""),
                CryptoHasher::Keccak256 => out.append("\"Keccak256\""),
            }
            out.append(",\"prefix\":");
            push_byte_str(out, h.strategy.prefix.as_slice());
            out.append(",\"postfix\":");
            push_byte_str(out, h.strategy.postfix.as_slice());
            out.append("}}}");
        },
    }
    proof {
        assert(final(out)@ =~= old(out)@ + layout_json(l@));
    }
}

/// Appends one field object.
fn push_field(out: &mut String, f: &FieldLayout<usize>)
    ensures
        final(out)@ == old(out)@ + field_json(f@),
    decreases *f, 1int,
{
    out.append("{\"layout\":");
    push_layout(out, &f.layout);
    out.append(",\"name\":");
    push_name(out, &f.name);
    out.append("}");
    proof {
        assert(final(out)@ =~= old(out)@ + field_json(f@));
    }
}

/// Appends a comma-separated field list.
fn push_fields(out: &mut String, fs: &[FieldLayout<usize>])
    ensures
        final(out)@ == old(out)@ + fields_json(fields_view(fs@)),
    decreases fs@, 2int,
{
    proof {
        lemma_fields_view_len(fs@);
    }
    if fs.len() > 0 {
        proof {
            lemma_fields_view_index(fs@, 0);
            assert(fs@.subrange(1, fs@.len() as int) =~= fs@.drop_first());
            assert(fields_view(fs@).drop_first() =~= fields_view(fs@.drop_first()));
        }
        push_field(out, &fs[0]);
        push_fields_rest(out, vstd::slice::slice_subrange(fs, 1, fs.len()));
    }
    proof {
        assert(final(out)@ =~= old(out)@ + fields_json(fields_view(fs@)));
    }
}

fn push_fields_rest(out: &mut String, fs: &[FieldLayout<usize>])
    ensures
        final(out)@ == old(out)@ + fields_json_rest(fields_view(fs@)),
    decreases fs@, 3int,
{
    proof {
        lemma_fields_view_len(fs@);
    }
    if fs.len() > 0 {
        proof {
            lemma_fields_view_index(fs@, 0);
            assert(fs@.subrange(1, fs@.len() as int) =~= fs@.drop_first());
            assert(fields_view(fs@).drop_first() =~= fields_view(fs@.drop_first()));
        }
        push_char(out, ',');
        push_field(out, &fs[0]);
        push_fields_rest(out, vstd::slice::slice_subrange(fs, 1, fs.len()));
    }
    proof {
        assert(final(out)@ =~= old(out)@ + fields_json_rest(fields_view(fs@)));
    }
}

/// Appends one variant-table entry.
fn push_variant(out: &mut String, v: &(Discriminant, StructLayout<usize>))
    ensures
        final(out)@ == old(out)@ + variant_json((v.0@, fields_view(v.1.fields@))),
    decreases *v, 1int,
{
    push_char(out, '"');
    push_dec(out, v.0.0 as u64);
    out.append("\":{\"fields\":[");
    push_fields(out, v.1.fields.as_slice());
    out.append("]}");
    proof {
        assert(final(out)@ =~= old(out)@ + variant_json((v.0@, fields_view(v.1.fields@))));
    }
}

/// Appends the comma-separated variant table body.
fn push_variants(out: &mut String, vs: &[(Discriminant, StructLayout<usize>)])
    ensures
        final(out)@ == old(out)@ + variants_json(variants_view(vs@)),
    decreases vs@, 2int,
{
    proof {
        lemma_variants_view_len(vs@);
    }
    if vs.len() > 0 {
        proof {
            lemma_variants_view_index(vs@, 0);
            assert(vs@.subrange(1, vs@.len() as int) =~= vs@.drop_first());
            assert(variants_view(vs@).drop_first() =~= variants_view(vs@.drop_first()));
        }
        push_variant(out, &vs[0]);
        push_variants_rest(out, vstd::slice::slice_subrange(vs, 1, vs.len()));
    }
    proof {
        assert(final(out)@ =~= old(out)@ + variants_json(variants_view(vs@)));
    }
}

fn push_variants_rest(out: &mut String, vs: &[(Discriminant, StructLayout<usize>)])
    ensures
        final(out)@ == old(out)@ + variants_json_rest(variants_view(vs@)),
    decreases vs@, 3int,
{
    proof {
        lemma_variants_view_len(vs@);
    }
    if vs.len() > 0 {
        proof {
            lemma_variants_view_index(vs@, 0);
            assert(vs@.subrange(1, vs@.len() as int) =~= vs@.drop_first());
            assert(variants_view(vs@).drop_first() =~= variants_view(vs@.drop_first()));
        }
        push_char(out, ',');
        push_variant(out, &vs[0]);
        push_variants_rest(out, vstd::slice::slice_subrange(vs, 1, vs.len()));
    }
    proof {
        assert(final(out)@ =~= old(out)@ + variants_json_rest(variants_view(vs@)));
    }
}

impl LayoutKey {
    /// Renders this key as its JSON document.
    pub fn to_json(&self) -> (r: String)
        ensures
            r@ == key_json(self@),
    {
        let mut out = String::new();
        push_key(&mut out, self.key);
        proof {
            assert(out@ =~= key_json(self@));
        }
        out
    }
}

/// Renders a portable layout as its JSON document.
pub fn layout_to_json(l: &PortableLayout) -> (r: String)
    ensures
        r@ == layout_json(l@),
{
    let mut out = String::new();
    push_layout(&mut out, l);
    proof {
        assert(out@ =~= layout_json(layout_view(*l)));
    }
    out
}

impl Registry {
    /// Renders the descriptor table as a JSON array of names, in handle
    /// order.
    pub fn to_json(&self) -> (r: String)
        ensures
            r@ == registry_json(self@),
    {
        let mut out = String::new();
        let n = self.len();
        if n == 0 {
            out.append("[]");
        } else {
            push_char(&mut out, '[');
            push_char(&mut out, '"');
            push_escaped_bytes(&mut out, self.get(0).name.as_slice());
            push_char(&mut out, '"');
            push_registry_rest(&mut out, self, 1);
            push_char(&mut out, ']');
            proof {
                assert(self@.skip(1) =~= self@.drop_first());
                assert(out@ =~= registry_json(self@));
            }
        }
        proof {
            if self@.len() == 0 {
                assert(out@ =~= registry_json(self@));
            }
        }
        out
    }
}

/// Appends the table entries from handle `i` on.
fn push_registry_rest(out: &mut String, reg: &Registry, i: usize)
    requires
        1 <= i <= reg@.len(),
    ensures
        final(out)@ == old(out)@ + registry_json_rest(reg@.skip(i as int)),
    decreases reg@.len() - i,
{
    if i < reg.len() {
        proof {
            assert(reg@.skip(i as int)[0] == reg@[i as int]);
            assert(reg@.skip(i as int).drop_first() =~= reg@.skip(i as int + 1));
        }
        push_char(out, ',');
        push_char(out, '"');
        push_escaped_bytes(out, reg.get(i).name.as_slice());
        push_char(out, '"');
        push_registry_rest(out, reg, i + 1);
        proof {
            assert(final(out)@ =~= old(out)@ + registry_json_rest(reg@.skip(i as int)));
        }
    } else {
        proof {
            assert(reg@.skip(i as int) =~= Seq::<Seq<u8>>::empty());
            assert(final(out)@ =~= old(out)@ + registry_json_rest(reg@.skip(i as int)));
        }
    }
}

} // verus!
