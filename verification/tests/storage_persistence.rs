//! Spread and packed persistence, allocation, and pull-or-initialize
//! resolution against an in-memory store.

use storage_layout::desc::TypeDesc;
use storage_layout::error::Error;
use storage_layout::key::Cursor;
use storage_layout::packed::clear_packed;
use storage_layout::packed::pull_packed;
use storage_layout::packed::push_packed;
use storage_layout::pull_or_init::pull_or_init;
use storage_layout::spread::allocate_spread;
use storage_layout::spread::clear_spread;
use storage_layout::spread::pull_spread;
use storage_layout::spread::push_spread;
use storage_layout::store::Store;
use storage_layout::value::Value;
use storage_layout::value::conforms_to;

fn pair_ty() -> TypeDesc {
    // One 4-byte leaf "a" then one nested struct "b" of two leaves:
    // footprints 1 and 2.
    TypeDesc::Struct(vec![
        TypeDesc::Leaf,
        TypeDesc::Struct(vec![TypeDesc::Leaf, TypeDesc::Leaf]),
    ])
}

fn pair_value() -> Value {
    Value::Struct(vec![
        Value::Leaf(11),
        Value::Struct(vec![Value::Leaf(22), Value::Leaf(33)]),
    ])
}

#[test]
fn footprints_add_up() {
    assert_eq!(TypeDesc::Leaf.footprint_of(), 1);
    assert_eq!(pair_ty().footprint_of(), 3);
    assert_eq!(TypeDesc::Array(Box::new(pair_ty()), 5).footprint_of(), 15);
    // Enum footprint: max over variants of dispatch slot + fields.
    let e = TypeDesc::Enum(vec![vec![], vec![TypeDesc::Leaf, TypeDesc::Leaf]]);
    assert_eq!(e.footprint_of(), 3);
}

#[test]
fn push_then_pull_roundtrips() {
    let mut store = Store::new();
    let ty = pair_ty();
    let mut cur = Cursor::new(1000);
    push_spread(&pair_value(), &ty, &mut store, &mut cur);
    assert_eq!(cur.key(), 1003);

    let mut cur = Cursor::new(1000);
    let pulled = pull_spread(&ty, &store, &mut cur);
    assert_eq!(cur.key(), 1003);
    assert_eq!(pulled, Ok(pair_value()));
}

#[test]
fn fields_consume_consecutive_slots() {
    let mut store = Store::new();
    let ty = pair_ty();
    let mut cur = Cursor::new(1000);
    push_spread(&pair_value(), &ty, &mut store, &mut cur);
    // Slots 1000, 1001, 1002 hold the three leaves in declaration order.
    assert_eq!(pull_packed(&store, 1000), Ok(11));
    assert_eq!(pull_packed(&store, 1001), Ok(22));
    assert_eq!(pull_packed(&store, 1002), Ok(33));
    assert_eq!(pull_packed(&store, 1003), Err(Error::NotFound));
}

#[test]
fn enum_stores_discriminant_then_active_fields() {
    let mut store = Store::new();
    let ty = TypeDesc::Enum(vec![
        vec![],
        vec![TypeDesc::Leaf],
        vec![TypeDesc::Leaf, TypeDesc::Leaf],
    ]);
    let v = Value::Enum(1, vec![Value::Leaf(77)]);
    let mut cur = Cursor::new(50);
    push_spread(&v, &ty, &mut store, &mut cur);
    // The cursor consumes the conservative bound: 1 + max variant size.
    assert_eq!(cur.key(), 53);
    // Dispatch slot holds the discriminant, the field comes right after,
    // and the rest of the region stays untouched.
    assert_eq!(pull_packed(&store, 50), Ok(1));
    assert_eq!(pull_packed(&store, 51), Ok(77));
    assert_eq!(pull_packed(&store, 52), Err(Error::NotFound));

    let mut cur = Cursor::new(50);
    assert_eq!(pull_spread(&ty, &store, &mut cur), Ok(v));
}

#[test]
fn undecodable_discriminant_is_a_decode_failure() {
    let mut store = Store::new();
    let ty = TypeDesc::Enum(vec![vec![], vec![TypeDesc::Leaf]]);
    // A discriminant past the variant table cannot decode.
    push_packed(9, &mut store, 50);
    let mut cur = Cursor::new(50);
    assert_eq!(pull_spread(&ty, &store, &mut cur), Err(Error::DecodeFailure));
    assert_eq!(cur.key(), 52);
}

#[test]
fn malformed_bytes_are_a_decode_failure() {
    let mut store = Store::new();
    store.set(30, vec![1, 2, 3]);
    let mut cur = Cursor::new(30);
    assert_eq!(pull_spread(&TypeDesc::Leaf, &store, &mut cur), Err(Error::DecodeFailure));
    assert_eq!(pull_packed(&store, 30), Err(Error::DecodeFailure));
}

#[test]
fn absent_slot_is_not_found() {
    let store = Store::new();
    let mut cur = Cursor::new(30);
    let r = pull_spread(&TypeDesc::Leaf, &store, &mut cur);
    assert_eq!(r, Err(Error::NotFound));
    assert_eq!(r.unwrap_err().message(), "storage entry was empty");
}

#[test]
fn clear_removes_exactly_the_written_slots() {
    let mut store = Store::new();
    let ty = pair_ty();
    push_packed(99, &mut store, 999);
    let mut cur = Cursor::new(1000);
    push_spread(&pair_value(), &ty, &mut store, &mut cur);

    let mut cur = Cursor::new(1000);
    clear_spread(&pair_value(), &ty, &mut store, &mut cur);
    assert_eq!(cur.key(), 1003);
    assert!(store.get(1000).is_none());
    assert!(store.get(1001).is_none());
    assert!(store.get(1002).is_none());
    // A neighbouring slot is untouched.
    assert_eq!(pull_packed(&store, 999), Ok(99));
}

#[test]
fn allocate_defaults_and_advances_like_pull() {
    let ty = TypeDesc::Struct(vec![
        TypeDesc::Leaf,
        TypeDesc::Enum(vec![vec![TypeDesc::Leaf], vec![]]),
        TypeDesc::Array(Box::new(TypeDesc::Leaf), 2),
    ]);
    let mut cur = Cursor::new(10);
    let v = allocate_spread(&ty, &mut cur);
    // 1 + (1 + 1) + 2 slots, no store touched.
    assert_eq!(cur.key(), 15);
    assert_eq!(
        v,
        Value::Struct(vec![
            Value::Leaf(0),
            Value::Enum(0, vec![Value::Leaf(0)]),
            Value::Array(vec![Value::Leaf(0), Value::Leaf(0)]),
        ])
    );
    assert!(conforms_to(&v, &ty));
}

#[test]
fn array_roundtrips_with_stride() {
    let mut store = Store::new();
    let ty = TypeDesc::Array(Box::new(pair_ty()), 2);
    let v = Value::Array(vec![pair_value(), pair_value()]);
    let mut cur = Cursor::new(200);
    push_spread(&v, &ty, &mut store, &mut cur);
    assert_eq!(cur.key(), 206);
    let mut cur = Cursor::new(200);
    assert_eq!(pull_spread(&ty, &store, &mut cur), Ok(v));
}

#[test]
fn packed_roundtrip_and_exact_encoding() {
    let mut store = Store::new();
    push_packed(345, &mut store, 7);
    // Canonical little-endian four-byte encoding.
    assert_eq!(store.get(7).unwrap(), &vec![0x59u8, 0x01, 0x00, 0x00]);
    assert_eq!(pull_packed(&store, 7), Ok(345));
    clear_packed(&mut store, 7);
    assert_eq!(pull_packed(&store, 7), Err(Error::NotFound));
}

#[test]
fn init_works() {
    let store = Store::new();
    let instance = pull_or_init(&TypeDesc::Leaf, Some(&Value::Leaf(123)), &store, 111);
    assert_eq!(instance, Ok(Value::Leaf(123)));
}

#[test]
fn pull_or_init_works() {
    let mut store = Store::new();
    push_packed(456, &mut store, 111);
    let instance = pull_or_init(&TypeDesc::Leaf, Some(&Value::Leaf(123)), &store, 111);

    // Instead of the initial value we used the pulled one.
    assert_eq!(instance, Ok(Value::Leaf(456)));
}

#[test]
fn pull_or_init_fails() {
    let store = Store::new();
    let instance = pull_or_init(&TypeDesc::Leaf, None, &store, 111);
    assert_eq!(instance, Err(Error::NotFound));
    assert_eq!(instance.unwrap_err().message(), "storage entry was empty");
}

#[test]
fn pull_works() {
    let mut store = Store::new();
    push_packed(321, &mut store, 111);
    let instance = pull_or_init(&TypeDesc::Leaf, None, &store, 111);
    assert_eq!(instance, Ok(Value::Leaf(321)));
}

#[test]
fn decode_failure_reinitializes_when_initializer_exists() {
    let mut store = Store::new();
    store.set(111, vec![1, 2]);
    let with_init = pull_or_init(&TypeDesc::Leaf, Some(&Value::Leaf(123)), &store, 111);
    assert_eq!(with_init, Ok(Value::Leaf(123)));
    let without = pull_or_init(&TypeDesc::Leaf, None, &store, 111);
    assert_eq!(without, Err(Error::DecodeFailure));
    assert_eq!(without.unwrap_err().message(), "could not properly decode storage entry");
}

#[test]
fn nonconforming_initializer_is_an_initializer_failure() {
    let store = Store::new();
    let bad = Value::Struct(vec![]);
    let r = pull_or_init(&TypeDesc::Leaf, Some(&bad), &store, 111);
    assert_eq!(r, Err(Error::InitializerFailure));
    assert_eq!(r.unwrap_err().message(), "could not initialize storage entry");
}

#[test]
fn conformance_checks_shape() {
    let ty = pair_ty();
    assert!(conforms_to(&pair_value(), &ty));
    assert!(!conforms_to(&Value::Leaf(1), &ty));
    assert!(!conforms_to(&Value::Struct(vec![Value::Leaf(1)]), &ty));
    let e = TypeDesc::Enum(vec![vec![], vec![TypeDesc::Leaf]]);
    assert!(conforms_to(&Value::Enum(1, vec![Value::Leaf(5)]), &e));
    assert!(!conforms_to(&Value::Enum(2, vec![]), &e));
}

#[test]
fn overwriting_push_reads_back_the_new_value() {
    let mut store = Store::new();
    let ty = TypeDesc::Leaf;
    let mut cur = Cursor::new(5);
    push_spread(&Value::Leaf(1), &ty, &mut store, &mut cur);
    let mut cur = Cursor::new(5);
    push_spread(&Value::Leaf(2), &ty, &mut store, &mut cur);
    let mut cur = Cursor::new(5);
    assert_eq!(pull_spread(&ty, &store, &mut cur), Ok(Value::Leaf(2)));
}
