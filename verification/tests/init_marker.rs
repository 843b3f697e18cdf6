//! The initialization-status marker: no effect on footprint or encoding,
//! and allocate-on-absence for not-yet-initialized values.

use storage_layout::desc::TypeDesc;
use storage_layout::error::Error;
use storage_layout::key::Cursor;
use storage_layout::spread::push_spread;
use storage_layout::store::Store;
use storage_layout::upgradable::InitStatus;
use storage_layout::upgradable::Upgradable;
use storage_layout::value::Value;

fn two_leaf_ty() -> TypeDesc {
    TypeDesc::Struct(vec![TypeDesc::Leaf, TypeDesc::Leaf])
}

fn two_leaf_value() -> Value {
    Value::Struct(vec![Value::Leaf(5), Value::Leaf(6)])
}

#[test]
fn marker_does_not_affect_footprint_or_encoding() {
    let ty = two_leaf_ty();

    let mut plain_store = Store::new();
    let mut cur = Cursor::new(100);
    push_spread(&two_leaf_value(), &ty, &mut plain_store, &mut cur);
    let plain_end = cur.key();

    let mut marked_store = Store::new();
    let mut cur = Cursor::new(100);
    let wrapped = Upgradable::new(two_leaf_value(), InitStatus::NotInitialized);
    wrapped.push_spread(&ty, &mut marked_store, &mut cur);

    // Same slots consumed, byte-for-byte the same blobs.
    assert_eq!(cur.key(), plain_end);
    for key in 100..102 {
        assert_eq!(plain_store.get(key), marked_store.get(key));
    }
}

#[test]
fn initialized_wrapper_pulls_like_the_payload() {
    let ty = two_leaf_ty();
    let mut store = Store::new();
    let mut cur = Cursor::new(100);
    push_spread(&two_leaf_value(), &ty, &mut store, &mut cur);

    let mut cur = Cursor::new(100);
    let pulled = Upgradable::pull_spread(&ty, &store, &mut cur).unwrap();
    assert_eq!(pulled.value, two_leaf_value());
    assert_eq!(pulled.status, InitStatus::Initialized);

    let empty = Store::new();
    let mut cur = Cursor::new(100);
    assert_eq!(Upgradable::pull_spread(&ty, &empty, &mut cur), Err(Error::NotFound));
}

#[test]
fn uninitialized_wrapper_allocates_on_absence() {
    let ty = two_leaf_ty();
    let empty = Store::new();
    let mut cur = Cursor::new(100);
    let pulled = Upgradable::pull_spread_uninit(&ty, &empty, &mut cur).unwrap();
    // No prior state: the default value, without any read, and the
    // cursor advanced by the full footprint.
    assert_eq!(pulled.value, Value::Struct(vec![Value::Leaf(0), Value::Leaf(0)]));
    assert_eq!(pulled.status, InitStatus::NotInitialized);
    assert_eq!(cur.key(), 102);
}

#[test]
fn uninitialized_wrapper_pulls_existing_state() {
    let ty = two_leaf_ty();
    let mut store = Store::new();
    let mut cur = Cursor::new(100);
    push_spread(&two_leaf_value(), &ty, &mut store, &mut cur);

    let mut cur = Cursor::new(100);
    let pulled = Upgradable::pull_spread_uninit(&ty, &store, &mut cur).unwrap();
    assert_eq!(pulled.value, two_leaf_value());
    assert_eq!(pulled.status, InitStatus::NotInitialized);
    assert_eq!(cur.key(), 102);
}

#[test]
fn marker_clear_removes_the_payload_slots() {
    let ty = two_leaf_ty();
    let mut store = Store::new();
    let mut cur = Cursor::new(100);
    let wrapped = Upgradable::new(two_leaf_value(), InitStatus::Initialized);
    wrapped.push_spread(&ty, &mut store, &mut cur);

    let mut cur = Cursor::new(100);
    wrapped.clear_spread(&ty, &mut store, &mut cur);
    assert!(store.get(100).is_none());
    assert!(store.get(101).is_none());
}
