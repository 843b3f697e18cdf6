//! The initialization-status marker.
//!
//! A wrapped value records, alongside its payload, whether its on-demand
//! initializer has run.  The marker carries no storage bytes: pushing and
//! clearing write and remove exactly what the bare payload would, and the
//! slots consumed are the payload type's footprint, so the marker affects
//! neither footprint nor encoding.
//!
//! Pulling distinguishes the two states.  An initialized wrapper pulls
//! like the bare payload.  A not-yet-initialized wrapper consults the
//! store first: when the root slot holds no prior state, the default
//! value is allocated in place of a read, and the cursor still advances
//! by the full footprint.

use vstd::prelude::*;

use crate::desc::TypeDesc;
use crate::desc::footprint;
use crate::desc::wf_ty;
use crate::error::Error;
use crate::key::Cursor;
use crate::key::KEY_SPACE;
use crate::spread::spec_clear;
use crate::spread::spec_pull;
use crate::spread::spec_push;
use crate::store::Store;
use crate::value::Value;
use crate::value::conforms;
use crate::value::default_value;

verus! {

broadcast use crate::key::lemma_cursor_nonneg;

/// Whether the on-demand initializer has run for the wrapped value.
#[derive(Clone, Copy, Debug, PartialEq, Eq, Structural)]
pub enum InitStatus {
    Initialized,
    NotInitialized,
}

/// A value carrying its initialization status.
#[derive(Debug, PartialEq)]
pub struct Upgradable {
    pub value: Value,
    pub status: InitStatus,
}

impl Upgradable {
    /// Wraps a payload with its status.
    pub fn new(value: Value, status: InitStatus) -> (r: Upgradable)
        ensures
            r.value == value,
            r.status == status,
    {
        Upgradable { value, status }
    }

    /// Pushes the payload alone: the marker adds no bytes, so the store
    /// and the cursor end exactly as a bare push of the payload leaves
    /// them.
    pub fn push_spread(&self, t: &TypeDesc, store: &mut Store, cur: &mut Cursor)
        requires
            conforms(self.value@, t@),
            old(cur)@ + footprint(t@) <= KEY_SPACE,
        ensures
            final(cur)@ == old(cur)@ + footprint(t@),
            final(store)@ == spec_push(old(store)@, self.value@, t@, old(cur)@),
    {
        crate::spread::push_spread(&self.value, t, store, cur)
    }

    /// Clears the payload's slots alone, like a bare clear of the
    /// payload.
    pub fn clear_spread(&self, t: &TypeDesc, store: &mut Store, cur: &mut Cursor)
        requires
            conforms(self.value@, t@),
            old(cur)@ + footprint(t@) <= KEY_SPACE,
        ensures
            final(cur)@ == old(cur)@ + footprint(t@),
            final(store)@ == spec_clear(old(store)@, self.value@, t@, old(cur)@),
    {
        crate::spread::clear_spread(&self.value, t, store, cur)
    }

    /// Pulls an already-initialized wrapper: exactly a bare pull of the
    /// payload.
    pub fn pull_spread(t: &TypeDesc, store: &Store, cur: &mut Cursor) -> (r: Result<
        Upgradable,
        Error,
    >)
        requires
            old(cur)@ + footprint(t@) <= KEY_SPACE,
        ensures
            final(cur)@ == old(cur)@ + footprint(t@),
            match r {
                Ok(u) => u.status == InitStatus::Initialized && spec_pull(
                    store@,
                    t@,
                    old(cur)@,
                ) == Ok::<crate::value::ValueView, Error>(u.value@),
                Err(e) => spec_pull(store@, t@, old(cur)@) == Err::<
                    crate::value::ValueView,
                    Error,
                >(e),
            },
    {
        match crate::spread::pull_spread(t, store, cur) {
            Ok(v) => Ok(Upgradable { value: v, status: InitStatus::Initialized }),
            Err(e) => Err(e),
        }
    }

    /// Pulls a not-yet-initialized wrapper.  When the root slot holds no
    /// prior entry (or the type occupies no slots at all), the default
    /// value is allocated without reading; otherwise the payload is
    /// pulled as usual.  Either way the status stays not-initialized and
    /// the cursor advances by the full footprint.
    pub fn pull_spread_uninit(t: &TypeDesc, store: &Store, cur: &mut Cursor) -> (r: Result<
        Upgradable,
        Error,
    >)
        requires
            wf_ty(t@),
            old(cur)@ + footprint(t@) <= KEY_SPACE,
        ensures
            final(cur)@ == old(cur)@ + footprint(t@),
            match r {
                Ok(u) => u.status == InitStatus::NotInitialized && if footprint(t@) == 0
                    || !store@.contains_key(old(cur)@) {
                    u.value@ == default_value(t@)
                } else {
                    spec_pull(store@, t@, old(cur)@) == Ok::<crate::value::ValueView, Error>(
                        u.value@,
                    )
                },
                Err(e) => footprint(t@) > 0 && store@.contains_key(old(cur)@) && spec_pull(
                    store@,
                    t@,
                    old(cur)@,
                ) == Err::<crate::value::ValueView, Error>(e),
            },
    {
        let fpt = t.footprint_of();
        if fpt == 0 || !store.contains(cur.slot()) {
            let v = crate::spread::allocate_spread(t, cur);
            Ok(Upgradable { value: v, status: InitStatus::NotInitialized })
        } else {
            match crate::spread::pull_spread(t, store, cur) {
                Ok(v) => Ok(Upgradable { value: v, status: InitStatus::NotInitialized }),
                Err(e) => Err(e),
            }
        }
    }
}

} // verus!
