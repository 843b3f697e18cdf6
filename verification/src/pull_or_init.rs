//! Pull-or-initialize resolution.
//!
//! Given a root key and a type that optionally carries an on-demand
//! initializer, choose between loading existing state and constructing a
//! freshly initialized value.  A type's initializer capability is its
//! designated initial value: when a pull finds no prior entry (or bytes
//! that do not decode), the initial value is returned in its place, and a
//! decode failure is treated exactly like absence.  Without an
//! initializer, both failures are fatal and surface to the caller.

use vstd::prelude::*;

use crate::desc::TypeDesc;
use crate::desc::footprint;
use crate::error::Error;
use crate::key::Cursor;
use crate::key::KEY_SPACE;
use crate::spread::pull_spread;
use crate::spread::res_view;
use crate::spread::spec_pull;
use crate::store::Store;
use crate::value::Value;
use crate::value::clone_value;
use crate::value::conforms;
use crate::value::conforms_to;

verus! {

/// What resolving a pull at `k` yields: the stored value when one
/// decodes; otherwise the initial value when one is declared and it
/// conforms to `t`; otherwise the error.
pub open spec fn spec_pull_or_init(
    s: Map<int, Seq<u8>>,
    t: crate::desc::TypeDescView,
    init: Option<crate::value::ValueView>,
    k: int,
) -> Result<crate::value::ValueView, Error> {
    match spec_pull(s, t, k) {
        Ok(v) => Ok(v),
        Err(e) => match init {
            None => Err(e),
            Some(iv) => if conforms(iv, t) {
                Ok(iv)
            } else {
                Err(Error::InitializerFailure)
            },
        },
    }
}

/// The model of the optional initial value.
pub open spec fn init_view(init: Option<&Value>) -> Option<crate::value::ValueView> {
    match init {
        Some(iv) => Some(iv@),
        None => None,
    }
}

/// Pulls the value of type `t` stored at `key`, or falls back to the
/// initial value `init` when the entry is absent or undecodable.
///
/// With `init` present this never reports absence: it returns `Ok` for
/// every store unless the initial value itself does not conform to `t`,
/// which surfaces as [`Error::InitializerFailure`].  Without `init`, an
/// absent entry is [`Error::NotFound`] and malformed bytes are
/// [`Error::DecodeFailure`]; both abort the enclosing operation.
pub fn pull_or_init(t: &TypeDesc, init: Option<&Value>, store: &Store, key: u32) -> (r: Result<
    Value,
    Error,
>)
    requires
        key + footprint(t@) <= KEY_SPACE,
    ensures
        res_view(r) == spec_pull_or_init(store@, t@, init_view(init), key as int),
{
    let mut cur = Cursor::new(key);
    match pull_spread(t, store, &mut cur) {
        Ok(v) => Ok(v),
        Err(e) => match init {
            None => Err(e),
            Some(iv) => {
                if conforms_to(iv, t) {
                    Ok(clone_value(iv))
                } else {
                    Err(Error::InitializerFailure)
                }
            },
        },
    }
}

} // verus!
