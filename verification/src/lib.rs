//! Vault item canonicalization and bulk-import reconciliation.
//!
//! The library models vault entries (login / secure note / card / identity
//! records) in a canonical, transport-independent form, maps them to and from
//! the client wire shape, resolves bulk-import batches into ordered write
//! operations, and chunks those operations for batched execution.

pub mod batch;
pub mod cipher;
pub mod codec;
pub mod error;
pub mod ids;
pub mod import;
pub mod json;
pub mod store;

use vstd::prelude::*;

verus! {

/// A record kind selects which payload variant is meaningful.
pub open spec fn valid_kind(kind: i32) -> bool {
    1 <= kind <= 4
}

} // verus!
