//! Fresh identities and the request timestamp.
//!
//! Both values come from the outside world: identifiers are random, the
//! timestamp reads the clock. Callers state what holds of every outcome.

use vstd::prelude::*;

verus! {

/// Relies on uuid::Uuid::new_v4 and its Display impl: a freshly drawn
/// version-4 UUID rendered in the 36-character hyphenated form. The value is
/// random; nothing beyond its length is promised.
#[verifier::external_body]
pub(crate) fn fresh_id() -> (r: String)
    ensures
        r@.len() == 36,
{
    uuid::Uuid::new_v4().to_string()
}

/// Relies on chrono::Utc::now and DateTime::format: the current UTC time
/// with second and millisecond precision. The value depends on the clock;
/// nothing is promised of it.
#[verifier::external_body]
pub(crate) fn timestamp_now() -> String {
    chrono::Utc::now().format("%Y-%m-%dT%H:%M:%S%.3fZ").to_string()
}

} // verus!
