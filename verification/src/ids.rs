//! Aggregate identity.
//!
//! An aggregate identity is an opaque, copyable, comparable value that names
//! one instance of domain state. Every event and snapshot associated with an
//! aggregate instance carries exactly this identity.

use vstd::prelude::*;

verus! {

/// The identity of one aggregate instance, carried by every event and
/// snapshot that belongs to it. The inner value is a 128-bit number, wide
/// enough to hold a UUID.
#[derive(Clone, Copy, Debug, PartialEq, Eq, Structural, Hash)]
pub struct AggregateId(pub u128);

/// Draws a fresh, practically unique aggregate identity.
///
/// Relies on `uuid::Uuid::new_v4` to produce a random identifier; nothing can
/// be promised of a random value.
#[verifier::external_body]
pub fn fresh_aggregate_id() -> AggregateId {
    AggregateId(uuid::Uuid::new_v4().as_u128())
}

} // verus!
