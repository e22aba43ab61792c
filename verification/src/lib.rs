//! Server-authoritative simulation core for a multiplayer world: a
//! fixed-cadence physics tick pipeline that steps a rigid-body simulation,
//! normalizes raw collision events into contact lifecycles, and feeds those
//! into a skill/buff/cooldown layer with batched, idempotent store sync.

use vstd::prelude::*;

pub mod codec;
pub mod engine;
pub mod store;
pub mod tick;
pub mod world;
pub mod collision;
pub mod contacts;
pub mod config;
pub mod map;
pub mod queries;
pub mod shape;
pub mod scheduler;
pub mod sim;
pub mod skills;
pub mod spatial;

verus! {

/// Sum of two counters.
pub fn add(left: u64, right: u64) -> (r: u64)
    requires
        left + right <= u64::MAX,
    ensures
        r == left + right,
{
    left + right
}

} // verus!
