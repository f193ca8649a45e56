//! Overlay-network membership management for a peer-to-peer node.
//!
//! The crate models the race-safe overlay registry, the single-flight
//! bootstrap coordination, peer discovery against a distributed hash
//! table, and the periodic maintenance loops that keep an overlay's
//! peer set alive. Every decision these components make is stated in a
//! contract and proved; the asynchronous runtime that drives them lives
//! outside the library and feeds them plain values.

pub mod ids;
pub mod peers;
pub mod discovery;
pub mod single_flight;
pub mod registry;
pub mod maintenance;
pub mod storage;
pub mod bootstrap;

use vstd::prelude::*;

verus! {

/// Length in bytes of an overlay identifier, short or full.
pub const OVERLAY_ID_LEN: usize = 32;

} // verus!
