//! Shared records replicated across independent execution contexts.
//!
//! Two applications share one pattern: a single authority context owns the
//! canonical state, peers forward writes to it as one-way messages, and a
//! mutation engine validates and applies every write the same way whether it
//! arrived locally or by message. The quiz application keeps quiz records,
//! answer attempts and leaderboards; the pixel application keeps a shared
//! canvas with per-cell ownership negotiation.

pub mod kv;
pub mod numtext;
pub mod pixel_abi;
pub mod pixel_engine;
pub mod pixel_state;
pub mod quiz_abi;
pub mod quiz_engine;
pub mod quiz_routing;
pub mod quiz_state;
pub mod quiz_views;
pub mod sorting;

use vstd::prelude::*;

verus! {

/// The identifier of one execution context (a chain). Contexts cannot read
/// each other's memory; they only compare identifiers and address messages.
#[derive(Clone, Copy, Debug, PartialEq, Eq, Hash, Structural)]
pub struct ChainId {
    pub value: u64,
}

} // verus!
