//! Consensus core and chain synchronisation logic of a proof-of-stake node.
//!
//! Storage, networking, the clock and the virtual machine are collaborators
//! outside this library: their outcomes enter as plain values, and the
//! decisions taken on them are verified here. BLS signatures are checked and
//! aggregated through the BLS signature crate.
use vstd::prelude::*;

pub mod bytes;
pub mod signatures;
pub mod commons;
pub mod iteration_ctx;
pub mod committee;
pub mod ledger;
pub mod header_validation;
pub mod mempool;
pub mod chain;
pub mod fsm;
pub mod round;
pub mod proposal;
pub mod vm;
pub mod map;
pub mod step_votes_reg;
pub mod aggregator;

verus! {

/// The node's handle on its state services.
#[derive(Debug, Default)]
pub struct Rusk {}

} // verus!
