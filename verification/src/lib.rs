use vstd::prelude::*;

pub mod analysis;
pub mod assign;
pub mod dataset;
pub mod hasher;
pub mod pubkey;

verus! {

/// Number of buckets every epoch distributes the identifiers over.
pub const BUCKETS: usize = 100;

/// Number of epochs a full run evaluates; epoch numbers are `0..EPOCHS`.
pub const EPOCHS: u64 = 1000;

} // verus!
