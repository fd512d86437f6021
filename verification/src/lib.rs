//! The ledger storage of a crowdfunding campaign on Soroban.
//!
//! [`storage`] holds the accessors, [`freeze`] the emergency brake on top of
//! them. Their contracts speak of the ledger as [`ledger`] models it; [`keys`],
//! [`types`] and [`milestones`] say how keys, records and milestones are laid
//! out on it. [`coherence`] is the invariant that all operations keep, and
//! [`laws`] states what holds of them taken together. [`host`] is the boundary
//! to `soroban_sdk`: what the proofs take on trust stands there.

use vstd::prelude::*;

pub mod coherence;
pub mod freeze;
pub mod host;
pub mod keys;
pub mod laws;
pub mod ledger;
pub mod milestones;
pub mod storage;
pub mod types;

verus! {

/// One hour: how long a freeze has to stand when no delay has been configured.
pub const DEFAULT_MIN_UNFREEZE_DELAY: u64 = 3600;

/// ~30 days: the longest delay that can be configured.
pub const MAX_UNFREEZE_DELAY: u64 = 2_592_000;

} // verus!
