//! A role-gated, enumerable non-fungible-token ledger.
//!
//! The crate tracks unique token ownership under a flat role model
//! (admin, minter, pauser, upgrader), a strict two-state pause machine,
//! and two parallel enumeration structures — a global index of all
//! existing tokens and a per-owner index — kept consistent under
//! arbitrary mint/transfer/burn order with swap-with-last removal.

use vstd::prelude::*;

pub mod errors;
pub mod pause;
pub mod roles;
pub mod seq_util;
pub mod ledger;
pub mod laws;
pub mod contract;

verus! {

/// An account address. The host's opaque address values are modelled as
/// 64-bit integers; `ZERO_ADDRESS` is the reserved null address that no
/// token may be transferred to.
pub type Address = u64;

/// The null address: an invalid transfer recipient.
pub const ZERO_ADDRESS: Address = 0;

} // verus!
