//! Accounting core of a fungible-token ledger: a fixed total supply of
//! indivisible units is tracked across accounts, and owners may delegate
//! limited spending rights to other accounts. The ledger itself never
//! authenticates anybody: the host passes an already-authenticated caller
//! identity into every operation.

use vstd::prelude::*;

mod table;

pub mod laws;
pub mod ledger;
pub mod model;

verus! {

/// An opaque identifier for a ledger participant. The ledger assumes nothing
/// about it beyond equality.
pub type AccountId = u64;

/// A quantity of token units, wide enough to hold any total supply the
/// ledger can be constructed with.
pub type Balance = u128;

} // verus!
