//! Scholarship pools: sponsors open pools, donors fund them, schools vet
//! student applications and approved students draw funds down, paying a
//! protocol fee on every claim.
//!
//! The whole ledger of the contract is held by [`Contract`]; every entry
//! point is a method on it whose contract is stated over [`ContractModel`].
//! Addresses are held by their string encoding. An entry point that demands
//! an authorization returns an [`Outcome`] naming the address whose
//! authorization it demanded; payouts are returned as [`Transfer`]s for the
//! caller to carry out.
use vstd::prelude::*;

pub mod types;
pub mod table;
pub mod model;
pub mod contract;
pub mod history;
pub mod laws;

pub use contract::{ApplicationEntry, Contract, LedgerSnapshot, PoolRecord};
pub use table::StudentEntry;
pub use model::{ContractModel, PoolState, TransferView};
pub use types::{Application, Milestone, NevoError, Outcome, Pool, PoolView, Transfer};

verus! {

} // verus!
