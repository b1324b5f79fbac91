//! A rolling spend quota for a programmable account.
//!
//! Before a batch of outgoing operations runs, the account's holdings are
//! snapshotted; after it runs, the holdings are queried again, the per-asset
//! net decrease is computed, and the cycle is either accepted (quota records
//! are updated) or vetoed. The enforcement algorithm, the quota store and the
//! snapshot handling live here and are verified; querying balances, persisting
//! state on a host and wire encodings are left to the surrounding adapter.

pub mod contract;
pub mod error;
pub mod laws;
pub mod msg;
pub mod proto;
pub mod runner;
pub mod shim;
pub mod state;
