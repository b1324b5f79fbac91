//! The errors that the contract's entry points surface.

use vstd::prelude::*;

verus! {

/// Why a cycle was refused.
///
/// `LimitExceeded` is the expected business rejection and names the offending
/// denomination. The others are faults: a balance query that failed
/// (`QueryError`, raised by the adapter that performs the query), an `after`
/// call without a matching `before` (`MissingSnapshot`), and a quota update
/// that would not fit the counter (`ArithmeticOverflow`).
#[derive(Debug, Clone, PartialEq, Eq)]
pub enum ContractError {
    /// The balance query collaborator failed; its message is kept.
    QueryError(String),
    /// An `after` call arrived with no snapshot in the slot.
    MissingSnapshot,
    /// Recording an accepted spend would overflow the `used` counter.
    ArithmeticOverflow,
    /// The named denomination's spend would pass its ceiling.
    LimitExceeded(String),
}

} // verus!
