//! The message types of the contract's entry points.

use vstd::prelude::*;
use crate::state::Coin;

verus! {

/// Message for the `instantiate` entry point: the single quota to configure.
#[derive(Debug, Clone, PartialEq, Eq)]
pub struct InstantiateMsg {
    /// The denomination to limit and the ceiling on its spend.
    pub limit: Coin,
}

/// An account operation as the host hands it over: a type url and an encoded
/// payload. The enforcement core passes these through without reading them.
#[derive(Debug, Clone, PartialEq, Eq)]
pub struct Any {
    pub type_url: String,
    pub value: String,
}

/// Call metadata that accompanies a batch of operations; passed through
/// without being read.
#[derive(Debug, Clone, PartialEq, Eq)]
pub struct CallInfo {
    pub fee: Vec<Coin>,
    pub gas: u64,
    pub fee_payer: String,
    pub fee_granter: String,
}

/// Message for the `sudo` entry point: the host invokes `PreExecute` before
/// a batch of operations runs and `AfterExecute` once it has run.
#[derive(Debug, Clone, PartialEq, Eq)]
pub enum SudoMsg {
    PreExecute { msgs: Vec<Any>, call_info: CallInfo },
    AfterExecute { msgs: Vec<Any>, call_info: CallInfo },
}

/// Message for the `migrate` entry point; no migration is supported, so the
/// message carries nothing.
#[derive(Debug, Clone, PartialEq, Eq)]
pub struct MigrateMsg {}

/// A bank send operation, the shape carried inside an [`Any`] payload.
#[derive(Debug, Clone, PartialEq, Eq)]
pub struct MsgSend {
    pub from_address: String,
    pub to_address: String,
    pub amount: Vec<Coin>,
}

/// Message for the `query` entry point.
#[derive(Debug, Clone, PartialEq, Eq)]
pub enum QueryMsg {
    GetLimt { denom: String },
}

} // verus!
