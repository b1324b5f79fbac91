//! The smart-account platform's message types, as plain data: the requests
//! and responses with which an account is activated, recovered or queried,
//! and the module's parameter set. The enforcement core never reads them;
//! they are the shapes a client of the platform exchanges with it.

use vstd::prelude::*;
use crate::shim::Any;

verus! {

/// One whitelisted contract code and whether it may back new accounts.
#[derive(Debug, Clone, PartialEq, Eq)]
pub struct CodeID {
    pub code_id: u64,
    pub status: bool,
}

/// The parameters of the smart-account module.
#[derive(Debug, Clone, PartialEq, Eq)]
pub struct Params {
    pub whitelist_code_id: Vec<CodeID>,
    pub disable_msgs_list: Vec<String>,
    pub max_gas_execute: u64,
}

/// Request to activate a smart account on chain.
#[derive(Debug, Clone, PartialEq, Eq)]
pub struct MsgActivateAccountRequest {
    pub account_address: String,
    pub salt: Vec<u8>,
    pub code_id: u64,
    pub pub_key: Option<Any>,
    pub init_msg: Vec<u8>,
}

/// Response to an activation: the account's address.
#[derive(Debug, Clone, PartialEq, Eq)]
pub struct MsgActivateAccountResponse {
    pub address: String,
}

/// Request to recover a smart account with a new key.
#[derive(Debug, Clone, PartialEq, Eq)]
pub struct MsgRecoverRequest {
    pub creator: String,
    pub address: String,
    pub public_key: Option<Any>,
    pub credentials: String,
}

/// Response to a recovery; it carries nothing.
#[derive(Debug, Clone, PartialEq, Eq)]
pub struct MsgRecoverResponse {}

/// Query for the address a smart account would get.
#[derive(Debug, Clone, PartialEq, Eq)]
pub struct QueryGenerateAccountRequest {
    pub code_id: u64,
    pub salt: Vec<u8>,
    pub init_msg: Vec<u8>,
    pub public_key: Option<Any>,
}

/// Answer to an address query.
#[derive(Debug, Clone, PartialEq, Eq)]
pub struct QueryGenerateAccountResponse {
    pub address: String,
}

/// Query for the module's parameter set.
#[derive(Debug, Clone, PartialEq, Eq)]
pub struct QueryParamsRequest {}

/// Answer to a parameter query.
#[derive(Debug, Clone, PartialEq, Eq)]
pub struct QueryParamsResponse {
    pub params: Option<Params>,
}

} // verus!
