//! What the provider answers, as far as the pipeline reads it.

use vstd::prelude::*;

verus! {

/// The error member of a JSON-RPC response.
#[derive(Clone, Debug, PartialEq, Eq)]
pub struct JsonRpcError {
    pub code: i32,
    pub message: String,
}

/// A JSON-RPC response: a result, an error, or neither.
#[derive(Clone, Debug, PartialEq, Eq)]
pub struct JsonRpcResponse<T> {
    pub jsonrpc: String,
    pub result: Option<T>,
    pub error: Option<JsonRpcError>,
    pub id: u64,
}

/// One entry of a signature scan.
#[derive(Clone, Debug, PartialEq, Eq)]
pub struct SignatureResponse {
    pub block_time: u64,
    pub confirmation_status: String,
    pub err: Option<String>,
    pub memo: Option<String>,
    pub signature: String,
    pub slot: u64,
}

#[derive(Clone, Debug, PartialEq, Eq)]
pub struct Header {
    pub num_readonly_signed_accounts: u64,
    pub num_readonly_unsigned_accounts: u64,
    pub num_required_signatures: u64,
}

#[derive(Clone, Debug, PartialEq, Eq)]
pub struct Instruction {
    pub accounts: Vec<u64>,
    pub data: String,
    pub program_id_index: u64,
    pub stack_height: Option<u64>,
}

#[derive(Clone, Debug, PartialEq, Eq)]
pub struct Message {
    pub account_keys: Vec<String>,
    pub header: Header,
    pub instructions: Vec<Instruction>,
    pub recent_blockhash: String,
}

/// What running the transaction left behind.
#[derive(Clone, Debug, PartialEq, Eq)]
pub struct Meta {
    pub compute_units_consumed: u64,
    pub fee: u64,
    pub log_messages: Vec<String>,
    pub post_balances: Vec<u64>,
    pub pre_balances: Vec<u64>,
}

#[derive(Clone, Debug, PartialEq, Eq)]
pub struct Transaction {
    pub message: Message,
    pub signatures: Vec<String>,
}

/// A fetched transaction.
#[derive(Clone, Debug, PartialEq, Eq)]
pub struct GetTransactionResponse {
    pub block_time: u64,
    pub meta: Meta,
    pub slot: u64,
    pub transaction: Transaction,
}

} // verus!
