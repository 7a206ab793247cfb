//! Names and size estimates of the JSON-RPC calls.

use vstd::prelude::*;

verus! {

/// What the headers of a response are taken to weigh at most, in bytes.
pub const HEADER_SIZE_LIMIT: u64 = 2048;

/// The largest response that an outbound request may ask for, in bytes.
pub const HTTP_MAX_SIZE: u64 = 2_000_000;

pub const MAX_PAYLOAD_SIZE: u64 = 1_997_952;

/// What one entry of a signature scan is taken to weigh, in bytes.
pub const SIGNATURE_RESPONSE_SIZE_ESTIMATE: u64 = 500;

/// What one fetched transaction is taken to weigh, in bytes.
pub const TRANSACTION_RESPONSE_SIZE_ESTIMATE: u64 = 2200;

#[derive(Clone, Copy, Debug, PartialEq, Eq, Structural)]
pub enum RpcMethod {
    GetSignaturesForAddress,
    GetTransaction,
}

impl RpcMethod {
    pub open spec fn name(self) -> Seq<char> {
        match self {
            RpcMethod::GetSignaturesForAddress => "getSignaturesForAddress"@,
            RpcMethod::GetTransaction => "getTransaction"@,
        }
    }

    /// The name of the method as the provider knows it.
    pub fn as_str(&self) -> (name: &'static str)
        ensures
            name@ == self.name(),
    {
        match self {
            RpcMethod::GetSignaturesForAddress => "getSignaturesForAddress",
            RpcMethod::GetTransaction => "getTransaction",
        }
    }
}

/// How settled a transaction has to be for the provider to report it.
#[derive(Clone, Copy, Debug, PartialEq, Eq, Structural)]
pub enum ConfirmationStatus {
    Finalized,
    Confirmed,
    Processed,
}

impl ConfirmationStatus {
    pub open spec fn name(self) -> Seq<char> {
        match self {
            ConfirmationStatus::Finalized => "finalized"@,
            ConfirmationStatus::Confirmed => "confirmed"@,
            ConfirmationStatus::Processed => "processed"@,
        }
    }

    /// The name of the level as the provider knows it.
    pub fn as_str(&self) -> (name: &'static str)
        ensures
            name@ == self.name(),
    {
        match self {
            ConfirmationStatus::Finalized => "finalized",
            ConfirmationStatus::Confirmed => "confirmed",
            ConfirmationStatus::Processed => "processed",
        }
    }
}

} // verus!
