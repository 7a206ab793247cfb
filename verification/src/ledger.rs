//! What the minter asks of the ledger, and what the ledger may answer.

use vstd::prelude::*;

use crate::amount::Amount;
use crate::principal::Principal;

verus! {

/// Why the ledger did not move tokens.
#[derive(Clone, Debug, PartialEq, Eq)]
pub enum LedgerFailure {
    /// The ledger refused the transfer; its reason in words.
    Rejected(String),
    /// The ledger could not be reached.
    Transport { code: i32, msg: String },
}

/// A transfer that mints tokens to a principal, or burns tokens of one.
#[derive(Debug, PartialEq, Eq)]
pub struct TransferRequest {
    /// Who is credited by a mint, or debited by a burn.
    pub account: Principal,
    pub amount: Amount,
    pub created_at_time: u64,
    pub memo: Vec<u8>,
}

} // verus!
