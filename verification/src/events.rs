//! The entities that the state machine tracks: signature ranges, pending
//! signatures, deposits and withdrawals, each with its retry counter.

use vstd::prelude::*;

use crate::amount::Amount;
use crate::coupon::{Coupon, CouponView};
use crate::principal::Principal;

verus! {

/// Counts how often an operation on its owner has been retried.
#[derive(Clone, Copy, Debug, PartialEq, Eq, Structural)]
pub struct Retriable(pub u8);

impl Retriable {
    pub open spec fn retries(self) -> nat {
        self.0 as nat
    }

    pub fn new() -> (r: Self)
        ensures
            r.retries() == 0,
    {
        Retriable(0)
    }

    pub fn get_retries(&self) -> (n: u8)
        ensures
            n == self.retries(),
    {
        self.0
    }

    /// Counts one more retry. The counter has no room above 255.
    pub fn increment_retries(&mut self)
        requires
            old(self).retries() < 255,
        ensures
            final(self).retries() == old(self).retries() + 1,
    {
        self.0 = self.0 + 1;
    }

    pub fn reset_retries(&mut self)
        ensures
            final(self).retries() == 0,
    {
        self.0 = 0;
    }

    pub fn is_retry_limit_reached(&self, limit: u8) -> (reached: bool)
        ensures
            reached == (self.retries() >= limit),
    {
        self.get_retries() >= limit
    }
}

/// An open interval of signatures that is still to be enumerated: newer than
/// `until_sol_sig` and older than `before_sol_sig`.
#[derive(Debug, PartialEq, Eq)]
pub struct SolanaSignatureRange {
    pub before_sol_sig: String,
    pub until_sol_sig: String,
    pub retry: Retriable,
}

pub struct RangeView {
    pub before: Seq<char>,
    pub until: Seq<char>,
    pub retries: nat,
}

impl RangeView {
    /// A range is found by its two bounds.
    pub open spec fn key(self) -> (Seq<char>, Seq<char>) {
        (self.before, self.until)
    }

    pub open spec fn retried(self) -> RangeView {
        RangeView { retries: self.retries + 1, ..self }
    }
}

impl View for SolanaSignatureRange {
    type V = RangeView;

    open spec fn view(&self) -> RangeView {
        RangeView {
            before: self.before_sol_sig@,
            until: self.until_sol_sig@,
            retries: self.retry.retries(),
        }
    }
}

impl Clone for SolanaSignatureRange {
    fn clone(&self) -> (r: Self)
        ensures
            r@ == self@,
    {
        SolanaSignatureRange {
            before_sol_sig: self.before_sol_sig.clone(),
            until_sol_sig: self.until_sol_sig.clone(),
            retry: self.retry,
        }
    }
}

impl SolanaSignatureRange {
    /// A range that has not been retried.
    pub fn new(before: String, until: String) -> (r: Self)
        ensures
            r@ == (RangeView { before: before@, until: until@, retries: 0 }),
    {
        SolanaSignatureRange { before_sol_sig: before, until_sol_sig: until, retry: Retriable(0) }
    }

    /// Whether the range has the given bounds.
    pub fn has_bounds(&self, before: &String, until: &String) -> (b: bool)
        ensures
            b == (self@.key() == (before@, until@)),
    {
        self.before_sol_sig == *before && self.until_sol_sig == *until
    }
}

/// A signature that was discovered and whose transaction is still to be
/// fetched and classified.
#[derive(Debug, PartialEq, Eq)]
pub struct SolanaSignature {
    pub sol_sig: String,
    pub retry: Retriable,
}

pub struct SignatureView {
    pub sol_sig: Seq<char>,
    pub retries: nat,
}

impl SignatureView {
    pub open spec fn key(self) -> Seq<char> {
        self.sol_sig
    }

    pub open spec fn retried(self) -> SignatureView {
        SignatureView { retries: self.retries + 1, ..self }
    }
}

impl View for SolanaSignature {
    type V = SignatureView;

    open spec fn view(&self) -> SignatureView {
        SignatureView { sol_sig: self.sol_sig@, retries: self.retry.retries() }
    }
}

impl Clone for SolanaSignature {
    fn clone(&self) -> (r: Self)
        ensures
            r@ == self@,
    {
        SolanaSignature { sol_sig: self.sol_sig.clone(), retry: self.retry }
    }
}

impl SolanaSignature {
    /// A signature that has not been retried.
    pub fn new(signature: String) -> (r: Self)
        ensures
            r@ == (SignatureView { sol_sig: signature@, retries: 0 }),
    {
        SolanaSignature { sol_sig: signature, retry: Retriable(0) }
    }

    /// The signature as text.
    pub fn to_text(&self) -> (text: String)
        ensures
            text@ == self@.sol_sig,
    {
        self.sol_sig.clone()
    }
}

/// A deposit that was observed on the source chain.
#[derive(Debug, PartialEq, Eq)]
pub struct DepositEvent {
    pub id: u64,
    pub from_sol_address: String,
    pub to_icp_address: Principal,
    pub amount: Amount,
    pub sol_sig: String,
    pub icp_mint_block_index: Option<u64>,
    pub retry: Retriable,
}

pub struct DepositView {
    pub id: u64,
    pub from_sol_address: Seq<char>,
    pub to_icp_address: Seq<u8>,
    pub amount: nat,
    pub sol_sig: Seq<char>,
    pub mint_block_index: Option<u64>,
    pub retries: nat,
}

impl DepositView {
    /// A deposit is found by the signature of its transaction.
    pub open spec fn key(self) -> Seq<char> {
        self.sol_sig
    }

    pub open spec fn retried(self) -> DepositView {
        DepositView { retries: self.retries + 1, ..self }
    }

    pub open spec fn minted_at(self, block_index: u64) -> DepositView {
        DepositView { mint_block_index: Some(block_index), ..self }
    }
}

impl View for DepositEvent {
    type V = DepositView;

    open spec fn view(&self) -> DepositView {
        DepositView {
            id: self.id,
            from_sol_address: self.from_sol_address@,
            to_icp_address: self.to_icp_address@,
            amount: self.amount@,
            sol_sig: self.sol_sig@,
            mint_block_index: self.icp_mint_block_index,
            retries: self.retry.retries(),
        }
    }
}

impl Clone for DepositEvent {
    fn clone(&self) -> (r: Self)
        ensures
            r@ == self@,
    {
        DepositEvent {
            id: self.id,
            from_sol_address: self.from_sol_address.clone(),
            to_icp_address: self.to_icp_address.clone(),
            amount: self.amount.clone(),
            sol_sig: self.sol_sig.clone(),
            icp_mint_block_index: self.icp_mint_block_index,
            retry: self.retry,
        }
    }
}

impl DepositEvent {
    /// Records the ledger block in which the deposit was minted.
    pub fn update_mint_block_index(&mut self, block_index: u64)
        ensures
            final(self)@ == old(self)@.minted_at(block_index),
    {
        self.icp_mint_block_index = Some(block_index);
    }

    pub fn get_mint_block_index(&self) -> (index: Option<u64>)
        ensures
            index == self@.mint_block_index,
    {
        self.icp_mint_block_index
    }
}

/// A withdrawal: created, then burned on the ledger, then redeemed by a coupon.
#[derive(Debug, PartialEq, Eq)]
pub struct WithdrawalEvent {
    pub from_icp_address: Principal,
    pub to_sol_address: String,
    pub amount: Amount,
    pub burn_id: u64,
    pub burn_timestamp: Option<u64>,
    pub icp_burn_block_index: Option<u64>,
    pub coupon: Option<Coupon>,
    pub retry: Retriable,
}

pub struct WithdrawalView {
    pub from_icp_address: Seq<u8>,
    pub to_sol_address: Seq<char>,
    pub amount: nat,
    pub burn_id: u64,
    pub burn_timestamp: Option<u64>,
    pub burn_block_index: Option<u64>,
    pub coupon: Option<CouponView>,
    pub retries: nat,
}

impl WithdrawalView {
    /// A withdrawal is found by its burn id.
    pub open spec fn key(self) -> u64 {
        self.burn_id
    }

    pub open spec fn retried(self) -> WithdrawalView {
        WithdrawalView { retries: self.retries + 1, ..self }
    }

    pub open spec fn burned_at(self, timestamp: u64, block_index: u64) -> WithdrawalView {
        WithdrawalView {
            burn_timestamp: Some(timestamp),
            burn_block_index: Some(block_index),
            ..self
        }
    }

    pub open spec fn redeemed_by(self, coupon: CouponView) -> WithdrawalView {
        WithdrawalView { coupon: Some(coupon), ..self }
    }

    /// The ledger has burned the tokens of this withdrawal.
    pub open spec fn is_burned(self) -> bool {
        self.burn_timestamp is Some && self.burn_block_index is Some
    }
}

/// The view of a coupon that may be absent.
pub open spec fn coupon_view(coupon: Option<Coupon>) -> Option<CouponView> {
    match coupon {
        Some(c) => Some(c@),
        None => None,
    }
}

impl View for WithdrawalEvent {
    type V = WithdrawalView;

    open spec fn view(&self) -> WithdrawalView {
        WithdrawalView {
            from_icp_address: self.from_icp_address@,
            to_sol_address: self.to_sol_address@,
            amount: self.amount@,
            burn_id: self.burn_id,
            burn_timestamp: self.burn_timestamp,
            burn_block_index: self.icp_burn_block_index,
            coupon: coupon_view(self.coupon),
            retries: self.retry.retries(),
        }
    }
}

impl Clone for WithdrawalEvent {
    fn clone(&self) -> (r: Self)
        ensures
            r@ == self@,
    {
        let coupon = match &self.coupon {
            Some(c) => Some(c.clone()),
            None => None,
        };
        WithdrawalEvent {
            from_icp_address: self.from_icp_address.clone(),
            to_sol_address: self.to_sol_address.clone(),
            amount: self.amount.clone(),
            burn_id: self.burn_id,
            burn_timestamp: self.burn_timestamp,
            icp_burn_block_index: self.icp_burn_block_index,
            coupon,
            retry: self.retry,
        }
    }
}

impl WithdrawalEvent {
    /// A withdrawal that has been created and nothing more.
    pub fn new(burn_id: u64, from: Principal, to_sol_address: String, amount: Amount) -> (w: Self)
        ensures
            w@ == (WithdrawalView {
                from_icp_address: from@,
                to_sol_address: to_sol_address@,
                amount: amount@,
                burn_id,
                burn_timestamp: None,
                burn_block_index: None,
                coupon: None,
                retries: 0,
            }),
    {
        WithdrawalEvent {
            from_icp_address: from,
            to_sol_address,
            amount,
            burn_id,
            burn_timestamp: None,
            icp_burn_block_index: None,
            coupon: None,
            retry: Retriable(0),
        }
    }

    pub fn get_burn_id(&self) -> (id: u64)
        ensures
            id == self@.burn_id,
    {
        self.burn_id
    }

    pub fn get_burn_timestamp(&self) -> (timestamp: Option<u64>)
        ensures
            timestamp == self@.burn_timestamp,
    {
        self.burn_timestamp
    }

    pub fn get_icp_burn_block_index(&self) -> (index: Option<u64>)
        ensures
            index == self@.burn_block_index,
    {
        self.icp_burn_block_index
    }

    /// Records when and in which ledger block the tokens were burned.
    pub fn update_after_burn(&mut self, timestamp: u64, block_index: u64)
        ensures
            final(self)@ == old(self)@.burned_at(timestamp, block_index),
    {
        self.burn_timestamp = Some(timestamp);
        self.icp_burn_block_index = Some(block_index);
    }

    /// Attaches the coupon that redeems the withdrawal.
    pub fn update_after_redeem(&mut self, coupon: Coupon)
        ensures
            final(self)@ == old(self)@.redeemed_by(coupon@),
    {
        self.coupon = Some(coupon);
    }

    pub fn get_coupon(&self) -> (coupon: Option<&Coupon>)
        ensures
            coupon is Some == self@.coupon is Some,
            coupon matches Some(c) ==> Some(c@) == self@.coupon,
    {
        self.coupon.as_ref()
    }
}

} // verus!
