//! The withdrawal pipeline: burn the tokens on the ledger, write the
//! canonical message of the burn, have it signed, and keep the coupon.

use vstd::prelude::*;
use vstd::string::*;
use vstd::utf8::encode_utf8;

use crate::amount::Amount;
use crate::codec::{hex_encode, hex_text, sha256, sha256_digest};
use crate::coupon::{Coupon, CouponError, CouponView, ParityOutcome, UserWithdrawInfo};
use crate::events::{WithdrawalEvent, WithdrawalView};
use crate::json::{
    lemma_read_literal, lemma_read_number_round_trip, lemma_read_string_round_trip, read_literal,
    read_number, read_string, scan_literal, scan_number, scan_string,
};
use crate::keyed::views;
use crate::ledger::{LedgerFailure, TransferRequest};
use crate::principal::{principal_text, Principal};
use crate::sol_rpc_client::LedgerMemo;
use crate::state::audit::{allowed, apply, apply_taken, try_process_event};
use crate::state::event::{Event, EventRecord, EventType, EventView};
use crate::state::records::find_withdrawal;
use crate::state::{State, StateView};
use crate::text::chars_of;
use crate::text::{
    decimal_text, json_string, push_decimal, push_json_string, push_signed_decimal, push_text,
    signed_decimal_text,
};

verus! {

/// Why a withdrawal came to nothing, or to no coupon yet.
#[derive(Clone, Debug, PartialEq, Eq)]
pub enum WithdrawError {
    /// The ledger refused to burn the tokens.
    BurningGSolFailed(String),
    /// The ledger could not be reached.
    SendingMessageToLedgerFailed { ledger_id: String, code: i32, msg: String },
    /// The oracle did not sign. The tokens are burned: the coupon can be
    /// asked for again.
    SigningWithEcdsaFailed { burn_id: u64, code: i32, msg: String },
    CouponError { burn_id: u64, err: CouponError },
    UnknownBurnId(u64),
    RedeemedEventError(u64),
    /// The amount is below the least amount that can be withdrawn.
    BelowMinimum,
    /// A withdrawal of the same principal is in flight.
    AlreadyProcessing,
    /// The state did not take the event of this withdrawal.
    EventRefused(u64),
}

impl WithdrawError {
    /// The error in words.
    pub open spec fn text(self) -> Seq<char> {
        match self {
            WithdrawError::BurningGSolFailed(err) => "Failed to burn gSOL: "@ + err@,
            WithdrawError::SendingMessageToLedgerFailed { ledger_id, code, msg } =>
                "Failed to send a message to the ledger "@ + ledger_id@ + ": "@
                    + signed_decimal_text(code as int) + ": "@ + msg@,
            WithdrawError::SigningWithEcdsaFailed { burn_id, code, msg } =>
                "Failed to sign with ECDSA for burn_id: "@ + decimal_text(burn_id as nat)
                    + " error: "@ + signed_decimal_text(code as int) + ": "@ + msg@,
            WithdrawError::CouponError { burn_id, err } =>
                "Failed to generate a coupon for burn_id "@ + decimal_text(burn_id as nat)
                    + " error: "@ + err.text(),
            WithdrawError::UnknownBurnId(burn_id) => "Unknown burn_id "@ + decimal_text(
                burn_id as nat,
            ),
            WithdrawError::RedeemedEventError(burn_id) => "Redeemed event does NOT hold coupon: "@
                + decimal_text(burn_id as nat),
            WithdrawError::BelowMinimum =>
                "Withdraw amount is less than minimum withdrawal amount"@,
            WithdrawError::AlreadyProcessing => "A withdrawal of this principal is in flight"@,
            WithdrawError::EventRefused(burn_id) => "The state did not take the event of burn_id "@
                + decimal_text(burn_id as nat),
        }
    }

    /// The error in words.
    pub fn to_text(&self) -> (text: String)
        ensures
            text@ == self.text(),
    {
        let mut out = String::new();
        match self {
            WithdrawError::BurningGSolFailed(err) => {
                push_text(&mut out, "Failed to burn gSOL: ");
                push_text(&mut out, err.as_str());
            },
            WithdrawError::SendingMessageToLedgerFailed { ledger_id, code, msg } => {
                push_text(&mut out, "Failed to send a message to the ledger ");
                push_text(&mut out, ledger_id.as_str());
                push_text(&mut out, ": ");
                push_signed_decimal(&mut out, *code);
                push_text(&mut out, ": ");
                push_text(&mut out, msg.as_str());
            },
            WithdrawError::SigningWithEcdsaFailed { burn_id, code, msg } => {
                push_text(&mut out, "Failed to sign with ECDSA for burn_id: ");
                push_decimal(&mut out, *burn_id);
                push_text(&mut out, " error: ");
                push_signed_decimal(&mut out, *code);
                push_text(&mut out, ": ");
                push_text(&mut out, msg.as_str());
            },
            WithdrawError::CouponError { burn_id, err } => {
                push_text(&mut out, "Failed to generate a coupon for burn_id ");
                push_decimal(&mut out, *burn_id);
                push_text(&mut out, " error: ");
                let inner = err.to_text();
                push_text(&mut out, inner.as_str());
            },
            WithdrawError::UnknownBurnId(burn_id) => {
                push_text(&mut out, "Unknown burn_id ");
                push_decimal(&mut out, *burn_id);
            },
            WithdrawError::RedeemedEventError(burn_id) => {
                push_text(&mut out, "Redeemed event does NOT hold coupon: ");
                push_decimal(&mut out, *burn_id);
            },
            WithdrawError::BelowMinimum => {
                push_text(&mut out, "Withdraw amount is less than minimum withdrawal amount");
            },
            WithdrawError::AlreadyProcessing => {
                push_text(&mut out, "A withdrawal of this principal is in flight");
            },
            WithdrawError::EventRefused(burn_id) => {
                push_text(&mut out, "The state did not take the event of burn_id ");
                push_decimal(&mut out, *burn_id);
            },
        }
        assert(out@ =~= self.text());
        out
    }
}

/// The canonical message of a burn: a JSON object without white space, its
/// six members in this order. This text is what the coupon signs.
pub open spec fn coupon_message_text(
    from_icp_address: Seq<u8>,
    to_sol_address: Seq<char>,
    amount: nat,
    burn_id: u64,
    burn_timestamp: u64,
    icp_burn_block_index: u64,
) -> Seq<char> {
    "{\"from_icp_address\":"@ + json_string(principal_text(from_icp_address))
        + ",\"to_sol_address\":"@ + json_string(to_sol_address) + ",\"amount\":"@ + json_string(
        decimal_text(amount),
    ) + ",\"burn_id\":"@ + decimal_text(burn_id as nat) + ",\"burn_timestamp\":"@ + decimal_text(
        burn_timestamp as nat,
    ) + ",\"icp_burn_block_index\":"@ + decimal_text(icp_burn_block_index as nat) + "}"@
}

impl WithdrawalView {
    /// The canonical message of a burned withdrawal.
    pub open spec fn message(self) -> Seq<char>
        recommends
            self.is_burned(),
    {
        coupon_message_text(
            self.from_icp_address,
            self.to_sol_address,
            self.amount,
            self.burn_id,
            self.burn_timestamp->0,
            self.burn_block_index->0,
        )
    }
}

/// What the oracle is asked to sign: the SHA-256 digest of the message.
#[derive(Clone, Debug, PartialEq, Eq)]
pub struct SigningRequest {
    pub message: String,
    pub message_hash: Vec<u8>,
}

/// Where the coupon of a burn comes from.
#[derive(Debug, PartialEq, Eq)]
pub enum CouponSource {
    /// The withdrawal is redeemed: this is its coupon.
    Ready(Coupon),
    /// The withdrawal is burned and waits for its coupon.
    Regenerate(WithdrawalEvent),
}

impl WithdrawalEvent {
    /// The canonical message of the withdrawal.
    pub fn coupon_message(&self) -> (message: String)
        requires
            self@.is_burned(),
        ensures
            message@ == self@.message(),
    {
        let mut out = String::new();
        push_text(&mut out, "{\"from_icp_address\":");
        let from = self.from_icp_address.to_text();
        push_json_string(&mut out, from.as_str());
        push_text(&mut out, ",\"to_sol_address\":");
        push_json_string(&mut out, self.to_sol_address.as_str());
        push_text(&mut out, ",\"amount\":");
        let amount = self.amount.to_decimal();
        push_json_string(&mut out, amount.as_str());
        push_text(&mut out, ",\"burn_id\":");
        push_decimal(&mut out, self.burn_id);
        push_text(&mut out, ",\"burn_timestamp\":");
        push_decimal(&mut out, self.burn_timestamp.unwrap());
        push_text(&mut out, ",\"icp_burn_block_index\":");
        push_decimal(&mut out, self.icp_burn_block_index.unwrap());
        push_text(&mut out, "}");
        assert(out@ =~= self@.message());
        out
    }

    /// The message of the withdrawal and its digest, which the oracle signs.
    pub fn signing_request(&self) -> (request: SigningRequest)
        requires
            self@.is_burned(),
        ensures
            request.message@ == self@.message(),
            request.message_hash@ == sha256_digest(encode_utf8(self@.message())),
            request.message_hash@.len() == 32,
    {
        let message = self.coupon_message();
        let bytes = message.as_str().as_bytes_vec();
        let message_hash = sha256(bytes.as_slice());
        SigningRequest { message, message_hash }
    }

    /// The coupon of the withdrawal, made of what was signed, of what the
    /// oracle answered and of the signer's public key. Where the oracle did
    /// not sign there is none; where it signed, there is one if the search
    /// for the recovery id succeeds, and it is sound.
    pub fn to_coupon(
        &self,
        request: SigningRequest,
        signed: Result<Vec<u8>, (i32, String)>,
        icp_public_key_hex: String,
    ) -> (r: Result<Coupon, WithdrawError>)
        ensures
            match signed {
                Err((code, msg)) => r == Err::<Coupon, WithdrawError>(
                    WithdrawError::SigningWithEcdsaFailed { burn_id: self@.burn_id, code, msg },
                ),
                Ok(signature) => {
                    let unsigned = CouponView {
                        message: request.message@,
                        message_hash: hex_text(request.message_hash@),
                        signature_hex: hex_text(signature@),
                        icp_public_key_hex: icp_public_key_hex@,
                        recovery_id: None,
                    };
                    match unsigned.parity_outcome() {
                        ParityOutcome::Found(parity) => {
                            &&& r matches Ok(coupon)
                            &&& r->Ok_0@ == (CouponView { recovery_id: Some(parity), ..unsigned })
                            &&& r->Ok_0@.is_sound()
                        },
                        fault => {
                            &&& r matches Err(WithdrawError::CouponError { burn_id, err })
                            &&& r->Err_0->CouponError_burn_id == self@.burn_id
                            &&& r->Err_0->CouponError_err.outcome() == fault
                        },
                    }
                },
            },
    {
        match signed {
            Ok(signature) => {
                let mut coupon = Coupon::new(
                    request.message,
                    hex_encode(request.message_hash.as_slice()),
                    hex_encode(signature.as_slice()),
                    icp_public_key_hex,
                );
                match coupon.y_parity() {
                    Ok(_) => Ok(coupon),
                    Err(err) => Err(WithdrawError::CouponError { burn_id: self.burn_id, err }),
                }
            },
            Err((code, msg)) => Err(
                WithdrawError::SigningWithEcdsaFailed { burn_id: self.burn_id, code, msg },
            ),
        }
    }
}

/// The coupons of the redeemed withdrawals of `user`, in the order of the
/// withdrawals.
pub open spec fn coupons_of(list: Seq<WithdrawalEvent>, user: Seq<u8>) -> Seq<CouponView>
    decreases list.len(),
{
    if list.len() == 0 {
        Seq::empty()
    } else if list.last()@.from_icp_address == user && list.last()@.coupon is Some {
        coupons_of(list.drop_last(), user).push(list.last()@.coupon->0)
    } else {
        coupons_of(list.drop_last(), user)
    }
}

/// The burn ids of the withdrawals of `user`, in the order of the
/// withdrawals.
pub open spec fn burn_ids_of(list: Seq<WithdrawalEvent>, user: Seq<u8>) -> Seq<u64>
    decreases list.len(),
{
    if list.len() == 0 {
        Seq::empty()
    } else if list.last()@.from_icp_address == user {
        burn_ids_of(list.drop_last(), user).push(list.last()@.burn_id)
    } else {
        burn_ids_of(list.drop_last(), user)
    }
}

/// What a principal has withdrawn: the coupons of its redeemed withdrawals,
/// and the burn ids of its withdrawals that wait for a coupon.
pub fn get_withdraw_info(state: &State, user: &Principal) -> (info: UserWithdrawInfo)
    ensures
        views(info.coupons@) == coupons_of(state.withdrawal_redeemed_events@, user@),
        info.burn_ids@ == burn_ids_of(state.withdrawal_burned_events@, user@),
{
    let mut coupons: Vec<Coupon> = Vec::new();
    let mut i: usize = 0;
    assert(views(coupons@) =~= coupons_of(state.withdrawal_redeemed_events@.subrange(0, 0), user@));
    while i < state.withdrawal_redeemed_events.len()
        invariant
            i <= state.withdrawal_redeemed_events.len(),
            views(coupons@) == coupons_of(
                state.withdrawal_redeemed_events@.subrange(0, i as int),
                user@,
            ),
        decreases state.withdrawal_redeemed_events.len() - i,
    {
        let event = &state.withdrawal_redeemed_events[i];
        let ghost front = state.withdrawal_redeemed_events@.subrange(0, i as int);
        let ghost next = state.withdrawal_redeemed_events@.subrange(0, i + 1);
        proof {
            assert(next.drop_last() =~= front);
            assert(next.last() == state.withdrawal_redeemed_events@[i as int]);
        }
        if event.from_icp_address.same(user) {
            match event.get_coupon() {
                Some(coupon) => {
                    let copy = coupon.clone();
                    proof {
                        crate::keyed::lemma_views_push(coupons@, copy);
                    }
                    coupons.push(copy);
                },
                None => {},
            }
        }
        i = i + 1;
    }
    let mut burn_ids: Vec<u64> = Vec::new();
    let mut j: usize = 0;
    assert(burn_ids@ =~= burn_ids_of(state.withdrawal_burned_events@.subrange(0, 0), user@));
    while j < state.withdrawal_burned_events.len()
        invariant
            j <= state.withdrawal_burned_events.len(),
            burn_ids@ == burn_ids_of(state.withdrawal_burned_events@.subrange(0, j as int), user@),
        decreases state.withdrawal_burned_events.len() - j,
    {
        let event = &state.withdrawal_burned_events[j];
        let ghost front = state.withdrawal_burned_events@.subrange(0, j as int);
        let ghost next = state.withdrawal_burned_events@.subrange(0, j + 1);
        proof {
            assert(next.drop_last() =~= front);
            assert(next.last() == state.withdrawal_burned_events@[j as int]);
        }
        if event.from_icp_address.same(user) {
            burn_ids.push(event.get_burn_id());
        }
        j = j + 1;
    }
    proof {
        assert(state.withdrawal_redeemed_events@.subrange(
            0,
            state.withdrawal_redeemed_events@.len() as int,
        ) =~= state.withdrawal_redeemed_events@);
        assert(state.withdrawal_burned_events@.subrange(
            0,
            state.withdrawal_burned_events@.len() as int,
        ) =~= state.withdrawal_burned_events@);
    }
    UserWithdrawInfo { coupons, burn_ids }
}

/// Whether an amount can be withdrawn: it is not below the least amount.
pub fn is_over_limit(state: &State, amount: &Amount) -> (over: bool)
    ensures
        over == (amount@ >= state@.minimum_withdrawal_amount),
{
    !amount.less_than(&state.minimum_withdrawal_amount)
}

/// Opens a withdrawal: checks the amount, takes the lock of the principal
/// and hands out the burn id. Nothing changes where the amount is too small
/// or a withdrawal of the principal is in flight.
pub fn begin_withdrawal(state: &mut State, from: &Principal, to: &String, amount: Amount) -> (r:
    Result<WithdrawalEvent, WithdrawError>)
    requires
        old(state).wf(),
        old(state)@.burn_id_counter < u64::MAX,
    ensures
        final(state).wf(),
        if amount@ < old(state)@.minimum_withdrawal_amount {
            &&& r == Err::<WithdrawalEvent, WithdrawError>(WithdrawError::BelowMinimum)
            &&& final(state)@ == old(state)@
        } else if old(state)@.withdrawing.contains(from@) {
            &&& r == Err::<WithdrawalEvent, WithdrawError>(WithdrawError::AlreadyProcessing)
            &&& final(state)@ == old(state)@
        } else {
            &&& r matches Ok(event)
            &&& r->Ok_0@ == (WithdrawalView {
                from_icp_address: from@,
                to_sol_address: to@,
                amount: amount@,
                burn_id: old(state)@.burn_id_counter,
                burn_timestamp: None,
                burn_block_index: None,
                coupon: None,
                retries: 0,
            })
            &&& final(state)@ == (StateView {
                withdrawing: old(state)@.withdrawing.insert(from@),
                burn_id_counter: (old(state)@.burn_id_counter + 1) as u64,
                ..old(state)@
            })
        },
{
    if !is_over_limit(state, &amount) {
        return Err(WithdrawError::BelowMinimum);
    }
    if !state.lock_withdrawal(from) {
        assert(final(state)@ == old(state)@) by {
            assert(old(state)@.withdrawing.insert(from@) =~= old(state)@.withdrawing);
        }
        return Err(WithdrawError::AlreadyProcessing);
    }
    let burn_id = state.next_burn_id();
    Ok(WithdrawalEvent::new(burn_id, from.clone(), to.clone(), amount))
}

/// Closes a withdrawal: gives the lock of the principal back.
pub fn end_withdrawal(state: &mut State, from: &Principal)
    requires
        old(state).wf(),
    ensures
        final(state).wf(),
        final(state)@ == (StateView {
            withdrawing: old(state)@.withdrawing.remove(from@),
            ..old(state)@
        }),
{
    state.unlock_withdrawal(from);
}

/// The transfer that burns the tokens of a withdrawal: from the principal
/// that withdraws, of the amount of the withdrawal, with the burn id as memo.
pub fn burn_request(event: &WithdrawalEvent, now: u64) -> (request: TransferRequest)
    ensures
        request.account@ == event@.from_icp_address,
        request.amount@ == event@.amount,
        request.created_at_time == now,
        request.memo@ == LedgerMemo(event@.burn_id).encoding(),
        request.memo@.len() <= 32,
{
    TransferRequest {
        account: event.from_icp_address.clone(),
        amount: event.amount.clone(),
        created_at_time: now,
        memo: LedgerMemo(event.get_burn_id()).to_bytes(),
    }
}

/// The event that records a burned withdrawal, with the reason of a failure
/// that came after the burn.
pub open spec fn burned_event(withdrawal: WithdrawalView, reason: Option<Seq<char>>) -> EventView {
    EventView::WithdrawalBurnedEvent { event_source: withdrawal, fail_reason: reason }
}

/// Takes the ledger's answer to the burn. Where the ledger burned the tokens,
/// the withdrawal is recorded as burned at `now` in the block that the ledger
/// names; where it did not, nothing is recorded and the reason is handed on.
pub fn complete_burn(
    state: &mut State,
    log: &mut Vec<Event>,
    now: u64,
    event: WithdrawalEvent,
    result: Result<u64, LedgerFailure>,
) -> (r: Result<WithdrawalEvent, WithdrawError>)
    requires
        old(state).wf(),
    ensures
        final(state).wf(),
        match result {
            Ok(block_index) => {
                let burned = event@.burned_at(now, block_index);
                let recorded = burned_event(burned, None);
                if allowed(old(state)@, recorded) {
                    &&& r matches Ok(e)
                    &&& r->Ok_0@ == burned
                    &&& final(state)@ == apply(old(state)@, recorded)
                    &&& views(final(log)@) == views(old(log)@).push(
                        EventRecord { timestamp: now, payload: recorded },
                    )
                } else {
                    &&& r == Err::<WithdrawalEvent, WithdrawError>(
                        WithdrawError::EventRefused(event@.burn_id),
                    )
                    &&& final(state)@ == old(state)@
                    &&& views(final(log)@) == views(old(log)@)
                }
            },
            Err(failure) => {
                &&& final(state)@ == old(state)@
                &&& views(final(log)@) == views(old(log)@)
                &&& match failure {
                    LedgerFailure::Rejected(reason) => r == Err::<WithdrawalEvent, WithdrawError>(
                        WithdrawError::BurningGSolFailed(reason),
                    ),
                    LedgerFailure::Transport { code, msg } => {
                        &&& r matches Err(
                            WithdrawError::SendingMessageToLedgerFailed { ledger_id, code: c, msg: m },
                        )
                        &&& r->Err_0->SendingMessageToLedgerFailed_ledger_id@ == principal_text(
                            old(state)@.ledger_id,
                        )
                        &&& r->Err_0->SendingMessageToLedgerFailed_code == code
                        &&& r->Err_0->SendingMessageToLedgerFailed_msg == msg
                    },
                }
            },
        },
{
    match result {
        Ok(block_index) => {
            let mut event = event;
            event.update_after_burn(now, block_index);
            let payload = EventType::WithdrawalBurnedEvent {
                event_source: event.clone(),
                fail_reason: None,
            };
            if try_process_event(state, log, now, payload) {
                Ok(event)
            } else {
                Err(WithdrawError::EventRefused(event.get_burn_id()))
            }
        },
        Err(LedgerFailure::Rejected(reason)) => Err(WithdrawError::BurningGSolFailed(reason)),
        Err(LedgerFailure::Transport { code, msg }) => Err(
            WithdrawError::SendingMessageToLedgerFailed {
                ledger_id: state.ledger_id.to_text(),
                code,
                msg,
            },
        ),
    }
}

/// Takes what came of making the coupon of a burned withdrawal. A coupon is
/// attached to the withdrawal, which is recorded as redeemed; a failure is
/// recorded as one more retry of the burned withdrawal, with its reason.
pub fn generate_coupon(
    state: &mut State,
    log: &mut Vec<Event>,
    now: u64,
    event: &WithdrawalEvent,
    outcome: Result<Coupon, WithdrawError>,
) -> (r: Result<Coupon, WithdrawError>)
    requires
        old(state).wf(),
    ensures
        final(state).wf(),
        match outcome {
            Ok(coupon) => {
                let recorded = EventView::WithdrawalRedeemedEvent {
                    event_source: event@.redeemed_by(coupon@),
                };
                if allowed(old(state)@, recorded) {
                    &&& r matches Ok(c)
                    &&& r->Ok_0@ == coupon@
                    &&& final(state)@ == apply(old(state)@, recorded)
                    &&& views(final(log)@) == views(old(log)@).push(
                        EventRecord { timestamp: now, payload: recorded },
                    )
                } else {
                    &&& r == Err::<Coupon, WithdrawError>(
                        WithdrawError::EventRefused(event@.burn_id),
                    )
                    &&& final(state)@ == old(state)@
                    &&& views(final(log)@) == views(old(log)@)
                }
            },
            Err(err) => {
                let recorded = burned_event(event@, Some(err.text()));
                &&& r == Err::<Coupon, WithdrawError>(err)
                &&& final(state)@ == apply_taken(old(state)@, recorded)
                &&& views(final(log)@) == if allowed(old(state)@, recorded) {
                    views(old(log)@).push(EventRecord { timestamp: now, payload: recorded })
                } else {
                    views(old(log)@)
                }
            },
        },
{
    match outcome {
        Ok(coupon) => {
            let mut redeemed = event.clone();
            redeemed.update_after_redeem(coupon.clone());
            let payload = EventType::WithdrawalRedeemedEvent { event_source: redeemed };
            if try_process_event(state, log, now, payload) {
                Ok(coupon)
            } else {
                Err(WithdrawError::EventRefused(event.get_burn_id()))
            }
        },
        Err(err) => {
            let payload = EventType::WithdrawalBurnedEvent {
                event_source: event.clone(),
                fail_reason: Some(err.to_text()),
            };
            let _ = try_process_event(state, log, now, payload);
            Err(err)
        },
    }
}

/// Where the coupon of a burn of `caller` comes from: from the redeemed
/// withdrawal that holds it, or from the burned withdrawal, for which it is
/// made again. A burn id of another principal is unknown to the caller.
pub fn get_coupon(state: &State, caller: &Principal, burn_id: u64) -> (r: Result<
    CouponSource,
    WithdrawError,
>)
    requires
        state.wf(),
    ensures
        if state@.redeemed.contains_key(burn_id) && state@.redeemed[burn_id].from_icp_address
            == caller@ {
            match state@.redeemed[burn_id].coupon {
                Some(coupon) => r matches Ok(CouponSource::Ready(c)) && c@ == coupon,
                None => r == Err::<CouponSource, WithdrawError>(
                    WithdrawError::RedeemedEventError(burn_id),
                ),
            }
        } else if !state@.redeemed.contains_key(burn_id) && state@.burned.contains_key(burn_id)
            && state@.burned[burn_id].from_icp_address == caller@ {
            r matches Ok(CouponSource::Regenerate(w)) && w@ == state@.burned[burn_id]
        } else {
            r == Err::<CouponSource, WithdrawError>(WithdrawError::UnknownBurnId(burn_id))
        },
{
    match find_withdrawal(&state.withdrawal_redeemed_events, burn_id) {
        Some(at) => {
            let redeemed = &state.withdrawal_redeemed_events[at];
            if !redeemed.from_icp_address.same(caller) {
                return Err(WithdrawError::UnknownBurnId(burn_id));
            }
            match redeemed.get_coupon() {
                Some(coupon) => Ok(CouponSource::Ready(coupon.clone())),
                None => Err(WithdrawError::RedeemedEventError(burn_id)),
            }
        },
        None => match find_withdrawal(&state.withdrawal_burned_events, burn_id) {
            Some(at) => {
                let burned = &state.withdrawal_burned_events[at];
                if burned.from_icp_address.same(caller) {
                    Ok(CouponSource::Regenerate(burned.clone()))
                } else {
                    Err(WithdrawError::UnknownBurnId(burn_id))
                }
            },
            None => Err(WithdrawError::UnknownBurnId(burn_id)),
        },
    }
}

/// The six members of a coupon message, as the message writes them.
#[derive(Clone, Debug, PartialEq, Eq)]
pub struct CouponMessage {
    /// The textual form of the principal that burned the tokens.
    pub from_icp_address: String,
    pub to_sol_address: String,
    /// The decimal numeral of the amount.
    pub amount: String,
    pub burn_id: u64,
    pub burn_timestamp: u64,
    pub icp_burn_block_index: u64,
}

pub struct CouponMessageView {
    pub from_icp_address: Seq<char>,
    pub to_sol_address: Seq<char>,
    pub amount: Seq<char>,
    pub burn_id: u64,
    pub burn_timestamp: u64,
    pub icp_burn_block_index: u64,
}

impl View for CouponMessage {
    type V = CouponMessageView;

    open spec fn view(&self) -> CouponMessageView {
        CouponMessageView {
            from_icp_address: self.from_icp_address@,
            to_sol_address: self.to_sol_address@,
            amount: self.amount@,
            burn_id: self.burn_id,
            burn_timestamp: self.burn_timestamp,
            icp_burn_block_index: self.icp_burn_block_index,
        }
    }
}

impl CouponMessageView {
    /// The message that writes the six members.
    pub open spec fn text(self) -> Seq<char> {
        "{\"from_icp_address\":"@ + json_string(self.from_icp_address) + ",\"to_sol_address\":"@
            + json_string(self.to_sol_address) + ",\"amount\":"@ + json_string(self.amount)
            + ",\"burn_id\":"@ + decimal_text(self.burn_id as nat) + ",\"burn_timestamp\":"@
            + decimal_text(self.burn_timestamp as nat) + ",\"icp_burn_block_index\":"@
            + decimal_text(self.icp_burn_block_index as nat) + "}"@
    }
}

impl WithdrawalView {
    /// The six members of the message of a burned withdrawal.
    pub open spec fn message_members(self) -> CouponMessageView
        recommends
            self.is_burned(),
    {
        CouponMessageView {
            from_icp_address: principal_text(self.from_icp_address),
            to_sol_address: self.to_sol_address,
            amount: decimal_text(self.amount),
            burn_id: self.burn_id,
            burn_timestamp: self.burn_timestamp->0,
            icp_burn_block_index: self.burn_block_index->0,
        }
    }
}

/// The six members that a text writes, if it is a coupon message in its
/// canonical form: the members in their order, no white space, nothing after
/// the closing brace.
pub open spec fn read_message(text: Seq<char>) -> Option<CouponMessageView> {
    match read_literal(text, "{\"from_icp_address\":"@) {
        None => None,
        Some(t1) => match read_string(t1) {
            None => None,
            Some((from_icp_address, t2)) => match read_literal(t2, ",\"to_sol_address\":"@) {
                None => None,
                Some(t3) => match read_string(t3) {
                    None => None,
                    Some((to_sol_address, t4)) => match read_literal(t4, ",\"amount\":"@) {
                        None => None,
                        Some(t5) => match read_string(t5) {
                            None => None,
                            Some((amount, t6)) => read_message_numbers(
                                from_icp_address,
                                to_sol_address,
                                amount,
                                t6,
                            ),
                        },
                    },
                },
            },
        },
    }
}

/// The three numbers that close a coupon message, with the three texts that
/// open it.
pub open spec fn read_message_numbers(
    from_icp_address: Seq<char>,
    to_sol_address: Seq<char>,
    amount: Seq<char>,
    text: Seq<char>,
) -> Option<CouponMessageView> {
    match read_literal(text, ",\"burn_id\":"@) {
        None => None,
        Some(t1) => match read_number(t1) {
            None => None,
            Some((burn_id, t2)) => match read_literal(t2, ",\"burn_timestamp\":"@) {
                None => None,
                Some(t3) => match read_number(t3) {
                    None => None,
                    Some((burn_timestamp, t4)) => match read_literal(
                        t4,
                        ",\"icp_burn_block_index\":"@,
                    ) {
                        None => None,
                        Some(t5) => match read_number(t5) {
                            None => None,
                            Some((icp_burn_block_index, t6)) => match read_literal(t6, "}"@) {
                                None => None,
                                Some(rest) => if rest.len() == 0 {
                                    Some(
                                        CouponMessageView {
                                            from_icp_address,
                                            to_sol_address,
                                            amount,
                                            burn_id,
                                            burn_timestamp,
                                            icp_burn_block_index,
                                        },
                                    )
                                } else {
                                    None
                                },
                            },
                        },
                    },
                },
            },
        },
    }
}

/// The members of a coupon message, if the text is one in its canonical form.
pub fn parse_coupon_message(message: &str) -> (r: Option<CouponMessage>)
    ensures
        match read_message(message@) {
            Some(members) => r matches Some(m) && m@ == members,
            None => r is None,
        },
{
    let chars = chars_of(message);
    assert(chars@.subrange(0, chars@.len() as int) =~= message@);
    let at = match scan_literal(&chars, 0, "{\"from_icp_address\":") {
        Some(p) => p,
        None => {
            return None;
        },
    };
    let (from_icp_address, at) = match scan_string(&chars, at) {
        Some(pair) => pair,
        None => {
            return None;
        },
    };
    let at = match scan_literal(&chars, at, ",\"to_sol_address\":") {
        Some(p) => p,
        None => {
            return None;
        },
    };
    let (to_sol_address, at) = match scan_string(&chars, at) {
        Some(pair) => pair,
        None => {
            return None;
        },
    };
    let at = match scan_literal(&chars, at, ",\"amount\":") {
        Some(p) => p,
        None => {
            return None;
        },
    };
    let (amount, at) = match scan_string(&chars, at) {
        Some(pair) => pair,
        None => {
            return None;
        },
    };
    let at = match scan_literal(&chars, at, ",\"burn_id\":") {
        Some(p) => p,
        None => {
            return None;
        },
    };
    let (burn_id, at) = match scan_number(&chars, at) {
        Some(pair) => pair,
        None => {
            return None;
        },
    };
    let at = match scan_literal(&chars, at, ",\"burn_timestamp\":") {
        Some(p) => p,
        None => {
            return None;
        },
    };
    let (burn_timestamp, at) = match scan_number(&chars, at) {
        Some(pair) => pair,
        None => {
            return None;
        },
    };
    let at = match scan_literal(&chars, at, ",\"icp_burn_block_index\":") {
        Some(p) => p,
        None => {
            return None;
        },
    };
    let (icp_burn_block_index, at) = match scan_number(&chars, at) {
        Some(pair) => pair,
        None => {
            return None;
        },
    };
    let at = match scan_literal(&chars, at, "}") {
        Some(p) => p,
        None => {
            return None;
        },
    };
    if at != chars.len() {
        return None;
    }
    Some(
        CouponMessage {
            from_icp_address,
            to_sol_address,
            amount,
            burn_id,
            burn_timestamp,
            icp_burn_block_index,
        },
    )
}

impl CouponMessageView {
    /// The part of the message that writes the three numbers.
    pub open spec fn numbers_text(self) -> Seq<char> {
        ",\"burn_id\":"@ + decimal_text(self.burn_id as nat) + ",\"burn_timestamp\":"@
            + decimal_text(self.burn_timestamp as nat) + ",\"icp_burn_block_index\":"@
            + decimal_text(self.icp_burn_block_index as nat) + "}"@
    }
}

proof fn lemma_message_numbers_round_trip(members: CouponMessageView)
    ensures
        read_message_numbers(
            members.from_icp_address,
            members.to_sol_address,
            members.amount,
            members.numbers_text(),
        ) == Some(members),
{
    let l4 = ",\"burn_id\":"@;
    let l5 = ",\"burn_timestamp\":"@;
    let l6 = ",\"icp_burn_block_index\":"@;
    let l7 = "}"@;
    reveal_strlit(",\"burn_timestamp\":");
    reveal_strlit(",\"icp_burn_block_index\":");
    reveal_strlit("}");
    let n3 = decimal_text(members.icp_burn_block_index as nat);
    let n2 = decimal_text(members.burn_timestamp as nat);
    let n1 = decimal_text(members.burn_id as nat);
    let t13 = Seq::<char>::empty();
    let t12 = l7 + t13;
    let t11 = n3 + t12;
    let t10 = l6 + t11;
    let t9 = n2 + t10;
    let t8 = l5 + t9;
    let t7 = n1 + t8;
    let t6 = l4 + t7;
    assert(members.numbers_text() =~= t6);
    lemma_read_literal(l4, t7);
    assert(t8[0] == ',');
    lemma_read_number_round_trip(members.burn_id, t8);
    lemma_read_literal(l5, t9);
    assert(t10[0] == ',');
    lemma_read_number_round_trip(members.burn_timestamp, t10);
    lemma_read_literal(l6, t11);
    assert(t12[0] == '}');
    lemma_read_number_round_trip(members.icp_burn_block_index, t12);
    lemma_read_literal(l7, t13);
}

/// Reading a coupon message gives back the six members that it was written
/// from.
pub proof fn lemma_coupon_message_round_trip(members: CouponMessageView)
    ensures
        read_message(members.text()) == Some(members),
{
    let l1 = "{\"from_icp_address\":"@;
    let l2 = ",\"to_sol_address\":"@;
    let l3 = ",\"amount\":"@;
    let s3 = json_string(members.amount);
    let s2 = json_string(members.to_sol_address);
    let s1 = json_string(members.from_icp_address);
    let t6 = members.numbers_text();
    let t5 = s3 + t6;
    let t4 = l3 + t5;
    let t3 = s2 + t4;
    let t2 = l2 + t3;
    let t1 = s1 + t2;
    let t0 = l1 + t1;
    assert(members.text() =~= t0);
    lemma_read_literal(l1, t1);
    lemma_read_string_round_trip(members.from_icp_address, t2);
    lemma_read_literal(l2, t3);
    lemma_read_string_round_trip(members.to_sol_address, t4);
    lemma_read_literal(l3, t5);
    lemma_read_string_round_trip(members.amount, t6);
    lemma_message_numbers_round_trip(members);
}

/// Reading the message of a burned withdrawal gives back its six members:
/// the textual form of the principal, the address, the decimal numeral of the
/// amount, the burn id, the time of the burn and the block of the burn. The
/// numeral denotes the amount.
pub proof fn lemma_withdrawal_message_round_trip(withdrawal: WithdrawalView)
    requires
        withdrawal.is_burned(),
    ensures
        withdrawal.message() == withdrawal.message_members().text(),
        read_message(withdrawal.message()) == Some(withdrawal.message_members()),
        crate::amount::decimal_value(withdrawal.message_members().amount) == Some(
            withdrawal.amount,
        ),
{
    lemma_coupon_message_round_trip(withdrawal.message_members());
    crate::json::lemma_decimal_text(withdrawal.amount);
}

} // verus!
