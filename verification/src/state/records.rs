//! The state's collections: finding an entry by its key, and the transitions
//! that add, retry, move and remove entries.

use vstd::prelude::*;

use crate::events::{
    DepositEvent, DepositView, RangeView, SignatureView, SolanaSignature, SolanaSignatureRange,
    WithdrawalEvent, WithdrawalView,
};
use crate::keyed::{
    lemma_list_absent, lemma_list_at, lemma_list_push, lemma_list_remove, lemma_list_update,
    list_map, list_wf,
};
use crate::state::{deposit_key, range_key, signature_key, withdrawal_key, State, StateView};

verus! {

/// Where the range with the given bounds stands in a list.
pub fn find_range(list: &Vec<SolanaSignatureRange>, before: &String, until: &String) -> (at: Option<
    usize,
>)
    ensures
        at matches Some(i) ==> i < list.len() && list[i as int]@.key() == (before@, until@),
        at is None ==> !list_map(list@, range_key()).contains_key((before@, until@)),
        list_wf(list@, range_key()) ==> (at matches Some(i) ==> list_map(
            list@,
            range_key(),
        ).contains_key((before@, until@)) && list_map(list@, range_key())[(before@, until@)]
            == list[i as int]@),
{
    let mut i: usize = 0;
    while i < list.len()
        invariant
            i <= list.len(),
            forall|j: int| 0 <= j < i ==> range_key()(#[trigger] list@[j]@) != (before@, until@),
        decreases list.len() - i,
    {
        if list[i].has_bounds(before, until) {
            proof {
                if list_wf(list@, range_key()) {
                    lemma_list_at(list@, range_key(), i as int);
                }
            }
            return Some(i);
        }
        i = i + 1;
    }
    proof {
        lemma_list_absent(list@, range_key(), (before@, until@));
    }
    None
}

/// Where the signature stands in a list.
pub fn find_signature(list: &Vec<SolanaSignature>, sig: &String) -> (at: Option<usize>)
    ensures
        at matches Some(i) ==> i < list.len() && list[i as int]@.key() == sig@,
        at is None ==> !list_map(list@, signature_key()).contains_key(sig@),
        list_wf(list@, signature_key()) ==> (at matches Some(i) ==> list_map(
            list@,
            signature_key(),
        ).contains_key(sig@) && list_map(list@, signature_key())[sig@] == list[i as int]@),
{
    let mut i: usize = 0;
    while i < list.len()
        invariant
            i <= list.len(),
            forall|j: int| 0 <= j < i ==> signature_key()(#[trigger] list@[j]@) != sig@,
        decreases list.len() - i,
    {
        if list[i].sol_sig == *sig {
            proof {
                if list_wf(list@, signature_key()) {
                    lemma_list_at(list@, signature_key(), i as int);
                }
            }
            return Some(i);
        }
        i = i + 1;
    }
    proof {
        lemma_list_absent(list@, signature_key(), sig@);
    }
    None
}

/// Where the deposit of the given source signature stands in a list.
pub fn find_deposit(list: &Vec<DepositEvent>, sig: &String) -> (at: Option<usize>)
    ensures
        at matches Some(i) ==> i < list.len() && list[i as int]@.key() == sig@,
        at is None ==> !list_map(list@, deposit_key()).contains_key(sig@),
        list_wf(list@, deposit_key()) ==> (at matches Some(i) ==> list_map(
            list@,
            deposit_key(),
        ).contains_key(sig@) && list_map(list@, deposit_key())[sig@] == list[i as int]@),
{
    let mut i: usize = 0;
    while i < list.len()
        invariant
            i <= list.len(),
            forall|j: int| 0 <= j < i ==> deposit_key()(#[trigger] list@[j]@) != sig@,
        decreases list.len() - i,
    {
        if list[i].sol_sig == *sig {
            proof {
                if list_wf(list@, deposit_key()) {
                    lemma_list_at(list@, deposit_key(), i as int);
                }
            }
            return Some(i);
        }
        i = i + 1;
    }
    proof {
        lemma_list_absent(list@, deposit_key(), sig@);
    }
    None
}

/// Where the withdrawal of the given burn id stands in a list.
pub fn find_withdrawal(list: &Vec<WithdrawalEvent>, burn_id: u64) -> (at: Option<usize>)
    ensures
        at matches Some(i) ==> i < list.len() && list[i as int]@.key() == burn_id,
        at is None ==> !list_map(list@, withdrawal_key()).contains_key(burn_id),
        list_wf(list@, withdrawal_key()) ==> (at matches Some(i) ==> list_map(
            list@,
            withdrawal_key(),
        ).contains_key(burn_id) && list_map(list@, withdrawal_key())[burn_id] == list[i as int]@),
{
    let mut i: usize = 0;
    while i < list.len()
        invariant
            i <= list.len(),
            forall|j: int| 0 <= j < i ==> withdrawal_key()(#[trigger] list@[j]@) != burn_id,
        decreases list.len() - i,
    {
        if list[i].burn_id == burn_id {
            proof {
                if list_wf(list@, withdrawal_key()) {
                    lemma_list_at(list@, withdrawal_key(), i as int);
                }
            }
            return Some(i);
        }
        i = i + 1;
    }
    proof {
        lemma_list_absent(list@, withdrawal_key(), burn_id);
    }
    None
}

impl StateView {
    pub open spec fn can_record_range(self, range: RangeView) -> bool {
        !self.ranges.contains_key(range.key())
    }

    pub open spec fn record_range(self, range: RangeView) -> StateView {
        StateView { ranges: self.ranges.insert(range.key(), range), ..self }
    }

    pub open spec fn can_remove_range(self, range: RangeView) -> bool {
        self.ranges.contains_key(range.key())
    }

    pub open spec fn remove_range(self, range: RangeView) -> StateView {
        StateView { ranges: self.ranges.remove(range.key()), ..self }
    }

    /// A range can be retried while it is pending; its counter has room for
    /// one more retry, or the sub-range that takes its place is new.
    pub open spec fn can_retry_range(self, range: RangeView, sub: Option<RangeView>) -> bool {
        self.ranges.contains_key(range.key()) && match sub {
            Some(s) => !self.ranges.remove(range.key()).contains_key(s.key()),
            None => self.ranges[range.key()].retries < 255,
        }
    }

    /// With a failed sub-range, the sub-range takes the place of the range;
    /// without one, the range counts one more retry.
    pub open spec fn retry_range(self, range: RangeView, sub: Option<RangeView>) -> StateView {
        match sub {
            Some(s) => StateView {
                ranges: self.ranges.remove(range.key()).insert(s.key(), s),
                ..self
            },
            None => StateView {
                ranges: self.ranges.insert(range.key(), self.ranges[range.key()].retried()),
                ..self
            },
        }
    }

    pub open spec fn can_record_signature(self, sig: SignatureView) -> bool {
        self.pending.contains_key(sig.key()) ==> self.pending[sig.key()].retries < 255
    }

    /// A new signature becomes pending; one that is pending counts one more
    /// retry.
    pub open spec fn record_signature(self, sig: SignatureView) -> StateView {
        if self.pending.contains_key(sig.key()) {
            StateView {
                pending: self.pending.insert(sig.key(), self.pending[sig.key()].retried()),
                ..self
            }
        } else {
            StateView { pending: self.pending.insert(sig.key(), sig), ..self }
        }
    }

    pub open spec fn can_record_invalid(self, sig: SignatureView) -> bool {
        self.pending.contains_key(sig.key()) && !self.invalid.contains_key(sig.key())
    }

    /// A pending signature becomes invalid, for good.
    pub open spec fn record_invalid(self, sig: SignatureView) -> StateView {
        StateView {
            pending: self.pending.remove(sig.key()),
            invalid: self.invalid.insert(sig.key(), sig),
            ..self
        }
    }

    pub open spec fn can_record_accepted(self, deposit: DepositView) -> bool {
        if self.accepted.contains_key(deposit.key()) {
            self.accepted[deposit.key()].retries < 255
        } else {
            self.pending.contains_key(deposit.key()) && !self.minted.contains_key(deposit.key())
        }
    }

    /// The deposit of a pending signature is accepted; an accepted deposit
    /// counts one more retry. Either way the signature is pending no more.
    pub open spec fn record_accepted(self, deposit: DepositView) -> StateView {
        StateView {
            pending: self.pending.remove(deposit.key()),
            accepted: if self.accepted.contains_key(deposit.key()) {
                self.accepted.insert(deposit.key(), self.accepted[deposit.key()].retried())
            } else {
                self.accepted.insert(deposit.key(), deposit)
            },
            ..self
        }
    }

    pub open spec fn can_record_minted(self, deposit: DepositView) -> bool {
        &&& self.accepted.contains_key(deposit.key())
        &&& !self.minted.contains_key(deposit.key())
        &&& deposit.mint_block_index is Some
    }

    /// An accepted deposit becomes minted, for good.
    pub open spec fn record_minted(self, deposit: DepositView) -> StateView {
        StateView {
            accepted: self.accepted.remove(deposit.key()),
            minted: self.minted.insert(deposit.key(), deposit),
            ..self
        }
    }

    pub open spec fn can_record_burned(self, withdrawal: WithdrawalView) -> bool {
        &&& withdrawal.is_burned()
        &&& withdrawal.coupon is None
        &&& !self.redeemed.contains_key(withdrawal.key())
        &&& self.burned.contains_key(withdrawal.key()) ==> self.burned[withdrawal.key()].retries
            < 255
    }

    /// A new burned withdrawal is kept; one that is kept counts one more
    /// retry.
    pub open spec fn record_burned(self, withdrawal: WithdrawalView) -> StateView {
        if self.burned.contains_key(withdrawal.key()) {
            StateView {
                burned: self.burned.insert(
                    withdrawal.key(),
                    self.burned[withdrawal.key()].retried(),
                ),
                ..self
            }
        } else {
            StateView { burned: self.burned.insert(withdrawal.key(), withdrawal), ..self }
        }
    }

    pub open spec fn can_record_redeemed(self, withdrawal: WithdrawalView) -> bool {
        &&& withdrawal.is_burned()
        &&& withdrawal.coupon is Some
        &&& self.burned.contains_key(withdrawal.key())
        &&& !self.redeemed.contains_key(withdrawal.key())
    }

    /// A burned withdrawal becomes redeemed, for good.
    pub open spec fn record_redeemed(self, withdrawal: WithdrawalView) -> StateView {
        StateView {
            burned: self.burned.remove(withdrawal.key()),
            redeemed: self.redeemed.insert(withdrawal.key(), withdrawal),
            ..self
        }
    }
}

impl State {
    /// Records a new range, unless its bounds are those of a pending range.
    pub fn try_record_solana_signature_range(&mut self, range: SolanaSignatureRange) -> (done: bool)
        requires
            old(self).wf(),
        ensures
            final(self).wf(),
            done == old(self)@.can_record_range(range@),
            final(self)@ == if done {
                old(self)@.record_range(range@)
            } else {
                old(self)@
            },
    {
        match find_range(&self.solana_signature_ranges, &range.before_sol_sig, &range.until_sol_sig) {
            Some(_) => false,
            None => {
                proof {
                    lemma_list_push(self.solana_signature_ranges@, range_key(), range);
                }
                self.solana_signature_ranges.push(range);
                true
            },
        }
    }

    pub fn record_solana_signature_range(&mut self, range: SolanaSignatureRange)
        requires
            old(self).wf(),
            old(self)@.can_record_range(range@),
        ensures
            final(self).wf(),
            final(self)@ == old(self)@.record_range(range@),
    {
        let _ = self.try_record_solana_signature_range(range);
    }

    /// Removes a range that was enumerated to its end, if it is pending.
    pub fn try_remove_solana_signature_range(&mut self, range: &SolanaSignatureRange) -> (done:
        bool)
        requires
            old(self).wf(),
        ensures
            final(self).wf(),
            done == old(self)@.can_remove_range(range@),
            final(self)@ == if done {
                old(self)@.remove_range(range@)
            } else {
                old(self)@
            },
    {
        match find_range(&self.solana_signature_ranges, &range.before_sol_sig, &range.until_sol_sig) {
            Some(at) => {
                proof {
                    lemma_list_remove(self.solana_signature_ranges@, range_key(), at as int);
                }
                let _ = self.solana_signature_ranges.remove(at);
                true
            },
            None => false,
        }
    }

    pub fn remove_solana_signature_range(&mut self, range: &SolanaSignatureRange)
        requires
            old(self).wf(),
            old(self)@.can_remove_range(range@),
        ensures
            final(self).wf(),
            final(self)@ == old(self)@.remove_range(range@),
    {
        let _ = self.try_remove_solana_signature_range(range);
    }

    /// Retries a range whose walk failed, if it is pending and can be retried.
    pub fn try_retry_solana_signature_range(
        &mut self,
        old_range: SolanaSignatureRange,
        new_range: Option<SolanaSignatureRange>,
    ) -> (done: bool)
        requires
            old(self).wf(),
        ensures
            final(self).wf(),
            done == old(self)@.can_retry_range(old_range@, range_view(new_range)),
            final(self)@ == if done {
                old(self)@.retry_range(old_range@, range_view(new_range))
            } else {
                old(self)@
            },
    {
        let at = match find_range(
            &self.solana_signature_ranges,
            &old_range.before_sol_sig,
            &old_range.until_sol_sig,
        ) {
            Some(at) => at,
            None => {
                return false;
            },
        };
        match new_range {
            Some(sub) => {
                let ghost before = self.solana_signature_ranges@;
                proof {
                    lemma_list_remove(before, range_key(), at as int);
                }
                let same = sub.has_bounds(&old_range.before_sol_sig, &old_range.until_sol_sig);
                if !same {
                    match find_range(
                        &self.solana_signature_ranges,
                        &sub.before_sol_sig,
                        &sub.until_sol_sig,
                    ) {
                        Some(_) => {
                            return false;
                        },
                        None => {},
                    }
                }
                let _ = self.solana_signature_ranges.remove(at);
                proof {
                    lemma_list_push(before.remove(at as int), range_key(), sub);
                }
                self.solana_signature_ranges.push(sub);
                true
            },
            None => {
                if self.solana_signature_ranges[at].retry.is_retry_limit_reached(255) {
                    return false;
                }
                let mut retried = self.solana_signature_ranges[at].clone();
                retried.retry.increment_retries();
                proof {
                    lemma_list_update(self.solana_signature_ranges@, range_key(), at as int, retried);
                }
                self.solana_signature_ranges[at] = retried;
                true
            },
        }
    }

    pub fn retry_solana_signature_range(
        &mut self,
        old_range: SolanaSignatureRange,
        new_range: Option<SolanaSignatureRange>,
    )
        requires
            old(self).wf(),
            old(self)@.can_retry_range(old_range@, range_view(new_range)),
        ensures
            final(self).wf(),
            final(self)@ == old(self)@.retry_range(old_range@, range_view(new_range)),
    {
        let _ = self.try_retry_solana_signature_range(old_range, new_range);
    }
}

/// The view of a range that may be absent.
pub open spec fn range_view(range: Option<SolanaSignatureRange>) -> Option<RangeView> {
    match range {
        Some(r) => Some(r@),
        None => None,
    }
}

impl State {
    /// Records a discovered signature, or one more retry of a pending one.
    pub fn try_record_solana_signature(&mut self, sig: SolanaSignature) -> (done: bool)
        requires
            old(self).wf(),
        ensures
            final(self).wf(),
            done == old(self)@.can_record_signature(sig@),
            final(self)@ == if done {
                old(self)@.record_signature(sig@)
            } else {
                old(self)@
            },
    {
        match find_signature(&self.solana_signatures, &sig.sol_sig) {
            Some(at) => {
                if self.solana_signatures[at].retry.is_retry_limit_reached(255) {
                    return false;
                }
                let mut retried = self.solana_signatures[at].clone();
                retried.retry.increment_retries();
                proof {
                    lemma_list_update(self.solana_signatures@, signature_key(), at as int, retried);
                }
                self.solana_signatures[at] = retried;
                true
            },
            None => {
                proof {
                    lemma_list_push(self.solana_signatures@, signature_key(), sig);
                }
                self.solana_signatures.push(sig);
                true
            },
        }
    }

    pub fn record_solana_signature(&mut self, sig: SolanaSignature)
        requires
            old(self).wf(),
            old(self)@.can_record_signature(sig@),
        ensures
            final(self).wf(),
            final(self)@ == old(self)@.record_signature(sig@),
    {
        let _ = self.try_record_solana_signature(sig);
    }

    /// Marks a pending signature as invalid, unless it is not pending or is
    /// invalid already.
    pub fn try_record_invalid_event(&mut self, sig: SolanaSignature) -> (done: bool)
        requires
            old(self).wf(),
        ensures
            final(self).wf(),
            done == old(self)@.can_record_invalid(sig@),
            final(self)@ == if done {
                old(self)@.record_invalid(sig@)
            } else {
                old(self)@
            },
    {
        let at = match find_signature(&self.solana_signatures, &sig.sol_sig) {
            Some(at) => at,
            None => {
                return false;
            },
        };
        match find_signature(&self.invalid_events, &sig.sol_sig) {
            Some(_) => {
                return false;
            },
            None => {},
        }
        proof {
            lemma_list_remove(self.solana_signatures@, signature_key(), at as int);
            lemma_list_push(self.invalid_events@, signature_key(), sig);
        }
        let _ = self.solana_signatures.remove(at);
        self.invalid_events.push(sig);
        true
    }

    pub fn record_invalid_event(&mut self, sig: SolanaSignature)
        requires
            old(self).wf(),
            old(self)@.can_record_invalid(sig@),
        ensures
            final(self).wf(),
            final(self)@ == old(self)@.record_invalid(sig@),
    {
        let _ = self.try_record_invalid_event(sig);
    }

    /// Accepts the deposit of a pending signature, or counts one more retry
    /// of an accepted deposit.
    pub fn try_record_accepted_event(&mut self, deposit: DepositEvent) -> (done: bool)
        requires
            old(self).wf(),
        ensures
            final(self).wf(),
            done == old(self)@.can_record_accepted(deposit@),
            final(self)@ == if done {
                old(self)@.record_accepted(deposit@)
            } else {
                old(self)@
            },
    {
        let pending = find_signature(&self.solana_signatures, &deposit.sol_sig);
        match find_deposit(&self.accepted_events, &deposit.sol_sig) {
            Some(at) => {
                if self.accepted_events[at].retry.is_retry_limit_reached(255) {
                    return false;
                }
                let mut retried = self.accepted_events[at].clone();
                retried.retry.increment_retries();
                proof {
                    lemma_list_update(self.accepted_events@, deposit_key(), at as int, retried);
                }
                self.accepted_events[at] = retried;
            },
            None => {
                if pending.is_none() {
                    return false;
                }
                match find_deposit(&self.minted_events, &deposit.sol_sig) {
                    Some(_) => {
                        return false;
                    },
                    None => {},
                }
                proof {
                    lemma_list_push(self.accepted_events@, deposit_key(), deposit);
                }
                self.accepted_events.push(deposit);
            },
        }
        match pending {
            Some(at) => {
                proof {
                    lemma_list_remove(self.solana_signatures@, signature_key(), at as int);
                }
                let _ = self.solana_signatures.remove(at);
            },
            None => {
                assert(old(self)@.pending.remove(deposit@.key()) =~= old(self)@.pending);
            },
        }
        true
    }

    pub fn record_accepted_event(&mut self, deposit: DepositEvent)
        requires
            old(self).wf(),
            old(self)@.can_record_accepted(deposit@),
        ensures
            final(self).wf(),
            final(self)@ == old(self)@.record_accepted(deposit@),
    {
        let _ = self.try_record_accepted_event(deposit);
    }

    /// Moves an accepted deposit to the minted ones, unless it is not accepted,
    /// is minted already or names no ledger block.
    pub fn try_record_minted_event(&mut self, deposit: DepositEvent) -> (done: bool)
        requires
            old(self).wf(),
        ensures
            final(self).wf(),
            done == old(self)@.can_record_minted(deposit@),
            final(self)@ == if done {
                old(self)@.record_minted(deposit@)
            } else {
                old(self)@
            },
    {
        if deposit.icp_mint_block_index.is_none() {
            return false;
        }
        let at = match find_deposit(&self.accepted_events, &deposit.sol_sig) {
            Some(at) => at,
            None => {
                return false;
            },
        };
        match find_deposit(&self.minted_events, &deposit.sol_sig) {
            Some(_) => {
                return false;
            },
            None => {},
        }
        proof {
            lemma_list_remove(self.accepted_events@, deposit_key(), at as int);
            lemma_list_push(self.minted_events@, deposit_key(), deposit);
        }
        let _ = self.accepted_events.remove(at);
        self.minted_events.push(deposit);
        true
    }

    pub fn record_minted_event(&mut self, deposit: DepositEvent)
        requires
            old(self).wf(),
            old(self)@.can_record_minted(deposit@),
        ensures
            final(self).wf(),
            final(self)@ == old(self)@.record_minted(deposit@),
    {
        let _ = self.try_record_minted_event(deposit);
    }

    /// Keeps a withdrawal whose tokens were burned, or counts one more retry
    /// of one that is kept.
    pub fn try_record_withdrawal_burned_event(&mut self, withdrawal: WithdrawalEvent) -> (done:
        bool)
        requires
            old(self).wf(),
        ensures
            final(self).wf(),
            done == old(self)@.can_record_burned(withdrawal@),
            final(self)@ == if done {
                old(self)@.record_burned(withdrawal@)
            } else {
                old(self)@
            },
    {
        if withdrawal.burn_timestamp.is_none() || withdrawal.icp_burn_block_index.is_none()
            || withdrawal.coupon.is_some() {
            return false;
        }
        match find_withdrawal(&self.withdrawal_redeemed_events, withdrawal.burn_id) {
            Some(_) => {
                return false;
            },
            None => {},
        }
        match find_withdrawal(&self.withdrawal_burned_events, withdrawal.burn_id) {
            Some(at) => {
                if self.withdrawal_burned_events[at].retry.is_retry_limit_reached(255) {
                    return false;
                }
                let mut retried = self.withdrawal_burned_events[at].clone();
                retried.retry.increment_retries();
                proof {
                    lemma_list_update(
                        self.withdrawal_burned_events@,
                        withdrawal_key(),
                        at as int,
                        retried,
                    );
                }
                self.withdrawal_burned_events[at] = retried;
                true
            },
            None => {
                proof {
                    lemma_list_push(self.withdrawal_burned_events@, withdrawal_key(), withdrawal);
                }
                self.withdrawal_burned_events.push(withdrawal);
                true
            },
        }
    }

    pub fn record_withdrawal_burned_event(&mut self, withdrawal: WithdrawalEvent)
        requires
            old(self).wf(),
            old(self)@.can_record_burned(withdrawal@),
        ensures
            final(self).wf(),
            final(self)@ == old(self)@.record_burned(withdrawal@),
    {
        let _ = self.try_record_withdrawal_burned_event(withdrawal);
    }

    /// Moves a burned withdrawal to the redeemed ones, unless it is not
    /// burned, is redeemed already or carries no coupon.
    pub fn try_record_withdrawal_redeemed_event(&mut self, withdrawal: WithdrawalEvent) -> (done:
        bool)
        requires
            old(self).wf(),
        ensures
            final(self).wf(),
            done == old(self)@.can_record_redeemed(withdrawal@),
            final(self)@ == if done {
                old(self)@.record_redeemed(withdrawal@)
            } else {
                old(self)@
            },
    {
        if withdrawal.burn_timestamp.is_none() || withdrawal.icp_burn_block_index.is_none()
            || withdrawal.coupon.is_none() {
            return false;
        }
        let at = match find_withdrawal(&self.withdrawal_burned_events, withdrawal.burn_id) {
            Some(at) => at,
            None => {
                return false;
            },
        };
        match find_withdrawal(&self.withdrawal_redeemed_events, withdrawal.burn_id) {
            Some(_) => {
                return false;
            },
            None => {},
        }
        proof {
            lemma_list_remove(self.withdrawal_burned_events@, withdrawal_key(), at as int);
            lemma_list_push(self.withdrawal_redeemed_events@, withdrawal_key(), withdrawal);
        }
        let _ = self.withdrawal_burned_events.remove(at);
        self.withdrawal_redeemed_events.push(withdrawal);
        true
    }

    pub fn record_withdrawal_redeemed_event(&mut self, withdrawal: WithdrawalEvent)
        requires
            old(self).wf(),
            old(self)@.can_record_redeemed(withdrawal@),
        ensures
            final(self).wf(),
            final(self)@ == old(self)@.record_redeemed(withdrawal@),
    {
        let _ = self.try_record_withdrawal_redeemed_event(withdrawal);
    }
}

} // verus!
