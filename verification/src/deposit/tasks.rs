//! The four periodic tasks: which entries each one takes up, what it asks of
//! the outside, and which events it records for each answer.

use vstd::prelude::*;
use vstd::string::*;

use crate::constants::{
    MINT_GSOL_RETRY_LIMIT, SOLANA_SIGNATURE_RANGES_RETRY_LIMIT, SOLANA_SIGNATURE_RETRY_LIMIT,
};
use crate::deposit::{
    classify, process_transaction_logs, Classified, DepositError, GET_SIGNATURES_BY_ADDRESS_LIMIT,
};
use crate::events::{
    DepositEvent, DepositView, RangeView, Retriable, SignatureView, SolanaSignature,
    SolanaSignatureRange,
};
use crate::keyed::{lemma_views_push, views};
use crate::ledger::{LedgerFailure, TransferRequest};
use crate::principal::principal_text;
use crate::sol_rpc_client::responses::{GetTransactionResponse, SignatureResponse};
use crate::sol_rpc_client::{signatures_request_text, LedgerMemo, RpcCall, SolRpcClient, SolRpcError};
use crate::state::audit::{apply_all, process_events, stamped, taken};
use crate::state::event::{Event, EventType, EventView};
use crate::state::{State, StateView};

verus! {

/// Whether a range was retried less often than the limit of its task.
pub open spec fn range_in_play() -> spec_fn(RangeView) -> bool {
    |r: RangeView| r.retries < 100
}

/// Whether a signature was retried less often than the limit of its task.
pub open spec fn signature_in_play() -> spec_fn(SignatureView) -> bool {
    |s: SignatureView| s.retries < 100
}

/// Whether a deposit was retried less often than the limit of its task.
pub open spec fn deposit_in_play() -> spec_fn(DepositView) -> bool {
    |d: DepositView| d.retries < 100
}

/// The pending ranges that are still walked: those below the retry limit.
pub fn ranges_to_scrap(state: &State) -> (list: Vec<SolanaSignatureRange>)
    ensures
        views(list@) == views(state.solana_signature_ranges@).filter(range_in_play()),
{
    let source = &state.solana_signature_ranges;
    let mut list: Vec<SolanaSignatureRange> = Vec::new();
    let mut i: usize = 0;
    assert(views(source@.subrange(0, 0)).filter(range_in_play()) =~= views(list@)) by {
        reveal_with_fuel(Seq::filter, 1);
    }
    while i < source.len()
        invariant
            i <= source.len(),
            views(list@) == views(source@.subrange(0, i as int)).filter(range_in_play()),
        decreases source.len() - i,
    {
        let ghost front = views(source@.subrange(0, i as int));
        let ghost next = views(source@.subrange(0, i + 1));
        proof {
            assert(next.drop_last() =~= front);
            assert(next.last() == source@[i as int]@);
            reveal_with_fuel(Seq::filter, 1);
        }
        if !source[i].retry.is_retry_limit_reached(SOLANA_SIGNATURE_RANGES_RETRY_LIMIT) {
            let copy = source[i].clone();
            proof {
                lemma_views_push(list@, copy);
            }
            list.push(copy);
        }
        i = i + 1;
    }
    proof {
        assert(source@.subrange(0, source.len() as int) =~= source@);
    }
    list
}

/// The pending signatures that are still fetched: those below the retry
/// limit.
pub fn signatures_to_scrap(state: &State) -> (list: Vec<SolanaSignature>)
    ensures
        views(list@) == views(state.solana_signatures@).filter(signature_in_play()),
{
    let source = &state.solana_signatures;
    let mut list: Vec<SolanaSignature> = Vec::new();
    let mut i: usize = 0;
    assert(views(source@.subrange(0, 0)).filter(signature_in_play()) =~= views(list@)) by {
        reveal_with_fuel(Seq::filter, 1);
    }
    while i < source.len()
        invariant
            i <= source.len(),
            views(list@) == views(source@.subrange(0, i as int)).filter(signature_in_play()),
        decreases source.len() - i,
    {
        let ghost front = views(source@.subrange(0, i as int));
        let ghost next = views(source@.subrange(0, i + 1));
        proof {
            assert(next.drop_last() =~= front);
            assert(next.last() == source@[i as int]@);
            reveal_with_fuel(Seq::filter, 1);
        }
        if !source[i].retry.is_retry_limit_reached(SOLANA_SIGNATURE_RETRY_LIMIT) {
            let copy = source[i].clone();
            proof {
                lemma_views_push(list@, copy);
            }
            list.push(copy);
        }
        i = i + 1;
    }
    proof {
        assert(source@.subrange(0, source.len() as int) =~= source@);
    }
    list
}

/// The accepted deposits that are still minted: those below the retry limit.
pub fn deposits_to_mint(state: &State) -> (list: Vec<DepositEvent>)
    ensures
        views(list@) == views(state.accepted_events@).filter(deposit_in_play()),
{
    let source = &state.accepted_events;
    let mut list: Vec<DepositEvent> = Vec::new();
    let mut i: usize = 0;
    assert(views(source@.subrange(0, 0)).filter(deposit_in_play()) =~= views(list@)) by {
        reveal_with_fuel(Seq::filter, 1);
    }
    while i < source.len()
        invariant
            i <= source.len(),
            views(list@) == views(source@.subrange(0, i as int)).filter(deposit_in_play()),
        decreases source.len() - i,
    {
        let ghost front = views(source@.subrange(0, i as int));
        let ghost next = views(source@.subrange(0, i + 1));
        proof {
            assert(next.drop_last() =~= front);
            assert(next.last() == source@[i as int]@);
            reveal_with_fuel(Seq::filter, 1);
        }
        if !source[i].retry.is_retry_limit_reached(MINT_GSOL_RETRY_LIMIT) {
            let copy = source[i].clone();
            proof {
                lemma_views_push(list@, copy);
            }
            list.push(copy);
        }
        i = i + 1;
    }
    proof {
        assert(source@.subrange(0, source.len() as int) =~= source@);
    }
    list
}

/// The scan that looks for the newest signature: one signature at most, newer
/// than the cursor. It hands back the cursor as well, which the answer is
/// read against.
pub fn latest_signature_request(client: &SolRpcClient, state: &mut State) -> (call: (
    RpcCall,
    String,
))
    ensures
        old(state).wf() ==> final(state).wf(),
        final(state)@.durable() == old(state)@.durable(),
        call.1@ == old(state)@.cursor(),
        call.0.effective_size_estimate == 1 * 500 + 2048,
        call.0.payload@ == signatures_request_text(
            old(state)@.http_request_counter,
            old(state)@.solana_contract_address,
            1,
            None,
            old(state)@.cursor(),
        ),
{
    let until = state.get_solana_last_known_signature();
    let call = client.signatures_request(state, 1, None, &until);
    (call, until)
}

/// The events that the answer to the scan for the newest signature calls
/// for: for exactly one signature, the cursor moves to it and the range
/// between it and the old cursor becomes pending; for anything else, nothing.
pub open spec fn latest_signature_plan(
    until: Seq<char>,
    response: Result<Vec<SignatureResponse>, SolRpcError>,
) -> Seq<EventView> {
    match response {
        Ok(signatures) => if signatures@.len() == 1 {
            seq![
                EventView::LastKnownSolanaSignature(signatures@[0].signature@),
                EventView::NewSolanaSignatureRange(
                    RangeView { before: signatures@[0].signature@, until, retries: 0 },
                ),
            ]
        } else {
            Seq::empty()
        },
        Err(_) => Seq::empty(),
    }
}

/// The events that the answer to the scan for the newest signature calls for.
pub fn latest_signature_events(
    until: &String,
    response: &Result<Vec<SignatureResponse>, SolRpcError>,
) -> (events: Vec<EventType>)
    ensures
        views(events@) == latest_signature_plan(until@, *response),
{
    let mut events: Vec<EventType> = Vec::new();
    match response {
        Ok(signatures) => {
            if signatures.len() == 1 {
                let newest = signatures[0].signature.clone();
                events.push(EventType::LastKnownSolanaSignature(newest.clone()));
                events.push(
                    EventType::NewSolanaSignatureRange(
                        SolanaSignatureRange::new(newest, until.clone()),
                    ),
                );
            }
        },
        Err(_) => {},
    }
    assert(views(events@) =~= latest_signature_plan(until@, *response));
    events
}

/// Task A: records what the answer to the scan for the newest signature
/// calls for. Returns how many events the state took.
pub fn get_latest_signature(
    state: &mut State,
    log: &mut Vec<Event>,
    now: u64,
    until: &String,
    response: &Result<Vec<SignatureResponse>, SolRpcError>,
) -> (count: usize)
    requires
        old(state).wf(),
    ensures
        final(state).wf(),
        final(state)@ == apply_all(old(state)@, latest_signature_plan(until@, *response)),
        views(final(log)@) == views(old(log)@) + stamped(
            now,
            taken(old(state)@, latest_signature_plan(until@, *response)),
        ),
        count == taken(old(state)@, latest_signature_plan(until@, *response)).len(),
{
    let events = latest_signature_events(until, response);
    process_events(state, log, now, events)
}

/// The transfer that mints an accepted deposit: to the principal that the
/// deposit credits, of the amount of the deposit, with the deposit id as memo.
pub fn mint_request(event: &DepositEvent, now: u64) -> (request: TransferRequest)
    ensures
        request.account@ == event@.to_icp_address,
        request.amount@ == event@.amount,
        request.created_at_time == now,
        request.memo@ == LedgerMemo(event@.id).encoding(),
        request.memo@.len() <= 32,
{
    TransferRequest {
        account: event.to_icp_address.clone(),
        amount: event.amount.clone(),
        created_at_time: now,
        memo: LedgerMemo(event.id).to_bytes(),
    }
}

/// The event that the ledger's answer to a mint calls for: the deposit is
/// minted in the block that the ledger names, or it is accepted once more,
/// with the reason of the failure.
pub open spec fn mint_plan(
    ledger_id: Seq<u8>,
    deposit: DepositView,
    result: Result<u64, LedgerFailure>,
) -> EventView {
    match result {
        Ok(block_index) => EventView::MintedEvent { event_source: deposit.minted_at(block_index) },
        Err(LedgerFailure::Rejected(reason)) => EventView::AcceptedEvent {
            event_source: deposit,
            fail_reason: Some("Failed to mint gSOL: "@ + reason@),
        },
        Err(LedgerFailure::Transport { code, msg }) => EventView::AcceptedEvent {
            event_source: deposit,
            fail_reason: Some(
                "Failed to send a message to the ledger "@ + principal_text(ledger_id) + ": "@
                    + crate::text::signed_decimal_text(code as int) + ": "@ + msg@,
            ),
        },
    }
}

/// The event that the ledger's answer to a mint calls for.
pub fn mint_event(state: &State, event: DepositEvent, result: Result<u64, LedgerFailure>) -> (e:
    EventType)
    ensures
        e@ == mint_plan(state@.ledger_id, event@, result),
{
    match result {
        Ok(block_index) => {
            let mut minted = event;
            minted.update_mint_block_index(block_index);
            EventType::MintedEvent { event_source: minted }
        },
        Err(LedgerFailure::Rejected(reason)) => {
            let error = DepositError::MintingGSolFailed(reason);
            EventType::AcceptedEvent { event_source: event, fail_reason: Some(error.to_text()) }
        },
        Err(LedgerFailure::Transport { code, msg }) => {
            let error = DepositError::SendingMessageToLedgerFailed {
                id: state.ledger_id.to_text(),
                code,
                msg,
            };
            EventType::AcceptedEvent { event_source: event, fail_reason: Some(error.to_text()) }
        },
    }
}

/// Task D, for one deposit: records what the ledger's answer to its mint
/// calls for. Returns whether the state took the event.
pub fn mint_gsol(
    state: &mut State,
    log: &mut Vec<Event>,
    now: u64,
    event: DepositEvent,
    result: Result<u64, LedgerFailure>,
) -> (recorded: bool)
    requires
        old(state).wf(),
    ensures
        final(state).wf(),
        recorded == crate::state::audit::allowed(
            old(state)@,
            mint_plan(old(state)@.ledger_id, event@, result),
        ),
        final(state)@ == crate::state::audit::apply_taken(
            old(state)@,
            mint_plan(old(state)@.ledger_id, event@, result),
        ),
        views(final(log)@) == if recorded {
            views(old(log)@).push(
                crate::state::event::EventRecord {
                    timestamp: now,
                    payload: mint_plan(old(state)@.ledger_id, event@, result),
                },
            )
        } else {
            views(old(log)@)
        },
{
    let payload = mint_event(state, event, result);
    crate::state::audit::try_process_event(state, log, now, payload)
}

/// The walk of one pending range, scan by scan, from its newer end.
#[derive(Debug, PartialEq, Eq)]
pub struct RangeWalk {
    pub range: SolanaSignatureRange,
    /// Where the next scan starts: signatures older than this one are asked
    /// for.
    pub before_signature: String,
    /// The signatures that the walk has found.
    pub found: Vec<String>,
    pub at_least_one_successful_call: bool,
}

pub struct RangeWalkView {
    pub range: RangeView,
    pub before_signature: Seq<char>,
    pub found: Seq<Seq<char>>,
    pub at_least_one_successful_call: bool,
}

impl View for RangeWalk {
    type V = RangeWalkView;

    open spec fn view(&self) -> RangeWalkView {
        RangeWalkView {
            range: self.range@,
            before_signature: self.before_signature@,
            found: crate::utils::texts(self.found@),
            at_least_one_successful_call: self.at_least_one_successful_call,
        }
    }
}

/// The signatures of the entries of a scan, in order.
pub open spec fn scanned(entries: Seq<SignatureResponse>) -> Seq<Seq<char>> {
    Seq::new(entries.len(), |i: int| entries[i].signature@)
}

/// The events that make signatures pending, one for each.
pub open spec fn discoveries(signatures: Seq<Seq<char>>) -> Seq<EventView> {
    Seq::new(
        signatures.len(),
        |i: int|
            EventView::SolanaSignature {
                signature: SignatureView { sol_sig: signatures[i], retries: 0 },
                fail_reason: None,
            },
    )
}

impl RangeWalkView {
    /// What the walk has found once a scan has succeeded: with the first
    /// success, the signature at which the walk set out is found as well, as
    /// no scan reports the signature that it starts from.
    pub open spec fn found_after_success(self) -> Seq<Seq<char>> {
        if self.at_least_one_successful_call {
            self.found
        } else {
            self.found.push(self.before_signature)
        }
    }

    /// What is left of the range once a scan from the current start has
    /// failed, counting one more retry.
    pub open spec fn failed_sub_range(self) -> RangeView {
        RangeView {
            before: self.before_signature,
            until: self.range.until,
            retries: if self.range.retries < 255 {
                self.range.retries + 1
            } else {
                255
            },
        }
    }

    /// The walk after the answer to a scan, while it goes on.
    pub open spec fn advanced(self, entries: Seq<SignatureResponse>) -> RangeWalkView {
        RangeWalkView {
            range: self.range,
            before_signature: entries.last().signature@,
            found: self.found_after_success() + scanned(entries),
            at_least_one_successful_call: true,
        }
    }

    /// The events that end the walk, if the answer to a scan ends it. An
    /// empty scan ends it: the range is removed and what was found becomes
    /// pending. A failed scan ends it: what is left of the range is retried,
    /// and what was found becomes pending.
    pub open spec fn closing(self, response: Result<Vec<SignatureResponse>, SolRpcError>) -> Option<
        Seq<EventView>,
    > {
        match response {
            Ok(entries) => if entries@.len() == 0 {
                Some(
                    seq![EventView::RemoveSolanaSignatureRange(self.range)] + discoveries(
                        self.found_after_success(),
                    ),
                )
            } else {
                None
            },
            Err(error) => Some(
                seq![
                    EventView::RetrySolanaSignatureRange {
                        range: self.range,
                        failed_sub_range: Some(self.failed_sub_range()),
                        fail_reason: error.text(),
                    },
                ] + if self.at_least_one_successful_call {
                    discoveries(self.found)
                } else {
                    Seq::empty()
                },
            ),
        }
    }
}

/// The events that make the given signatures pending.
pub fn discovery_events(signatures: &Vec<String>) -> (events: Vec<EventType>)
    ensures
        views(events@) == discoveries(crate::utils::texts(signatures@)),
{
    let mut events: Vec<EventType> = Vec::new();
    let mut i: usize = 0;
    while i < signatures.len()
        invariant
            i <= signatures.len(),
            events@.len() == i,
            forall|j: int|
                0 <= j < i ==> (#[trigger] events@[j])@ == discoveries(
                    crate::utils::texts(signatures@),
                )[j],
        decreases signatures.len() - i,
    {
        events.push(
            EventType::SolanaSignature {
                signature: SolanaSignature::new(signatures[i].clone()),
                fail_reason: None,
            },
        );
        i = i + 1;
    }
    assert(views(events@) =~= discoveries(crate::utils::texts(signatures@)));
    events
}

impl RangeWalk {
    /// A walk that sets out at the newer end of the range.
    pub fn new(range: SolanaSignatureRange) -> (walk: Self)
        ensures
            walk@ == (RangeWalkView {
                range: range@,
                before_signature: range@.before,
                found: Seq::empty(),
                at_least_one_successful_call: false,
            }),
    {
        let before_signature = range.before_sol_sig.clone();
        let walk = RangeWalk {
            range,
            before_signature,
            found: Vec::new(),
            at_least_one_successful_call: false,
        };
        assert(crate::utils::texts(walk.found@) =~= Seq::<Seq<char>>::empty());
        walk
    }

    /// The next scan of the walk: up to ten signatures between the current
    /// start and the older end of the range.
    pub fn request(&self, client: &SolRpcClient, state: &mut State) -> (call: RpcCall)
        ensures
            old(state).wf() ==> final(state).wf(),
            final(state)@.durable() == old(state)@.durable(),
            call.effective_size_estimate == 10 * 500 + 2048,
            call.payload@ == signatures_request_text(
                old(state)@.http_request_counter,
                old(state)@.solana_contract_address,
                10,
                Some(self@.before_signature),
                self@.range.until,
            ),
    {
        client.signatures_request(
            state,
            GET_SIGNATURES_BY_ADDRESS_LIMIT,
            Some(&self.before_signature),
            &self.range.until_sol_sig,
        )
    }

    /// Takes the answer to a scan. While the walk goes on there are no events
    /// yet and the walk moves on; when the answer ends the walk, the events
    /// that are to be recorded are handed out and the walk stays as it is.
    pub fn advance(&mut self, response: Result<Vec<SignatureResponse>, SolRpcError>) -> (events:
        Option<Vec<EventType>>)
        ensures
            match old(self)@.closing(response) {
                Some(closing) => {
                    &&& events matches Some(list)
                    &&& views(events->0@) == closing
                    &&& final(self)@ == old(self)@
                },
                None => {
                    &&& events is None
                    &&& final(self)@ == old(self)@.advanced(response->Ok_0@)
                },
            },
    {
        match response {
            Ok(entries) => {
                if entries.len() == 0 {
                    let mut found = copy_texts(&self.found);
                    if !self.at_least_one_successful_call {
                        found.push(self.before_signature.clone());
                        assert(crate::utils::texts(found@) =~= old(self)@.found_after_success());
                    }
                    let mut events: Vec<EventType> = Vec::new();
                    events.push(EventType::RemoveSolanaSignatureRange(self.range.clone()));
                    let mut more = discovery_events(&found);
                    let ghost head = views(events@);
                    let ghost tail = views(more@);
                    events.append(&mut more);
                    assert(views(events@) =~= head + tail);
                    assert(head =~= seq![EventView::RemoveSolanaSignatureRange(self.range@)]);
                    Some(events)
                } else {
                    if !self.at_least_one_successful_call {
                        self.found.push(self.before_signature.clone());
                        self.at_least_one_successful_call = true;
                    }
                    assert(crate::utils::texts(self.found@) =~= old(self)@.found_after_success());
                    let mut i: usize = 0;
                    while i < entries.len()
                        invariant
                            i <= entries.len(),
                            entries@.len() > 0,
                            self.range == old(self).range,
                            self.at_least_one_successful_call,
                            crate::utils::texts(self.found@) == old(self)@.found_after_success()
                                + scanned(entries@).subrange(0, i as int),
                        decreases entries.len() - i,
                    {
                        let ghost before = self.found@;
                        self.found.push(entries[i].signature.clone());
                        assert(crate::utils::texts(self.found@) =~= crate::utils::texts(
                            before,
                        ).push(entries@[i as int].signature@));
                        assert(scanned(entries@).subrange(0, i + 1) =~= scanned(entries@).subrange(
                            0,
                            i as int,
                        ).push(entries@[i as int].signature@));
                        assert(crate::utils::texts(self.found@) =~= old(self)@.found_after_success()
                            + scanned(entries@).subrange(0, i + 1));
                        i = i + 1;
                    }
                    assert(scanned(entries@).subrange(0, entries@.len() as int) =~= scanned(
                        entries@,
                    ));
                    self.before_signature = entries[entries.len() - 1].signature.clone();
                    None
                }
            },
            Err(error) => {
                let retry = if self.range.retry.is_retry_limit_reached(255) {
                    Retriable(255)
                } else {
                    Retriable(self.range.retry.get_retries() + 1)
                };
                let sub = SolanaSignatureRange {
                    before_sol_sig: self.before_signature.clone(),
                    until_sol_sig: self.range.until_sol_sig.clone(),
                    retry,
                };
                let mut events: Vec<EventType> = Vec::new();
                events.push(
                    EventType::RetrySolanaSignatureRange {
                        range: self.range.clone(),
                        failed_sub_range: Some(sub),
                        fail_reason: error.to_text(),
                    },
                );
                let ghost head = views(events@);
                if self.at_least_one_successful_call {
                    let mut more = discovery_events(&self.found);
                    let ghost tail = views(more@);
                    events.append(&mut more);
                    assert(views(events@) =~= head + tail);
                }
                assert(views(events@) =~= old(self)@.closing(response)->0);
                Some(events)
            },
        }
    }
}

/// A copy of a list of texts.
pub fn copy_texts(list: &Vec<String>) -> (copy: Vec<String>)
    ensures
        crate::utils::texts(copy@) == crate::utils::texts(list@),
{
    let mut copy: Vec<String> = Vec::new();
    let mut i: usize = 0;
    while i < list.len()
        invariant
            i <= list.len(),
            copy@.len() == i,
            forall|j: int| 0 <= j < i ==> (#[trigger] copy@[j])@ == list@[j]@,
        decreases list.len() - i,
    {
        copy.push(list[i].clone());
        i = i + 1;
    }
    assert(crate::utils::texts(copy@) =~= crate::utils::texts(list@));
    copy
}

/// Task B, at the end of the walk of one range: records the events that the
/// walk has handed out. Returns how many of them the state took.
pub fn scrap_signature_range(
    state: &mut State,
    log: &mut Vec<Event>,
    now: u64,
    events: Vec<EventType>,
) -> (count: usize)
    requires
        old(state).wf(),
    ensures
        final(state).wf(),
        final(state)@ == apply_all(old(state)@, views(events@)),
        views(final(log)@) == views(old(log)@) + stamped(now, taken(old(state)@, views(events@))),
        count == taken(old(state)@, views(events@)).len(),
{
    process_events(state, log, now, events)
}

/// The event that the answer for one signature of a batch calls for. A
/// failure and an unknown transaction call for a retry of the signature; a
/// deposit is accepted under the id `id`; any other transaction makes the
/// signature invalid.
pub open spec fn fetched_event(
    contract_address: Seq<char>,
    id: u64,
    signature: SignatureView,
    key: Seq<char>,
    outcome: Result<Option<GetTransactionResponse>, SolRpcError>,
) -> EventView {
    match outcome {
        Err(error) => EventView::SolanaSignature {
            signature,
            fail_reason: Some("Signature "@ + key + " : failed with "@ + error.text()),
        },
        Ok(None) => EventView::SolanaSignature {
            signature,
            fail_reason: Some("Signature "@ + key + " : transaction not found"@),
        },
        Ok(Some(tx)) => match classify(contract_address, tx) {
            Classified::Deposit(fields) => EventView::AcceptedEvent {
                event_source: DepositView {
                    id,
                    from_sol_address: fields.from_sol_address,
                    to_icp_address: fields.to_icp_address,
                    amount: fields.amount,
                    sol_sig: fields.sol_sig,
                    mint_block_index: None,
                    retries: 0,
                },
                fail_reason: None,
            },
            Classified::Malformed => EventView::InvalidEvent {
                signature,
                fail_reason: "Signature "@ + Seq::<char>::empty() + " : invalid deposit data"@,
            },
            Classified::NonDeposit(sig) => EventView::InvalidEvent {
                signature,
                fail_reason: "Signature "@ + sig + " : non-Deposit transaction found"@,
            },
            Classified::InvalidData(sig) => EventView::InvalidEvent {
                signature,
                fail_reason: "Signature "@ + sig + " : invalid deposit data"@,
            },
            Classified::InvalidPrincipal(sig) => EventView::InvalidEvent {
                signature,
                fail_reason: "Signature "@ + sig + " : invalid ledger principal"@,
            },
        },
    }
}

/// Whether the answer for a signature is a deposit, which takes an id.
pub open spec fn takes_id(
    contract_address: Seq<char>,
    outcome: Result<Option<GetTransactionResponse>, SolRpcError>,
) -> bool {
    outcome matches Ok(Some(tx)) && classify(contract_address, tx) is Deposit
}

/// The event that the answer for one signature of a batch calls for. A
/// deposit takes the next deposit id.
pub fn transaction_event(
    state: &mut State,
    signature: &SolanaSignature,
    key: &String,
    outcome: &Result<Option<GetTransactionResponse>, SolRpcError>,
) -> (event: EventType)
    requires
        old(state)@.deposit_id_counter < u64::MAX,
    ensures
        old(state).wf() ==> final(state).wf(),
        event@ == fetched_event(
            old(state)@.solana_contract_address,
            old(state)@.deposit_id_counter,
            signature@,
            key@,
            *outcome,
        ),
        final(state)@ == (StateView {
            deposit_id_counter: if takes_id(old(state)@.solana_contract_address, *outcome) {
                (old(state)@.deposit_id_counter + 1) as u64
            } else {
                old(state)@.deposit_id_counter
            },
            ..old(state)@
        }),
{
    match outcome {
        Err(error) => {
            let text = signature_failed_text(key, error);
            EventType::SolanaSignature { signature: signature.clone(), fail_reason: Some(text) }
        },
        Ok(None) => {
            let reason = DepositError::SignatureNotFound(key.clone());
            EventType::SolanaSignature {
                signature: signature.clone(),
                fail_reason: Some(reason.to_text()),
            }
        },
        Ok(Some(tx)) => match process_transaction_logs(state, tx) {
            Ok(deposit) => EventType::AcceptedEvent { event_source: deposit, fail_reason: None },
            Err(error) => {
                let text = error.to_text();
                EventType::InvalidEvent { signature: signature.clone(), fail_reason: text }
            },
        },
    }
}

/// The reason of a signature whose fetch failed.
fn signature_failed_text(key: &String, error: &SolRpcError) -> (text: String)
    ensures
        text@ == "Signature "@ + key@ + " : failed with "@ + error.text(),
{
    let mut text = "Signature ".to_owned();
    text.append(key.as_str());
    text.append(" : failed with ");
    let inner = error.to_text();
    text.append(inner.as_str());
    text
}

/// The position of the first signature of a batch with the given text.
pub open spec fn position_in(chunk: Seq<SolanaSignature>, key: Seq<char>) -> Option<int>
    decreases chunk.len(),
{
    if chunk.len() == 0 {
        None
    } else {
        match position_in(chunk.drop_last(), key) {
            Some(i) => Some(i),
            None => if chunk.last()@.sol_sig == key {
                Some(chunk.len() - 1)
            } else {
                None
            },
        }
    }
}

pub proof fn lemma_position_in(chunk: Seq<SolanaSignature>, key: Seq<char>)
    ensures
        match position_in(chunk, key) {
            Some(i) => 0 <= i < chunk.len() && chunk[i]@.sol_sig == key && forall|j: int|
                0 <= j < i ==> (#[trigger] chunk[j])@.sol_sig != key,
            None => forall|j: int| 0 <= j < chunk.len() ==> (#[trigger] chunk[j])@.sol_sig != key,
        },
    decreases chunk.len(),
{
    if chunk.len() > 0 {
        lemma_position_in(chunk.drop_last(), key);
        assert(forall|j: int| 0 <= j < chunk.len() - 1 ==> chunk.drop_last()[j] == chunk[j]);
    }
}

/// Finds the first signature of a batch with the given text.
pub fn find_in_chunk(chunk: &Vec<SolanaSignature>, key: &String) -> (at: Option<usize>)
    ensures
        match at {
            Some(i) => position_in(chunk@, key@) == Some(i as int) && i < chunk.len(),
            None => position_in(chunk@, key@) is None,
        },
{
    let mut i: usize = 0;
    while i < chunk.len()
        invariant
            i <= chunk.len(),
            forall|j: int| 0 <= j < i ==> (#[trigger] chunk@[j])@.sol_sig != key@,
        decreases chunk.len() - i,
    {
        if chunk[i].sol_sig == *key {
            proof {
                lemma_position_in(chunk@, key@);
            }
            return Some(i);
        }
        i = i + 1;
    }
    proof {
        lemma_position_in(chunk@, key@);
    }
    None
}

/// The events that the answers of a batch call for, and the deposit id that
/// is next after them. An answer for a signature that is not in the batch
/// calls for nothing.
pub open spec fn fetched_plan(
    contract_address: Seq<char>,
    id: u64,
    chunk: Seq<SolanaSignature>,
    entries: Seq<(String, Result<Option<GetTransactionResponse>, SolRpcError>)>,
) -> (Seq<EventView>, int)
    decreases entries.len(),
{
    if entries.len() == 0 {
        (Seq::empty(), id as int)
    } else {
        let (events, next) = fetched_plan(contract_address, id, chunk, entries.drop_last());
        let (key, outcome) = entries.last();
        match position_in(chunk, key@) {
            None => (events, next),
            Some(at) => (
                events.push(
                    fetched_event(contract_address, next as u64, chunk[at]@, key@, outcome),
                ),
                if takes_id(contract_address, outcome) {
                    next + 1
                } else {
                    next
                },
            ),
        }
    }
}

pub proof fn lemma_fetched_plan_bound(
    contract_address: Seq<char>,
    id: u64,
    chunk: Seq<SolanaSignature>,
    entries: Seq<(String, Result<Option<GetTransactionResponse>, SolRpcError>)>,
)
    ensures
        id <= fetched_plan(contract_address, id, chunk, entries).1 <= id + entries.len(),
    decreases entries.len(),
{
    if entries.len() > 0 {
        lemma_fetched_plan_bound(contract_address, id, chunk, entries.drop_last());
    }
}

/// The events that retry every signature of a batch whose fetch failed as a
/// whole.
pub open spec fn failed_batch_plan(chunk: Seq<SolanaSignature>, reason: Seq<char>) -> Seq<
    EventView,
> {
    Seq::new(
        chunk.len(),
        |i: int| EventView::SolanaSignature { signature: chunk[i]@, fail_reason: Some(reason) },
    )
}

/// The events that the answer to a batch of fetches calls for, and the
/// deposit id that is next after them.
pub open spec fn batch_plan(
    contract_address: Seq<char>,
    id: u64,
    chunk: Seq<SolanaSignature>,
    response: Result<
        Vec<(String, Result<Option<GetTransactionResponse>, SolRpcError>)>,
        SolRpcError,
    >,
) -> (Seq<EventView>, int) {
    match response {
        Ok(entries) => fetched_plan(contract_address, id, chunk, entries@),
        Err(error) => (failed_batch_plan(chunk, error.text()), id as int),
    }
}

/// Task C, for one batch: records what the answer to the batch calls for,
/// handing out a deposit id for each deposit. Returns how many events the
/// state took.
pub fn scrap_signatures(
    state: &mut State,
    log: &mut Vec<Event>,
    now: u64,
    chunk: &Vec<SolanaSignature>,
    response: &Result<
        Vec<(String, Result<Option<GetTransactionResponse>, SolRpcError>)>,
        SolRpcError,
    >,
) -> (count: usize)
    requires
        old(state).wf(),
        response matches Ok(entries) ==> old(state)@.deposit_id_counter + entries@.len()
            <= u64::MAX,
    ensures
        final(state).wf(),
        ({
            let (events, next) = batch_plan(
                old(state)@.solana_contract_address,
                old(state)@.deposit_id_counter,
                chunk@,
                *response,
            );
            let numbered = StateView { deposit_id_counter: next as u64, ..old(state)@ };
            &&& final(state)@ == apply_all(numbered, events)
            &&& views(final(log)@) == views(old(log)@) + stamped(now, taken(numbered, events))
            &&& count == taken(numbered, events).len()
        }),
{
    let mut events: Vec<EventType> = Vec::new();
    match response {
        Err(error) => {
            let reason = error.to_text();
            let mut i: usize = 0;
            while i < chunk.len()
                invariant
                    i <= chunk.len(),
                    events@.len() == i,
                    reason@ == error.text(),
                    forall|j: int|
                        0 <= j < i ==> (#[trigger] events@[j])@ == failed_batch_plan(
                            chunk@,
                            error.text(),
                        )[j],
                decreases chunk.len() - i,
            {
                events.push(
                    EventType::SolanaSignature {
                        signature: chunk[i].clone(),
                        fail_reason: Some(reason.clone()),
                    },
                );
                i = i + 1;
            }
            assert(views(events@) =~= failed_batch_plan(chunk@, error.text()));
        },
        Ok(entries) => {
            let mut i: usize = 0;
            let ghost contract = old(state)@.solana_contract_address;
            let ghost first = old(state)@.deposit_id_counter;
            assert(entries@.subrange(0, 0) =~= Seq::empty());
            while i < entries.len()
                invariant
                    i <= entries.len(),
                    state.wf(),
                    first + entries@.len() <= u64::MAX,
                    contract == old(state)@.solana_contract_address,
                    first == old(state)@.deposit_id_counter,
                    views(events@) == fetched_plan(
                        contract,
                        first,
                        chunk@,
                        entries@.subrange(0, i as int),
                    ).0,
                    state@ == (StateView {
                        deposit_id_counter: fetched_plan(
                            contract,
                            first,
                            chunk@,
                            entries@.subrange(0, i as int),
                        ).1 as u64,
                        ..old(state)@
                    }),
                decreases entries.len() - i,
            {
                let ghost front = entries@.subrange(0, i as int);
                let ghost next = entries@.subrange(0, i + 1);
                proof {
                    assert(next.drop_last() =~= front);
                    assert(next.last() == entries@[i as int]);
                    lemma_fetched_plan_bound(contract, first, chunk@, front);
                }
                match find_in_chunk(chunk, &entries[i].0) {
                    Some(at) => {
                        let event = transaction_event(state, &chunk[at], &entries[i].0, &entries[i].1);
                        proof {
                            lemma_views_push(events@, event);
                        }
                        events.push(event);
                    },
                    None => {},
                }
                i = i + 1;
            }
            proof {
                assert(entries@.subrange(0, entries@.len() as int) =~= entries@);
            }
        },
    }
    process_events(state, log, now, events)
}

/// The list cut into batches of `limit` entries, the last one shorter where
/// the list does not divide.
pub open spec fn batches<T>(list: Seq<T>, limit: nat) -> Seq<Seq<T>>
    recommends
        limit > 0,
    decreases list.len(),
{
    if list.len() == 0 || limit == 0 {
        Seq::empty()
    } else if list.len() <= limit {
        seq![list]
    } else {
        seq![list.subrange(0, limit as int)] + batches(
            list.subrange(limit as int, list.len() as int),
            limit,
        )
    }
}

/// The views of the batches of a list of signatures.
pub open spec fn batch_views(chunks: Seq<Vec<SolanaSignature>>) -> Seq<Seq<SignatureView>> {
    Seq::new(chunks.len(), |i: int| views(chunks[i]@))
}

/// Cuts the signatures that task C takes up into the batches that it fetches.
pub fn signature_batches(list: &Vec<SolanaSignature>, limit: u8) -> (chunks: Vec<
    Vec<SolanaSignature>,
>)
    requires
        limit > 0,
    ensures
        batch_views(chunks@) == batches(views(list@), limit as nat),
{
    let mut chunks: Vec<Vec<SolanaSignature>> = Vec::new();
    let mut start: usize = 0;
    let ghost all = views(list@);
    assert(all.subrange(0, all.len() as int) =~= all);
    while start < list.len()
        invariant
            limit > 0,
            start <= list.len(),
            all == views(list@),
            batches(all, limit as nat) == batch_views(chunks@) + batches(
                all.subrange(start as int, all.len() as int),
                limit as nat,
            ),
        decreases list.len() - start,
    {
        let ghost rest = all.subrange(start as int, all.len() as int);
        let ghost done = batch_views(chunks@);
        let end: usize = if list.len() - start <= limit as usize {
            list.len()
        } else {
            start + limit as usize
        };
        let mut chunk: Vec<SolanaSignature> = Vec::new();
        let mut i: usize = start;
        while i < end
            invariant
                start <= i <= end <= list.len(),
                views(chunk@) == views(list@).subrange(start as int, i as int),
            decreases end - i,
        {
            let copy = list[i].clone();
            proof {
                lemma_views_push(chunk@, copy);
            }
            chunk.push(copy);
            assert(views(chunk@) =~= views(list@).subrange(start as int, i + 1));
            i = i + 1;
        }
        proof {
            if list.len() - start <= limit {
                assert(views(chunk@) =~= rest);
                assert(batches(rest, limit as nat) =~= seq![rest]);
                assert(all.subrange(end as int, all.len() as int) =~= Seq::empty());
                assert(batches(all.subrange(end as int, all.len() as int), limit as nat)
                    =~= Seq::<Seq<SignatureView>>::empty());
            } else {
                assert(views(chunk@) =~= rest.subrange(0, limit as int));
                assert(rest.subrange(limit as int, rest.len() as int) =~= all.subrange(
                    end as int,
                    all.len() as int,
                ));
            }
        }
        chunks.push(chunk);
        proof {
            assert(batch_views(chunks@) =~= done.push(views(chunk@)));
            assert(batches(all, limit as nat) =~= batch_views(chunks@) + batches(
                all.subrange(end as int, all.len() as int),
                limit as nat,
            ));
        }
        start = end;
    }
    proof {
        assert(all.subrange(start as int, all.len() as int) =~= Seq::empty());
        assert(batches(all, limit as nat) =~= batch_views(chunks@));
    }
    chunks
}

/// The texts of the signatures of a batch, as the fetch names them.
pub fn batch_names(chunk: &Vec<SolanaSignature>) -> (names: Vec<String>)
    ensures
        names@.len() == chunk@.len(),
        forall|i: int| 0 <= i < names@.len() ==> (#[trigger] names@[i])@ == chunk@[i]@.sol_sig,
{
    let mut names: Vec<String> = Vec::new();
    let mut i: usize = 0;
    while i < chunk.len()
        invariant
            i <= chunk.len(),
            names@.len() == i,
            forall|j: int| 0 <= j < i ==> (#[trigger] names@[j])@ == chunk@[j]@.sol_sig,
        decreases chunk.len() - i,
    {
        names.push(chunk[i].sol_sig.clone());
        i = i + 1;
    }
    names
}

} // verus!
