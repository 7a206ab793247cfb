//! How each event changes the state, and how a log of events rebuilds it.

use vstd::prelude::*;

use crate::keyed::views;
use crate::state::event::{Event, EventRecord, EventType, EventView};
use crate::state::{State, StateView};

verus! {

/// Whether the state takes the event. An event that it does not take shows a
/// fault in the program that made it.
pub open spec fn allowed(s: StateView, e: EventView) -> bool {
    match e {
        EventView::Init(_) => false,
        EventView::Upgrade(arg) => s.can_upgrade(arg),
        EventView::LastKnownSolanaSignature(_) => true,
        EventView::LastDepositIdCounter(_) => true,
        EventView::LastBurnIdCounter(_) => true,
        EventView::NewSolanaSignatureRange(range) => s.can_record_range(range),
        EventView::RemoveSolanaSignatureRange(range) => s.can_remove_range(range),
        EventView::RetrySolanaSignatureRange { range, failed_sub_range, .. } => s.can_retry_range(
            range,
            failed_sub_range,
        ),
        EventView::SolanaSignature { signature, .. } => s.can_record_signature(signature),
        EventView::InvalidEvent { signature, .. } => s.can_record_invalid(signature),
        EventView::AcceptedEvent { event_source, .. } => s.can_record_accepted(event_source),
        EventView::MintedEvent { event_source } => s.can_record_minted(event_source),
        EventView::WithdrawalBurnedEvent { event_source, .. } => s.can_record_burned(event_source),
        EventView::WithdrawalRedeemedEvent { event_source } => s.can_record_redeemed(event_source),
    }
}

/// The state after an event that it takes.
pub open spec fn apply(s: StateView, e: EventView) -> StateView {
    match e {
        EventView::Init(_) => s,
        EventView::Upgrade(arg) => s.upgraded(arg),
        EventView::LastKnownSolanaSignature(sig) => StateView {
            last_known_signature: Some(sig),
            ..s
        },
        EventView::LastDepositIdCounter(n) => StateView { deposit_id_counter: n, ..s },
        EventView::LastBurnIdCounter(n) => StateView { burn_id_counter: n, ..s },
        EventView::NewSolanaSignatureRange(range) => s.record_range(range),
        EventView::RemoveSolanaSignatureRange(range) => s.remove_range(range),
        EventView::RetrySolanaSignatureRange { range, failed_sub_range, .. } => s.retry_range(
            range,
            failed_sub_range,
        ),
        EventView::SolanaSignature { signature, .. } => s.record_signature(signature),
        EventView::InvalidEvent { signature, .. } => s.record_invalid(signature),
        EventView::AcceptedEvent { event_source, .. } => s.record_accepted(event_source),
        EventView::MintedEvent { event_source } => s.record_minted(event_source),
        EventView::WithdrawalBurnedEvent { event_source, .. } => s.record_burned(event_source),
        EventView::WithdrawalRedeemedEvent { event_source } => s.record_redeemed(event_source),
    }
}

/// The state that a log rebuilds: its first event starts the minter, and each
/// later one is applied in order. A log that is empty, starts otherwise, names
/// an unfit configuration or holds an event that the state does not take
/// rebuilds nothing.
pub open spec fn replay(log: Seq<EventView>) -> Option<StateView>
    decreases log.len(),
{
    if log.len() == 0 {
        None
    } else if log.len() == 1 {
        match log[0] {
            EventView::Init(arg) => if StateView::initial(arg).config_fault() is None {
                Some(StateView::initial(arg))
            } else {
                None
            },
            _ => None,
        }
    } else {
        match replay(log.drop_last()) {
            Some(s) => if allowed(s, log.last()) {
                Some(apply(s, log.last()))
            } else {
                None
            },
            None => None,
        }
    }
}

/// The payloads of a log.
pub open spec fn payloads(log: Seq<Event>) -> Seq<EventView> {
    Seq::new(log.len(), |i: int| log[i]@.payload)
}

/// Updates the state by an event, unless the state does not take it.
pub fn try_apply_state_transition(state: &mut State, payload: &EventType) -> (done: bool)
    requires
        old(state).wf(),
    ensures
        final(state).wf(),
        done == allowed(old(state)@, payload@),
        final(state)@ == if done {
            apply(old(state)@, payload@)
        } else {
            old(state)@
        },
{
    match payload {
        EventType::Init(_) => false,
        EventType::Upgrade(arg) => state.try_upgrade(arg.clone()),
        EventType::LastKnownSolanaSignature(sig) => {
            state.record_solana_last_known_signature(sig);
            true
        },
        EventType::LastDepositIdCounter(n) => {
            state.record_deposit_id_counter(*n);
            true
        },
        EventType::LastBurnIdCounter(n) => {
            state.record_burn_id_counter(*n);
            true
        },
        EventType::NewSolanaSignatureRange(range) => state.try_record_solana_signature_range(
            range.clone(),
        ),
        EventType::RemoveSolanaSignatureRange(range) => state.try_remove_solana_signature_range(
            range,
        ),
        EventType::RetrySolanaSignatureRange { range, failed_sub_range, .. } => {
            let sub = match failed_sub_range {
                Some(s) => Some(s.clone()),
                None => None,
            };
            state.try_retry_solana_signature_range(range.clone(), sub)
        },
        EventType::SolanaSignature { signature, .. } => state.try_record_solana_signature(
            signature.clone(),
        ),
        EventType::InvalidEvent { signature, .. } => state.try_record_invalid_event(
            signature.clone(),
        ),
        EventType::AcceptedEvent { event_source, .. } => state.try_record_accepted_event(
            event_source.clone(),
        ),
        EventType::MintedEvent { event_source } => state.try_record_minted_event(
            event_source.clone(),
        ),
        EventType::WithdrawalBurnedEvent { event_source, .. } =>
            state.try_record_withdrawal_burned_event(event_source.clone()),
        EventType::WithdrawalRedeemedEvent { event_source } =>
            state.try_record_withdrawal_redeemed_event(event_source.clone()),
    }
}

/// Updates the state by an event that it takes.
pub fn apply_state_transition(state: &mut State, payload: &EventType)
    requires
        old(state).wf(),
        allowed(old(state)@, payload@),
    ensures
        final(state).wf(),
        final(state)@ == apply(old(state)@, payload@),
{
    let _ = try_apply_state_transition(state, payload);
}

/// Updates the state by an event and appends the event to the log, unless the
/// state does not take it: then neither changes.
pub fn try_process_event(
    state: &mut State,
    log: &mut Vec<Event>,
    timestamp: u64,
    payload: EventType,
) -> (done: bool)
    requires
        old(state).wf(),
    ensures
        final(state).wf(),
        done == allowed(old(state)@, payload@),
        final(state)@ == if done {
            apply(old(state)@, payload@)
        } else {
            old(state)@
        },
        views(final(log)@) == if done {
            views(old(log)@).push(EventRecord { timestamp, payload: payload@ })
        } else {
            views(old(log)@)
        },
{
    let done = try_apply_state_transition(state, &payload);
    if done {
        let event = Event { timestamp, payload };
        proof {
            crate::keyed::lemma_views_push(log@, event);
        }
        log.push(event);
    }
    done
}

/// Updates the state by an event that it takes, and appends the event to the
/// log.
pub fn process_event(state: &mut State, log: &mut Vec<Event>, timestamp: u64, payload: EventType)
    requires
        old(state).wf(),
        allowed(old(state)@, payload@),
    ensures
        final(state).wf(),
        final(state)@ == apply(old(state)@, payload@),
        views(final(log)@) == views(old(log)@).push(EventRecord { timestamp, payload: payload@ }),
{
    let _ = try_process_event(state, log, timestamp, payload);
}

/// The state that a log rebuilds, if it rebuilds one.
pub fn try_replay_events(log: &Vec<Event>) -> (state: Option<State>)
    ensures
        state is Some == replay(payloads(log@)) is Some,
        state matches Some(s) ==> s.wf() && Some(s@) == replay(payloads(log@)),
{
    if log.len() == 0 {
        return None;
    }
    let ghost all = payloads(log@);
    let mut state = match &log[0].payload {
        EventType::Init(arg) => match State::try_from(arg.clone()) {
            Ok(state) => state,
            Err(_) => {
                proof {
                    lemma_replay_prefix_none(all, 1);
                }
                return None;
            },
        },
        _ => {
            proof {
                lemma_replay_prefix_none(all, 1);
            }
            return None;
        },
    };
    let mut i: usize = 1;
    while i < log.len()
        invariant
            1 <= i <= log.len(),
            all == payloads(log@),
            state.wf(),
            replay(all.subrange(0, i as int)) == Some(state@),
        decreases log.len() - i,
    {
        let done = try_apply_state_transition(&mut state, &log[i].payload);
        proof {
            assert(all.subrange(0, i + 1).drop_last() =~= all.subrange(0, i as int));
            assert(all.subrange(0, i + 1).last() == log@[i as int]@.payload);
        }
        if !done {
            proof {
                lemma_replay_prefix_none(all, i + 1);
            }
            return None;
        }
        i = i + 1;
    }
    proof {
        assert(all.subrange(0, log.len() as int) =~= all);
    }
    Some(state)
}

/// The state that a log rebuilds.
pub fn replay_events(log: &Vec<Event>) -> (state: State)
    requires
        replay(payloads(log@)) is Some,
    ensures
        state.wf(),
        Some(state@) == replay(payloads(log@)),
{
    match try_replay_events(log) {
        Some(state) => state,
        None => vstd::pervasive::unreached(),
    }
}

/// A log of which a front part rebuilds nothing rebuilds nothing.
pub proof fn lemma_replay_prefix_none(log: Seq<EventView>, n: int)
    requires
        1 <= n <= log.len(),
        replay(log.subrange(0, n)) is None,
    ensures
        replay(log) is None,
    decreases log.len() - n,
{
    if n == log.len() {
        assert(log.subrange(0, n) =~= log);
    } else {
        assert(log.subrange(0, n + 1).drop_last() =~= log.subrange(0, n));
        lemma_replay_prefix_none(log, n + 1);
    }
}

/// The state after an event: changed where the state takes the event, and as
/// it was where it does not.
pub open spec fn apply_taken(s: StateView, e: EventView) -> StateView {
    if allowed(s, e) {
        apply(s, e)
    } else {
        s
    }
}

/// The state after the events in turn, each applied where the state takes it.
pub open spec fn apply_all(s: StateView, events: Seq<EventView>) -> StateView
    decreases events.len(),
{
    if events.len() == 0 {
        s
    } else {
        apply_taken(apply_all(s, events.drop_last()), events.last())
    }
}

/// Those of the events that the state takes where they stand.
pub open spec fn taken(s: StateView, events: Seq<EventView>) -> Seq<EventView>
    decreases events.len(),
{
    if events.len() == 0 {
        Seq::empty()
    } else if allowed(apply_all(s, events.drop_last()), events.last()) {
        taken(s, events.drop_last()).push(events.last())
    } else {
        taken(s, events.drop_last())
    }
}

/// The events of payloads, all made at one time.
pub open spec fn stamped(timestamp: u64, payloads: Seq<EventView>) -> Seq<EventRecord> {
    Seq::new(payloads.len(), |i: int| EventRecord { timestamp, payload: payloads[i] })
}

/// Applies the events in turn and appends to the log each one that the state
/// takes. Returns how many it took.
pub fn process_events(
    state: &mut State,
    log: &mut Vec<Event>,
    timestamp: u64,
    payloads: Vec<EventType>,
) -> (count: usize)
    requires
        old(state).wf(),
    ensures
        final(state).wf(),
        final(state)@ == apply_all(old(state)@, views(payloads@)),
        views(final(log)@) == views(old(log)@) + stamped(
            timestamp,
            taken(old(state)@, views(payloads@)),
        ),
        count == taken(old(state)@, views(payloads@)).len(),
        count <= payloads@.len(),
{
    let mut payloads = payloads;
    let ghost all = views(payloads@);
    let total: usize = payloads.len();
    let mut queue: Vec<EventType> = Vec::new();
    while payloads.len() > 0
        invariant
            queue@.len() + payloads@.len() == all.len(),
            views(payloads@) == all.subrange(0, payloads@.len() as int),
            forall|j: int|
                0 <= j < queue@.len() ==> (#[trigger] queue@[j])@ == all[all.len() - 1 - j],
        decreases payloads.len(),
    {
        let ghost before = payloads@;
        let payload = payloads.pop().unwrap();
        queue.push(payload);
        assert(views(payloads@) =~= all.subrange(0, payloads@.len() as int)) by {
            assert(forall|i: int| 0 <= i < payloads@.len() ==> payloads@[i] == before[i]);
            assert(forall|i: int|
                0 <= i < payloads@.len() ==> views(payloads@)[i] == views(before)[i]);
        }
        assert(payload@ == views(before)[before.len() - 1]);
    }
    let mut count: usize = 0;
    let mut done: usize = 0;
    assert(all.subrange(0, 0) =~= Seq::<EventView>::empty());
    while queue.len() > 0
        invariant
            state.wf(),
            all.len() == total,
            done + queue@.len() == all.len(),
            forall|j: int|
                0 <= j < queue@.len() ==> (#[trigger] queue@[j])@ == all[all.len() - 1 - j],
            state@ == apply_all(old(state)@, all.subrange(0, done as int)),
            views(log@) == views(old(log)@) + stamped(
                timestamp,
                taken(old(state)@, all.subrange(0, done as int)),
            ),
            count == taken(old(state)@, all.subrange(0, done as int)).len(),
            count <= done,
        decreases queue.len(),
    {
        let payload = queue.pop().unwrap();
        let ghost front = all.subrange(0, done as int);
        let ghost next = all.subrange(0, done + 1);
        let ghost log_before = views(log@);
        proof {
            assert(payload@ == all[done as int]);
            assert(next.drop_last() =~= front);
            assert(next.last() == all[done as int]);
        }
        let took = try_process_event(state, log, timestamp, payload);
        proof {
            if took {
                assert(taken(old(state)@, next) == taken(old(state)@, front).push(all[done as int]));
                assert(stamped(timestamp, taken(old(state)@, next)) =~= stamped(
                    timestamp,
                    taken(old(state)@, front),
                ).push(EventRecord { timestamp, payload: all[done as int] }));
                assert(views(log@) =~= views(old(log)@) + stamped(
                    timestamp,
                    taken(old(state)@, next),
                ));
            }
        }
        if took {
            count = count + 1;
        }
        done = done + 1;
    }
    proof {
        assert(all.subrange(0, all.len() as int) =~= all);
    }
    count
}

} // verus!
