//! Runs of the minter: events interleaved with the handing out of ids and
//! with changes to what is not kept across an upgrade. What a run leaves in
//! the log, and what holds of the ids and of the cursor along it.

use vstd::prelude::*;

use crate::lifecycle::InitArgView;
use crate::state::StateView;
use crate::state::audit::{allowed, apply, replay};
use crate::state::event::EventView;

verus! {

impl StateView {
    /// The state without what an upgrade does not keep: the cached public
    /// key, the locks and the request counter.
    pub open spec fn durable(self) -> StateView {
        StateView {
            ecdsa_public_key: None,
            withdrawing: Set::empty(),
            active_tasks: Set::empty(),
            http_request_counter: 0,
            ..self
        }
    }

    /// The durable state without the two id counters.
    pub open spec fn kernel(self) -> StateView {
        StateView { deposit_id_counter: 0, burn_id_counter: 0, ..self.durable() }
    }
}

/// One step of a run.
pub enum Step {
    /// An event is applied and appended to the log.
    Record(EventView),
    /// A deposit id is handed out.
    NextDepositId,
    /// A burn id is handed out.
    NextBurnId,
    /// The state becomes the given one, which differs in nothing durable.
    Transient(StateView),
}

pub open spec fn step_allowed(s: StateView, step: Step) -> bool {
    match step {
        Step::Record(e) => allowed(s, e),
        Step::NextDepositId => s.deposit_id_counter < u64::MAX,
        Step::NextBurnId => s.burn_id_counter < u64::MAX,
        Step::Transient(t) => t.durable() == s.durable(),
    }
}

pub open spec fn step_result(s: StateView, step: Step) -> StateView {
    match step {
        Step::Record(e) => apply(s, e),
        Step::NextDepositId => StateView {
            deposit_id_counter: (s.deposit_id_counter + 1) as u64,
            ..s
        },
        Step::NextBurnId => StateView { burn_id_counter: (s.burn_id_counter + 1) as u64, ..s },
        Step::Transient(t) => t,
    }
}

/// The state after a run from `s`, if every step was allowed where it stood.
pub open spec fn run(s: StateView, steps: Seq<Step>) -> Option<StateView>
    decreases steps.len(),
{
    if steps.len() == 0 {
        Some(s)
    } else {
        match run(s, steps.drop_last()) {
            Some(m) => if step_allowed(m, steps.last()) {
                Some(step_result(m, steps.last()))
            } else {
                None
            },
            None => None,
        }
    }
}

/// The events that a run appends to the log.
pub open spec fn recorded(steps: Seq<Step>) -> Seq<EventView>
    decreases steps.len(),
{
    if steps.len() == 0 {
        Seq::empty()
    } else {
        match steps.last() {
            Step::Record(e) => recorded(steps.drop_last()).push(e),
            _ => recorded(steps.drop_last()),
        }
    }
}

/// The events that are appended to the log before an upgrade: the cursor and
/// the two id counters.
pub open spec fn closing_events(s: StateView) -> Seq<EventView> {
    seq![
        EventView::LastKnownSolanaSignature(s.cursor()),
        EventView::LastDepositIdCounter(s.deposit_id_counter),
        EventView::LastBurnIdCounter(s.burn_id_counter),
    ]
}

/// Two states with the same kernel take the same events, and an event leaves
/// them with the same kernel.
pub proof fn lemma_apply_respects_kernel(a: StateView, b: StateView, e: EventView)
    requires
        a.kernel() == b.kernel(),
        allowed(a, e),
    ensures
        allowed(b, e),
        apply(a, e).kernel() == apply(b, e).kernel(),
{
    assert(a.ranges == b.ranges && a.pending == b.pending && a.invalid == b.invalid && a.accepted
        == b.accepted && a.minted == b.minted && a.burned == b.burned && a.redeemed
        == b.redeemed) by {
        assert(a.kernel().ranges == b.kernel().ranges);
        assert(a.kernel().pending == b.kernel().pending);
        assert(a.kernel().invalid == b.kernel().invalid);
        assert(a.kernel().accepted == b.kernel().accepted);
        assert(a.kernel().minted == b.kernel().minted);
        assert(a.kernel().burned == b.kernel().burned);
        assert(a.kernel().redeemed == b.kernel().redeemed);
    }
    assert(a.kernel().solana_contract_address == b.kernel().solana_contract_address);
    assert(a.kernel().solana_initial_signature == b.kernel().solana_initial_signature);
    assert(a.kernel().ecdsa_key_name == b.kernel().ecdsa_key_name);
    assert(a.kernel().ledger_id == b.kernel().ledger_id);
    assert(a.kernel().minimum_withdrawal_amount == b.kernel().minimum_withdrawal_amount);
    assert(a.kernel().last_known_signature == b.kernel().last_known_signature);
    assert(a.kernel().solana_network == b.kernel().solana_network);
}

proof fn lemma_replay_push(log: Seq<EventView>, e: EventView)
    requires
        log.len() >= 1,
    ensures
        replay(log.push(e)) == match replay(log) {
            Some(s) => if allowed(s, e) {
                Some(apply(s, e))
            } else {
                None
            },
            None => None,
        },
{
    assert(log.push(e).drop_last() =~= log);
}

/// The log of a run rebuilds a state with the kernel of the state that the run
/// has reached.
pub proof fn lemma_replay_follows_run(arg: InitArgView, steps: Seq<Step>)
    requires
        StateView::initial(arg).config_fault() is None,
        run(StateView::initial(arg), steps) is Some,
    ensures
        replay(seq![EventView::Init(arg)] + recorded(steps)) is Some,
        replay(seq![EventView::Init(arg)] + recorded(steps))->0.kernel() == run(
            StateView::initial(arg),
            steps,
        )->0.kernel(),
    decreases steps.len(),
{
    let start = seq![EventView::Init(arg)];
    if steps.len() == 0 {
        assert(start + recorded(steps) =~= start);
    } else {
        let front = steps.drop_last();
        lemma_replay_follows_run(arg, front);
        let log = start + recorded(front);
        let r = replay(log)->0;
        let m = run(StateView::initial(arg), front)->0;
        match steps.last() {
            Step::Record(e) => {
                assert(start + recorded(steps) =~= log.push(e));
                lemma_replay_push(log, e);
                lemma_apply_respects_kernel(m, r, e);
            },
            _ => {
                assert(start + recorded(steps) =~= log);
            },
        }
    }
}

/// Replaying the log of a run, closed by the events that are appended before
/// an upgrade, rebuilds the state that the run has reached, but for what an
/// upgrade does not keep.
pub proof fn lemma_replay_reproduces_state(arg: InitArgView, steps: Seq<Step>)
    requires
        StateView::initial(arg).config_fault() is None,
        run(StateView::initial(arg), steps) is Some,
    ensures
        ({
            let s = run(StateView::initial(arg), steps)->0;
            let log = seq![EventView::Init(arg)] + recorded(steps) + closing_events(s);
            &&& replay(log) is Some
            &&& replay(log)->0.durable() == (StateView {
                last_known_signature: Some(s.cursor()),
                ..s
            }).durable()
        }),
{
    let s = run(StateView::initial(arg), steps)->0;
    let body = seq![EventView::Init(arg)] + recorded(steps);
    lemma_replay_follows_run(arg, steps);
    let r0 = replay(body)->0;
    let e1 = EventView::LastKnownSolanaSignature(s.cursor());
    let e2 = EventView::LastDepositIdCounter(s.deposit_id_counter);
    let e3 = EventView::LastBurnIdCounter(s.burn_id_counter);
    lemma_replay_push(body, e1);
    lemma_replay_push(body.push(e1), e2);
    lemma_replay_push(body.push(e1).push(e2), e3);
    assert(body + closing_events(s) =~= body.push(e1).push(e2).push(e3));
    let r3 = replay(body + closing_events(s))->0;
    assert(r0.kernel() == s.kernel());
    assert(r0.kernel().ranges == s.kernel().ranges);
    assert(r0.kernel().pending == s.kernel().pending);
    assert(r0.kernel().invalid == s.kernel().invalid);
    assert(r0.kernel().accepted == s.kernel().accepted);
    assert(r0.kernel().minted == s.kernel().minted);
    assert(r0.kernel().burned == s.kernel().burned);
    assert(r0.kernel().redeemed == s.kernel().redeemed);
    assert(r0.kernel().solana_contract_address == s.kernel().solana_contract_address);
    assert(r0.kernel().solana_initial_signature == s.kernel().solana_initial_signature);
    assert(r0.kernel().ecdsa_key_name == s.kernel().ecdsa_key_name);
    assert(r0.kernel().ledger_id == s.kernel().ledger_id);
    assert(r0.kernel().minimum_withdrawal_amount == s.kernel().minimum_withdrawal_amount);
    assert(r0.kernel().solana_network == s.kernel().solana_network);
}

/// The deposit ids that a run from `s` hands out, in order.
pub open spec fn deposit_ids(s: StateView, steps: Seq<Step>) -> Seq<u64>
    decreases steps.len(),
{
    if steps.len() == 0 {
        Seq::empty()
    } else {
        match (steps.last(), run(s, steps.drop_last())) {
            (Step::NextDepositId, Some(m)) => deposit_ids(s, steps.drop_last()).push(
                m.deposit_id_counter,
            ),
            _ => deposit_ids(s, steps.drop_last()),
        }
    }
}

/// The burn ids that a run from `s` hands out, in order.
pub open spec fn burn_ids(s: StateView, steps: Seq<Step>) -> Seq<u64>
    decreases steps.len(),
{
    if steps.len() == 0 {
        Seq::empty()
    } else {
        match (steps.last(), run(s, steps.drop_last())) {
            (Step::NextBurnId, Some(m)) => burn_ids(s, steps.drop_last()).push(m.burn_id_counter),
            _ => burn_ids(s, steps.drop_last()),
        }
    }
}

/// Whether no event of the run sets an id counter below what it has reached.
pub open spec fn counters_never_lowered(s: StateView, steps: Seq<Step>) -> bool {
    forall|i: int|
        0 <= i < steps.len() && run(s, steps.subrange(0, i)) is Some ==> match steps[i] {
            Step::Record(EventView::LastDepositIdCounter(n)) => n >= run(
                s,
                #[trigger] steps.subrange(0, i),
            )->0.deposit_id_counter,
            Step::Record(EventView::LastBurnIdCounter(n)) => n >= run(
                s,
                steps.subrange(0, i),
            )->0.burn_id_counter,
            _ => true,
        }
}

proof fn lemma_ids_below_counters(s: StateView, steps: Seq<Step>)
    requires
        run(s, steps) is Some,
        counters_never_lowered(s, steps),
    ensures
        forall|k: int|
            0 <= k < deposit_ids(s, steps).len() ==> #[trigger] deposit_ids(s, steps)[k] < run(
                s,
                steps,
            )->0.deposit_id_counter,
        forall|k: int|
            0 <= k < burn_ids(s, steps).len() ==> #[trigger] burn_ids(s, steps)[k] < run(
                s,
                steps,
            )->0.burn_id_counter,
        forall|j: int, k: int|
            0 <= j < k < deposit_ids(s, steps).len() ==> deposit_ids(s, steps)[j] < deposit_ids(
                s,
                steps,
            )[k],
        forall|j: int, k: int|
            0 <= j < k < burn_ids(s, steps).len() ==> burn_ids(s, steps)[j] < burn_ids(s, steps)[k],
    decreases steps.len(),
{
    if steps.len() > 0 {
        let front = steps.drop_last();
        assert(front =~= steps.subrange(0, steps.len() - 1));
        assert forall|i: int|
            0 <= i < front.len() && run(s, front.subrange(0, i)) is Some implies match front[i] {
            Step::Record(EventView::LastDepositIdCounter(n)) => n >= run(
                s,
                #[trigger] front.subrange(0, i),
            )->0.deposit_id_counter,
            Step::Record(EventView::LastBurnIdCounter(n)) => n >= run(
                s,
                front.subrange(0, i),
            )->0.burn_id_counter,
            _ => true,
        } by {
            assert(front.subrange(0, i) =~= steps.subrange(0, i));
        }
        lemma_ids_below_counters(s, front);
        let m = run(s, front)->0;
        let t = run(s, steps)->0;
        assert(run(s, steps.subrange(0, steps.len() - 1)) is Some);
        let deposits = deposit_ids(s, front);
        let burns = burn_ids(s, front);
        match steps.last() {
            Step::Record(e) => {
                assert(t.deposit_id_counter >= m.deposit_id_counter);
                assert(t.burn_id_counter >= m.burn_id_counter);
                assert(deposit_ids(s, steps) == deposits);
                assert(burn_ids(s, steps) == burns);
            },
            Step::Transient(x) => {
                assert(x.durable().deposit_id_counter == m.durable().deposit_id_counter);
                assert(x.durable().burn_id_counter == m.durable().burn_id_counter);
                assert(deposit_ids(s, steps) == deposits);
                assert(burn_ids(s, steps) == burns);
            },
            Step::NextDepositId => {
                assert(deposit_ids(s, steps) == deposits.push(m.deposit_id_counter));
                assert(burn_ids(s, steps) == burns);
                assert(t.burn_id_counter == m.burn_id_counter);
                assert(t.deposit_id_counter == m.deposit_id_counter + 1);
            },
            Step::NextBurnId => {
                assert(burn_ids(s, steps) == burns.push(m.burn_id_counter));
                assert(deposit_ids(s, steps) == deposits);
                assert(t.deposit_id_counter == m.deposit_id_counter);
                assert(t.burn_id_counter == m.burn_id_counter + 1);
            },
        }
        assert forall|k: int| 0 <= k < deposit_ids(s, steps).len() implies #[trigger] deposit_ids(
            s,
            steps,
        )[k] < t.deposit_id_counter by {
            if k < deposits.len() {
                assert(deposits[k] < m.deposit_id_counter);
            }
        }
        assert forall|k: int| 0 <= k < burn_ids(s, steps).len() implies #[trigger] burn_ids(
            s,
            steps,
        )[k] < t.burn_id_counter by {
            if k < burns.len() {
                assert(burns[k] < m.burn_id_counter);
            }
        }
    }
}

/// The ids that a run hands out are pairwise distinct, deposit ids among
/// themselves and burn ids among themselves, as long as no event sets a
/// counter below what it has reached.
pub proof fn lemma_ids_distinct(s: StateView, steps: Seq<Step>)
    requires
        run(s, steps) is Some,
        counters_never_lowered(s, steps),
    ensures
        forall|j: int, k: int|
            0 <= j < deposit_ids(s, steps).len() && 0 <= k < deposit_ids(s, steps).len() && j != k
                ==> deposit_ids(s, steps)[j] != deposit_ids(s, steps)[k],
        forall|j: int, k: int|
            0 <= j < burn_ids(s, steps).len() && 0 <= k < burn_ids(s, steps).len() && j != k
                ==> burn_ids(s, steps)[j] != burn_ids(s, steps)[k],
{
    lemma_ids_below_counters(s, steps);
    assert forall|j: int, k: int|
        0 <= j < deposit_ids(s, steps).len() && 0 <= k < deposit_ids(s, steps).len() && j
            != k implies deposit_ids(s, steps)[j] != deposit_ids(s, steps)[k] by {
        if j < k {
            assert(deposit_ids(s, steps)[j] < deposit_ids(s, steps)[k]);
        } else {
            assert(deposit_ids(s, steps)[k] < deposit_ids(s, steps)[j]);
        }
    }
    assert forall|j: int, k: int|
        0 <= j < burn_ids(s, steps).len() && 0 <= k < burn_ids(s, steps).len() && j
            != k implies burn_ids(s, steps)[j] != burn_ids(s, steps)[k] by {
        if j < k {
            assert(burn_ids(s, steps)[j] < burn_ids(s, steps)[k]);
        } else {
            assert(burn_ids(s, steps)[k] < burn_ids(s, steps)[j]);
        }
    }
}

/// Whether `a` is `b` or newer than `b` in the given order of signatures.
pub open spec fn not_older(newer: spec_fn(Seq<char>, Seq<char>) -> bool, a: Seq<char>, b: Seq<
    char,
>) -> bool {
    a == b || newer(a, b)
}

/// Whether each event of the run that sets the cursor sets it to a signature
/// that is not older than the cursor is where the event stands: an event that
/// names the last known signature, or an upgrade that replaces the initial
/// signature while no signature was acknowledged.
pub open spec fn cursor_set_forward(
    s: StateView,
    steps: Seq<Step>,
    newer: spec_fn(Seq<char>, Seq<char>) -> bool,
) -> bool {
    forall|i: int|
        0 <= i < steps.len() && run(s, steps.subrange(0, i)) is Some ==> match steps[i] {
            Step::Record(EventView::LastKnownSolanaSignature(sig)) => not_older(
                newer,
                sig,
                run(s, #[trigger] steps.subrange(0, i))->0.cursor(),
            ),
            Step::Record(EventView::Upgrade(arg)) => arg.solana_initial_signature is Some && run(
                s,
                steps.subrange(0, i),
            )->0.last_known_signature is None ==> not_older(
                newer,
                arg.solana_initial_signature->0,
                run(s, steps.subrange(0, i))->0.cursor(),
            ),
            _ => true,
        }
}

/// Along a run the cursor never moves back in a transitive order of
/// signatures, as long as each event that sets it sets it forward.
pub proof fn lemma_cursor_monotonic(
    s: StateView,
    steps: Seq<Step>,
    newer: spec_fn(Seq<char>, Seq<char>) -> bool,
)
    requires
        run(s, steps) is Some,
        forall|a: Seq<char>, b: Seq<char>, c: Seq<char>|
            #[trigger] newer(a, b) && #[trigger] newer(b, c) ==> newer(a, c),
        cursor_set_forward(s, steps, newer),
    ensures
        not_older(newer, run(s, steps)->0.cursor(), s.cursor()),
    decreases steps.len(),
{
    if steps.len() > 0 {
        let front = steps.drop_last();
        assert(front =~= steps.subrange(0, steps.len() - 1));
        assert forall|i: int|
            0 <= i < front.len() && run(s, front.subrange(0, i)) is Some implies match front[i] {
            Step::Record(EventView::LastKnownSolanaSignature(sig)) => not_older(
                newer,
                sig,
                run(s, #[trigger] front.subrange(0, i))->0.cursor(),
            ),
            Step::Record(EventView::Upgrade(arg)) => arg.solana_initial_signature is Some && run(
                s,
                front.subrange(0, i),
            )->0.last_known_signature is None ==> not_older(
                newer,
                arg.solana_initial_signature->0,
                run(s, front.subrange(0, i))->0.cursor(),
            ),
            _ => true,
        } by {
            assert(front.subrange(0, i) =~= steps.subrange(0, i));
        }
        lemma_cursor_monotonic(s, front, newer);
        let m = run(s, front)->0;
        let t = run(s, steps)->0;
        assert(run(s, steps.subrange(0, steps.len() - 1)) is Some);
        match steps.last() {
            Step::Record(e) => {
                match e {
                    EventView::LastKnownSolanaSignature(sig) => {},
                    EventView::Upgrade(arg) => {},
                    _ => {
                        assert(t.cursor() == m.cursor());
                    },
                }
            },
            Step::Transient(x) => {
                assert(x.durable().last_known_signature == m.durable().last_known_signature);
                assert(x.durable().solana_initial_signature
                    == m.durable().solana_initial_signature);
            },
            _ => {},
        }
    }
}

} // verus!
