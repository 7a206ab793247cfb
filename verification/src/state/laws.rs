//! What holds of every state that a log rebuilds.

use vstd::prelude::*;

use crate::state::StateView;
use crate::state::audit::{allowed, apply, replay};
use crate::state::event::EventView;

verus! {

/// In how many of the four stages of a source signature `sig` stands.
pub open spec fn stages_of(s: StateView, sig: Seq<char>) -> nat {
    (if s.pending.contains_key(sig) {
        1nat
    } else {
        0nat
    }) + (if s.accepted.contains_key(sig) {
        1nat
    } else {
        0nat
    }) + (if s.minted.contains_key(sig) {
        1nat
    } else {
        0nat
    }) + (if s.invalid.contains_key(sig) {
        1nat
    } else {
        0nat
    })
}

/// No source signature stands in two of the stages pending, accepted, minted
/// and invalid.
pub open spec fn stages_disjoint(s: StateView) -> bool {
    forall|sig: Seq<char>| #[trigger] stages_of(s, sig) <= 1
}

/// Whether the event makes a signature pending that has left that stage
/// before: one that is accepted, minted or invalid, and not pending.
pub open spec fn rediscovers(s: StateView, e: EventView) -> bool {
    match e {
        EventView::SolanaSignature { signature, .. } => !s.pending.contains_key(signature.key())
            && (s.accepted.contains_key(signature.key()) || s.minted.contains_key(signature.key())
            || s.invalid.contains_key(signature.key())),
        _ => false,
    }
}

/// An event that the state takes keeps the stages apart, unless it makes a
/// signature pending again that has left that stage.
pub proof fn lemma_apply_keeps_stages_disjoint(s: StateView, e: EventView)
    requires
        stages_disjoint(s),
        allowed(s, e),
        !rediscovers(s, e),
    ensures
        stages_disjoint(apply(s, e)),
{
    let t = apply(s, e);
    assert forall|sig: Seq<char>| #[trigger] stages_of(t, sig) <= 1 by {
        assert(stages_of(s, sig) <= 1);
        match e {
            EventView::SolanaSignature { signature, .. } => {
                assert(stages_of(s, signature.key()) <= 1);
            },
            EventView::InvalidEvent { signature, .. } => {
                assert(stages_of(s, signature.key()) <= 1);
            },
            EventView::AcceptedEvent { event_source, .. } => {
                assert(stages_of(s, event_source.key()) <= 1);
            },
            EventView::MintedEvent { event_source } => {
                assert(stages_of(s, event_source.key()) <= 1);
            },
            _ => {},
        }
    }
}

/// Whether no event of the log, at its place, makes a signature pending again
/// that has left that stage.
pub open spec fn never_rediscovers(log: Seq<EventView>) -> bool {
    forall|i: int|
        1 <= i < log.len() && replay(log.subrange(0, i)) is Some ==> !rediscovers(
            replay(#[trigger] log.subrange(0, i))->0,
            log[i],
        )
}

/// In every state that a log rebuilds, a source signature stands in at most
/// one of the stages pending, accepted, minted and invalid, as long as no
/// signature was made pending again after it had left that stage.
pub proof fn lemma_stages_disjoint(log: Seq<EventView>)
    requires
        replay(log) is Some,
        never_rediscovers(log),
    ensures
        stages_disjoint(replay(log)->0),
    decreases log.len(),
{
    if log.len() == 1 {
        let s = replay(log)->0;
        assert forall|sig: Seq<char>| #[trigger] stages_of(s, sig) <= 1 by {}
    } else {
        let front = log.drop_last();
        assert(front =~= log.subrange(0, log.len() - 1));
        assert forall|i: int|
            1 <= i < front.len() && replay(front.subrange(0, i)) is Some implies !rediscovers(
            replay(#[trigger] front.subrange(0, i))->0,
            front[i],
        ) by {
            assert(front.subrange(0, i) =~= log.subrange(0, i));
        }
        lemma_stages_disjoint(front);
        lemma_apply_keeps_stages_disjoint(replay(front)->0, log.last());
    }
}

/// Whether the event records the mint of the deposit with source signature
/// `sig`.
pub open spec fn is_minted_event(e: EventView, sig: Seq<char>) -> bool {
    e matches EventView::MintedEvent { event_source } && event_source.key() == sig
}

/// Whether the event accepts the deposit with source signature `sig`, or
/// retries it.
pub open spec fn is_accepted_event(e: EventView, sig: Seq<char>) -> bool {
    e matches EventView::AcceptedEvent { event_source, .. } && event_source.key() == sig
}

/// How many events of the log record the mint of `sig`.
pub open spec fn minted_count(log: Seq<EventView>, sig: Seq<char>) -> nat
    decreases log.len(),
{
    if log.len() == 0 {
        0
    } else {
        minted_count(log.drop_last(), sig) + if is_minted_event(log.last(), sig) {
            1nat
        } else {
            0nat
        }
    }
}

/// Whether some event of the log accepts `sig`.
pub open spec fn accepted_somewhere(log: Seq<EventView>, sig: Seq<char>) -> bool {
    exists|i: int| 0 <= i < log.len() && is_accepted_event(#[trigger] log[i], sig)
}

/// Whether the log holds an event that accepts `sig` and, later, one that
/// records its mint.
pub open spec fn accepted_before_minted(log: Seq<EventView>, sig: Seq<char>) -> bool {
    exists|i: int, j: int|
        0 <= i < j < log.len() && is_accepted_event(#[trigger] log[i], sig) && is_minted_event(
            #[trigger] log[j],
            sig,
        )
}

proof fn lemma_mint_history(log: Seq<EventView>, sig: Seq<char>)
    requires
        replay(log) is Some,
    ensures
        minted_count(log, sig) == if replay(log)->0.minted.contains_key(sig) {
            1nat
        } else {
            0nat
        },
        replay(log)->0.accepted.contains_key(sig) ==> accepted_somewhere(log, sig),
        replay(log)->0.minted.contains_key(sig) ==> accepted_before_minted(log, sig),
    decreases log.len(),
{
    if log.len() == 1 {
        assert(log.drop_last().len() == 0);
        assert(minted_count(log.drop_last(), sig) == 0);
    } else {
        let front = log.drop_last();
        let e = log.last();
        let s = replay(front)->0;
        let t = replay(log)->0;
        lemma_mint_history(front, sig);
        assert(forall|i: int| 0 <= i < front.len() ==> front[i] == log[i]);
        if accepted_somewhere(front, sig) {
            let i = choose|i: int| 0 <= i < front.len() && is_accepted_event(#[trigger] front[i], sig);
            assert(is_accepted_event(log[i], sig));
        }
        if accepted_before_minted(front, sig) {
            let (i, j) = choose|i: int, j: int|
                0 <= i < j < front.len() && is_accepted_event(#[trigger] front[i], sig)
                    && is_minted_event(#[trigger] front[j], sig);
            assert(is_accepted_event(log[i], sig) && is_minted_event(log[j], sig));
        }
        if is_accepted_event(e, sig) {
            assert(is_accepted_event(log[log.len() - 1], sig));
        }
        if is_minted_event(e, sig) {
            assert(s.accepted.contains_key(sig));
            let i = choose|i: int| 0 <= i < front.len() && is_accepted_event(#[trigger] front[i], sig);
            assert(is_accepted_event(log[i], sig) && is_minted_event(log[log.len() - 1], sig));
        }
        match e {
            EventView::AcceptedEvent { event_source, .. } => {
                assert(t.minted == s.minted);
            },
            EventView::MintedEvent { event_source } => {},
            _ => {
                assert(t.minted == s.minted);
                assert(t.accepted == s.accepted);
            },
        }
    }
}

/// For a deposit that stands in the minted set of a state that a log rebuilds,
/// the log holds exactly one event that records its mint, and before it an
/// event that accepts the deposit.
pub proof fn lemma_minted_exactly_once(log: Seq<EventView>, sig: Seq<char>)
    requires
        replay(log) is Some,
        replay(log)->0.minted.contains_key(sig),
    ensures
        minted_count(log, sig) == 1,
        accepted_before_minted(log, sig),
{
    lemma_mint_history(log, sig);
}

/// What has reached its last stage stays as it is: an event that the state
/// takes changes neither a minted deposit, nor an invalid signature, nor a
/// redeemed withdrawal with its coupon.
pub proof fn lemma_last_stages_are_final(s: StateView, e: EventView)
    requires
        allowed(s, e),
    ensures
        forall|sig: Seq<char>| #[trigger]
            s.minted.contains_key(sig) ==> apply(s, e).minted.contains_key(sig) && apply(
                s,
                e,
            ).minted[sig] == s.minted[sig],
        forall|sig: Seq<char>| #[trigger]
            s.invalid.contains_key(sig) ==> apply(s, e).invalid.contains_key(sig) && apply(
                s,
                e,
            ).invalid[sig] == s.invalid[sig],
        forall|id: u64| #[trigger]
            s.redeemed.contains_key(id) ==> apply(s, e).redeemed.contains_key(id) && apply(
                s,
                e,
            ).redeemed[id] == s.redeemed[id],
{
}

/// Whether the event records the burn of the withdrawal `id`, or a retry of
/// its coupon.
pub open spec fn is_burned_event(e: EventView, id: u64) -> bool {
    e matches EventView::WithdrawalBurnedEvent { event_source, .. } && event_source.key() == id
}

/// Whether the event records the coupon of the withdrawal `id`.
pub open spec fn is_redeemed_event(e: EventView, id: u64) -> bool {
    e matches EventView::WithdrawalRedeemedEvent { event_source } && event_source.key() == id
}

/// How many events of the log record the coupon of `id`.
pub open spec fn redeemed_count(log: Seq<EventView>, id: u64) -> nat
    decreases log.len(),
{
    if log.len() == 0 {
        0
    } else {
        redeemed_count(log.drop_last(), id) + if is_redeemed_event(log.last(), id) {
            1nat
        } else {
            0nat
        }
    }
}

/// Whether some event of the log records the burn of `id`.
pub open spec fn burned_somewhere(log: Seq<EventView>, id: u64) -> bool {
    exists|i: int| 0 <= i < log.len() && is_burned_event(#[trigger] log[i], id)
}

/// Whether the log holds an event that records the burn of `id` and, later,
/// one that records its coupon.
pub open spec fn burned_before_redeemed(log: Seq<EventView>, id: u64) -> bool {
    exists|i: int, j: int|
        0 <= i < j < log.len() && is_burned_event(#[trigger] log[i], id) && is_redeemed_event(
            #[trigger] log[j],
            id,
        )
}

proof fn lemma_redeem_history(log: Seq<EventView>, id: u64)
    requires
        replay(log) is Some,
    ensures
        redeemed_count(log, id) == if replay(log)->0.redeemed.contains_key(id) {
            1nat
        } else {
            0nat
        },
        replay(log)->0.burned.contains_key(id) ==> burned_somewhere(log, id),
        replay(log)->0.redeemed.contains_key(id) ==> burned_before_redeemed(log, id),
    decreases log.len(),
{
    if log.len() == 1 {
        assert(log.drop_last().len() == 0);
        assert(redeemed_count(log.drop_last(), id) == 0);
    } else {
        let front = log.drop_last();
        let e = log.last();
        let s = replay(front)->0;
        let t = replay(log)->0;
        lemma_redeem_history(front, id);
        assert(forall|i: int| 0 <= i < front.len() ==> front[i] == log[i]);
        if burned_somewhere(front, id) {
            let i = choose|i: int| 0 <= i < front.len() && is_burned_event(#[trigger] front[i], id);
            assert(is_burned_event(log[i], id));
        }
        if burned_before_redeemed(front, id) {
            let (i, j) = choose|i: int, j: int|
                0 <= i < j < front.len() && is_burned_event(#[trigger] front[i], id)
                    && is_redeemed_event(#[trigger] front[j], id);
            assert(is_burned_event(log[i], id) && is_redeemed_event(log[j], id));
        }
        if is_burned_event(e, id) {
            assert(is_burned_event(log[log.len() - 1], id));
        }
        if is_redeemed_event(e, id) {
            assert(s.burned.contains_key(id));
            let i = choose|i: int| 0 <= i < front.len() && is_burned_event(#[trigger] front[i], id);
            assert(is_burned_event(log[i], id) && is_redeemed_event(log[log.len() - 1], id));
        }
        match e {
            EventView::WithdrawalBurnedEvent { event_source, .. } => {
                assert(t.redeemed == s.redeemed);
            },
            EventView::WithdrawalRedeemedEvent { event_source } => {},
            _ => {
                assert(t.redeemed == s.redeemed);
                assert(t.burned == s.burned);
            },
        }
    }
}

/// For a withdrawal that stands in the redeemed set of a state that a log
/// rebuilds, the log holds exactly one event that records its coupon, and
/// before it an event that records its burn.
pub proof fn lemma_redeemed_exactly_once(log: Seq<EventView>, id: u64)
    requires
        replay(log) is Some,
        replay(log)->0.redeemed.contains_key(id),
    ensures
        redeemed_count(log, id) == 1,
        burned_before_redeemed(log, id),
{
    lemma_redeem_history(log, id);
}

} // verus!
