//! The events of the log: one variant for each transition of the state.

use vstd::prelude::*;

use crate::events::{
    DepositEvent, DepositView, RangeView, SignatureView, SolanaSignature, SolanaSignatureRange,
    WithdrawalEvent, WithdrawalView,
};
use crate::lifecycle::{clone_text, InitArg, InitArgView, UpgradeArg, UpgradeArgView};
use crate::state::records::range_view;

verus! {

/// A transition of the minter's state. The order of the variants is the
/// numbering under which events are stored, and it is never to change.
#[derive(Debug, PartialEq, Eq)]
pub enum EventType {
    /// The minter was started. The first event of every log, and only that.
    Init(InitArg),
    /// The minter was upgraded with new parts of its configuration.
    Upgrade(UpgradeArg),
    /// The scanning cursor moved to a newer signature.
    LastKnownSolanaSignature(String),
    LastDepositIdCounter(u64),
    LastBurnIdCounter(u64),
    NewSolanaSignatureRange(SolanaSignatureRange),
    RemoveSolanaSignatureRange(SolanaSignatureRange),
    RetrySolanaSignatureRange {
        /// The range whose walk failed.
        range: SolanaSignatureRange,
        /// What is left of it to walk, if the walk got anywhere.
        failed_sub_range: Option<SolanaSignatureRange>,
        fail_reason: String,
    },
    SolanaSignature { signature: SolanaSignature, fail_reason: Option<String> },
    InvalidEvent { signature: SolanaSignature, fail_reason: String },
    AcceptedEvent { event_source: DepositEvent, fail_reason: Option<String> },
    MintedEvent { event_source: DepositEvent },
    WithdrawalBurnedEvent { event_source: WithdrawalEvent, fail_reason: Option<String> },
    WithdrawalRedeemedEvent { event_source: WithdrawalEvent },
}

pub enum EventView {
    Init(InitArgView),
    Upgrade(UpgradeArgView),
    LastKnownSolanaSignature(Seq<char>),
    LastDepositIdCounter(u64),
    LastBurnIdCounter(u64),
    NewSolanaSignatureRange(RangeView),
    RemoveSolanaSignatureRange(RangeView),
    RetrySolanaSignatureRange {
        range: RangeView,
        failed_sub_range: Option<RangeView>,
        fail_reason: Seq<char>,
    },
    SolanaSignature { signature: SignatureView, fail_reason: Option<Seq<char>> },
    InvalidEvent { signature: SignatureView, fail_reason: Seq<char> },
    AcceptedEvent { event_source: DepositView, fail_reason: Option<Seq<char>> },
    MintedEvent { event_source: DepositView },
    WithdrawalBurnedEvent { event_source: WithdrawalView, fail_reason: Option<Seq<char>> },
    WithdrawalRedeemedEvent { event_source: WithdrawalView },
}

impl EventView {
    /// The number under which the variant is stored.
    pub open spec fn tag(self) -> u8 {
        match self {
            EventView::Init(_) => 0,
            EventView::Upgrade(_) => 1,
            EventView::LastKnownSolanaSignature(_) => 2,
            EventView::LastDepositIdCounter(_) => 3,
            EventView::LastBurnIdCounter(_) => 4,
            EventView::NewSolanaSignatureRange(_) => 5,
            EventView::RemoveSolanaSignatureRange(_) => 6,
            EventView::RetrySolanaSignatureRange { .. } => 7,
            EventView::SolanaSignature { .. } => 8,
            EventView::InvalidEvent { .. } => 9,
            EventView::AcceptedEvent { .. } => 10,
            EventView::MintedEvent { .. } => 11,
            EventView::WithdrawalBurnedEvent { .. } => 12,
            EventView::WithdrawalRedeemedEvent { .. } => 13,
        }
    }
}

impl View for EventType {
    type V = EventView;

    open spec fn view(&self) -> EventView {
        match self {
            EventType::Init(arg) => EventView::Init(arg@),
            EventType::Upgrade(arg) => EventView::Upgrade(arg@),
            EventType::LastKnownSolanaSignature(sig) => EventView::LastKnownSolanaSignature(sig@),
            EventType::LastDepositIdCounter(n) => EventView::LastDepositIdCounter(*n),
            EventType::LastBurnIdCounter(n) => EventView::LastBurnIdCounter(*n),
            EventType::NewSolanaSignatureRange(r) => EventView::NewSolanaSignatureRange(r@),
            EventType::RemoveSolanaSignatureRange(r) => EventView::RemoveSolanaSignatureRange(r@),
            EventType::RetrySolanaSignatureRange { range, failed_sub_range, fail_reason } =>
                EventView::RetrySolanaSignatureRange {
                    range: range@,
                    failed_sub_range: range_view(*failed_sub_range),
                    fail_reason: fail_reason@,
                },
            EventType::SolanaSignature { signature, fail_reason } => EventView::SolanaSignature {
                signature: signature@,
                fail_reason: crate::lifecycle::text_view(*fail_reason),
            },
            EventType::InvalidEvent { signature, fail_reason } => EventView::InvalidEvent {
                signature: signature@,
                fail_reason: fail_reason@,
            },
            EventType::AcceptedEvent { event_source, fail_reason } => EventView::AcceptedEvent {
                event_source: event_source@,
                fail_reason: crate::lifecycle::text_view(*fail_reason),
            },
            EventType::MintedEvent { event_source } => EventView::MintedEvent {
                event_source: event_source@,
            },
            EventType::WithdrawalBurnedEvent { event_source, fail_reason } =>
                EventView::WithdrawalBurnedEvent {
                    event_source: event_source@,
                    fail_reason: crate::lifecycle::text_view(*fail_reason),
                },
            EventType::WithdrawalRedeemedEvent { event_source } =>
                EventView::WithdrawalRedeemedEvent { event_source: event_source@ },
        }
    }
}

impl EventType {
    /// The number under which the variant is stored.
    pub fn tag(&self) -> (tag: u8)
        ensures
            tag == self@.tag(),
            tag <= 13,
    {
        match self {
            EventType::Init(_) => 0,
            EventType::Upgrade(_) => 1,
            EventType::LastKnownSolanaSignature(_) => 2,
            EventType::LastDepositIdCounter(_) => 3,
            EventType::LastBurnIdCounter(_) => 4,
            EventType::NewSolanaSignatureRange(_) => 5,
            EventType::RemoveSolanaSignatureRange(_) => 6,
            EventType::RetrySolanaSignatureRange { .. } => 7,
            EventType::SolanaSignature { .. } => 8,
            EventType::InvalidEvent { .. } => 9,
            EventType::AcceptedEvent { .. } => 10,
            EventType::MintedEvent { .. } => 11,
            EventType::WithdrawalBurnedEvent { .. } => 12,
            EventType::WithdrawalRedeemedEvent { .. } => 13,
        }
    }
}

impl Clone for EventType {
    fn clone(&self) -> (r: Self)
        ensures
            r@ == self@,
    {
        match self {
            EventType::Init(arg) => EventType::Init(arg.clone()),
            EventType::Upgrade(arg) => EventType::Upgrade(arg.clone()),
            EventType::LastKnownSolanaSignature(sig) => EventType::LastKnownSolanaSignature(
                sig.clone(),
            ),
            EventType::LastDepositIdCounter(n) => EventType::LastDepositIdCounter(*n),
            EventType::LastBurnIdCounter(n) => EventType::LastBurnIdCounter(*n),
            EventType::NewSolanaSignatureRange(r) => EventType::NewSolanaSignatureRange(r.clone()),
            EventType::RemoveSolanaSignatureRange(r) => EventType::RemoveSolanaSignatureRange(
                r.clone(),
            ),
            EventType::RetrySolanaSignatureRange { range, failed_sub_range, fail_reason } => {
                let sub = match failed_sub_range {
                    Some(s) => Some(s.clone()),
                    None => None,
                };
                EventType::RetrySolanaSignatureRange {
                    range: range.clone(),
                    failed_sub_range: sub,
                    fail_reason: fail_reason.clone(),
                }
            },
            EventType::SolanaSignature { signature, fail_reason } => EventType::SolanaSignature {
                signature: signature.clone(),
                fail_reason: clone_text(fail_reason),
            },
            EventType::InvalidEvent { signature, fail_reason } => EventType::InvalidEvent {
                signature: signature.clone(),
                fail_reason: fail_reason.clone(),
            },
            EventType::AcceptedEvent { event_source, fail_reason } => EventType::AcceptedEvent {
                event_source: event_source.clone(),
                fail_reason: clone_text(fail_reason),
            },
            EventType::MintedEvent { event_source } => EventType::MintedEvent {
                event_source: event_source.clone(),
            },
            EventType::WithdrawalBurnedEvent { event_source, fail_reason } =>
                EventType::WithdrawalBurnedEvent {
                    event_source: event_source.clone(),
                    fail_reason: clone_text(fail_reason),
                },
            EventType::WithdrawalRedeemedEvent { event_source } =>
                EventType::WithdrawalRedeemedEvent { event_source: event_source.clone() },
        }
    }
}

/// An event as the log holds it.
#[derive(Debug, PartialEq, Eq)]
pub struct Event {
    /// When the minter made the event, in nanoseconds.
    pub timestamp: u64,
    pub payload: EventType,
}

pub struct EventRecord {
    pub timestamp: u64,
    pub payload: EventView,
}

impl View for Event {
    type V = EventRecord;

    open spec fn view(&self) -> EventRecord {
        EventRecord { timestamp: self.timestamp, payload: self.payload@ }
    }
}

impl Clone for Event {
    fn clone(&self) -> (r: Self)
        ensures
            r@ == self@,
    {
        Event { timestamp: self.timestamp, payload: self.payload.clone() }
    }
}

} // verus!
