//! What the minter is started and upgraded with.

use vstd::prelude::*;

use crate::amount::Amount;
use crate::keyed::views;
use crate::principal::Principal;
use crate::state::audit::{payloads, replay, try_apply_state_transition, try_replay_events};
use crate::state::event::{Event, EventRecord, EventType, EventView};
use crate::state::runs::closing_events;
use crate::state::{InvalidStateError, State, StateView};

verus! {

/// The network of the source chain that a deployment is bound to.
#[derive(Clone, Copy, Debug, PartialEq, Eq, Hash, Structural)]
pub enum SolanaNetwork {
    Mainnet,
    Devnet,
}

impl SolanaNetwork {
    /// The name of the network.
    pub fn to_text(&self) -> (text: &'static str)
        ensures
            text@ == (match *self {
                SolanaNetwork::Mainnet => "Solana Mainnet"@,
                SolanaNetwork::Devnet => "Solana Devnet"@,
            }),
    {
        match self {
            SolanaNetwork::Mainnet => "Solana Mainnet",
            SolanaNetwork::Devnet => "Solana Devnet",
        }
    }
}

/// The address of a JSON-RPC endpoint.
#[derive(Debug, PartialEq, Eq, Hash)]
pub struct SolanaRpcUrl(pub String);

impl SolanaRpcUrl {
    pub fn get(&self) -> (url: &str)
        ensures
            url@ == self.0@,
    {
        self.0.as_str()
    }
}

impl Clone for SolanaRpcUrl {
    fn clone(&self) -> (r: Self)
        ensures
            r.0@ == self.0@,
    {
        SolanaRpcUrl(self.0.clone())
    }
}

/// The configuration that a minter is first started with.
#[derive(Debug, PartialEq, Eq)]
pub struct InitArg {
    pub solana_network: SolanaNetwork,
    pub solana_contract_address: String,
    pub solana_initial_signature: String,
    pub ecdsa_key_name: String,
    pub ledger_id: Principal,
    pub minimum_withdrawal_amount: Amount,
}

pub struct InitArgView {
    pub solana_network: SolanaNetwork,
    pub solana_contract_address: Seq<char>,
    pub solana_initial_signature: Seq<char>,
    pub ecdsa_key_name: Seq<char>,
    pub ledger_id: Seq<u8>,
    pub minimum_withdrawal_amount: nat,
}

impl View for InitArg {
    type V = InitArgView;

    open spec fn view(&self) -> InitArgView {
        InitArgView {
            solana_network: self.solana_network,
            solana_contract_address: self.solana_contract_address@,
            solana_initial_signature: self.solana_initial_signature@,
            ecdsa_key_name: self.ecdsa_key_name@,
            ledger_id: self.ledger_id@,
            minimum_withdrawal_amount: self.minimum_withdrawal_amount@,
        }
    }
}

impl Clone for InitArg {
    fn clone(&self) -> (r: Self)
        ensures
            r@ == self@,
    {
        InitArg {
            solana_network: self.solana_network,
            solana_contract_address: self.solana_contract_address.clone(),
            solana_initial_signature: self.solana_initial_signature.clone(),
            ecdsa_key_name: self.ecdsa_key_name.clone(),
            ledger_id: self.ledger_id.clone(),
            minimum_withdrawal_amount: self.minimum_withdrawal_amount.clone(),
        }
    }
}

/// The parts of the configuration that an upgrade replaces; an absent part
/// stays as it is.
#[derive(Debug, PartialEq, Eq)]
pub struct UpgradeArg {
    pub solana_contract_address: Option<String>,
    pub solana_initial_signature: Option<String>,
    pub ecdsa_key_name: Option<String>,
    pub minimum_withdrawal_amount: Option<Amount>,
}

pub struct UpgradeArgView {
    pub solana_contract_address: Option<Seq<char>>,
    pub solana_initial_signature: Option<Seq<char>>,
    pub ecdsa_key_name: Option<Seq<char>>,
    pub minimum_withdrawal_amount: Option<nat>,
}

/// The view of a text that may be absent.
pub open spec fn text_view(text: Option<String>) -> Option<Seq<char>> {
    match text {
        Some(t) => Some(t@),
        None => None,
    }
}

/// The view of an amount that may be absent.
pub open spec fn amount_view(amount: Option<Amount>) -> Option<nat> {
    match amount {
        Some(a) => Some(a@),
        None => None,
    }
}

impl View for UpgradeArg {
    type V = UpgradeArgView;

    open spec fn view(&self) -> UpgradeArgView {
        UpgradeArgView {
            solana_contract_address: text_view(self.solana_contract_address),
            solana_initial_signature: text_view(self.solana_initial_signature),
            ecdsa_key_name: text_view(self.ecdsa_key_name),
            minimum_withdrawal_amount: amount_view(self.minimum_withdrawal_amount),
        }
    }
}

/// A copy of a text that may be absent.
pub fn clone_text(text: &Option<String>) -> (r: Option<String>)
    ensures
        text_view(r) == text_view(*text),
{
    match text {
        Some(t) => Some(t.clone()),
        None => None,
    }
}

impl Clone for UpgradeArg {
    fn clone(&self) -> (r: Self)
        ensures
            r@ == self@,
    {
        let minimum_withdrawal_amount = match &self.minimum_withdrawal_amount {
            Some(a) => Some(a.clone()),
            None => None,
        };
        UpgradeArg {
            solana_contract_address: clone_text(&self.solana_contract_address),
            solana_initial_signature: clone_text(&self.solana_initial_signature),
            ecdsa_key_name: clone_text(&self.ecdsa_key_name),
            minimum_withdrawal_amount,
        }
    }
}

/// What a minter is called with when it is installed or upgraded.
#[derive(Debug, PartialEq, Eq)]
pub enum MinterArg {
    Init(InitArg),
    Upgrade(UpgradeArg),
}

/// Why a minter could not be started or brought back.
#[derive(Debug, PartialEq, Eq)]
pub enum LifecycleError {
    /// A start was called with the argument of an upgrade, or an upgrade with
    /// that of a start.
    WrongArgument,
    /// The configuration is unfit.
    InvalidState(InvalidStateError),
    /// The log rebuilds no state.
    ReplayFailed,
    /// The upgrade would leave an unfit configuration.
    InvalidUpgrade,
}

/// Starts a minter: the state of the configuration, and a log that holds the
/// event of the start.
pub fn init(args: MinterArg, now: u64) -> (r: Result<(State, Vec<Event>), LifecycleError>)
    ensures
        match args {
            MinterArg::Init(arg) => if StateView::initial(arg@).config_fault() is None {
                &&& r matches Ok(pair)
                &&& r->Ok_0.0.wf()
                &&& r->Ok_0.0@ == StateView::initial(arg@)
                &&& views(r->Ok_0.1@) == seq![
                    EventRecord { timestamp: now, payload: EventView::Init(arg@) },
                ]
                &&& replay(payloads(r->Ok_0.1@)) == Some(r->Ok_0.0@)
            } else {
                &&& r matches Err(LifecycleError::InvalidState(e))
                &&& Some(r->Err_0->InvalidState_0.fault()) == StateView::initial(
                    arg@,
                ).config_fault()
                &&& r->Err_0->InvalidState_0.message() == crate::state::fault_message(
                    r->Err_0->InvalidState_0.fault(),
                )
            },
            MinterArg::Upgrade(_) => r == Err::<(State, Vec<Event>), LifecycleError>(
                LifecycleError::WrongArgument,
            ),
        },
{
    match args {
        MinterArg::Init(arg) => {
            let event = Event { timestamp: now, payload: EventType::Init(arg.clone()) };
            match State::try_from(arg) {
                Ok(state) => {
                    let mut log: Vec<Event> = Vec::new();
                    log.push(event);
                    proof {
                        assert(views(log@) =~= seq![
                            EventRecord { timestamp: now, payload: event@.payload },
                        ]);
                        assert(payloads(log@) =~= seq![event@.payload]);
                    }
                    Ok((state, log))
                },
                Err(e) => Err(LifecycleError::InvalidState(e)),
            }
        },
        MinterArg::Upgrade(_) => Err(LifecycleError::WrongArgument),
    }
}

/// Closes the log before an upgrade: appends the cursor and the two id
/// counters, from which a replay takes them.
pub fn pre_upgrade(state: &State, log: &mut Vec<Event>, now: u64)
    ensures
        payloads(final(log)@) == payloads(old(log)@) + closing_events(state@),
        final(log)@.len() == old(log)@.len() + 3,
        forall|i: int| 0 <= i < old(log)@.len() ==> final(log)@[i] == old(log)@[i],
        forall|i: int|
            old(log)@.len() <= i < final(log)@.len() ==> (#[trigger] final(log)@[i]).timestamp
                == now,
{
    log.push(
        Event {
            timestamp: now,
            payload: EventType::LastKnownSolanaSignature(state.get_solana_last_known_signature()),
        },
    );
    log.push(
        Event { timestamp: now, payload: EventType::LastDepositIdCounter(state.deposit_id_counter) },
    );
    log.push(Event { timestamp: now, payload: EventType::LastBurnIdCounter(state.burn_id_counter) });
    assert(payloads(log@) =~= payloads(old(log)@) + closing_events(state@));
}

/// Brings a minter back after an upgrade: replays the log and, where the
/// upgrade comes with new parts of the configuration, applies and records
/// them.
pub fn post_upgrade(log: &mut Vec<Event>, now: u64, args: Option<MinterArg>) -> (r: Result<
    State,
    LifecycleError,
>)
    ensures
        match args {
            Some(MinterArg::Init(_)) => {
                &&& r == Err::<State, LifecycleError>(LifecycleError::WrongArgument)
                &&& final(log)@ == old(log)@
            },
            Some(MinterArg::Upgrade(arg)) => match replay(payloads(old(log)@)) {
                None => {
                    &&& r == Err::<State, LifecycleError>(LifecycleError::ReplayFailed)
                    &&& final(log)@ == old(log)@
                },
                Some(s) => if s.can_upgrade(arg@) {
                    &&& r matches Ok(state)
                    &&& r->Ok_0.wf()
                    &&& r->Ok_0@ == s.upgraded(arg@)
                    &&& views(final(log)@) == views(old(log)@).push(
                        EventRecord { timestamp: now, payload: EventView::Upgrade(arg@) },
                    )
                } else {
                    &&& r == Err::<State, LifecycleError>(LifecycleError::InvalidUpgrade)
                    &&& final(log)@ == old(log)@
                },
            },
            None => match replay(payloads(old(log)@)) {
                None => {
                    &&& r == Err::<State, LifecycleError>(LifecycleError::ReplayFailed)
                    &&& final(log)@ == old(log)@
                },
                Some(s) => {
                    &&& r matches Ok(state)
                    &&& r->Ok_0.wf()
                    &&& r->Ok_0@ == s
                    &&& final(log)@ == old(log)@
                },
            },
        },
{
    let upgrade = match args {
        Some(MinterArg::Init(_)) => {
            return Err(LifecycleError::WrongArgument);
        },
        Some(MinterArg::Upgrade(arg)) => Some(arg),
        None => None,
    };
    let mut state = match try_replay_events(log) {
        Some(state) => state,
        None => {
            return Err(LifecycleError::ReplayFailed);
        },
    };
    match upgrade {
        Some(arg) => {
            let payload = EventType::Upgrade(arg);
            if try_apply_state_transition(&mut state, &payload) {
                let event = Event { timestamp: now, payload };
                proof {
                    crate::keyed::lemma_views_push(log@, event);
                }
                log.push(event);
                Ok(state)
            } else {
                Err(LifecycleError::InvalidUpgrade)
            }
        },
        None => Ok(state),
    }
}

} // verus!
