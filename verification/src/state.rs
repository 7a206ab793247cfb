//! The minter's state: its configuration, the scanning cursor, every entity
//! of the two pipelines, the id counters and the locks.

use vstd::prelude::*;

use crate::amount::Amount;
use crate::codec::{hex_encode, hex_text};
use crate::crypto::{decompress_key, decompressed_key};
use crate::events::{
    DepositEvent, DepositView, RangeView, SignatureView, SolanaSignature, SolanaSignatureRange,
    WithdrawalEvent, WithdrawalView,
};
use crate::keyed::{list_map, list_wf, views, lemma_list_empty};
use crate::lifecycle::{InitArg, InitArgView, SolanaNetwork, UpgradeArgView};
use crate::principal::{anonymous_bytes, copy_bytes, Principal};

pub mod audit;
pub mod event;
pub mod laws;
pub mod records;
pub mod runs;

verus! {

/// The ways in which a configuration can be unfit.
#[derive(Clone, Copy, Debug, PartialEq, Eq, Structural)]
pub enum ConfigFault {
    KeyName,
    LedgerId,
    ContractAddress,
    InitialSignature,
    MinimumWithdrawalAmount,
}

/// Why a configuration was refused, with a message for the operator.
#[derive(Debug, PartialEq, Eq)]
pub enum InvalidStateError {
    InvalidEcdsaKeyName(String),
    InvalidLedgerId(String),
    InvalidSolanaContractAddress(String),
    InvalidMinimumWithdrawalAmount(String),
    InvalidSolanaInitialSignature(String),
}

impl InvalidStateError {
    pub open spec fn fault(self) -> ConfigFault {
        match self {
            InvalidStateError::InvalidEcdsaKeyName(_) => ConfigFault::KeyName,
            InvalidStateError::InvalidLedgerId(_) => ConfigFault::LedgerId,
            InvalidStateError::InvalidSolanaContractAddress(_) => ConfigFault::ContractAddress,
            InvalidStateError::InvalidMinimumWithdrawalAmount(_) =>
                ConfigFault::MinimumWithdrawalAmount,
            InvalidStateError::InvalidSolanaInitialSignature(_) => ConfigFault::InitialSignature,
        }
    }

    pub open spec fn message(self) -> Seq<char> {
        match self {
            InvalidStateError::InvalidEcdsaKeyName(m) => m@,
            InvalidStateError::InvalidLedgerId(m) => m@,
            InvalidStateError::InvalidSolanaContractAddress(m) => m@,
            InvalidStateError::InvalidMinimumWithdrawalAmount(m) => m@,
            InvalidStateError::InvalidSolanaInitialSignature(m) => m@,
        }
    }
}

/// The message that goes with each fault of a configuration.
pub open spec fn fault_message(fault: ConfigFault) -> Seq<char> {
    match fault {
        ConfigFault::KeyName => "ecdsa_key_name cannot be blank"@,
        ConfigFault::LedgerId => "ledger_id cannot be the anonymous principal"@,
        ConfigFault::ContractAddress => "solana_contract_address cannot be empty"@,
        ConfigFault::InitialSignature => "solana_initial_signature cannot be empty"@,
        ConfigFault::MinimumWithdrawalAmount => "minimum_withdrawal_amount must be positive"@,
    }
}

/// The four periodic tasks of the deposit pipeline.
#[derive(Clone, Copy, Debug, PartialEq, Eq, Hash, Structural)]
pub enum TaskType {
    GetLatestSignature,
    ScrapSignatureRanges,
    ScrapSignatures,
    MintGSol,
}

/// Everything that the minter knows.
#[derive(Clone, Debug, PartialEq, Eq)]
pub struct State {
    pub solana_network: SolanaNetwork,
    pub solana_contract_address: String,
    pub solana_initial_signature: String,
    pub ecdsa_key_name: String,
    /// The oracle's public key in compressed SEC1 form, once it was fetched.
    pub ecdsa_public_key: Option<Vec<u8>>,
    pub ledger_id: Principal,
    pub minimum_withdrawal_amount: Amount,
    pub solana_last_known_signature: Option<String>,
    pub solana_signature_ranges: Vec<SolanaSignatureRange>,
    pub solana_signatures: Vec<SolanaSignature>,
    pub invalid_events: Vec<SolanaSignature>,
    pub accepted_events: Vec<DepositEvent>,
    pub minted_events: Vec<DepositEvent>,
    pub withdrawal_burned_events: Vec<WithdrawalEvent>,
    pub withdrawal_redeemed_events: Vec<WithdrawalEvent>,
    /// The principals whose withdrawal is in flight.
    pub withdrawing_principals: Vec<Principal>,
    pub burn_id_counter: u64,
    pub deposit_id_counter: u64,
    /// Number of outbound HTTP requests since the last upgrade.
    pub http_request_counter: u64,
    /// The tasks that are running.
    pub active_tasks: Vec<TaskType>,
}

/// The state as mathematics: each collection as the map from its key.
pub struct StateView {
    pub solana_network: SolanaNetwork,
    pub solana_contract_address: Seq<char>,
    pub solana_initial_signature: Seq<char>,
    pub ecdsa_key_name: Seq<char>,
    pub ecdsa_public_key: Option<Seq<u8>>,
    pub ledger_id: Seq<u8>,
    pub minimum_withdrawal_amount: nat,
    pub last_known_signature: Option<Seq<char>>,
    pub ranges: Map<(Seq<char>, Seq<char>), RangeView>,
    pub pending: Map<Seq<char>, SignatureView>,
    pub invalid: Map<Seq<char>, SignatureView>,
    pub accepted: Map<Seq<char>, DepositView>,
    pub minted: Map<Seq<char>, DepositView>,
    pub burned: Map<u64, WithdrawalView>,
    pub redeemed: Map<u64, WithdrawalView>,
    pub withdrawing: Set<Seq<u8>>,
    pub burn_id_counter: u64,
    pub deposit_id_counter: u64,
    pub http_request_counter: u64,
    pub active_tasks: Set<TaskType>,
}

pub open spec fn range_key() -> spec_fn(RangeView) -> (Seq<char>, Seq<char>) {
    |r: RangeView| r.key()
}

pub open spec fn signature_key() -> spec_fn(SignatureView) -> Seq<char> {
    |s: SignatureView| s.key()
}

pub open spec fn deposit_key() -> spec_fn(DepositView) -> Seq<char> {
    |d: DepositView| d.key()
}

pub open spec fn withdrawal_key() -> spec_fn(WithdrawalView) -> u64 {
    |w: WithdrawalView| w.key()
}

/// The view of bytes that may be absent.
pub open spec fn bytes_view(bytes: Option<Vec<u8>>) -> Option<Seq<u8>> {
    match bytes {
        Some(b) => Some(b@),
        None => None,
    }
}

impl StateView {
    /// The fault of the configuration that is reported, if it has one.
    pub open spec fn config_fault(self) -> Option<ConfigFault> {
        if self.ecdsa_key_name.len() == 0 {
            Some(ConfigFault::KeyName)
        } else if self.ledger_id == anonymous_bytes() {
            Some(ConfigFault::LedgerId)
        } else if self.solana_contract_address.len() == 0 {
            Some(ConfigFault::ContractAddress)
        } else if self.solana_initial_signature.len() == 0 {
            Some(ConfigFault::InitialSignature)
        } else if self.minimum_withdrawal_amount == 0 {
            Some(ConfigFault::MinimumWithdrawalAmount)
        } else {
            None
        }
    }

    /// The scanning cursor: the newest signature that was acknowledged, or
    /// the initial signature while none was.
    pub open spec fn cursor(self) -> Seq<char> {
        match self.last_known_signature {
            Some(sig) => sig,
            None => self.solana_initial_signature,
        }
    }

    /// The state that a minter starts in with the given configuration.
    pub open spec fn initial(arg: InitArgView) -> StateView {
        StateView {
            solana_network: arg.solana_network,
            solana_contract_address: arg.solana_contract_address,
            solana_initial_signature: arg.solana_initial_signature,
            ecdsa_key_name: arg.ecdsa_key_name,
            ecdsa_public_key: None,
            ledger_id: arg.ledger_id,
            minimum_withdrawal_amount: arg.minimum_withdrawal_amount,
            last_known_signature: None,
            ranges: Map::empty(),
            pending: Map::empty(),
            invalid: Map::empty(),
            accepted: Map::empty(),
            minted: Map::empty(),
            burned: Map::empty(),
            redeemed: Map::empty(),
            withdrawing: Set::empty(),
            burn_id_counter: 0,
            deposit_id_counter: 0,
            http_request_counter: 0,
            active_tasks: Set::empty(),
        }
    }

    /// The configuration with the parts that an upgrade provides replaced.
    pub open spec fn upgraded(self, arg: UpgradeArgView) -> StateView {
        StateView {
            solana_contract_address: match arg.solana_contract_address {
                Some(a) => a,
                None => self.solana_contract_address,
            },
            solana_initial_signature: match arg.solana_initial_signature {
                Some(s) => s,
                None => self.solana_initial_signature,
            },
            ecdsa_key_name: match arg.ecdsa_key_name {
                Some(n) => n,
                None => self.ecdsa_key_name,
            },
            minimum_withdrawal_amount: match arg.minimum_withdrawal_amount {
                Some(m) => m,
                None => self.minimum_withdrawal_amount,
            },
            ..self
        }
    }
}

impl View for State {
    type V = StateView;

    open spec fn view(&self) -> StateView {
        StateView {
            solana_network: self.solana_network,
            solana_contract_address: self.solana_contract_address@,
            solana_initial_signature: self.solana_initial_signature@,
            ecdsa_key_name: self.ecdsa_key_name@,
            ecdsa_public_key: bytes_view(self.ecdsa_public_key),
            ledger_id: self.ledger_id@,
            minimum_withdrawal_amount: self.minimum_withdrawal_amount@,
            last_known_signature: crate::lifecycle::text_view(self.solana_last_known_signature),
            ranges: list_map(self.solana_signature_ranges@, range_key()),
            pending: list_map(self.solana_signatures@, signature_key()),
            invalid: list_map(self.invalid_events@, signature_key()),
            accepted: list_map(self.accepted_events@, deposit_key()),
            minted: list_map(self.minted_events@, deposit_key()),
            burned: list_map(self.withdrawal_burned_events@, withdrawal_key()),
            redeemed: list_map(self.withdrawal_redeemed_events@, withdrawal_key()),
            withdrawing: views(self.withdrawing_principals@).to_set(),
            burn_id_counter: self.burn_id_counter,
            deposit_id_counter: self.deposit_id_counter,
            http_request_counter: self.http_request_counter,
            active_tasks: self.active_tasks@.to_set(),
        }
    }
}

impl State {
    /// No collection holds a key twice.
    pub open spec fn wf(&self) -> bool {
        &&& list_wf(self.solana_signature_ranges@, range_key())
        &&& list_wf(self.solana_signatures@, signature_key())
        &&& list_wf(self.invalid_events@, signature_key())
        &&& list_wf(self.accepted_events@, deposit_key())
        &&& list_wf(self.minted_events@, deposit_key())
        &&& list_wf(self.withdrawal_burned_events@, withdrawal_key())
        &&& list_wf(self.withdrawal_redeemed_events@, withdrawal_key())
        &&& views(self.withdrawing_principals@).no_duplicates()
        &&& self.active_tasks@.no_duplicates()
    }

    /// The state of a minter that starts with the given configuration, if the
    /// configuration is fit.
    pub fn try_from(arg: InitArg) -> (r: Result<State, InvalidStateError>)
        ensures
            r is Ok == (StateView::initial(arg@).config_fault() is None),
            r matches Ok(s) ==> s.wf() && s@ == StateView::initial(arg@),
            r matches Err(e) ==> Some(e.fault()) == StateView::initial(arg@).config_fault()
                && e.message() == fault_message(e.fault()),
    {
        let state = State {
            solana_network: arg.solana_network,
            solana_contract_address: arg.solana_contract_address,
            solana_initial_signature: arg.solana_initial_signature,
            ecdsa_key_name: arg.ecdsa_key_name,
            ecdsa_public_key: None,
            ledger_id: arg.ledger_id,
            minimum_withdrawal_amount: arg.minimum_withdrawal_amount,
            solana_last_known_signature: None,
            solana_signature_ranges: Vec::new(),
            solana_signatures: Vec::new(),
            invalid_events: Vec::new(),
            accepted_events: Vec::new(),
            minted_events: Vec::new(),
            withdrawal_burned_events: Vec::new(),
            withdrawal_redeemed_events: Vec::new(),
            withdrawing_principals: Vec::new(),
            burn_id_counter: 0,
            deposit_id_counter: 0,
            http_request_counter: 0,
            active_tasks: Vec::new(),
        };
        proof {
            lemma_list_empty::<SolanaSignatureRange, (Seq<char>, Seq<char>)>(range_key());
            lemma_list_empty::<SolanaSignature, Seq<char>>(signature_key());
            lemma_list_empty::<DepositEvent, Seq<char>>(deposit_key());
            lemma_list_empty::<WithdrawalEvent, u64>(withdrawal_key());
            assert(views(state.withdrawing_principals@) =~= Seq::<Seq<u8>>::empty());
            assert(views(state.withdrawing_principals@).to_set() =~= Set::<Seq<u8>>::empty());
            assert(state.active_tasks@.to_set() =~= Set::<TaskType>::empty());
            assert(state@ == StateView::initial(arg@));
        }
        match state.validate_config() {
            Ok(()) => Ok(state),
            Err(e) => Err(e),
        }
    }

    /// Whether the configuration is fit: the first fault is reported.
    pub fn validate_config(&self) -> (r: Result<(), InvalidStateError>)
        ensures
            r is Ok == (self@.config_fault() is None),
            r matches Err(e) ==> Some(e.fault()) == self@.config_fault() && e.message()
                == fault_message(e.fault()),
    {
        if self.ecdsa_key_name.as_str().is_empty() {
            return Err(
                InvalidStateError::InvalidEcdsaKeyName(
                    "ecdsa_key_name cannot be blank".to_owned(),
                ),
            );
        }
        if self.ledger_id.is_anonymous() {
            return Err(
                InvalidStateError::InvalidLedgerId(
                    "ledger_id cannot be the anonymous principal".to_owned(),
                ),
            );
        }
        if self.solana_contract_address.as_str().is_empty() {
            return Err(
                InvalidStateError::InvalidSolanaContractAddress(
                    "solana_contract_address cannot be empty".to_owned(),
                ),
            );
        }
        if self.solana_initial_signature.as_str().is_empty() {
            return Err(
                InvalidStateError::InvalidSolanaInitialSignature(
                    "solana_initial_signature cannot be empty".to_owned(),
                ),
            );
        }
        if self.minimum_withdrawal_amount.is_zero() {
            return Err(
                InvalidStateError::InvalidMinimumWithdrawalAmount(
                    "minimum_withdrawal_amount must be positive".to_owned(),
                ),
            );
        }
        Ok(())
    }

    pub fn solana_network(&self) -> (network: SolanaNetwork)
        ensures
            network == self@.solana_network,
    {
        self.solana_network
    }

    /// The oracle's public key in compressed form, in hexadecimal.
    pub fn compressed_public_key(&self) -> (hex: String)
        requires
            self@.ecdsa_public_key is Some,
        ensures
            hex@ == hex_text(self@.ecdsa_public_key->0),
    {
        match &self.ecdsa_public_key {
            Some(key) => hex_encode(key.as_slice()),
            None => String::new(),
        }
    }

    /// The oracle's public key in uncompressed form, in hexadecimal.
    pub fn uncompressed_public_key(&self) -> (hex: String)
        requires
            self@.ecdsa_public_key is Some,
            decompressed_key(self@.ecdsa_public_key->0) is Some,
        ensures
            hex@ == hex_text(decompressed_key(self@.ecdsa_public_key->0)->0),
    {
        match &self.ecdsa_public_key {
            Some(key) => match decompress_key(key.as_slice()) {
                Some(point) => hex_encode(point.as_slice()),
                None => String::new(),
            },
            None => String::new(),
        }
    }

    /// The oracle's public key in uncompressed form, in hexadecimal: nothing
    /// while the key was not fetched or where it is no compressed key.
    pub fn try_uncompressed_public_key(&self) -> (hex: Option<String>)
        ensures
            hex is Some == (self@.ecdsa_public_key is Some && decompressed_key(
                self@.ecdsa_public_key->0,
            ) is Some),
            hex matches Some(h) ==> h@ == hex_text(
                decompressed_key(self@.ecdsa_public_key->0)->0,
            ),
    {
        match &self.ecdsa_public_key {
            Some(key) => match decompress_key(key.as_slice()) {
                Some(_) => Some(self.uncompressed_public_key()),
                None => None,
            },
            None => None,
        }
    }

    /// Keeps the oracle's public key once it was fetched.
    pub fn record_ecdsa_public_key(&mut self, key: Vec<u8>)
        ensures
            final(self)@ == (StateView { ecdsa_public_key: Some(key@), ..old(self)@ }),
            old(self).wf() ==> final(self).wf(),
    {
        self.ecdsa_public_key = Some(key);
    }

    /// The cached public key of the oracle, if it was fetched.
    pub fn cached_public_key(&self) -> (key: Option<Vec<u8>>)
        ensures
            bytes_view(key) == self@.ecdsa_public_key,
    {
        match &self.ecdsa_public_key {
            Some(key) => Some(copy_bytes(key)),
            None => None,
        }
    }

    pub fn record_solana_last_known_signature(&mut self, sig: &String)
        ensures
            final(self)@ == (StateView { last_known_signature: Some(sig@), ..old(self)@ }),
            old(self).wf() ==> final(self).wf(),
    {
        self.solana_last_known_signature = Some(sig.clone());
    }

    /// The scanning cursor.
    pub fn get_solana_last_known_signature(&self) -> (sig: String)
        ensures
            sig@ == self@.cursor(),
    {
        match &self.solana_last_known_signature {
            Some(sig) => sig.clone(),
            None => self.solana_initial_signature.clone(),
        }
    }

    /// The number of the next outbound request. The counter only serves to
    /// tell requests apart in logs, so it wraps around.
    pub fn next_request_id(&mut self) -> (id: u64)
        ensures
            id == old(self)@.http_request_counter,
            final(self)@ == (StateView {
                http_request_counter: if id == u64::MAX {
                    0
                } else {
                    (id + 1) as u64
                },
                ..old(self)@
            }),
            old(self).wf() ==> final(self).wf(),
    {
        let current = self.http_request_counter;
        self.http_request_counter = self.http_request_counter.wrapping_add(1);
        current
    }

    /// Hands out the next deposit id.
    pub fn next_deposit_id(&mut self) -> (id: u64)
        requires
            old(self)@.deposit_id_counter < u64::MAX,
        ensures
            id == old(self)@.deposit_id_counter,
            final(self)@ == (StateView { deposit_id_counter: (id + 1) as u64, ..old(self)@ }),
            old(self).wf() ==> final(self).wf(),
    {
        let current = self.deposit_id_counter;
        self.deposit_id_counter = current + 1;
        current
    }

    /// Hands out the next burn id.
    pub fn next_burn_id(&mut self) -> (id: u64)
        requires
            old(self)@.burn_id_counter < u64::MAX,
        ensures
            id == old(self)@.burn_id_counter,
            final(self)@ == (StateView { burn_id_counter: (id + 1) as u64, ..old(self)@ }),
            old(self).wf() ==> final(self).wf(),
    {
        let current = self.burn_id_counter;
        self.burn_id_counter = current + 1;
        current
    }

    pub fn record_deposit_id_counter(&mut self, counter: u64)
        ensures
            final(self)@ == (StateView { deposit_id_counter: counter, ..old(self)@ }),
            old(self).wf() ==> final(self).wf(),
    {
        self.deposit_id_counter = counter;
    }

    pub fn record_burn_id_counter(&mut self, counter: u64)
        ensures
            final(self)@ == (StateView { burn_id_counter: counter, ..old(self)@ }),
            old(self).wf() ==> final(self).wf(),
    {
        self.burn_id_counter = counter;
    }
}

impl StateView {
    /// An upgrade is taken where the configuration it leads to is fit.
    pub open spec fn can_upgrade(self, arg: UpgradeArgView) -> bool {
        self.upgraded(arg).config_fault() is None
    }
}

impl State {
    /// Replaces the parts of the configuration that the upgrade provides,
    /// unless the configuration would be unfit.
    pub fn try_upgrade(&mut self, arg: crate::lifecycle::UpgradeArg) -> (done: bool)
        ensures
            done == old(self)@.can_upgrade(arg@),
            final(self)@ == if done {
                old(self)@.upgraded(arg@)
            } else {
                old(self)@
            },
            old(self).wf() ==> final(self).wf(),
    {
        let key_name_empty = match &arg.ecdsa_key_name {
            Some(name) => name.as_str().is_empty(),
            None => self.ecdsa_key_name.as_str().is_empty(),
        };
        let address_empty = match &arg.solana_contract_address {
            Some(address) => address.as_str().is_empty(),
            None => self.solana_contract_address.as_str().is_empty(),
        };
        let signature_empty = match &arg.solana_initial_signature {
            Some(sig) => sig.as_str().is_empty(),
            None => self.solana_initial_signature.as_str().is_empty(),
        };
        let minimum_zero = match &arg.minimum_withdrawal_amount {
            Some(amount) => amount.is_zero(),
            None => self.minimum_withdrawal_amount.is_zero(),
        };
        if key_name_empty || self.ledger_id.is_anonymous() || address_empty || signature_empty
            || minimum_zero {
            return false;
        }
        match arg.solana_contract_address {
            Some(address) => {
                self.solana_contract_address = address;
            },
            None => {},
        }
        match arg.solana_initial_signature {
            Some(sig) => {
                self.solana_initial_signature = sig;
            },
            None => {},
        }
        match arg.ecdsa_key_name {
            Some(name) => {
                self.ecdsa_key_name = name;
            },
            None => {},
        }
        match arg.minimum_withdrawal_amount {
            Some(amount) => {
                self.minimum_withdrawal_amount = amount;
            },
            None => {},
        }
        true
    }

    pub fn upgrade(&mut self, arg: crate::lifecycle::UpgradeArg)
        requires
            old(self)@.can_upgrade(arg@),
        ensures
            final(self)@ == old(self)@.upgraded(arg@),
            old(self).wf() ==> final(self).wf(),
    {
        let _ = self.try_upgrade(arg);
    }
}

} // verus!
