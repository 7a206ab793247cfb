use minter::amount::Amount;
use minter::coupon::Coupon;
use minter::events::{DepositEvent, SolanaSignature, SolanaSignatureRange, WithdrawalEvent};
use minter::lifecycle::{
    init, post_upgrade, pre_upgrade, InitArg, LifecycleError, MinterArg, SolanaNetwork,
    SolanaRpcUrl, UpgradeArg,
};
use minter::principal::Principal;
use minter::state::audit::{
    apply_state_transition, process_event, process_events, replay_events,
    try_apply_state_transition, try_process_event, try_replay_events,
};
use minter::state::event::{Event, EventType};
use minter::state::records::{find_deposit, find_range, find_signature, find_withdrawal};
use minter::state::{InvalidStateError, State, TaskType};

fn ledger() -> Principal {
    Principal::from_text("ryjl3-tyaaa-aaaaa-aaaba-cai").unwrap()
}

fn init_arg() -> InitArg {
    InitArg {
        solana_network: SolanaNetwork::Devnet,
        solana_contract_address: "Prog1111111111111111111111111111111111111111".to_string(),
        solana_initial_signature: "SIG0".to_string(),
        ecdsa_key_name: "dfx_test_key".to_string(),
        ledger_id: ledger(),
        minimum_withdrawal_amount: Amount::from_u64(1),
    }
}

fn fresh() -> (State, Vec<Event>) {
    init(MinterArg::Init(init_arg()), 1).unwrap()
}

fn no_upgrade() -> UpgradeArg {
    UpgradeArg {
        solana_contract_address: None,
        solana_initial_signature: None,
        ecdsa_key_name: None,
        minimum_withdrawal_amount: None,
    }
}

fn range(before: &str, until: &str) -> SolanaSignatureRange {
    SolanaSignatureRange::new(before.to_string(), until.to_string())
}

fn pending(sig: &str) -> EventType {
    EventType::SolanaSignature { signature: SolanaSignature::new(sig.to_string()), fail_reason: None }
}

fn deposit(id: u64, sig: &str, amount: u64) -> DepositEvent {
    DepositEvent {
        id,
        from_sol_address: "Sender111".to_string(),
        to_icp_address: Principal::anonymous(),
        amount: Amount::from_u64(amount),
        sol_sig: sig.to_string(),
        icp_mint_block_index: None,
        retry: minter::events::Retriable::new(),
    }
}

fn accepted(id: u64, sig: &str) -> EventType {
    EventType::AcceptedEvent { event_source: deposit(id, sig, 1000), fail_reason: None }
}

fn minted(id: u64, sig: &str, block: u64) -> EventType {
    let mut event = deposit(id, sig, 1000);
    event.update_mint_block_index(block);
    EventType::MintedEvent { event_source: event }
}

fn burned(burn_id: u64) -> WithdrawalEvent {
    let mut event = WithdrawalEvent::new(
        burn_id,
        Principal::from_bytes(vec![1, 2, 3]).unwrap(),
        "SolAddr".to_string(),
        Amount::from_u64(500),
    );
    event.update_after_burn(77, 7);
    event
}

fn coupon() -> Coupon {
    Coupon::new("m".to_string(), "h".to_string(), "s".to_string(), "k".to_string())
}

#[test]
fn init_builds_the_state_of_the_configuration() {
    let (state, log) = fresh();
    assert_eq!(state.solana_network(), SolanaNetwork::Devnet);
    assert_eq!(state.solana_contract_address, "Prog1111111111111111111111111111111111111111");
    assert_eq!(state.get_solana_last_known_signature(), "SIG0");
    assert_eq!(state.solana_last_known_signature, None);
    assert_eq!(state.ecdsa_key_name, "dfx_test_key");
    assert_eq!(state.minimum_withdrawal_amount, Amount::from_u64(1));
    assert!(state.solana_signature_ranges.is_empty());
    assert!(state.solana_signatures.is_empty());
    assert!(state.accepted_events.is_empty());
    assert!(state.minted_events.is_empty());
    assert!(state.invalid_events.is_empty());
    assert_eq!(state.deposit_id_counter, 0);
    assert_eq!(state.burn_id_counter, 0);
    assert_eq!(log, vec![Event { timestamp: 1, payload: EventType::Init(init_arg()) }]);
    assert_eq!(state.validate_config(), Ok(()));
}

#[test]
fn init_refuses_upgrade_arguments() {
    assert_eq!(init(MinterArg::Upgrade(no_upgrade()), 1), Err(LifecycleError::WrongArgument));
}

#[test]
fn init_refuses_the_anonymous_ledger() {
    let mut arg = init_arg();
    arg.ledger_id = Principal::from_text("2vxsx-fae").unwrap();
    assert_eq!(
        init(MinterArg::Init(arg), 1),
        Err(LifecycleError::InvalidState(InvalidStateError::InvalidLedgerId(
            "ledger_id cannot be the anonymous principal".to_string()
        )))
    );
}

#[test]
fn each_fault_of_a_configuration_is_named() {
    let mut arg = init_arg();
    arg.ecdsa_key_name = String::new();
    assert_eq!(
        State::try_from(arg).unwrap_err(),
        InvalidStateError::InvalidEcdsaKeyName("ecdsa_key_name cannot be blank".to_string())
    );
    let mut arg = init_arg();
    arg.solana_contract_address = String::new();
    assert_eq!(
        State::try_from(arg).unwrap_err(),
        InvalidStateError::InvalidSolanaContractAddress(
            "solana_contract_address cannot be empty".to_string()
        )
    );
    let mut arg = init_arg();
    arg.solana_initial_signature = String::new();
    assert_eq!(
        State::try_from(arg).unwrap_err(),
        InvalidStateError::InvalidSolanaInitialSignature(
            "solana_initial_signature cannot be empty".to_string()
        )
    );
    let mut arg = init_arg();
    arg.minimum_withdrawal_amount = Amount::zero();
    assert_eq!(
        State::try_from(arg).unwrap_err(),
        InvalidStateError::InvalidMinimumWithdrawalAmount(
            "minimum_withdrawal_amount must be positive".to_string()
        )
    );
}

#[test]
fn the_first_fault_is_the_one_reported() {
    let mut arg = init_arg();
    arg.ecdsa_key_name = String::new();
    arg.minimum_withdrawal_amount = Amount::zero();
    arg.ledger_id = Principal::anonymous();
    assert!(matches!(State::try_from(arg), Err(InvalidStateError::InvalidEcdsaKeyName(_))));
}

#[test]
fn a_second_init_is_not_taken() {
    let (mut state, _) = fresh();
    let before = state.clone();
    assert!(!try_apply_state_transition(&mut state, &EventType::Init(init_arg())));
    assert_eq!(state, before);
}

#[test]
fn event_tags_are_the_stored_numbering() {
    let tags: Vec<u8> = vec![
        EventType::Init(init_arg()).tag(),
        EventType::Upgrade(no_upgrade()).tag(),
        EventType::LastKnownSolanaSignature("s".to_string()).tag(),
        EventType::LastDepositIdCounter(1).tag(),
        EventType::LastBurnIdCounter(1).tag(),
        EventType::NewSolanaSignatureRange(range("a", "b")).tag(),
        EventType::RemoveSolanaSignatureRange(range("a", "b")).tag(),
        EventType::RetrySolanaSignatureRange {
            range: range("a", "b"),
            failed_sub_range: None,
            fail_reason: String::new(),
        }
        .tag(),
        pending("s").tag(),
        EventType::InvalidEvent {
            signature: SolanaSignature::new("s".to_string()),
            fail_reason: String::new(),
        }
        .tag(),
        accepted(0, "s").tag(),
        minted(0, "s", 1).tag(),
        EventType::WithdrawalBurnedEvent { event_source: burned(0), fail_reason: None }.tag(),
        EventType::WithdrawalRedeemedEvent { event_source: burned(0) }.tag(),
    ];
    assert_eq!(tags, (0u8..=13).collect::<Vec<u8>>());
}

#[test]
fn cursor_and_counters_are_set_by_their_events() {
    let (mut state, _) = fresh();
    apply_state_transition(&mut state, &EventType::LastKnownSolanaSignature("SIG9".to_string()));
    assert_eq!(state.get_solana_last_known_signature(), "SIG9");
    apply_state_transition(&mut state, &EventType::LastDepositIdCounter(17));
    apply_state_transition(&mut state, &EventType::LastBurnIdCounter(23));
    assert_eq!(state.deposit_id_counter, 17);
    assert_eq!(state.burn_id_counter, 23);
    assert_eq!(state.next_deposit_id(), 17);
    assert_eq!(state.next_deposit_id(), 18);
    assert_eq!(state.next_burn_id(), 23);
    assert_eq!(state.burn_id_counter, 24);
}

#[test]
fn request_ids_wrap_around() {
    let (mut state, _) = fresh();
    assert_eq!(state.next_request_id(), 0);
    assert_eq!(state.next_request_id(), 1);
    state.http_request_counter = u64::MAX;
    assert_eq!(state.next_request_id(), u64::MAX);
    assert_eq!(state.next_request_id(), 0);
}

#[test]
fn ranges_are_kept_by_their_bounds() {
    let (mut state, _) = fresh();
    assert!(state.try_record_solana_signature_range(range("SIG1", "SIG0")));
    assert!(!state.try_record_solana_signature_range(range("SIG1", "SIG0")));
    assert!(state.try_record_solana_signature_range(range("SIG1", "SIGX")));
    assert!(state.try_record_solana_signature_range(range("SIG1-a", "b")));
    assert!(state.try_record_solana_signature_range(range("SIG1", "a-b")));
    assert_eq!(state.solana_signature_ranges.len(), 4);
    assert_eq!(
        find_range(&state.solana_signature_ranges, &"SIG1".to_string(), &"SIGX".to_string()),
        Some(1)
    );
    assert!(state.try_remove_solana_signature_range(&range("SIG1", "SIG0")));
    assert!(!state.try_remove_solana_signature_range(&range("SIG1", "SIG0")));
    assert_eq!(
        find_range(&state.solana_signature_ranges, &"SIG1".to_string(), &"SIG0".to_string()),
        None
    );
    assert_eq!(state.solana_signature_ranges.len(), 3);
}

#[test]
fn a_retried_range_counts_or_gives_way_to_its_sub_range() {
    let (mut state, _) = fresh();
    state.record_solana_signature_range(range("SIG1", "SIG0"));
    assert!(state.try_retry_solana_signature_range(range("SIG1", "SIG0"), None));
    assert!(state.try_retry_solana_signature_range(range("SIG1", "SIG0"), None));
    assert_eq!(state.solana_signature_ranges[0].retry.get_retries(), 2);
    assert!(state.try_retry_solana_signature_range(range("SIG1", "SIG0"), Some(range("SIG1-c", "SIG0"))));
    assert_eq!(state.solana_signature_ranges, vec![range("SIG1-c", "SIG0")]);
    assert!(!state.try_retry_solana_signature_range(range("SIG1", "SIG0"), None));
    state.record_solana_signature_range(range("other", "SIG0"));
    assert!(!state.try_retry_solana_signature_range(
        range("SIG1-c", "SIG0"),
        Some(range("other", "SIG0"))
    ));
    assert!(state.try_retry_solana_signature_range(
        range("SIG1-c", "SIG0"),
        Some(range("SIG1-c", "SIG0"))
    ));
    assert_eq!(state.solana_signature_ranges.len(), 2);
}

#[test]
fn a_retry_counter_stops_at_its_end() {
    let (mut state, _) = fresh();
    state.record_solana_signature(SolanaSignature::new("s".to_string()));
    for _ in 0..255 {
        assert!(state.try_record_solana_signature(SolanaSignature::new("s".to_string())));
    }
    assert_eq!(state.solana_signatures[0].retry.get_retries(), 255);
    let before = state.clone();
    assert!(!state.try_record_solana_signature(SolanaSignature::new("s".to_string())));
    assert_eq!(state, before);
}

#[test]
fn a_signature_moves_through_its_stages() {
    let (mut state, mut log) = fresh();
    process_event(&mut state, &mut log, 2, pending("SIG1-a"));
    process_event(&mut state, &mut log, 2, pending("SIG1-b"));
    assert_eq!(find_signature(&state.solana_signatures, &"SIG1-b".to_string()), Some(1));
    process_event(&mut state, &mut log, 3, accepted(0, "SIG1-a"));
    assert_eq!(find_signature(&state.solana_signatures, &"SIG1-a".to_string()), None);
    assert_eq!(find_deposit(&state.accepted_events, &"SIG1-a".to_string()), Some(0));
    process_event(&mut state, &mut log, 4, accepted(0, "SIG1-a"));
    assert_eq!(state.accepted_events[0].retry.get_retries(), 1);
    process_event(&mut state, &mut log, 5, minted(0, "SIG1-a", 42));
    assert!(state.accepted_events.is_empty());
    assert_eq!(state.minted_events.len(), 1);
    assert_eq!(state.minted_events[0].get_mint_block_index(), Some(42));
    process_event(
        &mut state,
        &mut log,
        6,
        EventType::InvalidEvent {
            signature: SolanaSignature::new("SIG1-b".to_string()),
            fail_reason: "no deposit".to_string(),
        },
    );
    assert!(state.solana_signatures.is_empty());
    assert_eq!(state.invalid_events, vec![SolanaSignature::new("SIG1-b".to_string())]);
    assert_eq!(log.len(), 7);
    assert_eq!(log[6].timestamp, 6);
}

#[test]
fn events_out_of_turn_are_not_taken() {
    let (mut state, mut log) = fresh();
    let before = state.clone();
    assert!(!try_process_event(&mut state, &mut log, 2, accepted(0, "nowhere")));
    assert!(!try_process_event(&mut state, &mut log, 2, minted(0, "nowhere", 1)));
    assert!(!try_process_event(
        &mut state,
        &mut log,
        2,
        EventType::InvalidEvent {
            signature: SolanaSignature::new("nowhere".to_string()),
            fail_reason: String::new(),
        }
    ));
    assert!(!try_process_event(
        &mut state,
        &mut log,
        2,
        EventType::RemoveSolanaSignatureRange(range("a", "b"))
    ));
    assert!(!try_process_event(
        &mut state,
        &mut log,
        2,
        EventType::WithdrawalRedeemedEvent { event_source: burned(0) }
    ));
    assert_eq!(state, before);
    assert_eq!(log.len(), 1);
}

#[test]
fn a_mint_without_a_block_is_not_taken() {
    let (mut state, mut log) = fresh();
    process_event(&mut state, &mut log, 2, pending("s"));
    process_event(&mut state, &mut log, 2, accepted(0, "s"));
    assert!(!try_process_event(
        &mut state,
        &mut log,
        3,
        EventType::MintedEvent { event_source: deposit(0, "s", 1000) }
    ));
    assert_eq!(state.accepted_events.len(), 1);
}

#[test]
fn a_deposit_is_minted_once() {
    let (mut state, mut log) = fresh();
    process_event(&mut state, &mut log, 2, pending("s"));
    process_event(&mut state, &mut log, 2, accepted(0, "s"));
    process_event(&mut state, &mut log, 2, minted(0, "s", 42));
    assert!(try_process_event(&mut state, &mut log, 3, pending("s")));
    assert!(!try_process_event(&mut state, &mut log, 3, accepted(1, "s")));
    assert!(!try_process_event(&mut state, &mut log, 3, minted(1, "s", 43)));
    let mints = log.iter().filter(|e| matches!(e.payload, EventType::MintedEvent { .. })).count();
    assert_eq!(mints, 1);
    let first_accept =
        log.iter().position(|e| matches!(e.payload, EventType::AcceptedEvent { .. })).unwrap();
    let mint = log.iter().position(|e| matches!(e.payload, EventType::MintedEvent { .. })).unwrap();
    assert!(first_accept < mint);
}

fn stages_of(state: &State, sig: &str) -> usize {
    let key = sig.to_string();
    let mut stages = 0;
    if find_signature(&state.solana_signatures, &key).is_some() {
        stages += 1;
    }
    if find_deposit(&state.accepted_events, &key).is_some() {
        stages += 1;
    }
    if find_deposit(&state.minted_events, &key).is_some() {
        stages += 1;
    }
    if find_signature(&state.invalid_events, &key).is_some() {
        stages += 1;
    }
    stages
}

#[test]
fn a_signature_stands_in_one_stage_at_most() {
    let (mut state, mut log) = fresh();
    let steps = vec![
        pending("a"),
        pending("b"),
        pending("c"),
        pending("a"),
        accepted(0, "a"),
        accepted(0, "a"),
        EventType::InvalidEvent {
            signature: SolanaSignature::new("b".to_string()),
            fail_reason: "x".to_string(),
        },
        minted(0, "a", 9),
        accepted(1, "c"),
    ];
    for step in steps {
        assert!(try_process_event(&mut state, &mut log, 5, step));
        for sig in ["a", "b", "c", "d"] {
            assert!(stages_of(&state, sig) <= 1);
        }
    }
    assert_eq!(stages_of(&state, "a"), 1);
    assert_eq!(stages_of(&state, "d"), 0);
}

#[test]
fn a_rediscovered_signature_stands_in_two_stages() {
    let (mut state, mut log) = fresh();
    process_event(&mut state, &mut log, 2, pending("a"));
    process_event(&mut state, &mut log, 2, accepted(0, "a"));
    assert!(try_process_event(&mut state, &mut log, 3, pending("a")));
    assert_eq!(stages_of(&state, "a"), 2);
}

#[test]
fn withdrawals_move_forward_only() {
    let (mut state, mut log) = fresh();
    let unburned = WithdrawalEvent::new(
        0,
        Principal::anonymous(),
        "S".to_string(),
        Amount::from_u64(5),
    );
    assert!(!try_process_event(
        &mut state,
        &mut log,
        2,
        EventType::WithdrawalBurnedEvent { event_source: unburned, fail_reason: None }
    ));
    process_event(
        &mut state,
        &mut log,
        2,
        EventType::WithdrawalBurnedEvent { event_source: burned(0), fail_reason: None },
    );
    assert_eq!(find_withdrawal(&state.withdrawal_burned_events, 0), Some(0));
    process_event(
        &mut state,
        &mut log,
        3,
        EventType::WithdrawalBurnedEvent {
            event_source: burned(0),
            fail_reason: Some("oracle down".to_string()),
        },
    );
    assert_eq!(state.withdrawal_burned_events[0].retry.get_retries(), 1);
    assert!(!try_process_event(
        &mut state,
        &mut log,
        4,
        EventType::WithdrawalRedeemedEvent { event_source: burned(0) }
    ));
    let mut redeemed = burned(0);
    redeemed.update_after_redeem(coupon());
    process_event(
        &mut state,
        &mut log,
        4,
        EventType::WithdrawalRedeemedEvent { event_source: redeemed.clone() },
    );
    assert!(state.withdrawal_burned_events.is_empty());
    assert_eq!(state.withdrawal_redeemed_events, vec![redeemed.clone()]);
    assert_eq!(state.withdrawal_redeemed_events[0].get_coupon(), Some(&coupon()));
    assert!(!try_process_event(
        &mut state,
        &mut log,
        5,
        EventType::WithdrawalBurnedEvent { event_source: burned(0), fail_reason: None }
    ));
    assert!(!try_process_event(
        &mut state,
        &mut log,
        5,
        EventType::WithdrawalRedeemedEvent { event_source: redeemed }
    ));
}

#[test]
fn upgrade_replaces_what_it_provides() {
    let (mut state, _) = fresh();
    let arg = UpgradeArg {
        solana_contract_address: Some("Prog2".to_string()),
        solana_initial_signature: None,
        ecdsa_key_name: Some("key_1".to_string()),
        minimum_withdrawal_amount: Some(Amount::from_u64(50)),
    };
    assert!(state.try_upgrade(arg));
    assert_eq!(state.solana_contract_address, "Prog2");
    assert_eq!(state.solana_initial_signature, "SIG0");
    assert_eq!(state.ecdsa_key_name, "key_1");
    assert_eq!(state.minimum_withdrawal_amount, Amount::from_u64(50));
    let before = state.clone();
    let mut bad = no_upgrade();
    bad.minimum_withdrawal_amount = Some(Amount::zero());
    assert!(!state.try_upgrade(bad));
    let mut bad = no_upgrade();
    bad.ecdsa_key_name = Some(String::new());
    assert!(!state.try_upgrade(bad));
    assert_eq!(state, before);
    state.upgrade(no_upgrade());
    assert_eq!(state, before);
}

#[test]
fn several_events_are_applied_in_turn() {
    let (mut state, mut log) = fresh();
    let count = process_events(
        &mut state,
        &mut log,
        9,
        vec![pending("a"), accepted(0, "b"), accepted(0, "a"), minted(0, "a", 3)],
    );
    assert_eq!(count, 3);
    assert_eq!(log.len(), 4);
    assert!(log[1..].iter().all(|e| e.timestamp == 9));
    assert_eq!(state.minted_events.len(), 1);
    assert_eq!(process_events(&mut state, &mut log, 9, vec![]), 0);
}

fn durable(state: &State) -> State {
    let mut copy = state.clone();
    copy.ecdsa_public_key = None;
    copy.withdrawing_principals = vec![];
    copy.active_tasks = vec![];
    copy.http_request_counter = 0;
    copy
}

#[test]
fn replay_rebuilds_the_state_before_the_upgrade() {
    let (mut state, mut log) = fresh();
    process_event(&mut state, &mut log, 2, EventType::LastKnownSolanaSignature("SIG1".to_string()));
    process_event(&mut state, &mut log, 2, EventType::NewSolanaSignatureRange(range("SIG1", "SIG0")));
    process_event(&mut state, &mut log, 3, pending("SIG1"));
    process_event(&mut state, &mut log, 3, pending("SIG1-a"));
    let id = state.next_deposit_id();
    process_event(&mut state, &mut log, 4, accepted(id, "SIG1-a"));
    process_event(&mut state, &mut log, 5, minted(id, "SIG1-a", 42));
    let burn_id = state.next_burn_id();
    process_event(
        &mut state,
        &mut log,
        6,
        EventType::WithdrawalBurnedEvent { event_source: burned(burn_id), fail_reason: None },
    );
    state.record_ecdsa_public_key(vec![2; 33]);
    assert!(state.lock_task(TaskType::MintGSol));
    assert!(state.lock_withdrawal(&Principal::anonymous()));
    let _ = state.next_request_id();
    pre_upgrade(&state, &mut log, 7);
    assert_eq!(log.len(), 8 + 3);
    let rebuilt = replay_events(&log);
    assert_eq!(durable(&rebuilt), durable(&state));
    assert_eq!(rebuilt.ecdsa_public_key, None);
    assert!(rebuilt.active_tasks.is_empty());
    assert!(rebuilt.withdrawing_principals.is_empty());
    assert_eq!(rebuilt.http_request_counter, 0);
    assert_eq!(rebuilt.deposit_id_counter, 1);
    assert_eq!(rebuilt.burn_id_counter, 1);
}

#[test]
fn replay_keeps_the_cursor_of_a_state_that_found_nothing() {
    let (state, mut log) = fresh();
    pre_upgrade(&state, &mut log, 7);
    let rebuilt = replay_events(&log);
    assert_eq!(rebuilt.get_solana_last_known_signature(), "SIG0");
    assert_eq!(rebuilt.solana_last_known_signature, Some("SIG0".to_string()));
}

#[test]
fn what_is_no_log_rebuilds_nothing() {
    assert!(try_replay_events(&vec![]).is_none());
    assert!(try_replay_events(&vec![Event { timestamp: 1, payload: pending("a") }]).is_none());
    let mut arg = init_arg();
    arg.ecdsa_key_name = String::new();
    assert!(try_replay_events(&vec![Event { timestamp: 1, payload: EventType::Init(arg) }])
        .is_none());
    let (_, mut log) = fresh();
    log.push(Event { timestamp: 2, payload: minted(0, "never accepted", 1) });
    log.push(Event { timestamp: 3, payload: pending("fine") });
    assert!(try_replay_events(&log).is_none());
    let (_, mut log) = fresh();
    log.push(Event { timestamp: 2, payload: EventType::Init(init_arg()) });
    assert!(try_replay_events(&log).is_none());
}

#[test]
fn post_upgrade_replays_and_applies_the_upgrade() {
    let (mut state, mut log) = fresh();
    process_event(&mut state, &mut log, 2, pending("a"));
    pre_upgrade(&state, &mut log, 3);
    let arg = UpgradeArg {
        solana_contract_address: None,
        solana_initial_signature: None,
        ecdsa_key_name: None,
        minimum_withdrawal_amount: Some(Amount::from_u64(10)),
    };
    let upgraded = post_upgrade(&mut log, 4, Some(MinterArg::Upgrade(arg.clone()))).unwrap();
    assert_eq!(upgraded.minimum_withdrawal_amount, Amount::from_u64(10));
    assert_eq!(upgraded.solana_signatures.len(), 1);
    assert_eq!(log.last().unwrap(), &Event { timestamp: 4, payload: EventType::Upgrade(arg) });
    let length = log.len();
    let again = post_upgrade(&mut log, 5, None).unwrap();
    assert_eq!(again, upgraded);
    assert_eq!(log.len(), length);
}

#[test]
fn post_upgrade_names_what_went_wrong() {
    let (_, mut log) = fresh();
    assert_eq!(
        post_upgrade(&mut log, 2, Some(MinterArg::Init(init_arg()))),
        Err(LifecycleError::WrongArgument)
    );
    let mut bad = no_upgrade();
    bad.solana_contract_address = Some(String::new());
    assert_eq!(
        post_upgrade(&mut log, 2, Some(MinterArg::Upgrade(bad))),
        Err(LifecycleError::InvalidUpgrade)
    );
    assert_eq!(log.len(), 1);
    let mut empty: Vec<Event> = vec![];
    assert_eq!(post_upgrade(&mut empty, 2, None), Err(LifecycleError::ReplayFailed));
}

#[test]
fn ids_handed_out_are_distinct() {
    let (mut state, mut log) = fresh();
    let mut deposits = vec![];
    let mut burns = vec![];
    for round in 0..5u64 {
        deposits.push(state.next_deposit_id());
        burns.push(state.next_burn_id());
        process_event(&mut state, &mut log, round, pending(&format!("s{round}")));
        let reached = state.deposit_id_counter;
        process_event(&mut state, &mut log, round, EventType::LastDepositIdCounter(reached));
        deposits.push(state.next_deposit_id());
    }
    let mut unique = deposits.clone();
    unique.sort();
    unique.dedup();
    assert_eq!(unique.len(), deposits.len());
    assert_eq!(deposits, (0..10).collect::<Vec<u64>>());
    assert_eq!(burns, (0..5).collect::<Vec<u64>>());
}

#[test]
fn the_cursor_follows_the_newest_signature() {
    let (mut state, mut log) = fresh();
    let chain = ["SIG0", "SIG1", "SIG2", "SIG3"];
    let mut seen = vec![state.get_solana_last_known_signature()];
    for newer in &chain[1..] {
        process_event(&mut state, &mut log, 1, EventType::LastKnownSolanaSignature(newer.to_string()));
        process_event(&mut state, &mut log, 1, pending(newer));
        assert!(state.lock_task(TaskType::GetLatestSignature));
        state.unlock_task(TaskType::GetLatestSignature);
        seen.push(state.get_solana_last_known_signature());
    }
    let places: Vec<usize> =
        seen.iter().map(|s| chain.iter().position(|c| c == s).unwrap()).collect();
    assert!(places.windows(2).all(|w| w[0] <= w[1]));
    assert_eq!(state.get_solana_last_known_signature(), "SIG3");
}

#[test]
fn locks_are_held_once() {
    let (mut state, _) = fresh();
    assert!(state.lock_task(TaskType::ScrapSignatures));
    assert!(!state.lock_task(TaskType::ScrapSignatures));
    assert!(state.lock_task(TaskType::ScrapSignatureRanges));
    state.unlock_task(TaskType::ScrapSignatures);
    assert!(state.lock_task(TaskType::ScrapSignatures));
    state.unlock_task(TaskType::MintGSol);
    assert_eq!(state.active_tasks.len(), 2);
    let alice = Principal::from_bytes(vec![1]).unwrap();
    let bob = Principal::from_bytes(vec![2]).unwrap();
    assert!(state.lock_withdrawal(&alice));
    assert!(!state.lock_withdrawal(&alice));
    assert!(state.lock_withdrawal(&bob));
    state.unlock_withdrawal(&alice);
    assert!(state.lock_withdrawal(&alice));
    assert_eq!(state.withdrawing_principals.len(), 2);
}

#[test]
fn the_oracle_key_is_kept_in_both_forms() {
    let (mut state, _) = fresh();
    assert_eq!(state.cached_public_key(), None);
    assert_eq!(state.try_uncompressed_public_key(), None);
    let compressed =
        hex::decode("0279be667ef9dcbbac55a06295ce870b07029bfcdb2dce28d959f2815b16f81798").unwrap();
    state.record_ecdsa_public_key(compressed.clone());
    assert_eq!(state.cached_public_key(), Some(compressed));
    assert_eq!(
        state.compressed_public_key(),
        "0279be667ef9dcbbac55a06295ce870b07029bfcdb2dce28d959f2815b16f81798"
    );
    let uncompressed = "0479be667ef9dcbbac55a06295ce870b07029bfcdb2dce28d959f2815b16f81798\
                        483ada7726a3c4655da4fbfc0e1108a8fd17b448a68554199c47d08ffb10d4b8";
    assert_eq!(state.uncompressed_public_key(), uncompressed);
    assert_eq!(state.try_uncompressed_public_key(), Some(uncompressed.to_string()));
    state.record_ecdsa_public_key(vec![5; 33]);
    assert_eq!(state.try_uncompressed_public_key(), None);
    state.record_ecdsa_public_key(vec![2; 32]);
    assert_eq!(state.try_uncompressed_public_key(), None);
}

#[test]
fn rpc_url_is_handed_out() {
    let url = SolanaRpcUrl("https://api.devnet.solana.com".to_string());
    assert_eq!(url.get(), "https://api.devnet.solana.com");
    assert_eq!(url.clone(), url);
    assert_eq!(SolanaNetwork::Mainnet.to_text(), "Solana Mainnet");
    assert_eq!(SolanaNetwork::Devnet.to_text(), "Solana Devnet");
}
