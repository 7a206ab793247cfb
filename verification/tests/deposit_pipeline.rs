use minter::amount::Amount;
use minter::deposit::tasks::{
    deposits_to_mint, discovery_events, find_in_chunk, get_latest_signature,
    latest_signature_events, latest_signature_request, mint_event, mint_gsol, mint_request,
    ranges_to_scrap, scrap_signature_range, scrap_signatures, signatures_to_scrap,
    transaction_event, RangeWalk,
};
use minter::deposit::{
    contains_line, copy_range, decode_deposit_fields, find_data_line, process_transaction_logs,
    DepositError, PayloadFault, GET_SIGNATURES_BY_ADDRESS_LIMIT, GET_TRANSACTIONS_LIMIT,
};
use minter::events::{DepositEvent, Retriable, SolanaSignature, SolanaSignatureRange};
use minter::ledger::LedgerFailure;
use minter::lifecycle::{init, InitArg, MinterArg, SolanaNetwork};
use minter::principal::Principal;
use minter::sol_rpc_client::responses::{
    GetTransactionResponse, Header, Message, Meta, SignatureResponse, Transaction,
};
use minter::sol_rpc_client::{SolRpcClient, SolRpcError};
use minter::state::audit::{process_event, replay_events};
use minter::state::event::{Event, EventType};
use minter::state::State;

const PROGRAM: &str = "Prog1111111111111111111111111111111111111111";

fn started() -> (State, Vec<Event>) {
    init(
        MinterArg::Init(InitArg {
            solana_network: SolanaNetwork::Devnet,
            solana_contract_address: PROGRAM.to_string(),
            solana_initial_signature: "SIG0".to_string(),
            ecdsa_key_name: "dfx_test_key".to_string(),
            ledger_id: Principal::from_text("ryjl3-tyaaa-aaaaa-aaaba-cai").unwrap(),
            minimum_withdrawal_amount: Amount::from_u64(1),
        }),
        1,
    )
    .unwrap()
}

fn entry(signature: &str) -> SignatureResponse {
    SignatureResponse {
        block_time: 1,
        confirmation_status: "confirmed".to_string(),
        err: None,
        memo: None,
        signature: signature.to_string(),
        slot: 1,
    }
}

fn payload(principal_text: &str, amount: u64) -> Vec<u8> {
    let mut bytes = vec![0xaa; 12];
    bytes.extend_from_slice(principal_text.as_bytes());
    bytes.extend_from_slice(&amount.to_le_bytes());
    bytes
}

fn base64(bytes: &[u8]) -> String {
    base64::Engine::encode(&base64::engine::general_purpose::STANDARD, bytes)
}

fn transaction(signature: &str, lines: Vec<String>) -> GetTransactionResponse {
    GetTransactionResponse {
        block_time: 5,
        meta: Meta {
            compute_units_consumed: 1,
            fee: 5000,
            log_messages: lines,
            post_balances: vec![],
            pre_balances: vec![],
        },
        slot: 9,
        transaction: Transaction {
            message: Message {
                account_keys: vec!["Sender111".to_string(), PROGRAM.to_string()],
                header: Header {
                    num_readonly_signed_accounts: 0,
                    num_readonly_unsigned_accounts: 1,
                    num_required_signatures: 1,
                },
                instructions: vec![],
                recent_blockhash: "hash".to_string(),
            },
            signatures: vec![signature.to_string()],
        },
    }
}

fn deposit_lines(data: &str) -> Vec<String> {
    vec![
        format!("Program {PROGRAM} invoke [1]"),
        "Program log: Instruction: Deposit".to_string(),
        format!("Program data: {data}"),
        format!("Program {PROGRAM} success"),
    ]
}

fn transport() -> SolRpcError {
    SolRpcError::RequestFailed { code: 2, msg: "timeout".to_string() }
}

#[test]
fn payload_round_trips_amount_and_principal() {
    for amount in [0u64, 1, 1000, 255, 256, u64::MAX] {
        for text in ["2vxsx-fae", "aaaaa-aa", "ryjl3-tyaaa-aaaaa-aaaba-cai"] {
            let (principal, decoded) = decode_deposit_fields(&payload(text, amount)).unwrap();
            assert_eq!(decoded, Amount::from_u64(amount));
            assert_eq!(principal.to_text(), text);
            let event = DepositEvent::new(3, "sig", "from", &base64(&payload(text, amount))).unwrap();
            assert_eq!(event.amount, Amount::from_u64(amount));
            assert_eq!(event.to_icp_address.to_text(), text);
        }
    }
}

#[test]
fn payload_round_trips_the_longest_principal() {
    let principal = Principal::from_bytes((100..129).collect()).unwrap();
    let text = principal.to_text();
    assert_eq!(text.len(), 63);
    let event = DepositEvent::new(0, "sig", "from", &base64(&payload(&text, 77))).unwrap();
    assert_eq!(event.to_icp_address, principal);
    assert_eq!(event.amount.to_decimal(), "77");
}

#[test]
fn a_new_deposit_is_as_its_transaction_says() {
    let event = DepositEvent::new(7, "SIG1-a", "Sender111", &base64(&payload("2vxsx-fae", 1000)));
    assert_eq!(
        event,
        Ok(DepositEvent {
            id: 7,
            from_sol_address: "Sender111".to_string(),
            to_icp_address: Principal::anonymous(),
            amount: Amount::from_u64(1000),
            sol_sig: "SIG1-a".to_string(),
            icp_mint_block_index: None,
            retry: Retriable::new(),
        })
    );
}

#[test]
fn what_is_no_payload_is_refused() {
    assert_eq!(DepositEvent::new(0, "s", "f", "not base64!"), Err(PayloadFault::Encoding));
    assert_eq!(DepositEvent::new(0, "s", "f", "QUJD="), Err(PayloadFault::Encoding));
    assert_eq!(DepositEvent::new(0, "s", "f", ""), Err(PayloadFault::Encoding));
    assert_eq!(DepositEvent::new(0, "s", "f", &base64(&[0; 19])), Err(PayloadFault::Encoding));
    assert_eq!(DepositEvent::new(0, "s", "f", &base64(&[0; 20])), Err(PayloadFault::Principal));
    assert_eq!(
        DepositEvent::new(0, "s", "f", &base64(&payload("2vxsx-fa", 5))),
        Err(PayloadFault::Principal)
    );
    let mut bytes = vec![0; 12];
    bytes.extend_from_slice(&[0xff, 0xfe, 0x80]);
    bytes.extend_from_slice(&5u64.to_le_bytes());
    assert_eq!(decode_deposit_fields(&bytes), Err(PayloadFault::Principal));
    assert_eq!(decode_deposit_fields(&vec![]), Err(PayloadFault::Encoding));
}

#[test]
fn ranges_of_bytes_are_copied() {
    let bytes: Vec<u8> = (0..10).collect();
    assert_eq!(copy_range(&bytes, 2, 5), vec![2, 3, 4]);
    assert_eq!(copy_range(&bytes, 0, 10), bytes);
    assert!(copy_range(&bytes, 4, 4).is_empty());
}

#[test]
fn log_lines_are_looked_up() {
    let lines = deposit_lines("abc");
    assert!(contains_line(&lines, "Program log: Instruction: Deposit"));
    assert!(!contains_line(&lines, "Program log: Instruction: Deposi"));
    assert!(!contains_line(&vec![], "x"));
    assert_eq!(find_data_line(&lines), Some(2));
    let mut twice = lines.clone();
    twice.insert(0, "Program data: first".to_string());
    assert_eq!(find_data_line(&twice), Some(0));
    assert_eq!(find_data_line(&vec!["Program data:".to_string()]), None);
}

#[test]
fn a_deposit_takes_the_next_id() {
    let (mut state, _) = started();
    state.deposit_id_counter = 5;
    let tx = transaction("SIG1-a", deposit_lines(&base64(&payload("2vxsx-fae", 1000))));
    let deposit = process_transaction_logs(&mut state, &tx).unwrap();
    assert_eq!(deposit.id, 5);
    assert_eq!(deposit.sol_sig, "SIG1-a");
    assert_eq!(deposit.from_sol_address, "Sender111");
    assert_eq!(deposit.amount, Amount::from_u64(1000));
    assert!(deposit.to_icp_address.is_anonymous());
    assert_eq!(state.deposit_id_counter, 6);
}

#[test]
fn the_first_payload_line_is_the_one_read() {
    let (mut state, _) = started();
    let mut lines = deposit_lines(&base64(&payload("2vxsx-fae", 1)));
    lines.push(format!("Program data: {}", base64(&payload("aaaaa-aa", 2))));
    let deposit = process_transaction_logs(&mut state, &transaction("s", lines)).unwrap();
    assert_eq!(deposit.amount, Amount::from_u64(1));
}

#[test]
fn each_missing_mark_makes_a_transaction_no_deposit() {
    let (mut state, _) = started();
    let data = base64(&payload("2vxsx-fae", 1000));
    for missing in 1..4 {
        let mut lines = deposit_lines(&data);
        lines.remove(missing);
        assert_eq!(
            process_transaction_logs(&mut state, &transaction("SIGX", lines)),
            Err(DepositError::NonDepositTransaction("SIGX".to_string()))
        );
    }
    let mut lines = deposit_lines(&data);
    lines[3] = "Program OtherProgram success".to_string();
    assert_eq!(
        process_transaction_logs(&mut state, &transaction("SIGX", lines)),
        Err(DepositError::NonDepositTransaction("SIGX".to_string()))
    );
    assert_eq!(state.deposit_id_counter, 0);
}

#[test]
fn a_deposit_with_a_bad_payload_is_invalid() {
    let (mut state, _) = started();
    assert_eq!(
        process_transaction_logs(&mut state, &transaction("SIGX", deposit_lines("???"))),
        Err(DepositError::InvalidDepositData("SIGX".to_string()))
    );
    assert_eq!(
        process_transaction_logs(
            &mut state,
            &transaction("SIGX", deposit_lines(&base64(&payload("nobody", 1))))
        ),
        Err(DepositError::InvalidPrincipal("SIGX".to_string()))
    );
    let mut unsigned = transaction("SIGX", deposit_lines("x"));
    unsigned.transaction.signatures.clear();
    assert_eq!(
        process_transaction_logs(&mut state, &unsigned),
        Err(DepositError::InvalidDepositData(String::new()))
    );
    let mut keyless = transaction("SIGX", deposit_lines("x"));
    keyless.transaction.message.account_keys.clear();
    assert_eq!(
        process_transaction_logs(&mut state, &keyless),
        Err(DepositError::InvalidDepositData(String::new()))
    );
    assert_eq!(state.deposit_id_counter, 0);
}

#[test]
fn errors_are_put_in_words() {
    assert_eq!(DepositError::RpcCallFailed(transport()).to_text(), "Request failed with code 2: timeout");
    assert_eq!(
        DepositError::SignatureFailed {
            sig: "S".to_string(),
            err: SolRpcError::JsonRpcFailed { code: -32601, msg: "no method".to_string() }
        }
        .to_text(),
        "Signature S : failed with JSON-RPC failed with code -32601: no method"
    );
    assert_eq!(
        DepositError::SignatureNotFound("S".to_string()).to_text(),
        "Signature S : transaction not found"
    );
    assert_eq!(
        DepositError::InvalidDepositData("S".to_string()).to_text(),
        "Signature S : invalid deposit data"
    );
    assert_eq!(
        DepositError::InvalidPrincipal("S".to_string()).to_text(),
        "Signature S : invalid ledger principal"
    );
    assert_eq!(
        DepositError::NonDepositTransaction("S".to_string()).to_text(),
        "Signature S : non-Deposit transaction found"
    );
    assert_eq!(
        DepositError::MintingGSolFailed("BadFee".to_string()).to_text(),
        "Failed to mint gSOL: BadFee"
    );
    assert_eq!(
        DepositError::SendingMessageToLedgerFailed {
            id: "aaaaa-aa".to_string(),
            code: 5,
            msg: "unreachable".to_string()
        }
        .to_text(),
        "Failed to send a message to the ledger aaaaa-aa: 5: unreachable"
    );
    assert_eq!(
        SolRpcError::FromUtf8Failed("x".to_string()).to_text(),
        "FromUtf8 failed: x"
    );
    assert_eq!(
        SolRpcError::FromStringOfJsonFailed("x".to_string()).to_text(),
        "From String of JSON failed: x"
    );
    assert_eq!(
        SolRpcError::ToStringOfJsonFailed("x".to_string()).to_text(),
        "To String of JSON failed: x"
    );
}

#[test]
fn task_a_records_the_newest_signature_and_its_range() {
    let (mut state, mut log) = started();
    let client = SolRpcClient::from_state(&state);
    let (call, until) = latest_signature_request(&client, &mut state);
    assert_eq!(until, "SIG0");
    assert_eq!(call.effective_size_estimate, 2548);
    assert!(call.payload.contains("\"limit\":1"));
    assert!(call.payload.contains("\"until\":\"SIG0\""));
    assert!(call.payload.contains("\"before\":null"));
    let count = get_latest_signature(&mut state, &mut log, 2, &until, &Ok(vec![entry("SIG1")]));
    assert_eq!(count, 2);
    assert_eq!(state.get_solana_last_known_signature(), "SIG1");
    assert_eq!(
        state.solana_signature_ranges,
        vec![SolanaSignatureRange::new("SIG1".to_string(), "SIG0".to_string())]
    );
    assert_eq!(
        log[1..],
        [
            Event { timestamp: 2, payload: EventType::LastKnownSolanaSignature("SIG1".to_string()) },
            Event {
                timestamp: 2,
                payload: EventType::NewSolanaSignatureRange(SolanaSignatureRange::new(
                    "SIG1".to_string(),
                    "SIG0".to_string()
                ))
            },
        ]
    );
}

#[test]
fn task_a_leaves_the_state_for_any_other_answer() {
    let (mut state, mut log) = started();
    let before = state.clone();
    let until = "SIG0".to_string();
    assert_eq!(get_latest_signature(&mut state, &mut log, 2, &until, &Ok(vec![])), 0);
    assert_eq!(
        get_latest_signature(&mut state, &mut log, 2, &until, &Ok(vec![entry("a"), entry("b")])),
        0
    );
    assert_eq!(get_latest_signature(&mut state, &mut log, 2, &until, &Err(transport())), 0);
    assert_eq!(state, before);
    assert_eq!(log.len(), 1);
    assert!(latest_signature_events(&until, &Ok(vec![])).is_empty());
    assert_eq!(latest_signature_events(&until, &Ok(vec![entry("n")])).len(), 2);
}

#[test]
fn task_b_walks_a_range_to_its_end() {
    let (mut state, mut log) = started();
    let until = "SIG0".to_string();
    get_latest_signature(&mut state, &mut log, 2, &until, &Ok(vec![entry("SIG1")]));
    let ranges = ranges_to_scrap(&state);
    assert_eq!(ranges.len(), 1);
    let client = SolRpcClient::from_state(&state);
    let mut walk = RangeWalk::new(ranges[0].clone());
    let call = walk.request(&client, &mut state);
    assert_eq!(call.effective_size_estimate, 10 * 500 + 2048);
    assert!(call.payload.contains("\"limit\":10"));
    assert!(call.payload.contains("\"before\":\"SIG1\""));
    assert!(call.payload.contains("\"until\":\"SIG0\""));
    assert_eq!(walk.advance(Ok(vec![entry("SIG1-a"), entry("SIG1-b")])), None);
    assert_eq!(walk.before_signature, "SIG1-b");
    assert!(walk.at_least_one_successful_call);
    assert_eq!(walk.found, vec!["SIG1", "SIG1-a", "SIG1-b"]);
    let next = walk.request(&client, &mut state);
    assert!(next.payload.contains("\"before\":\"SIG1-b\""));
    let events = walk.advance(Ok(vec![])).unwrap();
    assert_eq!(events.len(), 4);
    assert_eq!(events[0], EventType::RemoveSolanaSignatureRange(ranges[0].clone()));
    assert_eq!(scrap_signature_range(&mut state, &mut log, 3, events), 4);
    assert!(state.solana_signature_ranges.is_empty());
    assert_eq!(
        state.solana_signatures,
        vec![
            SolanaSignature::new("SIG1".to_string()),
            SolanaSignature::new("SIG1-a".to_string()),
            SolanaSignature::new("SIG1-b".to_string()),
        ]
    );
}

#[test]
fn task_b_finds_the_start_of_an_empty_range() {
    let mut walk = RangeWalk::new(SolanaSignatureRange::new("N".to_string(), "O".to_string()));
    let events = walk.advance(Ok(vec![])).unwrap();
    assert_eq!(
        events,
        vec![
            EventType::RemoveSolanaSignatureRange(SolanaSignatureRange::new(
                "N".to_string(),
                "O".to_string()
            )),
            EventType::SolanaSignature {
                signature: SolanaSignature::new("N".to_string()),
                fail_reason: None
            },
        ]
    );
}

#[test]
fn task_b_retries_what_is_left_of_a_range() {
    let (mut state, mut log) = started();
    let range = SolanaSignatureRange::new("SIG1".to_string(), "SIG0".to_string());
    process_event(&mut state, &mut log, 2, EventType::NewSolanaSignatureRange(range.clone()));
    let mut walk = RangeWalk::new(range.clone());
    assert_eq!(walk.advance(Ok(vec![entry("SIG1-a")])), None);
    let events = walk.advance(Err(transport())).unwrap();
    let left = SolanaSignatureRange {
        before_sol_sig: "SIG1-a".to_string(),
        until_sol_sig: "SIG0".to_string(),
        retry: Retriable(1),
    };
    assert_eq!(
        events[0],
        EventType::RetrySolanaSignatureRange {
            range: range.clone(),
            failed_sub_range: Some(left.clone()),
            fail_reason: "Request failed with code 2: timeout".to_string(),
        }
    );
    assert_eq!(events.len(), 3);
    assert_eq!(scrap_signature_range(&mut state, &mut log, 3, events), 3);
    assert_eq!(state.solana_signature_ranges, vec![left]);
    assert_eq!(state.solana_signatures.len(), 2);
}

#[test]
fn task_b_records_nothing_found_when_the_first_scan_fails() {
    let (mut state, mut log) = started();
    let range = SolanaSignatureRange {
        before_sol_sig: "SIG1".to_string(),
        until_sol_sig: "SIG0".to_string(),
        retry: Retriable(255),
    };
    process_event(&mut state, &mut log, 2, EventType::NewSolanaSignatureRange(range.clone()));
    let mut walk = RangeWalk::new(range.clone());
    let events = walk.advance(Err(transport())).unwrap();
    assert_eq!(events.len(), 1);
    assert_eq!(scrap_signature_range(&mut state, &mut log, 3, events), 1);
    assert_eq!(state.solana_signature_ranges, vec![range]);
    assert!(state.solana_signatures.is_empty());
}

#[test]
fn tasks_pass_over_what_was_retried_too_often() {
    let (mut state, mut log) = started();
    let mut tired = SolanaSignatureRange::new("a".to_string(), "b".to_string());
    tired.retry = Retriable(100);
    let mut fresh = SolanaSignatureRange::new("c".to_string(), "d".to_string());
    fresh.retry = Retriable(99);
    process_event(&mut state, &mut log, 2, EventType::NewSolanaSignatureRange(tired));
    process_event(&mut state, &mut log, 2, EventType::NewSolanaSignatureRange(fresh.clone()));
    assert_eq!(ranges_to_scrap(&state), vec![fresh]);
    let tired = SolanaSignature { sol_sig: "x".to_string(), retry: Retriable(100) };
    let fresh = SolanaSignature { sol_sig: "y".to_string(), retry: Retriable(0) };
    for signature in [tired, fresh.clone()] {
        process_event(
            &mut state,
            &mut log,
            2,
            EventType::SolanaSignature { signature, fail_reason: None },
        );
    }
    assert_eq!(signatures_to_scrap(&state), vec![fresh]);
    assert_eq!(state.solana_signatures.len(), 2);
    assert!(deposits_to_mint(&state).is_empty());
    assert_eq!(GET_SIGNATURES_BY_ADDRESS_LIMIT, 10);
    assert_eq!(GET_TRANSACTIONS_LIMIT, 1);
}

fn with_pending(signatures: &[&str]) -> (State, Vec<Event>) {
    let (mut state, mut log) = started();
    let names: Vec<String> = signatures.iter().map(|s| s.to_string()).collect();
    let events = discovery_events(&names);
    assert_eq!(scrap_signature_range(&mut state, &mut log, 2, events), signatures.len());
    (state, log)
}

#[test]
fn task_c_accepts_a_deposit() {
    let (mut state, mut log) = with_pending(&["SIG1", "SIG1-a", "SIG1-b"]);
    let chunk = vec![SolanaSignature::new("SIG1-a".to_string())];
    let tx = transaction("SIG1-a", deposit_lines(&base64(&payload("2vxsx-fae", 1000))));
    let response = Ok(vec![("SIG1-a".to_string(), Ok(Some(tx)))]);
    assert_eq!(scrap_signatures(&mut state, &mut log, 3, &chunk, &response), 1);
    assert_eq!(state.accepted_events.len(), 1);
    let deposit = &state.accepted_events[0];
    assert_eq!(deposit.id, 0);
    assert_eq!(deposit.amount, Amount::from_u64(1000));
    assert_eq!(deposit.to_icp_address.to_text(), "2vxsx-fae");
    assert_eq!(deposit.sol_sig, "SIG1-a");
    assert_eq!(state.deposit_id_counter, 1);
    assert_eq!(state.solana_signatures.len(), 2);
    assert!(matches!(
        &log.last().unwrap().payload,
        EventType::AcceptedEvent { event_source, fail_reason: None } if event_source.id == 0
    ));
}

#[test]
fn task_c_retries_what_could_not_be_fetched() {
    let (mut state, mut log) = with_pending(&["a", "b", "c"]);
    let chunk = signatures_to_scrap(&state);
    let response = Ok(vec![
        ("a".to_string(), Err(SolRpcError::JsonRpcFailed { code: -1, msg: "busy".to_string() })),
        ("b".to_string(), Ok(None)),
        ("unknown".to_string(), Ok(None)),
    ]);
    assert_eq!(scrap_signatures(&mut state, &mut log, 3, &chunk, &response), 2);
    assert_eq!(state.solana_signatures[0].retry.get_retries(), 1);
    assert_eq!(state.solana_signatures[1].retry.get_retries(), 1);
    assert_eq!(state.solana_signatures[2].retry.get_retries(), 0);
    assert_eq!(
        log[log.len() - 2].payload,
        EventType::SolanaSignature {
            signature: SolanaSignature::new("a".to_string()),
            fail_reason: Some("Signature a : failed with JSON-RPC failed with code -1: busy".to_string()),
        }
    );
    assert_eq!(
        log[log.len() - 1].payload,
        EventType::SolanaSignature {
            signature: SolanaSignature::new("b".to_string()),
            fail_reason: Some("Signature b : transaction not found".to_string()),
        }
    );
    assert_eq!(scrap_signatures(&mut state, &mut log, 4, &chunk, &Err(transport())), 3);
    assert_eq!(state.solana_signatures[0].retry.get_retries(), 2);
    assert_eq!(state.solana_signatures[2].retry.get_retries(), 1);
    assert_eq!(
        log.last().unwrap().payload,
        EventType::SolanaSignature {
            signature: SolanaSignature::new("c".to_string()),
            fail_reason: Some("Request failed with code 2: timeout".to_string()),
        }
    );
}

#[test]
fn task_c_marks_what_is_no_deposit_as_invalid() {
    let (mut state, mut log) = with_pending(&["a", "b"]);
    let chunk = signatures_to_scrap(&state);
    let response = Ok(vec![
        ("a".to_string(), Ok(Some(transaction("a", vec!["Program log: hello".to_string()])))),
        ("b".to_string(), Ok(Some(transaction("b", deposit_lines("@@@"))))),
    ]);
    assert_eq!(scrap_signatures(&mut state, &mut log, 3, &chunk, &response), 2);
    assert!(state.solana_signatures.is_empty());
    assert_eq!(state.invalid_events.len(), 2);
    assert_eq!(
        log[log.len() - 2].payload,
        EventType::InvalidEvent {
            signature: SolanaSignature::new("a".to_string()),
            fail_reason: "Signature a : non-Deposit transaction found".to_string(),
        }
    );
    assert_eq!(
        log[log.len() - 1].payload,
        EventType::InvalidEvent {
            signature: SolanaSignature::new("b".to_string()),
            fail_reason: "Signature b : invalid deposit data".to_string(),
        }
    );
    assert_eq!(state.deposit_id_counter, 0);
}

#[test]
fn task_c_numbers_the_deposits_of_a_batch_in_turn() {
    let (mut state, mut log) = with_pending(&["a", "b", "c"]);
    let chunk = signatures_to_scrap(&state);
    let data = base64(&payload("aaaaa-aa", 9));
    let response = Ok(vec![
        ("a".to_string(), Ok(Some(transaction("a", deposit_lines(&data))))),
        ("b".to_string(), Ok(None)),
        ("c".to_string(), Ok(Some(transaction("c", deposit_lines(&data))))),
    ]);
    assert_eq!(scrap_signatures(&mut state, &mut log, 3, &chunk, &response), 3);
    let ids: Vec<u64> = state.accepted_events.iter().map(|d| d.id).collect();
    assert_eq!(ids, vec![0, 1]);
    assert_eq!(state.deposit_id_counter, 2);
    assert_eq!(find_in_chunk(&chunk, &"c".to_string()), Some(2));
    assert_eq!(find_in_chunk(&chunk, &"d".to_string()), None);
    let event = transaction_event(
        &mut state,
        &SolanaSignature::new("z".to_string()),
        &"z".to_string(),
        &Ok(Some(transaction("z", deposit_lines(&data)))),
    );
    assert!(matches!(event, EventType::AcceptedEvent { event_source, .. } if event_source.id == 2));
    assert_eq!(state.deposit_id_counter, 3);
}

fn with_accepted() -> (State, Vec<Event>) {
    let (mut state, mut log) = with_pending(&["SIG1-a"]);
    let chunk = signatures_to_scrap(&state);
    let tx = transaction("SIG1-a", deposit_lines(&base64(&payload("2vxsx-fae", 1000))));
    scrap_signatures(&mut state, &mut log, 3, &chunk, &Ok(vec![("SIG1-a".to_string(), Ok(Some(tx)))]));
    (state, log)
}

#[test]
fn task_d_mints_an_accepted_deposit() {
    let (mut state, mut log) = with_accepted();
    let deposits = deposits_to_mint(&state);
    assert_eq!(deposits.len(), 1);
    let request = mint_request(&deposits[0], 1234);
    assert!(request.account.is_anonymous());
    assert_eq!(request.amount, Amount::from_u64(1000));
    assert_eq!(request.created_at_time, 1234);
    assert_eq!(request.memo, vec![0xa1, 0x62, 0x69, 0x64, 0x00]);
    assert!(mint_gsol(&mut state, &mut log, 4, deposits[0].clone(), Ok(42)));
    assert!(state.accepted_events.is_empty());
    assert_eq!(state.minted_events.len(), 1);
    assert_eq!(state.minted_events[0].get_mint_block_index(), Some(42));
    assert_eq!(state.minted_events[0].sol_sig, "SIG1-a");
    assert!(matches!(
        &log.last().unwrap().payload,
        EventType::MintedEvent { event_source } if event_source.get_mint_block_index() == Some(42)
    ));
    assert!(!mint_gsol(&mut state, &mut log, 5, deposits[0].clone(), Ok(43)));
    assert_eq!(state.minted_events.len(), 1);
    let rebuilt = replay_events(&log);
    assert_eq!(rebuilt.minted_events, state.minted_events);
}

#[test]
fn task_d_retries_a_deposit_that_was_not_minted() {
    let (mut state, mut log) = with_accepted();
    let deposit = deposits_to_mint(&state)[0].clone();
    assert!(mint_gsol(
        &mut state,
        &mut log,
        4,
        deposit.clone(),
        Err(LedgerFailure::Rejected("TemporarilyUnavailable".to_string()))
    ));
    assert_eq!(state.accepted_events[0].retry.get_retries(), 1);
    assert_eq!(
        log.last().unwrap().payload,
        EventType::AcceptedEvent {
            event_source: deposit.clone(),
            fail_reason: Some("Failed to mint gSOL: TemporarilyUnavailable".to_string()),
        }
    );
    let event = mint_event(
        &state,
        deposit.clone(),
        Err(LedgerFailure::Transport { code: 4, msg: "no route".to_string() }),
    );
    assert_eq!(
        event,
        EventType::AcceptedEvent {
            event_source: deposit,
            fail_reason: Some(
                "Failed to send a message to the ledger ryjl3-tyaaa-aaaaa-aaaba-cai: 4: no route"
                    .to_string()
            ),
        }
    );
    assert!(state.minted_events.is_empty());
}

#[test]
fn signatures_are_fetched_in_batches() {
    let list: Vec<SolanaSignature> =
        ["a", "b", "c", "d", "e"].iter().map(|s| SolanaSignature::new(s.to_string())).collect();
    let names = |chunks: Vec<Vec<SolanaSignature>>| -> Vec<Vec<String>> {
        chunks.iter().map(minter::deposit::tasks::batch_names).collect()
    };
    assert_eq!(
        names(minter::deposit::tasks::signature_batches(&list, 1)),
        vec![vec!["a"], vec!["b"], vec!["c"], vec!["d"], vec!["e"]]
    );
    assert_eq!(
        names(minter::deposit::tasks::signature_batches(&list, 2)),
        vec![vec!["a", "b"], vec!["c", "d"], vec!["e"]]
    );
    assert_eq!(
        names(minter::deposit::tasks::signature_batches(&list, 5)),
        vec![vec!["a", "b", "c", "d", "e"]]
    );
    assert_eq!(names(minter::deposit::tasks::signature_batches(&list, 255)).len(), 1);
    assert!(minter::deposit::tasks::signature_batches(&vec![], 3).is_empty());
}
