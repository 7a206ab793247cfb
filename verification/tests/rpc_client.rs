use minter::amount::Amount;
use minter::constants::{
    derivation_path, startup_tasks, task_interval, GET_LATEST_SOLANA_SIGNATURE, MINT_GSOL, MINT_GSOL_RETRY_LIMIT,
    SCRAPPING_SOLANA_SIGNATURES, SCRAPPING_SOLANA_SIGNATURE_RANGES,
    SOLANA_SIGNATURE_RANGES_RETRY_LIMIT, SOLANA_SIGNATURE_RETRY_LIMIT,
};
use minter::lifecycle::{InitArg, SolanaNetwork};
use minter::principal::Principal;
use minter::sol_rpc_client::providers::{
    RpcNodeProvider, SolanaMainnetProvider, SolanaTestnetProvider,
};
use minter::sol_rpc_client::requests::{
    GetSignaturesForAddressRequestOptions, GetTransactionRequestOptions,
};
use minter::sol_rpc_client::responses::{
    GetTransactionResponse, Header, Instruction, JsonRpcError, JsonRpcResponse, Message, Meta,
    SignatureResponse, Transaction,
};
use minter::sol_rpc_client::types::{
    ConfirmationStatus, RpcMethod, HEADER_SIZE_LIMIT, HTTP_MAX_SIZE, MAX_PAYLOAD_SIZE,
    SIGNATURE_RESPONSE_SIZE_ESTIMATE, TRANSACTION_RESPONSE_SIZE_ESTIMATE,
};
use minter::sol_rpc_client::{
    cleanup_response, rpc_cycles, HttpHeader, HttpResponse, SolRpcClient, SolRpcError,
};
use minter::state::{State, TaskType};

fn state_of(network: SolanaNetwork, address: &str) -> State {
    State::try_from(InitArg {
        solana_network: network,
        solana_contract_address: address.to_string(),
        solana_initial_signature: "SIG0".to_string(),
        ecdsa_key_name: "key".to_string(),
        ledger_id: Principal::from_bytes(vec![7]).unwrap(),
        minimum_withdrawal_amount: Amount::from_u64(1),
    })
    .unwrap()
}

fn object(members: Vec<(&str, serde_json::Value)>) -> serde_json::Value {
    let mut map = serde_json::Map::new();
    for (name, value) in members {
        map.insert(name.to_string(), value);
    }
    serde_json::Value::Object(map)
}

fn text(value: &str) -> serde_json::Value {
    serde_json::Value::String(value.to_string())
}

fn number(value: u64) -> serde_json::Value {
    serde_json::Value::Number(value.into())
}

#[test]
fn names_of_methods_and_levels() {
    assert_eq!(RpcMethod::GetSignaturesForAddress.as_str(), "getSignaturesForAddress");
    assert_eq!(RpcMethod::GetTransaction.as_str(), "getTransaction");
    assert_eq!(ConfirmationStatus::Finalized.as_str(), "finalized");
    assert_eq!(ConfirmationStatus::Confirmed.as_str(), "confirmed");
    assert_eq!(ConfirmationStatus::Processed.as_str(), "processed");
}

#[test]
fn sizes_and_schedule() {
    assert_eq!(HEADER_SIZE_LIMIT, 2 * 1024);
    assert_eq!(HTTP_MAX_SIZE, 2_000_000);
    assert_eq!(MAX_PAYLOAD_SIZE, HTTP_MAX_SIZE - HEADER_SIZE_LIMIT);
    assert_eq!(SIGNATURE_RESPONSE_SIZE_ESTIMATE, 500);
    assert_eq!(TRANSACTION_RESPONSE_SIZE_ESTIMATE, 2200);
    assert_eq!(GET_LATEST_SOLANA_SIGNATURE, 60);
    assert_eq!(SCRAPPING_SOLANA_SIGNATURE_RANGES, 180);
    assert_eq!(SCRAPPING_SOLANA_SIGNATURES, 180);
    assert_eq!(MINT_GSOL, 180);
    assert_eq!(SOLANA_SIGNATURE_RANGES_RETRY_LIMIT, 100);
    assert_eq!(SOLANA_SIGNATURE_RETRY_LIMIT, 100);
    assert_eq!(MINT_GSOL_RETRY_LIMIT, 100);
    assert!(derivation_path().is_empty());
}

#[test]
fn providers_of_each_network() {
    assert_eq!(SolanaMainnetProvider::PublicNode.endpoint_url(), "https://api.mainnet-beta.solana.com");
    assert_eq!(SolanaTestnetProvider::PublicNode.endpoint_url(), "https://api.devnet.solana.com");
    assert_eq!(
        RpcNodeProvider::Mainnet(SolanaMainnetProvider::PublicNode).url(),
        "https://api.mainnet-beta.solana.com"
    );
    assert_eq!(
        SolRpcClient::new(SolanaNetwork::Mainnet).providers(),
        vec![RpcNodeProvider::Mainnet(SolanaMainnetProvider::PublicNode)]
    );
    assert_eq!(
        SolRpcClient::new(SolanaNetwork::Devnet).providers(),
        vec![RpcNodeProvider::Testnet(SolanaTestnetProvider::PublicNode)]
    );
    let state = state_of(SolanaNetwork::Mainnet, "P");
    assert_eq!(SolRpcClient::from_state(&state), SolRpcClient::new(SolanaNetwork::Mainnet));
}

#[test]
fn cycles_follow_the_size() {
    assert_eq!(rpc_cycles(0), 400_000_000 * 34 / 13);
    assert_eq!(rpc_cycles(0), 1_046_153_846);
    assert_eq!(rpc_cycles(2548), (400_000_000u128 + 200_000 * 2548) * 34 / 13);
    assert_eq!(rpc_cycles(2548), 2_378_953_846);
    assert_eq!(rpc_cycles(7048), 4_732_800_000);
    assert_eq!(rpc_cycles(u64::MAX), (400_000_000u128 + 200_000 * u64::MAX as u128) * 34 / 13);
}

#[test]
fn the_request_carries_the_payload_to_the_provider() {
    let client = SolRpcClient::new(SolanaNetwork::Devnet);
    let request = client.rpc_request(&"{\"a\":\"\u{e9}\"}".to_string(), 4248);
    assert_eq!(request.url, "https://api.devnet.solana.com");
    assert_eq!(request.max_response_bytes, 4248);
    assert_eq!(
        request.headers,
        vec![HttpHeader { name: "Content-Type".to_string(), value: "application/json".to_string() }]
    );
    assert_eq!(request.body, "{\"a\":\"\u{e9}\"}".as_bytes());
    assert_eq!(request.transform, "cleanup_response");
    assert_eq!(request.cycles, rpc_cycles(4248));
    let mainnet = SolRpcClient::new(SolanaNetwork::Mainnet).rpc_request(&String::new(), 1);
    assert_eq!(mainnet.url, "https://api.mainnet-beta.solana.com");
}

#[test]
fn responses_lose_their_headers() {
    let response = HttpResponse {
        status: 200,
        headers: vec![
            HttpHeader { name: "date".to_string(), value: "now".to_string() },
            HttpHeader { name: "x-request-id".to_string(), value: "17".to_string() },
        ],
        body: vec![1, 2, 3],
    };
    assert_eq!(
        cleanup_response(response),
        HttpResponse { status: 200, headers: vec![], body: vec![1, 2, 3] }
    );
}

#[test]
fn outcomes_of_a_request() {
    assert_eq!(SolRpcClient::rpc_outcome(Ok("{}".as_bytes().to_vec())), Ok("{}".to_string()));
    assert_eq!(
        SolRpcClient::rpc_outcome(Ok("\u{e9}\u{1f600}".as_bytes().to_vec())),
        Ok("\u{e9}\u{1f600}".to_string())
    );
    assert!(matches!(
        SolRpcClient::rpc_outcome(Ok(vec![0xff, 0xfe])),
        Err(SolRpcError::FromUtf8Failed(_))
    ));
    assert_eq!(
        SolRpcClient::rpc_outcome(Err((3, "rejected".to_string()))),
        Err(SolRpcError::RequestFailed { code: 3, msg: "rejected".to_string() })
    );
}

#[test]
fn the_signature_scan_is_written_exactly() {
    let mut state = state_of(SolanaNetwork::Devnet, "Prog");
    state.http_request_counter = 41;
    let client = SolRpcClient::from_state(&state);
    let call = client.signatures_request(&mut state, 10, Some(&"B".to_string()), &"U".to_string());
    assert_eq!(
        call.payload,
        "{\"id\":41,\"jsonrpc\":\"2.0\",\"method\":\"getSignaturesForAddress\",\"params\":[\"Prog\",\
         {\"before\":\"B\",\"commitment\":\"confirmed\",\"limit\":10,\"until\":\"U\"}]}"
    );
    assert_eq!(call.effective_size_estimate, 10 * 500 + 2048);
    assert_eq!(state.http_request_counter, 42);
    let call = client.signatures_request(&mut state, 1, None, &"U".to_string());
    assert_eq!(
        call.payload,
        "{\"id\":42,\"jsonrpc\":\"2.0\",\"method\":\"getSignaturesForAddress\",\"params\":[\"Prog\",\
         {\"before\":null,\"commitment\":\"confirmed\",\"limit\":1,\"until\":\"U\"}]}"
    );
    assert_eq!(call.effective_size_estimate, 2548);
}

#[test]
fn the_signature_scan_is_written_as_serde_json_writes_it() {
    let address = "Pr\"og\\\n\u{1}\u{e9}";
    let mut state = state_of(SolanaNetwork::Devnet, address);
    state.http_request_counter = u64::MAX;
    let client = SolRpcClient::from_state(&state);
    let call = client.signatures_request(&mut state, 255, Some(&"b\t".to_string()), &"u\"".to_string());
    let expected = object(vec![
        ("jsonrpc", text("2.0")),
        ("id", number(u64::MAX)),
        ("method", text("getSignaturesForAddress")),
        (
            "params",
            serde_json::Value::Array(vec![
                text(address),
                object(vec![
                    ("limit", number(255)),
                    ("commitment", text("confirmed")),
                    ("until", text("u\"")),
                    ("before", text("b\t")),
                ]),
            ]),
        ),
    ]);
    assert_eq!(call.payload, serde_json::to_string(&expected).unwrap());
    assert_eq!(state.http_request_counter, 0);
    assert_eq!(call.effective_size_estimate, 255 * 500 + 2048);
}

#[test]
fn the_batch_is_written_exactly() {
    let mut state = state_of(SolanaNetwork::Devnet, "Prog");
    let client = SolRpcClient::from_state(&state);
    let call = client.transactions_request(&mut state, &vec!["S1".to_string(), "S2".to_string()]);
    assert_eq!(
        call.payload,
        "[{\"id\":1,\"jsonrpc\":\"2.0\",\"method\":\"getTransaction\",\"params\":[\"S1\",\
         {\"commitment\":\"confirmed\"}]},\
         {\"id\":2,\"jsonrpc\":\"2.0\",\"method\":\"getTransaction\",\"params\":[\"S2\",\
         {\"commitment\":\"confirmed\"}]}]"
    );
    assert_eq!(call.effective_size_estimate, 2 * 2200 + 2048);
    assert_eq!(state.http_request_counter, 1);
    let empty = client.transactions_request(&mut state, &vec![]);
    assert_eq!(empty.payload, "[]");
    assert_eq!(empty.effective_size_estimate, 2048);
    let one = client.transactions_request(&mut state, &vec!["x".to_string()]);
    assert_eq!(one.effective_size_estimate, 4248);
    let parsed: serde_json::Value = serde_json::from_str(&one.payload).unwrap();
    let expected = serde_json::Value::Array(vec![object(vec![
        ("jsonrpc", text("2.0")),
        ("id", number(1)),
        ("method", text("getTransaction")),
        (
            "params",
            serde_json::Value::Array(vec![text("x"), object(vec![("commitment", text("confirmed"))])]),
        ),
    ])]);
    assert_eq!(parsed, expected);
    assert_eq!(one.payload, serde_json::to_string(&expected).unwrap());
}

#[test]
fn options_are_written_with_what_they_lack() {
    let options = GetSignaturesForAddressRequestOptions {
        limit: None,
        commitment: None,
        until: None,
        before: None,
    };
    let mut out = String::new();
    options.write_json(&mut out);
    assert_eq!(out, "{\"before\":null,\"commitment\":null,\"limit\":null,\"until\":null}");
    let mut out = String::from(">");
    GetTransactionRequestOptions { commitment: None }.write_json(&mut out);
    GetTransactionRequestOptions { commitment: Some("finalized".to_string()) }.write_json(&mut out);
    assert_eq!(out, ">{\"commitment\":null}{\"commitment\":\"finalized\"}");
}

fn entry(signature: &str) -> SignatureResponse {
    SignatureResponse {
        block_time: 1,
        confirmation_status: "confirmed".to_string(),
        err: None,
        memo: None,
        signature: signature.to_string(),
        slot: 1,
    }
}

fn response<T>(result: Option<T>, error: Option<JsonRpcError>) -> JsonRpcResponse<T> {
    JsonRpcResponse { jsonrpc: "2.0".to_string(), result, error, id: 1 }
}

fn error(code: i32, message: &str) -> JsonRpcError {
    JsonRpcError { code, message: message.to_string() }
}

#[test]
fn answers_to_a_signature_scan() {
    assert_eq!(
        SolRpcClient::signatures_from_response(Ok(response(Some(vec![entry("a")]), None))),
        Ok(vec![entry("a")])
    );
    assert_eq!(
        SolRpcClient::signatures_from_response(Ok(response(Some(vec![]), None))),
        Ok(vec![])
    );
    assert_eq!(
        SolRpcClient::signatures_from_response(Ok(response(Some(vec![entry("a")]), Some(error(-32000, "down"))))),
        Err(SolRpcError::JsonRpcFailed { code: -32000, msg: "down".to_string() })
    );
    assert!(matches!(
        SolRpcClient::signatures_from_response(Ok(response(None, None))),
        Err(SolRpcError::FromStringOfJsonFailed(_))
    ));
    assert_eq!(
        SolRpcClient::signatures_from_response(Err("expected value at line 1".to_string())),
        Err(SolRpcError::FromStringOfJsonFailed("expected value at line 1".to_string()))
    );
}

fn transaction(signature: &str) -> GetTransactionResponse {
    GetTransactionResponse {
        block_time: 5,
        meta: Meta {
            compute_units_consumed: 1,
            fee: 5000,
            log_messages: vec!["line".to_string()],
            post_balances: vec![1],
            pre_balances: vec![2],
        },
        slot: 9,
        transaction: Transaction {
            message: Message {
                account_keys: vec!["k".to_string()],
                header: Header {
                    num_readonly_signed_accounts: 0,
                    num_readonly_unsigned_accounts: 1,
                    num_required_signatures: 1,
                },
                instructions: vec![Instruction {
                    accounts: vec![0],
                    data: "d".to_string(),
                    program_id_index: 1,
                    stack_height: None,
                }],
                recent_blockhash: "hash".to_string(),
            },
            signatures: vec![signature.to_string()],
        },
    }
}

#[test]
fn answers_to_a_batch_go_with_their_signatures() {
    let signatures = vec!["a".to_string(), "b".to_string(), "c".to_string()];
    let parsed = Ok(vec![
        response(Some(transaction("a")), None),
        response(None, None),
        response(Some(transaction("c")), Some(error(7, "gone"))),
    ]);
    assert_eq!(
        SolRpcClient::transactions_from_response(&signatures, parsed),
        Ok(vec![
            ("a".to_string(), Ok(Some(transaction("a")))),
            ("b".to_string(), Ok(None)),
            ("c".to_string(), Err(SolRpcError::JsonRpcFailed { code: 7, msg: "gone".to_string() })),
        ])
    );
    assert_eq!(
        SolRpcClient::transactions_from_response(&signatures, Ok(vec![response(None, None)])),
        Ok(vec![("a".to_string(), Ok(None))])
    );
    assert_eq!(SolRpcClient::transactions_from_response(&signatures, Ok(vec![])), Ok(vec![]));
    assert!(matches!(
        SolRpcClient::transactions_from_response(
            &vec!["a".to_string()],
            Ok(vec![response(None, None), response(None, None)])
        ),
        Err(SolRpcError::FromStringOfJsonFailed(_))
    ));
    assert_eq!(
        SolRpcClient::transactions_from_response(&signatures, Err("eof".to_string())),
        Err(SolRpcError::FromStringOfJsonFailed("eof".to_string()))
    );
}

#[test]
fn each_task_has_its_interval() {
    assert_eq!(
        startup_tasks(),
        vec![
            TaskType::GetLatestSignature,
            TaskType::ScrapSignatureRanges,
            TaskType::ScrapSignatures,
            TaskType::MintGSol
        ]
    );
    let intervals: Vec<u64> = startup_tasks().into_iter().map(task_interval).collect();
    assert_eq!(intervals, vec![60, 180, 180, 180]);
}
