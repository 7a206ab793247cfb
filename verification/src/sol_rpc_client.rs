//! The client side of the JSON-RPC calls: what is sent, what it may cost, and
//! what an answer amounts to.

use vstd::prelude::*;
use vstd::string::*;

use crate::codec::{cbor_encode_u64, cbor_unsigned, lemma_be_bytes_len};
use crate::lifecycle::SolanaNetwork;
use crate::sol_rpc_client::providers::{RpcNodeProvider, SolanaMainnetProvider, SolanaTestnetProvider};
use crate::sol_rpc_client::requests::{
    signatures_options_text, transaction_options_text, GetSignaturesForAddressRequestOptions,
    GetTransactionRequestOptions,
};
use crate::sol_rpc_client::responses::{GetTransactionResponse, JsonRpcResponse, SignatureResponse};
use crate::sol_rpc_client::types::{
    ConfirmationStatus, RpcMethod, HEADER_SIZE_LIMIT, SIGNATURE_RESPONSE_SIZE_ESTIMATE,
    TRANSACTION_RESPONSE_SIZE_ESTIMATE,
};
use crate::state::{State, StateView};
use crate::text::{
    decimal_text, json_string, push_decimal, push_json_string, push_signed_decimal, push_text,
    signed_decimal_text, utf8_text,
};

pub mod providers;
pub mod requests;
pub mod responses;
pub mod types;

verus! {

/// Talks to the providers of one network.
#[derive(Clone, Copy, Debug, PartialEq, Eq, Structural)]
pub struct SolRpcClient {
    pub chain: SolanaNetwork,
}

/// Why a call to a provider came to nothing.
#[derive(Clone, Debug, PartialEq, Eq)]
pub enum SolRpcError {
    /// The request was rejected before a provider answered.
    RequestFailed { code: i32, msg: String },
    /// The provider answered with an error.
    JsonRpcFailed { code: i32, msg: String },
    FromUtf8Failed(String),
    FromStringOfJsonFailed(String),
    ToStringOfJsonFailed(String),
}

impl SolRpcError {
    /// The error in words.
    pub open spec fn text(self) -> Seq<char> {
        match self {
            SolRpcError::RequestFailed { code, msg } => "Request failed with code "@
                + signed_decimal_text(code as int) + ": "@ + msg@,
            SolRpcError::JsonRpcFailed { code, msg } => "JSON-RPC failed with code "@
                + signed_decimal_text(code as int) + ": "@ + msg@,
            SolRpcError::FromUtf8Failed(err) => "FromUtf8 failed: "@ + err@,
            SolRpcError::FromStringOfJsonFailed(err) => "From String of JSON failed: "@ + err@,
            SolRpcError::ToStringOfJsonFailed(err) => "To String of JSON failed: "@ + err@,
        }
    }

    /// The error in words.
    pub fn to_text(&self) -> (text: String)
        ensures
            text@ == self.text(),
    {
        let mut out = String::new();
        match self {
            SolRpcError::RequestFailed { code, msg } => {
                push_text(&mut out, "Request failed with code ");
                push_signed_decimal(&mut out, *code);
                push_text(&mut out, ": ");
                push_text(&mut out, msg.as_str());
            },
            SolRpcError::JsonRpcFailed { code, msg } => {
                push_text(&mut out, "JSON-RPC failed with code ");
                push_signed_decimal(&mut out, *code);
                push_text(&mut out, ": ");
                push_text(&mut out, msg.as_str());
            },
            SolRpcError::FromUtf8Failed(err) => {
                push_text(&mut out, "FromUtf8 failed: ");
                push_text(&mut out, err.as_str());
            },
            SolRpcError::FromStringOfJsonFailed(err) => {
                push_text(&mut out, "From String of JSON failed: ");
                push_text(&mut out, err.as_str());
            },
            SolRpcError::ToStringOfJsonFailed(err) => {
                push_text(&mut out, "To String of JSON failed: ");
                push_text(&mut out, err.as_str());
            },
        }
        assert(out@ =~= self.text());
        out
    }
}

/// One header of an HTTP message.
#[derive(Clone, Debug, PartialEq, Eq)]
pub struct HttpHeader {
    pub name: String,
    pub value: String,
}

/// An outbound `POST` request to a provider.
#[derive(Clone, Debug, PartialEq, Eq)]
pub struct HttpRequest {
    pub url: String,
    pub max_response_bytes: u64,
    pub headers: Vec<HttpHeader>,
    pub body: Vec<u8>,
    /// The name of the transform that the host runs on the response.
    pub transform: String,
    /// What the request may cost.
    pub cycles: u128,
}

/// A provider's response.
#[derive(Clone, Debug, PartialEq, Eq)]
pub struct HttpResponse {
    pub status: u64,
    pub headers: Vec<HttpHeader>,
    pub body: Vec<u8>,
}

/// A JSON-RPC payload and the size that its response is taken to have.
#[derive(Clone, Debug, PartialEq, Eq)]
pub struct RpcCall {
    pub payload: String,
    pub effective_size_estimate: u64,
}

/// What a request that asks for at most `size` bytes may cost: a base fee and
/// a fee per byte, scaled from a subnet of 13 nodes to one of 34.
pub open spec fn cycles_for(size: u64) -> nat {
    ((400_000_000 + 200_000 * size as nat) * 34 / 13) as nat
}

/// Computes what a request that asks for at most `size` bytes may cost.
pub fn rpc_cycles(size: u64) -> (cycles: u128)
    ensures
        cycles == cycles_for(size),
{
    let base: u128 = 400_000_000u128 + 100_000u128 * (2 * (size as u128));
    base * 34 / 13
}

/// Strips a response of its headers: they differ from replica to replica,
/// and the replicas have to agree on the response.
pub fn cleanup_response(response: HttpResponse) -> (cleaned: HttpResponse)
    ensures
        cleaned.headers@.len() == 0,
        cleaned.status == response.status,
        cleaned.body == response.body,
{
    HttpResponse { status: response.status, headers: Vec::new(), body: response.body }
}

/// The payload of a signature scan: at most `limit` confirmed signatures of
/// `address`, older than `before` and newer than `until`.
pub open spec fn signatures_request_text(
    id: u64,
    address: Seq<char>,
    limit: u8,
    before: Option<Seq<char>>,
    until: Seq<char>,
) -> Seq<char> {
    "{\"id\":"@ + decimal_text(id as nat) + ",\"jsonrpc\":\"2.0\",\"method\":"@ + json_string(
        RpcMethod::GetSignaturesForAddress.name(),
    ) + ",\"params\":["@ + json_string(address) + ","@ + signatures_options_text(
        Some(limit as u64),
        Some(ConfirmationStatus::Confirmed.name()),
        Some(until),
        before,
    ) + "]}"@
}

/// One call of a batch of transaction fetches.
pub open spec fn transaction_call_text(position: nat, signature: Seq<char>) -> Seq<char> {
    "{\"id\":"@ + decimal_text(position + 1) + ",\"jsonrpc\":\"2.0\",\"method\":"@ + json_string(
        RpcMethod::GetTransaction.name(),
    ) + ",\"params\":["@ + json_string(signature) + ","@ + transaction_options_text(
        Some(ConfirmationStatus::Confirmed.name()),
    ) + "]}"@
}

/// The calls of a batch, separated by commas.
pub open spec fn transaction_calls_text(signatures: Seq<String>) -> Seq<char>
    decreases signatures.len(),
{
    if signatures.len() == 0 {
        Seq::empty()
    } else if signatures.len() == 1 {
        transaction_call_text(0, signatures[0]@)
    } else {
        transaction_calls_text(signatures.drop_last()) + ","@ + transaction_call_text(
            (signatures.len() - 1) as nat,
            signatures.last()@,
        )
    }
}

/// The payload of a batch of transaction fetches: a JSON array with one call
/// per signature, numbered from 1.
pub open spec fn transactions_request_text(signatures: Seq<String>) -> Seq<char> {
    "["@ + transaction_calls_text(signatures) + "]"@
}

/// What one response of a batch amounts to: the provider's error, or the
/// transaction, which may be unknown to the provider.
pub open spec fn transaction_outcome(
    response: JsonRpcResponse<GetTransactionResponse>,
) -> Result<Option<GetTransactionResponse>, SolRpcError> {
    match response.error {
        Some(error) => Err(SolRpcError::JsonRpcFailed { code: error.code, msg: error.message }),
        None => Ok(response.result),
    }
}

impl SolRpcClient {
    pub fn new(chain: SolanaNetwork) -> (client: Self)
        ensures
            client.chain == chain,
    {
        Self { chain }
    }

    pub fn from_state(state: &State) -> (client: Self)
        ensures
            client.chain == state@.solana_network,
    {
        Self::new(state.solana_network())
    }

    /// The providers of the client's network, the preferred one first.
    pub fn providers(&self) -> (list: Vec<RpcNodeProvider>)
        ensures
            list@ == (match self.chain {
                SolanaNetwork::Mainnet => seq![
                    RpcNodeProvider::Mainnet(SolanaMainnetProvider::PublicNode),
                ],
                SolanaNetwork::Devnet => seq![
                    RpcNodeProvider::Testnet(SolanaTestnetProvider::PublicNode),
                ],
            }),
    {
        let mut list: Vec<RpcNodeProvider> = Vec::new();
        match self.chain {
            SolanaNetwork::Mainnet => list.push(
                RpcNodeProvider::Mainnet(SolanaMainnetProvider::PublicNode),
            ),
            SolanaNetwork::Devnet => list.push(
                RpcNodeProvider::Testnet(SolanaTestnetProvider::PublicNode),
            ),
        }
        assert(list@ =~= (match self.chain {
            SolanaNetwork::Mainnet => seq![
                RpcNodeProvider::Mainnet(SolanaMainnetProvider::PublicNode),
            ],
            SolanaNetwork::Devnet => seq![
                RpcNodeProvider::Testnet(SolanaTestnetProvider::PublicNode),
            ],
        }));
        list
    }

    /// The request that carries a payload to the preferred provider.
    pub fn rpc_request(&self, payload: &String, effective_size_estimate: u64) -> (request:
        HttpRequest)
        ensures
            request.url@ == (match self.chain {
                SolanaNetwork::Mainnet => RpcNodeProvider::Mainnet(
                    SolanaMainnetProvider::PublicNode,
                ).address(),
                SolanaNetwork::Devnet => RpcNodeProvider::Testnet(
                    SolanaTestnetProvider::PublicNode,
                ).address(),
            }),
            request.max_response_bytes == effective_size_estimate,
            request.headers@.len() == 1,
            request.headers@[0].name@ == "Content-Type"@,
            request.headers@[0].value@ == "application/json"@,
            request.body@ == vstd::utf8::encode_utf8(payload@),
            request.transform@ == "cleanup_response"@,
            request.cycles == cycles_for(effective_size_estimate),
    {
        let providers = self.providers();
        let mut headers: Vec<HttpHeader> = Vec::new();
        headers.push(
            HttpHeader { name: "Content-Type".to_owned(), value: "application/json".to_owned() },
        );
        HttpRequest {
            url: providers[0].url().to_owned(),
            max_response_bytes: effective_size_estimate,
            headers,
            body: payload.as_str().as_bytes_vec(),
            transform: "cleanup_response".to_owned(),
            cycles: rpc_cycles(effective_size_estimate),
        }
    }

    /// What came back from the host: the body of the response as text, or the
    /// reason why there is none.
    pub fn rpc_outcome(outcome: Result<Vec<u8>, (i32, String)>) -> (r: Result<String, SolRpcError>)
        ensures
            match outcome {
                Ok(body) => if vstd::utf8::valid_utf8(body@) {
                    r matches Ok(text) && text@ == vstd::utf8::decode_utf8(body@)
                } else {
                    r matches Err(SolRpcError::FromUtf8Failed(reason)) && reason@
                        == "the response is not valid UTF-8"@
                },
                Err((code, msg)) => r == Err::<String, SolRpcError>(
                    SolRpcError::RequestFailed { code, msg },
                ),
            },
    {
        match outcome {
            Ok(body) => match utf8_text(body) {
                Some(text) => Ok(text),
                None => Err(
                    SolRpcError::FromUtf8Failed("the response is not valid UTF-8".to_owned()),
                ),
            },
            Err((code, msg)) => Err(SolRpcError::RequestFailed { code, msg }),
        }
    }

    /// The call that scans for the signatures of the source program between
    /// `before` and `until`, both excluded, newest first. It takes the next
    /// request id.
    pub fn signatures_request(
        &self,
        state: &mut State,
        limit: u8,
        before: Option<&String>,
        until: &String,
    ) -> (call: RpcCall)
        ensures
            final(state)@ == (StateView {
                http_request_counter: final(state)@.http_request_counter,
                ..old(state)@
            }),
            old(state).wf() ==> final(state).wf(),
            final(state)@.http_request_counter == if old(state)@.http_request_counter == u64::MAX {
                0
            } else {
                (old(state)@.http_request_counter + 1) as u64
            },
            call.effective_size_estimate == limit * 500 + 2048,
            call.payload@ == signatures_request_text(
                old(state)@.http_request_counter,
                old(state)@.solana_contract_address,
                limit,
                match before {
                    Some(b) => Some(b@),
                    None => None,
                },
                until@,
            ),
    {
        let options = GetSignaturesForAddressRequestOptions {
            limit: Some(limit as u64),
            commitment: Some(ConfirmationStatus::Confirmed.as_str().to_owned()),
            before: match before {
                Some(b) => Some(b.clone()),
                None => None,
            },
            until: Some(until.clone()),
        };
        let id = state.next_request_id();
        let mut payload = String::new();
        push_text(&mut payload, "{\"id\":");
        push_decimal(&mut payload, id);
        push_text(&mut payload, ",\"jsonrpc\":\"2.0\",\"method\":");
        push_json_string(&mut payload, RpcMethod::GetSignaturesForAddress.as_str());
        push_text(&mut payload, ",\"params\":[");
        push_json_string(&mut payload, state.solana_contract_address.as_str());
        push_text(&mut payload, ",");
        options.write_json(&mut payload);
        push_text(&mut payload, "]}");
        assert(payload@ =~= signatures_request_text(
            old(state)@.http_request_counter,
            old(state)@.solana_contract_address,
            limit,
            match before {
                Some(b) => Some(b@),
                None => None,
            },
            until@,
        ));
        let effective_size_estimate: u64 = (limit as u64) * SIGNATURE_RESPONSE_SIZE_ESTIMATE
            + HEADER_SIZE_LIMIT;
        RpcCall { payload, effective_size_estimate }
    }

    /// What a parsed response to a signature scan amounts to.
    pub fn signatures_from_response(
        parsed: Result<JsonRpcResponse<Vec<SignatureResponse>>, String>,
    ) -> (r: Result<Vec<SignatureResponse>, SolRpcError>)
        ensures
            match parsed {
                Err(reason) => r == Err::<Vec<SignatureResponse>, SolRpcError>(
                    SolRpcError::FromStringOfJsonFailed(reason),
                ),
                Ok(response) => match response.error {
                    Some(error) => r == Err::<Vec<SignatureResponse>, SolRpcError>(
                        SolRpcError::JsonRpcFailed { code: error.code, msg: error.message },
                    ),
                    None => match response.result {
                        Some(signatures) => r == Ok::<Vec<SignatureResponse>, SolRpcError>(
                            signatures,
                        ),
                        None => r matches Err(SolRpcError::FromStringOfJsonFailed(reason))
                            && reason@ == "the response holds neither a result nor an error"@,
                    },
                },
            },
    {
        match parsed {
            Err(reason) => Err(SolRpcError::FromStringOfJsonFailed(reason)),
            Ok(response) => match response.error {
                Some(error) => Err(
                    SolRpcError::JsonRpcFailed { code: error.code, msg: error.message },
                ),
                None => match response.result {
                    Some(signatures) => Ok(signatures),
                    None => Err(
                        SolRpcError::FromStringOfJsonFailed(
                            "the response holds neither a result nor an error".to_owned(),
                        ),
                    ),
                },
            },
        }
    }
}

/// The memo of a ledger transfer: the id of the deposit or of the burn that
/// the transfer belongs to.
#[derive(Clone, Copy, Debug, PartialEq, Eq, Structural)]
pub struct LedgerMemo(pub u64);

impl LedgerMemo {
    /// The memo as CBOR: a map of one entry, from the text `id` to the number.
    pub open spec fn encoding(self) -> Seq<u8> {
        seq![0xa1u8, 0x62u8, 0x69u8, 0x64u8] + cbor_unsigned(self.0)
    }

    pub proof fn lemma_encoding_fits(self)
        ensures
            5 <= self.encoding().len() <= 13,
    {
        lemma_be_bytes_len(self.0 as nat, 1);
        lemma_be_bytes_len(self.0 as nat, 2);
        lemma_be_bytes_len(self.0 as nat, 4);
        lemma_be_bytes_len(self.0 as nat, 8);
    }

    /// The bytes of the memo. A ledger takes memos of up to 32 bytes.
    pub fn to_bytes(&self) -> (bytes: Vec<u8>)
        ensures
            bytes@ == self.encoding(),
            bytes@.len() <= 32,
    {
        let mut bytes: Vec<u8> = Vec::new();
        bytes.push(0xa1);
        bytes.push(0x62);
        bytes.push(0x69);
        bytes.push(0x64);
        let mut number = cbor_encode_u64(self.0);
        bytes.append(&mut number);
        proof {
            self.lemma_encoding_fits();
            assert(bytes@ =~= self.encoding());
        }
        bytes
    }
}

/// Appends the call of a batch that fetches the transaction of `signature`
/// under the id `id`.
fn push_transaction_call(out: &mut String, id: u64, signature: &String)
    requires
        id >= 1,
    ensures
        final(out)@ == old(out)@ + transaction_call_text((id - 1) as nat, signature@),
{
    let options = GetTransactionRequestOptions {
        commitment: Some(ConfirmationStatus::Confirmed.as_str().to_owned()),
    };
    push_text(out, "{\"id\":");
    push_decimal(out, id);
    push_text(out, ",\"jsonrpc\":\"2.0\",\"method\":");
    push_json_string(out, RpcMethod::GetTransaction.as_str());
    push_text(out, ",\"params\":[");
    push_json_string(out, signature.as_str());
    push_text(out, ",");
    options.write_json(out);
    push_text(out, "]}");
    assert(out@ =~= old(out)@ + transaction_call_text((id - 1) as nat, signature@));
}

impl SolRpcClient {
    /// The call that fetches the transactions of the given signatures in one
    /// batch. It takes the next request id, though the batch does not carry it.
    pub fn transactions_request(&self, state: &mut State, signatures: &Vec<String>) -> (call:
        RpcCall)
        requires
            signatures@.len() * 2200 + 2048 <= u64::MAX,
        ensures
            final(state)@ == (StateView {
                http_request_counter: final(state)@.http_request_counter,
                ..old(state)@
            }),
            old(state).wf() ==> final(state).wf(),
            final(state)@.http_request_counter == if old(state)@.http_request_counter == u64::MAX {
                0
            } else {
                (old(state)@.http_request_counter + 1) as u64
            },
            call.effective_size_estimate == signatures@.len() * 2200 + 2048,
            call.payload@ == transactions_request_text(signatures@),
    {
        let _ = state.next_request_id();
        let mut payload = String::new();
        push_text(&mut payload, "[");
        let mut i: usize = 0;
        while i < signatures.len()
            invariant
                i <= signatures.len(),
                signatures@.len() * 2200 + 2048 <= u64::MAX,
                payload@ == "["@ + transaction_calls_text(signatures@.subrange(0, i as int)),
            decreases signatures.len() - i,
        {
            let ghost front = signatures@.subrange(0, i as int);
            let ghost next = signatures@.subrange(0, i + 1);
            let ghost start = payload@;
            if i > 0 {
                push_text(&mut payload, ",");
            }
            push_transaction_call(&mut payload, (i + 1) as u64, &signatures[i]);
            proof {
                let call = transaction_call_text(i as nat, signatures@[i as int]@);
                assert(next.drop_last() =~= front);
                assert(next.last() == signatures@[i as int]);
                if i == 0 {
                    assert(transaction_calls_text(front) =~= Seq::<char>::empty());
                    assert(transaction_calls_text(next) == call);
                } else {
                    if i == 1 {
                        assert(front.len() == 1);
                    }
                    assert(transaction_calls_text(next) == transaction_calls_text(front) + ","@
                        + call);
                }
                assert(payload@ =~= "["@ + transaction_calls_text(next));
            }
            i = i + 1;
        }
        push_text(&mut payload, "]");
        proof {
            assert(signatures@.subrange(0, signatures.len() as int) =~= signatures@);
        }
        let effective_size_estimate: u64 = (signatures.len() as u64)
            * TRANSACTION_RESPONSE_SIZE_ESTIMATE + HEADER_SIZE_LIMIT;
        RpcCall { payload, effective_size_estimate }
    }

    /// What a parsed response to a batch of transaction fetches amounts to:
    /// for each response in turn, the signature at its position and what came
    /// of it. More responses than signatures are an error.
    pub fn transactions_from_response(
        signatures: &Vec<String>,
        parsed: Result<Vec<JsonRpcResponse<GetTransactionResponse>>, String>,
    ) -> (r: Result<
        Vec<(String, Result<Option<GetTransactionResponse>, SolRpcError>)>,
        SolRpcError,
    >)
        ensures
            match parsed {
                Err(reason) => r == Err::<
                    Vec<(String, Result<Option<GetTransactionResponse>, SolRpcError>)>,
                    SolRpcError,
                >(SolRpcError::FromStringOfJsonFailed(reason)),
                Ok(responses) => if responses@.len() <= signatures@.len() {
                    &&& r matches Ok(list)
                    &&& list@.len() == responses@.len()
                    &&& forall|i: int|
                        0 <= i < list@.len() ==> (#[trigger] list@[i]).0@ == signatures@[i]@
                            && list@[i].1 == transaction_outcome(responses@[i])
                } else {
                    r matches Err(SolRpcError::FromStringOfJsonFailed(reason)) && reason@
                        == "the batch holds more responses than requests"@
                },
            },
    {
        let mut responses = match parsed {
            Err(reason) => {
                return Err(SolRpcError::FromStringOfJsonFailed(reason));
            },
            Ok(responses) => responses,
        };
        if responses.len() > signatures.len() {
            return Err(
                SolRpcError::FromStringOfJsonFailed(
                    "the batch holds more responses than requests".to_owned(),
                ),
            );
        }
        let ghost given = responses@;
        let mut backwards: Vec<(String, Result<Option<GetTransactionResponse>, SolRpcError>)> =
            Vec::new();
        while responses.len() > 0
            invariant
                given.len() <= signatures@.len(),
                responses@ == given.subrange(0, responses@.len() as int),
                backwards@.len() + responses@.len() == given.len(),
                forall|j: int|
                    0 <= j < backwards@.len() ==> (#[trigger] backwards@[j]).0@ == signatures@[
                        given.len() - 1 - j
                    ]@ && backwards@[j].1 == transaction_outcome(given[given.len() - 1 - j]),
            decreases responses.len(),
        {
            let position = responses.len() - 1;
            let response = responses.pop().unwrap();
            assert(response == given[position as int]);
            let outcome = match response.error {
                Some(error) => Err(
                    SolRpcError::JsonRpcFailed { code: error.code, msg: error.message },
                ),
                None => Ok(response.result),
            };
            backwards.push((signatures[position].clone(), outcome));
            assert(responses@ =~= given.subrange(0, responses@.len() as int));
        }
        let mut list: Vec<(String, Result<Option<GetTransactionResponse>, SolRpcError>)> =
            Vec::new();
        while backwards.len() > 0
            invariant
                list@.len() + backwards@.len() == given.len(),
                given.len() <= signatures@.len(),
                forall|j: int|
                    0 <= j < backwards@.len() ==> (#[trigger] backwards@[j]).0@ == signatures@[
                        given.len() - 1 - j
                    ]@ && backwards@[j].1 == transaction_outcome(given[given.len() - 1 - j]),
                forall|i: int|
                    0 <= i < list@.len() ==> (#[trigger] list@[i]).0@ == signatures@[i]@
                        && list@[i].1 == transaction_outcome(given[i]),
            decreases backwards.len(),
        {
            match backwards.pop() {
                Some(entry) => {
                    list.push(entry);
                },
                None => {},
            }
        }
        Ok(list)
    }
}

} // verus!
