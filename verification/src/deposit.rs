//! The deposit pipeline: find the newest signature, walk the ranges of
//! signatures, fetch and classify the transactions, and mint.

use vstd::prelude::*;
use vstd::string::*;
use vstd::utf8::{decode_utf8, encode_utf8, valid_utf8};

use crate::amount::{le_value, pow256, Amount};
use crate::codec::{base64_decode, base64_decoding};
use crate::events::{DepositEvent, DepositView, Retriable};
use crate::principal::{principal_from_text, Principal};
use crate::sol_rpc_client::SolRpcError;
use crate::sol_rpc_client::responses::GetTransactionResponse;
use crate::state::{State, StateView};
use crate::text::{
    decimal_text, is_prefix, push_signed_decimal, push_text, signed_decimal_text, starts_with,
    strip_prefix, utf8_text,
};

pub mod tasks;

verus! {

/// The most signatures that one scan asks for.
pub const GET_SIGNATURES_BY_ADDRESS_LIMIT: u8 = 10;

/// The most transactions that one batch fetches.
pub const GET_TRANSACTIONS_LIMIT: u8 = 1;

/// Why a step of the deposit pipeline came to nothing.
#[derive(Clone, Debug, PartialEq, Eq)]
pub enum DepositError {
    RpcCallFailed(SolRpcError),
    SignatureFailed { sig: String, err: SolRpcError },
    /// The provider does not know the transaction yet.
    SignatureNotFound(String),
    /// The payload of the deposit is not what a deposit carries.
    InvalidDepositData(String),
    /// The payload names no principal of the ledger.
    InvalidPrincipal(String),
    /// The transaction is no deposit to the source program.
    NonDepositTransaction(String),
    /// The ledger refused to mint; its reason in words.
    MintingGSolFailed(String),
    SendingMessageToLedgerFailed { id: String, code: i32, msg: String },
}

impl DepositError {
    /// The error in words.
    pub open spec fn text(self) -> Seq<char> {
        match self {
            DepositError::RpcCallFailed(err) => err.text(),
            DepositError::SignatureFailed { sig, err } => "Signature "@ + sig@ + " : failed with "@
                + err.text(),
            DepositError::SignatureNotFound(sig) => "Signature "@ + sig@
                + " : transaction not found"@,
            DepositError::InvalidDepositData(sig) => "Signature "@ + sig@
                + " : invalid deposit data"@,
            DepositError::InvalidPrincipal(sig) => "Signature "@ + sig@
                + " : invalid ledger principal"@,
            DepositError::NonDepositTransaction(sig) => "Signature "@ + sig@
                + " : non-Deposit transaction found"@,
            DepositError::MintingGSolFailed(err) => "Failed to mint gSOL: "@ + err@,
            DepositError::SendingMessageToLedgerFailed { id, code, msg } =>
                "Failed to send a message to the ledger "@ + id@ + ": "@ + signed_decimal_text(
                    code as int,
                ) + ": "@ + msg@,
        }
    }

    /// The error in words.
    pub fn to_text(&self) -> (text: String)
        ensures
            text@ == self.text(),
    {
        let mut out = String::new();
        match self {
            DepositError::RpcCallFailed(err) => {
                let inner = err.to_text();
                push_text(&mut out, inner.as_str());
            },
            DepositError::SignatureFailed { sig, err } => {
                push_text(&mut out, "Signature ");
                push_text(&mut out, sig.as_str());
                push_text(&mut out, " : failed with ");
                let inner = err.to_text();
                push_text(&mut out, inner.as_str());
            },
            DepositError::SignatureNotFound(sig) => {
                push_text(&mut out, "Signature ");
                push_text(&mut out, sig.as_str());
                push_text(&mut out, " : transaction not found");
            },
            DepositError::InvalidDepositData(sig) => {
                push_text(&mut out, "Signature ");
                push_text(&mut out, sig.as_str());
                push_text(&mut out, " : invalid deposit data");
            },
            DepositError::InvalidPrincipal(sig) => {
                push_text(&mut out, "Signature ");
                push_text(&mut out, sig.as_str());
                push_text(&mut out, " : invalid ledger principal");
            },
            DepositError::NonDepositTransaction(sig) => {
                push_text(&mut out, "Signature ");
                push_text(&mut out, sig.as_str());
                push_text(&mut out, " : non-Deposit transaction found");
            },
            DepositError::MintingGSolFailed(err) => {
                push_text(&mut out, "Failed to mint gSOL: ");
                push_text(&mut out, err.as_str());
            },
            DepositError::SendingMessageToLedgerFailed { id, code, msg } => {
                push_text(&mut out, "Failed to send a message to the ledger ");
                push_text(&mut out, id.as_str());
                push_text(&mut out, ": ");
                push_signed_decimal(&mut out, *code);
                push_text(&mut out, ": ");
                push_text(&mut out, msg.as_str());
            },
        }
        assert(out@ =~= self.text());
        out
    }
}

/// What is wrong with the payload of a deposit.
#[derive(Clone, Copy, Debug, PartialEq, Eq, Structural)]
pub enum PayloadFault {
    /// The payload is no base64, or too short for a deposit.
    Encoding,
    /// The payload names no principal.
    Principal,
}

/// What the bytes of a deposit payload say: twelve bytes that are passed
/// over, the textual form of the principal that is credited, and in the last
/// eight bytes the amount, little-endian.
pub open spec fn deposit_fields(bytes: Seq<u8>) -> Result<(Seq<u8>, nat), PayloadFault> {
    if bytes.len() < 20 {
        Err(PayloadFault::Encoding)
    } else {
        let text = bytes.subrange(12, bytes.len() - 8);
        if !valid_utf8(text) {
            Err(PayloadFault::Principal)
        } else {
            match principal_from_text(decode_utf8(text)) {
                None => Err(PayloadFault::Principal),
                Some(principal) => Ok(
                    (principal, le_value(bytes.subrange(bytes.len() - 8, bytes.len() as int))),
                ),
            }
        }
    }
}

/// What the base64 text of a deposit payload says.
pub open spec fn deposit_payload(data: Seq<char>) -> Result<(Seq<u8>, nat), PayloadFault> {
    match base64_decoding(data) {
        None => Err(PayloadFault::Encoding),
        Some(bytes) => deposit_fields(bytes),
    }
}

/// The bytes of `v` from `from` up to `to`.
pub fn copy_range(v: &Vec<u8>, from: usize, to: usize) -> (part: Vec<u8>)
    requires
        from <= to <= v.len(),
    ensures
        part@ == v@.subrange(from as int, to as int),
{
    let mut part: Vec<u8> = Vec::new();
    let mut i: usize = from;
    while i < to
        invariant
            from <= i <= to <= v.len(),
            part@ == v@.subrange(from as int, i as int),
        decreases to - i,
    {
        part.push(v[i]);
        assert(part@ =~= v@.subrange(from as int, i + 1));
        i = i + 1;
    }
    part
}

/// Reads the principal and the amount from the bytes of a deposit payload.
pub fn decode_deposit_fields(bytes: &Vec<u8>) -> (r: Result<(Principal, Amount), PayloadFault>)
    ensures
        match deposit_fields(bytes@) {
            Ok((principal, amount)) => r matches Ok(pair) && pair.0@ == principal && pair.1@
                == amount,
            Err(fault) => r == Err::<(Principal, Amount), PayloadFault>(fault),
        },
{
    if bytes.len() < 20 {
        return Err(PayloadFault::Encoding);
    }
    let text = match utf8_text(copy_range(bytes, 12, bytes.len() - 8)) {
        Some(text) => text,
        None => {
            return Err(PayloadFault::Principal);
        },
    };
    let principal = match Principal::from_text(text.as_str()) {
        Some(principal) => principal,
        None => {
            return Err(PayloadFault::Principal);
        },
    };
    let amount = Amount::from_le_bytes(copy_range(bytes, bytes.len() - 8, bytes.len()));
    Ok((principal, amount))
}

impl DepositEvent {
    /// The deposit that a transaction carries: what its payload says, under
    /// the given id, signature and sender. There is none where the payload is
    /// not that of a deposit.
    pub fn new(deposit_id: u64, sol_sig: &str, from_address: &str, encode_data: &str) -> (r: Result<
        DepositEvent,
        PayloadFault,
    >)
        ensures
            match deposit_payload(encode_data@) {
                Ok((principal, amount)) => r matches Ok(deposit) && deposit@ == (DepositView {
                    id: deposit_id,
                    from_sol_address: from_address@,
                    to_icp_address: principal,
                    amount,
                    sol_sig: sol_sig@,
                    mint_block_index: None,
                    retries: 0,
                }),
                Err(fault) => r == Err::<DepositEvent, PayloadFault>(fault),
            },
    {
        let bytes = match base64_decode(encode_data) {
            Some(bytes) => bytes,
            None => {
                return Err(PayloadFault::Encoding);
            },
        };
        match decode_deposit_fields(&bytes) {
            Ok((principal, amount)) => Ok(
                DepositEvent {
                    id: deposit_id,
                    from_sol_address: from_address.to_owned(),
                    to_icp_address: principal,
                    amount,
                    sol_sig: sol_sig.to_owned(),
                    icp_mint_block_index: None,
                    retry: Retriable(0),
                },
            ),
            Err(fault) => Err(fault),
        }
    }
}

/// The `width` low bytes of `n`, least significant first.
pub open spec fn le_bytes(n: nat, width: nat) -> Seq<u8>
    decreases width,
{
    if width == 0 {
        Seq::empty()
    } else {
        le_bytes(n, (width - 1) as nat).push(((n / pow256((width - 1) as nat)) % 256) as u8)
    }
}

pub proof fn lemma_le_bytes_len(n: nat, width: nat)
    ensures
        le_bytes(n, width).len() == width,
    decreases width,
{
    if width > 0 {
        lemma_le_bytes_len(n, (width - 1) as nat);
    }
}

pub proof fn lemma_pow256_positive(k: nat)
    ensures
        pow256(k) > 0,
    decreases k,
{
    if k > 0 {
        lemma_pow256_positive((k - 1) as nat);
    }
}

/// The little-endian bytes of a number denote the number, as far as they
/// reach.
pub proof fn lemma_le_bytes_value(n: nat, width: nat)
    ensures
        le_value(le_bytes(n, width)) == n % pow256(width),
    decreases width,
{
    lemma_pow256_positive(width);
    if width == 0 {
        assert(n % 1 == 0);
    } else {
        let w = (width - 1) as nat;
        lemma_le_bytes_value(n, w);
        lemma_le_bytes_len(n, w);
        lemma_pow256_positive(w);
        let p = pow256(w);
        let digit = (n / p) % 256;
        assert(le_bytes(n, width).drop_last() =~= le_bytes(n, w));
        assert(le_bytes(n, width).last() == digit as u8);
        assert(pow256(width) == 256 * p);
        vstd::arithmetic::div_mod::lemma_mod_breakdown(n as int, p as int, 256);
        assert(p * 256 == 256 * p) by (nonlinear_arith);
        assert(p * ((n / p) % 256) == ((n / p) % 256) * p) by (nonlinear_arith);
        assert(n % (256 * p) == n % p + digit * p);
        assert(digit < 256);
    }
}

/// A payload that is made of twelve bytes, the textual form of a principal
/// and the eight little-endian bytes of an amount says that principal and
/// that amount.
pub proof fn lemma_deposit_payload_round_trip(
    discriminator: Seq<u8>,
    text: Seq<char>,
    principal: Seq<u8>,
    amount: u64,
)
    requires
        discriminator.len() == 12,
        principal_from_text(text) == Some(principal),
    ensures
        deposit_fields(discriminator + encode_utf8(text) + le_bytes(amount as nat, 8)) == Ok::<
            (Seq<u8>, nat),
            PayloadFault,
        >((principal, amount as nat)),
{
    let bytes = discriminator + encode_utf8(text) + le_bytes(amount as nat, 8);
    lemma_le_bytes_len(amount as nat, 8);
    lemma_le_bytes_value(amount as nat, 8);
    assert(bytes.subrange(12, bytes.len() - 8) =~= encode_utf8(text));
    assert(bytes.subrange(bytes.len() - 8, bytes.len() as int) =~= le_bytes(amount as nat, 8));
    vstd::utf8::encode_utf8_valid_utf8(text);
    vstd::utf8::encode_utf8_decode_utf8(text);
    assert(pow256(8) == 0x1_0000_0000_0000_0000) by {
        reveal_with_fuel(pow256, 9);
    }
    assert((amount as nat) % 0x1_0000_0000_0000_0000 == amount as nat);
}

/// The log line of the deposit instruction.
pub open spec fn deposit_line() -> Seq<char> {
    "Program log: Instruction: Deposit"@
}

/// The log line that reports the success of the source program.
pub open spec fn success_line(contract_address: Seq<char>) -> Seq<char> {
    "Program "@ + contract_address + " success"@
}

/// What opens the log line that carries the payload.
pub open spec fn data_prefix() -> Seq<char> {
    "Program data: "@
}

/// Whether `line` is among the log lines.
pub open spec fn has_line(lines: Seq<String>, line: Seq<char>) -> bool {
    exists|i: int| 0 <= i < lines.len() && (#[trigger] lines[i])@ == line
}

/// The position of the first log line that carries a payload.
pub open spec fn first_data_line(lines: Seq<String>) -> Option<int>
    decreases lines.len(),
{
    if lines.len() == 0 {
        None
    } else {
        match first_data_line(lines.drop_last()) {
            Some(i) => Some(i),
            None => if is_prefix(data_prefix(), lines.last()@) {
                Some(lines.len() - 1)
            } else {
                None
            },
        }
    }
}

/// What a deposit says, as the transaction shows it.
pub struct DepositFields {
    pub sol_sig: Seq<char>,
    pub from_sol_address: Seq<char>,
    pub to_icp_address: Seq<u8>,
    pub amount: nat,
}

/// What a fetched transaction is.
pub enum Classified {
    /// A deposit to the source program.
    Deposit(DepositFields),
    /// A transaction without a signature or without an account.
    Malformed,
    /// A transaction that lacks one of the three marks of a deposit.
    NonDeposit(Seq<char>),
    /// A deposit whose payload is no base64 or too short.
    InvalidData(Seq<char>),
    /// A deposit whose payload names no principal.
    InvalidPrincipal(Seq<char>),
}

/// What a fetched transaction is. It is a deposit where its log holds the line
/// of the deposit instruction, the line of the source program's success and a
/// line with a payload, and the payload of the first such line is that of a
/// deposit.
pub open spec fn classify(contract_address: Seq<char>, tx: GetTransactionResponse) -> Classified {
    let lines = tx.meta.log_messages@;
    if tx.transaction.signatures@.len() == 0 || tx.transaction.message.account_keys@.len() == 0 {
        Classified::Malformed
    } else {
        let sig = tx.transaction.signatures@[0]@;
        if !has_line(lines, deposit_line()) || !has_line(lines, success_line(contract_address))
            || first_data_line(lines) is None {
            Classified::NonDeposit(sig)
        } else {
            let line = lines[first_data_line(lines)->0]@;
            match deposit_payload(line.subrange(data_prefix().len() as int, line.len() as int)) {
                Ok((principal, amount)) => Classified::Deposit(
                    DepositFields {
                        sol_sig: sig,
                        from_sol_address: tx.transaction.message.account_keys@[0]@,
                        to_icp_address: principal,
                        amount,
                    },
                ),
                Err(PayloadFault::Encoding) => Classified::InvalidData(sig),
                Err(PayloadFault::Principal) => Classified::InvalidPrincipal(sig),
            }
        }
    }
}

/// Tests whether `line` is among the log lines.
pub fn contains_line(lines: &Vec<String>, line: &str) -> (found: bool)
    ensures
        found == has_line(lines@, line@),
{
    let mut i: usize = 0;
    while i < lines.len()
        invariant
            i <= lines.len(),
            forall|j: int| 0 <= j < i ==> (#[trigger] lines@[j])@ != line@,
        decreases lines.len() - i,
    {
        if crate::text::same_text(lines[i].as_str(), line) {
            return true;
        }
        i = i + 1;
    }
    false
}

pub proof fn lemma_first_data_line(lines: Seq<String>)
    ensures
        match first_data_line(lines) {
            Some(i) => 0 <= i < lines.len() && is_prefix(data_prefix(), lines[i]@) && forall|
                j: int,
            |
                0 <= j < i ==> !is_prefix(data_prefix(), (#[trigger] lines[j])@),
            None => forall|j: int|
                0 <= j < lines.len() ==> !is_prefix(data_prefix(), (#[trigger] lines[j])@),
        },
    decreases lines.len(),
{
    if lines.len() > 0 {
        lemma_first_data_line(lines.drop_last());
        assert(forall|j: int| 0 <= j < lines.len() - 1 ==> lines.drop_last()[j] == lines[j]);
    }
}

/// Finds the first log line that carries a payload.
pub fn find_data_line(lines: &Vec<String>) -> (at: Option<usize>)
    ensures
        match at {
            Some(i) => first_data_line(lines@) == Some(i as int) && i < lines.len(),
            None => first_data_line(lines@) is None,
        },
{
    let mut i: usize = 0;
    proof {
        lemma_first_data_line(lines@);
    }
    while i < lines.len()
        invariant
            i <= lines.len(),
            forall|j: int| 0 <= j < i ==> !is_prefix(data_prefix(), (#[trigger] lines@[j])@),
        decreases lines.len() - i,
    {
        if starts_with(lines[i].as_str(), "Program data: ") {
            proof {
                lemma_first_data_line(lines@);
            }
            return Some(i);
        }
        i = i + 1;
    }
    proof {
        lemma_first_data_line(lines@);
    }
    None
}

/// Classifies a fetched transaction. A deposit gets the next deposit id;
/// another transaction leaves the state as it is.
pub fn process_transaction_logs(state: &mut State, transaction: &GetTransactionResponse) -> (r:
    Result<DepositEvent, DepositError>)
    requires
        old(state)@.deposit_id_counter < u64::MAX,
    ensures
        old(state).wf() ==> final(state).wf(),
        match classify(old(state)@.solana_contract_address, *transaction) {
            Classified::Deposit(fields) => {
                &&& r matches Ok(deposit)
                &&& r->Ok_0@ == (DepositView {
                    id: old(state)@.deposit_id_counter,
                    from_sol_address: fields.from_sol_address,
                    to_icp_address: fields.to_icp_address,
                    amount: fields.amount,
                    sol_sig: fields.sol_sig,
                    mint_block_index: None,
                    retries: 0,
                })
                &&& final(state)@ == (StateView {
                    deposit_id_counter: (old(state)@.deposit_id_counter + 1) as u64,
                    ..old(state)@
                })
            },
            Classified::Malformed => {
                &&& r matches Err(DepositError::InvalidDepositData(sig))
                &&& r->Err_0->InvalidDepositData_0@.len() == 0
                &&& final(state)@ == old(state)@
            },
            Classified::NonDeposit(sig) => {
                &&& r matches Err(DepositError::NonDepositTransaction(s))
                &&& r->Err_0->NonDepositTransaction_0@ == sig
                &&& final(state)@ == old(state)@
            },
            Classified::InvalidData(sig) => {
                &&& r matches Err(DepositError::InvalidDepositData(s))
                &&& r->Err_0->InvalidDepositData_0@ == sig
                &&& final(state)@ == old(state)@
            },
            Classified::InvalidPrincipal(sig) => {
                &&& r matches Err(DepositError::InvalidPrincipal(s))
                &&& r->Err_0->InvalidPrincipal_0@ == sig
                &&& final(state)@ == old(state)@
            },
        },
{
    if transaction.transaction.signatures.len() == 0
        || transaction.transaction.message.account_keys.len() == 0 {
        return Err(DepositError::InvalidDepositData(String::new()));
    }
    let signature = &transaction.transaction.signatures[0];
    let solana_address = &transaction.transaction.message.account_keys[0];
    let lines = &transaction.meta.log_messages;
    let mut success = "Program ".to_owned();
    success.append(state.solana_contract_address.as_str());
    success.append(" success");
    if !contains_line(lines, "Program log: Instruction: Deposit") || !contains_line(
        lines,
        success.as_str(),
    ) {
        return Err(DepositError::NonDepositTransaction(signature.clone()));
    }
    let at = match find_data_line(lines) {
        Some(at) => at,
        None => {
            return Err(DepositError::NonDepositTransaction(signature.clone()));
        },
    };
    proof {
        lemma_first_data_line(lines@);
    }
    let data = match strip_prefix(lines[at].as_str(), "Program data: ") {
        Some(data) => data,
        None => {
            return Err(DepositError::NonDepositTransaction(signature.clone()));
        },
    };
    match DepositEvent::new(
        state.deposit_id_counter,
        signature.as_str(),
        solana_address.as_str(),
        data.as_str(),
    ) {
        Ok(deposit) => {
            let _ = state.next_deposit_id();
            Ok(deposit)
        },
        Err(PayloadFault::Encoding) => Err(DepositError::InvalidDepositData(signature.clone())),
        Err(PayloadFault::Principal) => Err(DepositError::InvalidPrincipal(signature.clone())),
    }
}

} // verus!
