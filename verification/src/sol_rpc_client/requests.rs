//! The options that go with each JSON-RPC call, and how they are written.

use vstd::prelude::*;

use crate::lifecycle::text_view;
use crate::text::{decimal_text, json_string, push_decimal, push_json_string, push_text};

verus! {

/// The options of a signature scan.
#[derive(Debug, PartialEq, Eq)]
pub struct GetSignaturesForAddressRequestOptions {
    pub limit: Option<u64>,
    pub commitment: Option<String>,
    /// Only signatures newer than this one are reported.
    pub until: Option<String>,
    /// Only signatures older than this one are reported.
    pub before: Option<String>,
}

/// The options of a transaction fetch.
#[derive(Debug, PartialEq, Eq)]
pub struct GetTransactionRequestOptions {
    pub commitment: Option<String>,
}

/// A JSON string literal, or `null` for an absent text.
pub open spec fn json_optional_string(text: Option<Seq<char>>) -> Seq<char> {
    match text {
        Some(t) => json_string(t),
        None => "null"@,
    }
}

/// A JSON number, or `null` for an absent number.
pub open spec fn json_optional_number(n: Option<u64>) -> Seq<char> {
    match n {
        Some(n) => decimal_text(n as nat),
        None => "null"@,
    }
}

/// Appends a JSON string literal, or `null` for an absent text.
pub fn push_optional_string(out: &mut String, text: &Option<String>)
    ensures
        final(out)@ == old(out)@ + json_optional_string(text_view(*text)),
{
    match text {
        Some(t) => push_json_string(out, t.as_str()),
        None => push_text(out, "null"),
    }
}

/// The options of a signature scan as a JSON object, its members in the order
/// of their names.
pub open spec fn signatures_options_text(
    limit: Option<u64>,
    commitment: Option<Seq<char>>,
    until: Option<Seq<char>>,
    before: Option<Seq<char>>,
) -> Seq<char> {
    "{\"before\":"@ + json_optional_string(before) + ",\"commitment\":"@ + json_optional_string(
        commitment,
    ) + ",\"limit\":"@ + json_optional_number(limit) + ",\"until\":"@ + json_optional_string(
        until,
    ) + "}"@
}

impl GetSignaturesForAddressRequestOptions {
    /// The options as a JSON object.
    pub open spec fn json(self) -> Seq<char> {
        signatures_options_text(
            self.limit,
            text_view(self.commitment),
            text_view(self.until),
            text_view(self.before),
        )
    }

    /// Appends the options as a JSON object.
    pub fn write_json(&self, out: &mut String)
        ensures
            final(out)@ == old(out)@ + self.json(),
    {
        push_text(out, "{\"before\":");
        push_optional_string(out, &self.before);
        push_text(out, ",\"commitment\":");
        push_optional_string(out, &self.commitment);
        push_text(out, ",\"limit\":");
        match self.limit {
            Some(n) => push_decimal(out, n),
            None => push_text(out, "null"),
        }
        push_text(out, ",\"until\":");
        push_optional_string(out, &self.until);
        push_text(out, "}");
        assert(out@ =~= old(out)@ + self.json());
    }
}

/// The options of a transaction fetch as a JSON object.
pub open spec fn transaction_options_text(commitment: Option<Seq<char>>) -> Seq<char> {
    "{\"commitment\":"@ + json_optional_string(commitment) + "}"@
}

impl GetTransactionRequestOptions {
    /// The options as a JSON object.
    pub open spec fn json(self) -> Seq<char> {
        transaction_options_text(text_view(self.commitment))
    }

    /// Appends the options as a JSON object.
    pub fn write_json(&self, out: &mut String)
        ensures
            final(out)@ == old(out)@ + self.json(),
    {
        push_text(out, "{\"commitment\":");
        push_optional_string(out, &self.commitment);
        push_text(out, "}");
        assert(out@ =~= old(out)@ + self.json());
    }
}

} // verus!
