//! Ledger principals: up to 29 opaque bytes with a checksummed textual form.

use vstd::prelude::*;

verus! {

/// The longest principal, in bytes.
pub const MAX_PRINCIPAL_LENGTH: usize = 29;

/// The textual form of a principal: base32 of a checksum and the bytes, in
/// groups of five separated by dashes.
pub uninterp spec fn principal_text(bytes: Seq<u8>) -> Seq<char>;

/// The bytes of the principal that a text denotes, if it denotes one.
pub uninterp spec fn principal_from_text(text: Seq<char>) -> Option<Seq<u8>>;

/// `Principal::to_text` of `candid`, on the principal made of the bytes given.
/// The text it gives is one that `Principal::from_text` takes back to the same
/// principal.
#[verifier::external_body]
pub(crate) fn principal_to_text(bytes: &[u8]) -> (text: String)
    requires
        bytes@.len() <= 29,
    ensures
        text@ == principal_text(bytes@),
        principal_from_text(text@) == Some(bytes@),
{
    candid::Principal::from_slice(bytes).to_text()
}

/// `Principal::from_text` of `candid`: the bytes of the principal, at most 29
/// of them, or nothing where the text is not the textual form of a principal.
#[verifier::external_body]
pub(crate) fn principal_parse(text: &str) -> (bytes: Option<Vec<u8>>)
    ensures
        bytes is Some == principal_from_text(text@) is Some,
        bytes matches Some(b) ==> Some(b@) == principal_from_text(text@) && b@.len() <= 29,
{
    match candid::Principal::from_text(text) {
        Ok(principal) => Some(principal.as_slice().to_vec()),
        Err(_) => None,
    }
}

/// An identity on the ledger's chain.
#[derive(Debug, PartialEq, Eq)]
pub struct Principal {
    bytes: Vec<u8>,
}

impl View for Principal {
    type V = Seq<u8>;

    closed spec fn view(&self) -> Seq<u8> {
        self.bytes@
    }
}

/// The bytes of the anonymous principal.
pub open spec fn anonymous_bytes() -> Seq<u8> {
    seq![4u8]
}

impl Principal {
    /// A principal holds at most 29 bytes.
    #[verifier::type_invariant]
    spec fn within_length(&self) -> bool {
        self.bytes@.len() <= 29
    }

    /// The principal that stands for callers without an identity.
    pub fn anonymous() -> (p: Self)
        ensures
            p@ == anonymous_bytes(),
    {
        let mut bytes: Vec<u8> = Vec::new();
        bytes.push(4);
        assert(bytes@ =~= anonymous_bytes());
        Principal { bytes }
    }

    /// The principal made of the given bytes, if there are at most 29.
    pub fn from_bytes(bytes: Vec<u8>) -> (p: Option<Self>)
        ensures
            p is Some == (bytes@.len() <= 29),
            p matches Some(q) ==> q@ == bytes@,
    {
        if bytes.len() <= MAX_PRINCIPAL_LENGTH {
            Some(Principal { bytes })
        } else {
            None
        }
    }

    pub fn as_bytes(&self) -> (bytes: &Vec<u8>)
        ensures
            bytes@ == self@,
            bytes@.len() <= 29,
    {
        proof {
            use_type_invariant(self);
        }
        &self.bytes
    }

    /// The principal that a text denotes, if it denotes one.
    pub fn from_text(text: &str) -> (p: Option<Self>)
        ensures
            p is Some == principal_from_text(text@) is Some,
            p matches Some(q) ==> Some(q@) == principal_from_text(text@),
    {
        match principal_parse(text) {
            Some(bytes) => Some(Principal { bytes }),
            None => None,
        }
    }

    /// The textual form of the principal.
    pub fn to_text(&self) -> (text: String)
        ensures
            text@ == principal_text(self@),
            principal_from_text(text@) == Some(self@),
    {
        proof {
            use_type_invariant(self);
        }
        principal_to_text(self.bytes.as_slice())
    }

    /// Whether two principals are the same identity.
    pub fn same(&self, other: &Principal) -> (eq: bool)
        ensures
            eq == (self@ == other@),
    {
        same_bytes(&self.bytes, &other.bytes)
    }

    pub fn is_anonymous(&self) -> (anonymous: bool)
        ensures
            anonymous == (self@ == anonymous_bytes()),
    {
        let eq = self.bytes.len() == 1 && self.bytes[0] == 4;
        proof {
            if eq {
                assert(self.bytes@ =~= anonymous_bytes());
            }
        }
        eq
    }

}

impl Clone for Principal {
    fn clone(&self) -> (p: Self)
        ensures
            p@ == self@,
    {
        proof {
            use_type_invariant(self);
        }
        Principal { bytes: copy_bytes(&self.bytes) }
    }
}

/// Whether two byte strings are equal.
pub fn same_bytes(a: &Vec<u8>, b: &Vec<u8>) -> (eq: bool)
    ensures
        eq == (a@ == b@),
{
    if a.len() != b.len() {
        return false;
    }
    let mut i: usize = 0;
    while i < a.len()
        invariant
            a.len() == b.len(),
            i <= a.len(),
            forall|j: int| 0 <= j < i ==> a@[j] == b@[j],
        decreases a.len() - i,
    {
        if a[i] != b[i] {
            return false;
        }
        i = i + 1;
    }
    assert(a@ =~= b@);
    true
}

/// A copy of a byte string.
pub fn copy_bytes(a: &Vec<u8>) -> (b: Vec<u8>)
    ensures
        b@ == a@,
{
    let mut b: Vec<u8> = Vec::new();
    let mut i: usize = 0;
    while i < a.len()
        invariant
            i <= a.len(),
            b@ == a@.subrange(0, i as int),
        decreases a.len() - i,
    {
        b.push(a[i]);
        assert(b@ =~= a@.subrange(0, i + 1));
        i = i + 1;
    }
    assert(b@ =~= a@);
    b
}

} // verus!
