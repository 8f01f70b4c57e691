//! Validator identities: 32-byte public keys and their base58 text form.

use vstd::prelude::*;

verus! {

/// A 32-byte public key that names a vote account or a node.
#[derive(Clone, Copy, Debug, PartialEq, Eq, Hash)]
pub struct PublicKeyId {
    bytes: [u8; 32],
}

impl View for PublicKeyId {
    type V = Seq<u8>;

    closed spec fn view(&self) -> Seq<u8> {
        self.bytes@
    }
}

/// The key bytes that `solana_sdk::pubkey::Pubkey` decodes from a text, or
/// `None` where it rejects the text.
pub uninterp spec fn decoded_public_key(text: Seq<char>) -> Option<Seq<u8>>;

/// Calls `<solana_sdk::pubkey::Pubkey as FromStr>::from_str` and copies the
/// key bytes out. The decoding itself is not described here: the contract
/// only names its outcome, which depends on the text alone.
#[verifier::external_body]
fn decode_public_key(text: &str) -> (key: Option<PublicKeyId>)
    ensures
        key is Some <==> decoded_public_key(text@) is Some,
        key matches Some(k) ==> decoded_public_key(text@) == Some(k@),
{
    text.parse::<solana_sdk::pubkey::Pubkey>().ok().map(
        |key| PublicKeyId { bytes: key.to_bytes() },
    )
}

impl PublicKeyId {
    /// Wraps raw key bytes.
    pub fn new(bytes: [u8; 32]) -> (key: PublicKeyId)
        ensures
            key@ == bytes@,
    {
        PublicKeyId { bytes }
    }

    /// The raw key bytes.
    pub fn to_bytes(&self) -> (bytes: [u8; 32])
        ensures
            bytes@ == self@,
    {
        self.bytes
    }

    /// Reads a key from its base58 text. `None` where the text is no key.
    pub fn parse(text: &str) -> (key: Option<PublicKeyId>)
        ensures
            key is Some <==> decoded_public_key(text@) is Some,
            key matches Some(k) ==> decoded_public_key(text@) == Some(k@),
    {
        decode_public_key(text)
    }

    /// Whether two keys hold the same bytes.
    pub fn same_as(&self, other: &PublicKeyId) -> (same: bool)
        ensures
            same == (self@ == other@),
    {
        let mut i: usize = 0;
        while i < 32
            invariant
                i <= 32,
                forall|j: int| 0 <= j < i ==> self.bytes@[j] == other.bytes@[j],
            decreases 32 - i,
        {
            if self.bytes[i] != other.bytes[i] {
                return false;
            }
            i += 1;
        }
        assert(self.bytes@ =~= other.bytes@);
        true
    }
}

} // verus!
