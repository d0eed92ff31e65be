//! Validator identity keys and their text form.

use crate::error::GatewayError;
use vstd::prelude::*;

verus! {

/// Number of bytes in an identity key.
pub const IDENTITY_KEY_LEN: usize = 32;

/// Number of characters in the text form of an identity key: a prefix of
/// 13 characters, a separator, 52 symbols of five bits each for the key and
/// 6 for the checksum.
pub const IDENTITY_TEXT_LEN: usize = 72;

/// Position, in the text form, of the last symbol that carries bits of the
/// key.
pub const LAST_KEY_SYMBOL: usize = 65;

/// The identity of a validator: the bytes of its verification key.
#[derive(Clone, Copy, Debug, PartialEq, Eq)]
pub struct IdentityKey {
    pub bytes: [u8; 32],
}

/// The canonical text form of the key `bytes`: Bech32m with the prefix
/// `penumbravalid`.
pub uninterp spec fn identity_key_text(bytes: Seq<u8>) -> Seq<char>;

/// The key that `text` writes, if it writes one.
pub uninterp spec fn identity_key_bytes(text: Seq<char>) -> Option<Seq<u8>>;

/// Whether `text` has the length of an identity key's text form and ends
/// its key symbols in one of the two symbols, in either case, whose low
/// four bits are zero.
///
/// The 52 key symbols carry 260 bits, four more than the key has; the
/// surplus bits are the low bits of the last symbol and must be zero.
pub open spec fn has_identity_shape(text: Seq<char>) -> bool {
    &&& text.len() == IDENTITY_TEXT_LEN
    &&& (text[LAST_KEY_SYMBOL as int] == 'q' || text[LAST_KEY_SYMBOL as int] == 's'
        || text[LAST_KEY_SYMBOL as int] == 'Q' || text[LAST_KEY_SYMBOL as int] == 'S')
}

/// Writes `key` with the `Display` impl of `penumbra_sdk_stake::IdentityKey`.
///
/// Trusted: the result is the Bech32m text of the key's bytes, a function of
/// the bytes alone.
#[verifier::external_body]
pub(crate) fn display_identity_key(key: &IdentityKey) -> (text: String)
    ensures
        text@ == identity_key_text(key.bytes@),
{
    penumbra_sdk_stake::IdentityKey(key.bytes.into()).to_string()
}

/// Reads `text` with the `FromStr` impl of `penumbra_sdk_stake::IdentityKey`.
///
/// Trusted: whether a key comes back, and its bytes, are functions of the
/// text alone.
///
/// The impl decodes with `bech32str::decode`, which checks the checksum, the
/// variant and the prefix and then unwraps the regrouping of the five-bit
/// symbols into bytes (`Vec::<u8>::from_base32`). The regrouping fails, and
/// the call panics, on five or more surplus bits or on surplus bits that are
/// not zero. A text of the required shape that gets that far has 52 key
/// symbols: the surplus is the four low bits of the last of them, and they
/// are zero.
#[verifier::external_body]
pub(crate) fn read_identity_key(text: &str) -> (key: Option<IdentityKey>)
    requires
        has_identity_shape(text@),
    ensures
        match key {
            Some(k) => identity_key_bytes(text@) == Some(k.bytes@),
            None => identity_key_bytes(text@) is None,
        },
{
    match text.parse::<penumbra_sdk_stake::IdentityKey>() {
        Ok(key) => Some(IdentityKey { bytes: key.to_bytes() }),
        Err(_) => None,
    }
}

impl IdentityKey {
    /// The key whose bytes are `bytes`, where there are exactly 32 of them.
    pub fn from_bytes(bytes: &Vec<u8>) -> (key: Option<IdentityKey>)
        ensures
            key is Some <==> bytes@.len() == IDENTITY_KEY_LEN,
            key matches Some(k) ==> k.bytes@ == bytes@,
    {
        if bytes.len() != IDENTITY_KEY_LEN {
            return None;
        }
        let mut out: [u8; 32] = [0u8; 32];
        let mut i: usize = 0;
        while i < IDENTITY_KEY_LEN
            invariant
                i <= IDENTITY_KEY_LEN,
                bytes@.len() == IDENTITY_KEY_LEN,
                forall|j: int| 0 <= j < i ==> out@[j] == bytes@[j],
            decreases IDENTITY_KEY_LEN - i,
        {
            out[i] = bytes[i];
            i += 1;
        }
        assert(out@ =~= bytes@);
        Some(IdentityKey { bytes: out })
    }

    /// The canonical text form of the key.
    pub fn to_text(&self) -> (text: String)
        ensures
            text@ == identity_key_text(self.bytes@),
    {
        display_identity_key(self)
    }

    /// Reads a key from its text form.
    ///
    /// A text that lacks the shape of a key's text form is rejected without
    /// being decoded.
    pub fn parse(text: &str) -> (key: Result<IdentityKey, GatewayError>)
        ensures
            match key {
                Ok(k) => has_identity_shape(text@) && identity_key_bytes(text@) == Some(k.bytes@),
                Err(e) => e == GatewayError::MalformedIdentity && (!has_identity_shape(text@)
                    || identity_key_bytes(text@) is None),
            },
    {
        if text.unicode_len() != IDENTITY_TEXT_LEN {
            return Err(GatewayError::MalformedIdentity);
        }
        let last: char = text.get_char(LAST_KEY_SYMBOL);
        if !(last == 'q' || last == 's' || last == 'Q' || last == 'S') {
            return Err(GatewayError::MalformedIdentity);
        }
        match read_identity_key(text) {
            Some(key) => Ok(key),
            None => Err(GatewayError::MalformedIdentity),
        }
    }
}

} // verus!
