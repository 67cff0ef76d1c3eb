use solana_sdk::pubkey::{ParsePubkeyError, Pubkey};
use std::str::FromStr;
use vstd::prelude::*;

verus! {

/// Number of bytes of an identifier.
pub const PUBKEY_BYTES: usize = 32;

/// Why a text does not stand for an identifier.
#[derive(Clone, Copy, Debug, PartialEq, Eq, Structural)]
pub enum ParseError {
    /// The text does not decode to exactly 32 bytes.
    WrongSize,
    /// The text holds a character outside the base-58 alphabet.
    Invalid,
}

/// What `Pubkey::from_str` of solana_sdk makes of a text: the 32 bytes that the
/// text encodes in base 58, or the reason why it encodes none.
pub uninterp spec fn decoded_pubkey(text: Seq<char>) -> Result<Seq<u8>, ParseError>;

/// `Pubkey::from_str` of solana_sdk, with the key handed out as its bytes and the
/// error as the variant of the same name. The result is the one that
/// `decoded_pubkey` names for the text.
#[verifier::external_body]
fn decode_pubkey(text: &str) -> (decoded: Result<[u8; 32], ParseError>)
    ensures
        match decoded {
            Ok(bytes) => decoded_pubkey(text@) == Ok::<Seq<u8>, ParseError>(bytes@),
            Err(error) => decoded_pubkey(text@) == Err::<Seq<u8>, ParseError>(error),
        },
{
    match Pubkey::from_str(text) {
        Ok(key) => Ok(key.to_bytes()),
        Err(ParsePubkeyError::WrongSize) => Err(ParseError::WrongSize),
        Err(ParsePubkeyError::Invalid) => Err(ParseError::Invalid),
    }
}

/// An identifier: 32 bytes, compared and ordered byte by byte.
#[derive(Clone, Copy, Debug, PartialEq, Eq, PartialOrd, Ord, Hash)]
pub struct Pubkey2 {
    bytes: [u8; 32],
}

impl View for Pubkey2 {
    type V = Seq<u8>;

    closed spec fn view(&self) -> Seq<u8> {
        self.bytes@
    }
}

impl Pubkey2 {
    /// The identifier made of the given bytes.
    pub fn new_from_array(bytes: [u8; 32]) -> (key: Pubkey2)
        ensures
            key@ == bytes@,
    {
        Pubkey2 { bytes }
    }

    /// The bytes of the identifier.
    pub fn as_bytes(&self) -> (bytes: &[u8; 32])
        ensures
            bytes@ == self@,
    {
        &self.bytes
    }

    /// Every identifier has 32 bytes.
    pub proof fn lemma_len(self)
        ensures
            self@.len() == PUBKEY_BYTES,
    {
    }

    /// Decodes the base-58 text of an identifier.
    pub fn parse(text: &str) -> (parsed: Result<Pubkey2, ParseError>)
        ensures
            match parsed {
                Ok(key) => decoded_pubkey(text@) == Ok::<Seq<u8>, ParseError>(key@),
                Err(error) => decoded_pubkey(text@) == Err::<Seq<u8>, ParseError>(error),
            },
    {
        match decode_pubkey(text) {
            Ok(bytes) => Ok(Pubkey2 { bytes }),
            Err(error) => Err(error),
        }
    }
}

} // verus!
