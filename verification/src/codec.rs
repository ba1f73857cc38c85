//! Base64 and UTF-8 decoding of client-supplied payloads.
use vstd::prelude::*;
use vstd::utf8::{decode_utf8, valid_utf8};

use base64::engine::general_purpose::STANDARD;
use base64::Engine;

use crate::text::{decimal, push_decimal};

verus! {

/// Why a base64 text could not be decoded; the variants and fields are
/// those of `base64::DecodeError`.
#[derive(Debug, Clone, Copy, PartialEq, Eq, Structural)]
pub enum Base64Error {
    /// A byte outside the alphabet, with its offset.
    InvalidByte { offset: usize, byte: u8 },
    /// The number of symbols cannot encode whole bytes.
    InvalidLength { length: usize },
    /// The last symbol has bits set that would be dropped.
    InvalidLastSymbol { offset: usize, byte: u8 },
    /// Missing or misplaced `=` padding.
    InvalidPadding,
}

/// What the standard base64 engine (RFC 4648 alphabet, canonical `=`
/// padding required) makes of a text: the decoded bytes or the error.
pub uninterp spec fn base64_standard_decode(text: Seq<char>) -> Result<Seq<u8>, Base64Error>;

/// Decodes base64 text with `base64::engine::general_purpose::STANDARD`
/// (`Engine::decode`). Claimed: the result is the one named by
/// `base64_standard_decode` for the text, the error converted variant by
/// variant. Nothing more is stated of which texts decode.
#[verifier::external_body]
pub(crate) fn decode_base64(text: &str) -> (r: Result<Vec<u8>, Base64Error>)
    ensures
        match r {
            Ok(bytes) => base64_standard_decode(text@) == Ok::<Seq<u8>, Base64Error>(bytes@),
            Err(e) => base64_standard_decode(text@) == Err::<Seq<u8>, Base64Error>(e),
        },
{
    match STANDARD.decode(text) {
        Ok(bytes) => Ok(bytes),
        Err(base64::DecodeError::InvalidByte(offset, byte)) => Err(Base64Error::InvalidByte { offset, byte }),
        Err(base64::DecodeError::InvalidLength(length)) => Err(Base64Error::InvalidLength { length }),
        Err(base64::DecodeError::InvalidLastSymbol(offset, byte)) => Err(Base64Error::InvalidLastSymbol { offset, byte }),
        Err(base64::DecodeError::InvalidPadding) => Err(Base64Error::InvalidPadding),
    }
}

/// The message `base64::DecodeError` displays for each error.
pub open spec fn base64_error_text(e: Base64Error) -> Seq<char> {
    match e {
        Base64Error::InvalidByte { offset, byte } => "Invalid symbol "@ + decimal(byte as nat) + ", offset "@
            + decimal(offset as nat) + "."@,
        Base64Error::InvalidLength { length } => "Invalid input length: "@ + decimal(length as nat),
        Base64Error::InvalidLastSymbol { offset, byte } => "Invalid last symbol "@ + decimal(byte as nat)
            + ", offset "@ + decimal(offset as nat) + "."@,
        Base64Error::InvalidPadding => "Invalid padding"@,
    }
}

impl Base64Error {
    /// The error message.
    pub fn message(&self) -> (m: String)
        ensures
            m@ == base64_error_text(*self),
    {
        match self {
            Base64Error::InvalidByte { offset, byte } => {
                let mut m = String::from_str("Invalid symbol ");
                push_decimal(&mut m, *byte as u64);
                m.append(", offset ");
                push_decimal(&mut m, *offset as u64);
                m.append(".");
                m
            },
            Base64Error::InvalidLength { length } => {
                let mut m = String::from_str("Invalid input length: ");
                push_decimal(&mut m, *length as u64);
                m
            },
            Base64Error::InvalidLastSymbol { offset, byte } => {
                let mut m = String::from_str("Invalid last symbol ");
                push_decimal(&mut m, *byte as u64);
                m.append(", offset ");
                push_decimal(&mut m, *offset as u64);
                m.append(".");
                m
            },
            Base64Error::InvalidPadding => String::from_str("Invalid padding"),
        }
    }
}

/// Turns bytes into a string with `String::from_utf8`: some string exactly
/// when the bytes are valid UTF-8, holding the characters they encode.
#[verifier::external_body]
pub(crate) fn utf8_string(bytes: Vec<u8>) -> (r: Option<String>)
    ensures
        r is Some <==> valid_utf8(bytes@),
        r matches Some(s) ==> s@ == decode_utf8(bytes@),
{
    match String::from_utf8(bytes) {
        Ok(s) => Some(s),
        Err(_) => None,
    }
}

} // verus!
