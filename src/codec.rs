//! Turning user text into canonical bytes and bytes back into display text,
//! in either of two modes: plain text (UTF-8) or hexadecimal.
use vstd::prelude::*;
use vstd::utf8::*;
use crate::hex::{decode, decoded, encode, encoded, DecodeError};

verus! {

/// How a key or a value is written by the user and shown back.
#[derive(PartialEq, Eq, Structural, Clone, Copy, Debug)]
pub enum EncodingMode {
    Text,
    Hex,
}

/// The hexadecimal switches of one operation: `hex` stands for both.
#[derive(PartialEq, Eq, Structural, Clone, Copy, Debug)]
pub struct HexFlags {
    pub hex: bool,
    pub key_hex: bool,
    pub value_hex: bool,
}

/// The modes of one operation, fixed for all its keys and all its values.
#[derive(PartialEq, Eq, Structural, Clone, Copy, Debug)]
pub struct Modes {
    pub key: EncodingMode,
    pub value: EncodingMode,
}

pub open spec fn mode_of(set: bool) -> EncodingMode {
    if set {
        EncodingMode::Hex
    } else {
        EncodingMode::Text
    }
}

/// The modes named by two resolved switches.
pub open spec fn modes_of(key_hex: bool, value_hex: bool) -> Modes {
    Modes { key: mode_of(key_hex), value: mode_of(value_hex) }
}

/// The modes that the switches resolve to: keys are hexadecimal under
/// `key_hex` or `hex`, values under `value_hex` or `hex`.
pub open spec fn resolved_modes(flags: HexFlags) -> Modes {
    modes_of(flags.key_hex || flags.hex, flags.value_hex || flags.hex)
}

/// Resolves the switches of one operation.
pub fn resolve_modes(flags: HexFlags) -> (r: Modes)
    ensures
        r == resolved_modes(flags),
{
    let key = if flags.key_hex || flags.hex {
        EncodingMode::Hex
    } else {
        EncodingMode::Text
    };
    let value = if flags.value_hex || flags.hex {
        EncodingMode::Hex
    } else {
        EncodingMode::Text
    };
    Modes { key, value }
}

/// What lossy decoding makes of bytes that are not valid UTF-8.
pub uninterp spec fn lossy_text(b: Seq<u8>) -> Seq<char>;

/// The display text of arbitrary bytes: their characters when they are valid
/// UTF-8, replacement characters in place of the invalid parts otherwise.
pub open spec fn text_of(b: Seq<u8>) -> Seq<char> {
    if valid_utf8(b) {
        decode_utf8(b)
    } else {
        lossy_text(b)
    }
}

/// Relies on `String::from_utf8_lossy`: valid UTF-8 comes back as the same
/// characters; invalid sequences are replaced, the result depending on the
/// bytes alone.
#[verifier::external_body]
fn utf8_lossy(b: &[u8]) -> (r: String)
    ensures
        valid_utf8(b@) ==> r@ == decode_utf8(b@),
        !valid_utf8(b@) ==> r@ == lossy_text(b@),
{
    String::from_utf8_lossy(b).into_owned()
}

/// The UTF-8 bytes of `s`, verbatim.
pub fn decode_text(s: &str) -> (r: Vec<u8>)
    ensures
        r@ == encode_utf8(s@),
{
    vstd::slice::slice_to_vec(s.as_bytes())
}

/// Display text for bytes; never fails.
pub fn encode_text(b: &[u8]) -> (r: String)
    ensures
        r@ == text_of(b@),
{
    utf8_lossy(b)
}

/// Encoding text as UTF-8 and decoding it for display gives the text back.
pub proof fn lemma_text_round_trip(s: Seq<char>)
    ensures
        text_of(encode_utf8(s)) == s,
{
    encode_utf8_valid_utf8(s);
    encode_utf8_decode_utf8(s);
}

/// The bytes that user text stands for in a mode, if it is well formed.
pub open spec fn param_bytes(s: Seq<char>, mode: EncodingMode) -> Option<Seq<u8>> {
    match mode {
        EncodingMode::Text => Some(encode_utf8(s)),
        EncodingMode::Hex => decoded(encode_utf8(s)),
    }
}

/// The display text of bytes in a mode.
pub open spec fn display(b: Seq<u8>, mode: EncodingMode) -> Seq<char> {
    match mode {
        EncodingMode::Text => text_of(b),
        EncodingMode::Hex => encoded(b),
    }
}

/// Decodes user text per mode; only hexadecimal text can be malformed.
pub fn decode_param(s: &str, mode: EncodingMode) -> (r: Result<Vec<u8>, DecodeError>)
    ensures
        match r {
            Ok(v) => param_bytes(s@, mode) == Some(v@),
            Err(DecodeError::InvalidHex { input }) => param_bytes(s@, mode) is None && input@ == s@,
        },
{
    match mode {
        EncodingMode::Text => Ok(decode_text(s)),
        EncodingMode::Hex => decode(s),
    }
}

/// Display text of bytes per mode.
pub fn encode_display(b: &[u8], mode: EncodingMode) -> (r: String)
    ensures
        r@ == display(b@, mode),
{
    match mode {
        EncodingMode::Text => encode_text(b),
        EncodingMode::Hex => encode(b),
    }
}

} // verus!
