//! Hexadecimal text for byte strings: `0x` followed by two lowercase digits
//! per byte on output; an optional `0x` / `0X` prefix and digits of either
//! case on input.
use vstd::prelude::*;
use vstd::string::*;
use vstd::utf8::*;

verus! {

#[verifier::external_type_specification]
#[verifier::external_body]
pub struct ExFromHexError(::hex::FromHexError);

/// Whether `c` is one of the ASCII characters `0-9`, `a-f`, `A-F`.
pub open spec fn is_hex_digit(c: u8) -> bool {
    (48 <= c && c <= 57) || (97 <= c && c <= 102) || (65 <= c && c <= 70)
}

/// The value of a hexadecimal digit character.
pub open spec fn digit_value(c: u8) -> int {
    if 48 <= c && c <= 57 {
        c - 48
    } else if 97 <= c && c <= 102 {
        c - 87
    } else {
        c - 55
    }
}

/// The lowercase digit character for a value below 16.
pub open spec fn nibble_char(n: int) -> char {
    if n < 10 {
        ((n + 48) as u8) as char
    } else {
        ((n + 87) as u8) as char
    }
}

/// Two lowercase digits per byte, most significant digit first.
pub open spec fn hex_chars(b: Seq<u8>) -> Seq<char> {
    Seq::new(
        2 * b.len(),
        |i: int|
            if i % 2 == 0 {
                nibble_char(b[i / 2] as int / 16)
            } else {
                nibble_char(b[i / 2] as int % 16)
            },
    )
}

/// What `encode` returns: the digits behind a `0x` prefix.
pub open spec fn encoded(b: Seq<u8>) -> Seq<char> {
    seq!['0', 'x'] + hex_chars(b)
}

/// An even number of hexadecimal digit characters.
pub open spec fn well_formed_hex(d: Seq<u8>) -> bool {
    d.len() % 2 == 0 && forall|i: int| 0 <= i < d.len() ==> is_hex_digit(#[trigger] d[i])
}

/// The bytes that a well-formed digit sequence stands for, two digits each.
pub open spec fn hex_decoded(d: Seq<u8>) -> Seq<u8> {
    Seq::new(d.len() / 2, |i: int| (digit_value(d[2 * i]) * 16 + digit_value(d[2 * i + 1])) as u8)
}

/// The input without its leading `0x` or `0X`, if it has one.
pub open spec fn strip_hex_prefix(s: Seq<u8>) -> Seq<u8> {
    if s.len() >= 2 && s[0] == 48 && (s[1] == 120 || s[1] == 88) {
        s.skip(2)
    } else {
        s
    }
}

/// The bytes that hexadecimal text (as UTF-8 bytes) stands for, if it is well formed.
pub open spec fn decoded(s: Seq<u8>) -> Option<Seq<u8>> {
    let d = strip_hex_prefix(s);
    if well_formed_hex(d) {
        Some(hex_decoded(d))
    } else {
        None
    }
}

/// Text that is not hexadecimal where hexadecimal was asked for.
#[derive(Debug)]
pub enum DecodeError {
    InvalidHex { input: String },
}

impl DecodeError {
    /// The offending text.
    pub fn input(&self) -> (r: &str)
        ensures
            r@ == match self {
                DecodeError::InvalidHex { input } => input@,
            },
    {
        match self {
            DecodeError::InvalidHex { input } => input.as_str(),
        }
    }
}

/// Relies on `hex::encode`: two lowercase digits per byte, high nibble first.
#[verifier::external_body]
fn lower_hex_digits(data: &[u8]) -> (r: String)
    ensures
        r@ == hex_chars(data@),
{
    ::hex::encode(data)
}

/// Relies on `hex::decode`: an even number of digits `0-9`, `a-f`, `A-F`
/// decodes pairwise, high nibble first; any other input is an error.
#[verifier::external_body]
fn hex_digit_pairs(digits: &[u8]) -> (r: Result<Vec<u8>, ::hex::FromHexError>)
    ensures
        match r {
            Ok(v) => well_formed_hex(digits@) && v@ == hex_decoded(digits@),
            Err(_) => !well_formed_hex(digits@),
        },
{
    ::hex::decode(digits)
}

proof fn lemma_nibble(n: int)
    requires
        0 <= n < 16,
    ensures
        '\0' <= nibble_char(n) <= '\u{7f}',
        is_hex_digit(nibble_char(n) as u8),
        digit_value(nibble_char(n) as u8) == n,
{
}

/// Decoding what `encode` produced gives back the same bytes.
pub proof fn lemma_hex_round_trip(b: Seq<u8>)
    ensures
        decoded(encode_utf8(encoded(b))) == Some(b),
{
    let e = encoded(b);
    let h = hex_chars(b);
    assert forall|i: int| 0 <= i < h.len() implies '\0' <= #[trigger] h[i] <= '\u{7f}' && is_hex_digit(
        h[i] as u8,
    ) by {
        lemma_nibble(b[i / 2] as int / 16);
        lemma_nibble(b[i / 2] as int % 16);
    }
    assert(is_ascii_chars(e)) by {
        assert forall|i: int| 0 <= i < e.len() implies '\0' <= #[trigger] e[i] <= '\u{7f}' by {
            if i >= 2 {
                assert(e[i] == h[i - 2]);
            }
        }
    }
    vstd::utf8::is_ascii_chars_encode_utf8(e);
    let bytes = encode_utf8(e);
    let d = strip_hex_prefix(bytes);
    assert(bytes[0] == e[0] as u8);
    assert(bytes[1] == e[1] as u8);
    assert(d == bytes.skip(2));
    assert forall|i: int| 0 <= i < d.len() implies #[trigger] d[i] == h[i] as u8 by {
        assert(bytes[i + 2] == e[i + 2] as u8);
        assert(e[i + 2] == h[i]);
    }
    assert(well_formed_hex(d));
    assert(hex_decoded(d) =~= b) by {
        assert forall|i: int| 0 <= i < b.len() implies #[trigger] hex_decoded(d)[i] == b[i] by {
            let x = b[i] as int;
            lemma_nibble(x / 16);
            lemma_nibble(x % 16);
            assert(2 * i / 2 == i);
            assert((2 * i + 1) / 2 == i);
            assert((2 * i) % 2 == 0);
            assert((2 * i + 1) % 2 == 1);
            assert(d[2 * i] == h[2 * i] as u8);
            assert(d[2 * i + 1] == h[2 * i + 1] as u8);
            assert((x / 16) * 16 + x % 16 == x) by (nonlinear_arith)
                requires
                    0 <= x < 256,
            ;
        }
    }
}

/// Decodes hexadecimal text, with or without a `0x` / `0X` prefix, in either case.
pub fn decode(s: &str) -> (r: Result<Vec<u8>, DecodeError>)
    ensures
        match r {
            Ok(v) => decoded(s.spec_bytes()) == Some(v@),
            Err(DecodeError::InvalidHex { input }) => decoded(s.spec_bytes()) is None && input@ == s@,
        },
{
    let bytes = s.as_bytes();
    let n = bytes.len();
    let digits = if n >= 2 && bytes[0] == 48 && (bytes[1] == 120 || bytes[1] == 88) {
        vstd::slice::slice_subrange(bytes, 2, n)
    } else {
        bytes
    };
    proof {
        assert(digits@ == strip_hex_prefix(s.spec_bytes()));
    }
    match hex_digit_pairs(digits) {
        Ok(v) => Ok(v),
        Err(_) => Err(DecodeError::InvalidHex { input: s.to_owned() }),
    }
}

/// Hexadecimal text for `data`: `0x` and two lowercase digits per byte.
pub fn encode(data: &[u8]) -> (r: String)
    ensures
        r@ == encoded(data@),
{
    let mut s = String::from_str("0x");
    let digits = lower_hex_digits(data);
    s.append(digits.as_str());
    proof {
        reveal_strlit("0x");
    }
    s
}

} // verus!
