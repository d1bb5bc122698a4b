//! Lowercase hexadecimal encoding of byte strings and its inverse.
use vstd::prelude::*;
use vstd::utf8::*;
use vstd::string::StringSliceAdditionalSpecFns;

use crate::text::push_char;

verus! {

/// The character that stands for a nibble (a value below 16) in lowercase hexadecimal.
pub open spec fn nibble_char(v: int) -> char {
    if v < 10 {
        (v + 48) as char
    } else {
        (v + 87) as char
    }
}

/// The lowercase hexadecimal text of a byte string: two characters per byte, high nibble first.
pub open spec fn hex_of(bytes: Seq<u8>) -> Seq<char> {
    Seq::new(
        2 * bytes.len(),
        |i: int|
            if i % 2 == 0 {
                nibble_char((bytes[i / 2] / 16) as int)
            } else {
                nibble_char((bytes[i / 2] % 16) as int)
            },
    )
}

/// The value of one hexadecimal digit byte (`0-9`, `a-f`, `A-F`), if it is one.
pub open spec fn hex_digit_value(b: u8) -> Option<u8> {
    if 48 <= b <= 57 {
        Some((b - 48) as u8)
    } else if 97 <= b <= 102 {
        Some((b - 87) as u8)
    } else if 65 <= b <= 70 {
        Some((b - 55) as u8)
    } else {
        None
    }
}

/// What `u8::from_str_radix(.., 16)` gives on a two-byte string: an optional `+`
/// followed by digits only.
pub open spec fn hex_pair_value(b0: u8, b1: u8) -> Option<u8> {
    if b0 == 43 {
        hex_digit_value(b1)
    } else {
        match (hex_digit_value(b0), hex_digit_value(b1)) {
            (Some(h), Some(l)) => Some((16 * h + l) as u8),
            _ => None,
        }
    }
}

/// The outcome of decoding hexadecimal text pair by pair.
pub enum HexDecoding {
    /// Every pair was a hexadecimal number; these are the values.
    Decoded(Seq<u8>),
    /// Some pair, before any slicing problem, was not a hexadecimal number.
    Invalid,
    /// A pair could not be sliced out: the text ends in half a pair, or a pair
    /// would split a character.
    Unsliceable,
}

/// Decodes `bytes` from byte offset `i` on, two bytes at a time, stopping at the first
/// pair that cannot be sliced or parsed.
pub open spec fn hex_decoding_from(bytes: Seq<u8>, i: int) -> HexDecoding
    decreases bytes.len() - i,
{
    if i < 0 || i >= bytes.len() {
        HexDecoding::Decoded(seq![])
    } else if i + 2 > bytes.len() || !is_char_boundary(bytes, i + 2) {
        HexDecoding::Unsliceable
    } else {
        match hex_pair_value(bytes[i], bytes[i + 1]) {
            None => HexDecoding::Invalid,
            Some(v) => match hex_decoding_from(bytes, i + 2) {
                HexDecoding::Decoded(rest) => HexDecoding::Decoded(seq![v] + rest),
                other => other,
            },
        }
    }
}

/// The outcome of decoding a whole hexadecimal text.
pub open spec fn hex_decoding(s: &str) -> HexDecoding {
    hex_decoding_from(s.spec_bytes(), 0)
}

#[verifier::external_type_specification]
#[verifier::external_body]
pub struct ExParseIntError(std::num::ParseIntError);

/// Parses the two bytes of `s` at `i` as a base-16 `u8` with `u8::from_str_radix`.
/// Its documentation: an optional `+` sign followed by digits only, any other text
/// is an error; two hexadecimal digits cannot overflow a `u8`.
#[verifier::external_body]
fn parse_hex_pair(s: &str, i: usize) -> (r: Result<u8, std::num::ParseIntError>)
    requires
        i + 2 <= s.spec_bytes().len(),
        is_char_boundary(s.spec_bytes(), i as int),
        is_char_boundary(s.spec_bytes(), i + 2),
    ensures
        match r {
            Ok(v) => hex_pair_value(s.spec_bytes()[i as int], s.spec_bytes()[i + 1]) == Some(v),
            Err(_) => hex_pair_value(s.spec_bytes()[i as int], s.spec_bytes()[i + 1]) is None,
        },
{
    u8::from_str_radix(&s[i..i + 2], 16)
}

fn nibble_to_char(v: u8) -> (c: char)
    requires
        v < 16,
    ensures
        c == nibble_char(v as int),
{
    if v < 10 {
        (v + 48) as char
    } else {
        (v + 87) as char
    }
}

/// Encodes bytes as lowercase hexadecimal text, two characters per byte.
pub fn bytes_to_string(input_bytes: &[u8]) -> (s: String)
    ensures
        s@ == hex_of(input_bytes@),
{
    let mut s = String::new();
    let mut k: usize = 0;
    while k < input_bytes.len()
        invariant
            k <= input_bytes@.len(),
            s@ == hex_of(input_bytes@.subrange(0, k as int)),
        decreases input_bytes@.len() - k,
    {
        let b = input_bytes[k];
        let ghost before = s@;
        push_char(&mut s, nibble_to_char(b / 16));
        push_char(&mut s, nibble_to_char(b % 16));
        k = k + 1;
        assert(s@ =~= hex_of(input_bytes@.subrange(0, k as int)));
    }
    assert(input_bytes@.subrange(0, input_bytes@.len() as int) =~= input_bytes@);
    s
}

/// Places already-decoded bytes in front of the outcome of decoding the rest.
pub open spec fn prepend_decoded(prefix: Seq<u8>, rest: HexDecoding) -> HexDecoding {
    match rest {
        HexDecoding::Decoded(r) => HexDecoding::Decoded(prefix + r),
        other => other,
    }
}

/// Decodes hexadecimal text two bytes at a time with `u8::from_str_radix`.
/// Returns the first parse error; the text must be sliceable in pairs up to
/// that point.
pub fn string_to_bytes(hex_str: &str) -> (r: Result<Vec<u8>, std::num::ParseIntError>)
    requires
        !(hex_decoding(hex_str) is Unsliceable),
    ensures
        match r {
            Ok(v) => hex_decoding(hex_str) == HexDecoding::Decoded(v@),
            Err(_) => hex_decoding(hex_str) is Invalid,
        },
{
    let ghost b = hex_str.spec_bytes();
    proof {
        broadcast use encode_utf8_valid_utf8, is_char_boundary_start_end_of_seq;
        assert(valid_utf8(b));
        assert(is_char_boundary(b, 0));
    }
    let len = hex_str.as_bytes().len();
    let mut out: Vec<u8> = Vec::new();
    let mut i: usize = 0;
    while i < len
        invariant
            b == hex_str.spec_bytes(),
            len == b.len(),
            i <= len,
            is_char_boundary(b, i as int),
            hex_decoding_from(b, 0) == prepend_decoded(out@, hex_decoding_from(b, i as int)),
            !(hex_decoding_from(b, 0) is Unsliceable),
        decreases len - i,
    {
        let ghost old_out = out@;
        assert(!(hex_decoding_from(b, i as int) is Unsliceable));
        match parse_hex_pair(hex_str, i) {
            Err(e) => {
                return Err(e);
            },
            Ok(v) => {
                out.push(v);
                proof {
                    match hex_decoding_from(b, i + 2) {
                        HexDecoding::Decoded(rest) => {
                            assert(old_out + (seq![v] + rest) =~= out@ + rest);
                        },
                        _ => {},
                    }
                }
                i = i + 2;
            },
        }
    }
    assert(out@ + seq![] =~= out@);
    Ok(out)
}

/// Whether text decodes as hexadecimal pair by pair without a slicing problem or a
/// pair that is not a hexadecimal number.
pub fn is_hex_text(text: &str) -> (r: bool)
    ensures
        r == (hex_decoding(text) is Decoded),
{
    let ghost b = text.spec_bytes();
    proof {
        broadcast use encode_utf8_valid_utf8, is_char_boundary_start_end_of_seq;
        assert(valid_utf8(b));
        assert(is_char_boundary(b, 0));
    }
    let len = text.as_bytes().len();
    let mut i: usize = 0;
    while i < len
        invariant
            b == text.spec_bytes(),
            len == b.len(),
            i <= len,
            is_char_boundary(b, i as int),
            (hex_decoding_from(b, 0) is Decoded) == (hex_decoding_from(b, i as int) is Decoded),
        decreases len - i,
    {
        if len - i < 2 {
            return false;
        }
        if !text.is_char_boundary(i + 2) {
            return false;
        }
        match parse_hex_pair(text, i) {
            Err(_) => {
                return false;
            },
            Ok(_) => {},
        }
        i = i + 2;
    }
    true
}

proof fn lemma_nibble_digit(v: int)
    requires
        0 <= v < 16,
    ensures
        hex_digit_value(nibble_char(v) as u8) == Some(v as u8),
        nibble_char(v) as u8 != 43,
        '\0' <= nibble_char(v) <= '\u{7f}',
{
}

proof fn lemma_hex_of_ascii(bytes: Seq<u8>)
    ensures
        is_ascii_chars(hex_of(bytes)),
        encode_utf8(hex_of(bytes)).len() == 2 * bytes.len(),
        forall|i: int|
            0 <= i < 2 * bytes.len() ==> #[trigger] encode_utf8(hex_of(bytes))[i] == hex_of(
                bytes,
            )[i] as u8,
{
    let h = hex_of(bytes);
    assert forall|i: int| 0 <= i < h.len() implies '\0' <= #[trigger] h[i] <= '\u{7f}' by {
        lemma_nibble_digit((bytes[i / 2] / 16) as int);
        lemma_nibble_digit((bytes[i / 2] % 16) as int);
    }
    is_ascii_chars_encode_utf8(h);
}

proof fn lemma_ascii_boundaries(b: Seq<u8>, idx: int)
    requires
        valid_utf8(b),
        forall|i: int| 0 <= i < b.len() ==> #[trigger] b[i] < 128,
        0 <= idx <= b.len(),
    ensures
        is_char_boundary(b, idx),
{
    broadcast use is_char_boundary_start_end_of_seq;

    if idx < b.len() {
        is_char_boundary_iff_not_is_continuation_byte(b, idx);
    }
}

proof fn lemma_decoding_of_hex(bytes: Seq<u8>, j: int)
    requires
        0 <= j <= bytes.len(),
    ensures
        hex_decoding_from(encode_utf8(hex_of(bytes)), 2 * j) == HexDecoding::Decoded(
            bytes.subrange(j, bytes.len() as int),
        ),
    decreases bytes.len() - j,
{
    let b = encode_utf8(hex_of(bytes));
    lemma_hex_of_ascii(bytes);
    broadcast use encode_utf8_valid_utf8;

    if j == bytes.len() {
        assert(bytes.subrange(j, bytes.len() as int) =~= seq![]);
    } else {
        let x = bytes[j];
        lemma_nibble_digit((x / 16) as int);
        lemma_nibble_digit((x % 16) as int);
        assert(b[2 * j] == hex_of(bytes)[2 * j] as u8);
        assert(b[2 * j + 1] == hex_of(bytes)[2 * j + 1] as u8);
        assert((2 * j) / 2 == j);
        assert((2 * j + 1) / 2 == j);
        assert(hex_of(bytes)[2 * j] == nibble_char((x / 16) as int));
        assert(hex_of(bytes)[2 * j + 1] == nibble_char((x % 16) as int));
        assert forall|i: int| 0 <= i < b.len() implies #[trigger] b[i] < 128 by {
            assert(b[i] == hex_of(bytes)[i] as u8);
        }
        lemma_ascii_boundaries(b, 2 * j + 2);
        assert(hex_pair_value(b[2 * j], b[2 * j + 1]) == Some(x));
        lemma_decoding_of_hex(bytes, j + 1);
        assert(2 * j + 2 == 2 * (j + 1));
        assert(seq![x] + bytes.subrange(j + 1, bytes.len() as int) =~= bytes.subrange(
            j,
            bytes.len() as int,
        ));
    }
}

/// Decoding undoes encoding: for every byte string, the hexadecimal text that
/// `bytes_to_string` produces decodes, pair by pair, to that byte string again
/// (and so satisfies the precondition of `string_to_bytes`).
pub proof fn lemma_hex_round_trip(bytes: Seq<u8>)
    ensures
        hex_decoding_from(encode_utf8(hex_of(bytes)), 0) == HexDecoding::Decoded(bytes),
{
    lemma_decoding_of_hex(bytes, 0);
    assert(bytes.subrange(0, bytes.len() as int) =~= bytes);
}

} // verus!
