//! Hexadecimal text: what a string of hex digits denotes, and how bytes are
//! written as lowercase hex.
//!
//! Parsing works on the UTF-8 bytes of a string, so a character outside ASCII
//! is simply a run of bytes that are no hex digits.

use vstd::prelude::*;
use vstd::string::StringExecFns;
use vstd::string::StringSliceAdditionalSpecFns;

verus! {

/// The value of one hex digit, upper or lower case; `None` for any other byte.
pub open spec fn hex_digit_value(c: u8) -> Option<u8> {
    if 0x30 <= c <= 0x39 {
        Some((c - 0x30) as u8)
    } else if 0x61 <= c <= 0x66 {
        Some((c - 0x61 + 10) as u8)
    } else if 0x41 <= c <= 0x46 {
        Some((c - 0x41 + 10) as u8)
    } else {
        None
    }
}

/// The lowercase hex digit that stands for a value below 16.
pub open spec fn hex_digit_char(v: u8) -> char {
    if v < 10 {
        ((0x30 + v) as u8) as char
    } else {
        ((0x61 + v - 10) as u8) as char
    }
}

/// The text without a leading `0x`, if it has one.
pub open spec fn strip_0x(s: Seq<u8>) -> Seq<u8> {
    if s.len() >= 2 && s[0] == 0x30 && s[1] == 0x78 {
        s.subrange(2, s.len() as int)
    } else {
        s
    }
}

/// Every byte of the text is a hex digit.
pub open spec fn all_hex_digits(s: Seq<u8>) -> bool {
    forall|i: int| 0 <= i < s.len() ==> (#[trigger] hex_digit_value(s[i])) is Some
}

/// The text is a whole number of two-digit pairs.
pub open spec fn is_hex_pairs(s: Seq<u8>) -> bool {
    s.len() % 2 == 0 && all_hex_digits(s)
}

/// The byte that the pair of digits at position `i` denotes.
pub open spec fn hex_pair_value(s: Seq<u8>, i: int) -> u8 {
    (16 * hex_digit_value(s[2 * i]).unwrap() + hex_digit_value(s[2 * i + 1]).unwrap()) as u8
}

/// The bytes that a text of hex pairs denotes, most significant digit first.
pub open spec fn hex_pairs_value(s: Seq<u8>) -> Seq<u8> {
    Seq::new(s.len() / 2, |i: int| hex_pair_value(s, i))
}

/// The lowercase hex text of a byte string: two digits per byte.
pub open spec fn hex_text(bytes: Seq<u8>) -> Seq<char> {
    Seq::new(
        2 * bytes.len(),
        |i: int|
            if i % 2 == 0 {
                hex_digit_char(bytes[i / 2] / 16)
            } else {
                hex_digit_char(bytes[i / 2] % 16)
            },
    )
}

/// The two characters `0x`.
pub open spec fn prefix_0x() -> Seq<char> {
    seq!['0', 'x']
}

/// Reads one hex digit.
pub fn hex_digit(c: u8) -> (r: Option<u8>)
    ensures
        r == hex_digit_value(c),
        r matches Some(v) ==> v < 16,
{
    if 0x30 <= c && c <= 0x39 {
        Some(c - 0x30)
    } else if 0x61 <= c && c <= 0x66 {
        Some(c - 0x61 + 10)
    } else if 0x41 <= c && c <= 0x46 {
        Some(c - 0x41 + 10)
    } else {
        None
    }
}

/// Where the digits start: after a leading `0x`, or at the beginning.
pub fn digits_start(raw: &[u8]) -> (start: usize)
    ensures
        start <= raw@.len(),
        raw@.subrange(start as int, raw@.len() as int) == strip_0x(raw@),
{
    if raw.len() >= 2 && raw[0] == 0x30 && raw[1] == 0x78 {
        2
    } else {
        assert(raw@.subrange(0, raw@.len() as int) =~= raw@);
        0
    }
}

/// Decodes a hex string, with or without a leading `0x`, into bytes.
///
/// An odd number of digits and a byte that is no hex digit are reported with
/// distinct messages; the length is looked at first.
pub fn hex_to_bytes(hex_str: &str) -> (r: Result<Vec<u8>, &'static str>)
    ensures
        ({
            let digits = strip_0x(hex_str.spec_bytes());
            match r {
                Ok(bytes) => is_hex_pairs(digits) && bytes@ == hex_pairs_value(digits),
                Err(msg) => if digits.len() % 2 != 0 {
                    msg@ == "Hex string must have even length"@
                } else {
                    !all_hex_digits(digits) && msg@ == "Invalid hex character"@
                },
            }
        }),
{
    let raw = hex_str.as_bytes();
    let start = digits_start(raw);
    let digits = vstd::slice::slice_subrange(raw, start, raw.len());
    if digits.len() % 2 != 0 {
        return Err("Hex string must have even length");
    }
    match decode_pairs(digits) {
        Some(bytes) => Ok(bytes),
        None => Err("Invalid hex character"),
    }
}

/// Decodes a text of hex pairs; `None` if some byte is no hex digit.
pub fn decode_pairs(digits: &[u8]) -> (r: Option<Vec<u8>>)
    requires
        digits@.len() % 2 == 0,
    ensures
        r is Some <==> all_hex_digits(digits@),
        r matches Some(bytes) ==> bytes@ == hex_pairs_value(digits@),
{
    let mut bytes: Vec<u8> = Vec::new();
    let mut i: usize = 0;
    while i < digits.len()
        invariant
            digits@.len() % 2 == 0,
            i % 2 == 0,
            i <= digits@.len(),
            bytes@.len() == i / 2,
            forall|j: int| 0 <= j < i ==> (#[trigger] hex_digit_value(digits@[j])) is Some,
            forall|k: int| 0 <= k < bytes@.len() ==> bytes@[k] == hex_pair_value(digits@, k),
        decreases digits@.len() - i,
    {
        let high = hex_digit(digits[i]);
        let low = hex_digit(digits[i + 1]);
        match (high, low) {
            (Some(h), Some(l)) => {
                bytes.push(h * 16 + l);
            },
            _ => {
                return None;
            },
        }
        i += 2;
    }
    assert(bytes@ =~= hex_pairs_value(digits@));
    Some(bytes)
}

/// The one-character string of a lowercase hex digit.
pub fn hex_digit_str(v: u8) -> (s: &'static str)
    requires
        v < 16,
    ensures
        s@ == seq![hex_digit_char(v)],
{
    proof {
        reveal_strlit("0");
        reveal_strlit("1");
        reveal_strlit("2");
        reveal_strlit("3");
        reveal_strlit("4");
        reveal_strlit("5");
        reveal_strlit("6");
        reveal_strlit("7");
        reveal_strlit("8");
        reveal_strlit("9");
        reveal_strlit("a");
        reveal_strlit("b");
        reveal_strlit("c");
        reveal_strlit("d");
        reveal_strlit("e");
        reveal_strlit("f");
    }
    let s = match v {
        0 => "0",
        1 => "1",
        2 => "2",
        3 => "3",
        4 => "4",
        5 => "5",
        6 => "6",
        7 => "7",
        8 => "8",
        9 => "9",
        10 => "a",
        11 => "b",
        12 => "c",
        13 => "d",
        14 => "e",
        _ => "f",
    };
    assert(s@ =~= seq![hex_digit_char(v)]);
    s
}

/// Writes bytes as lowercase hex, two digits per byte, without a prefix.
pub fn hex_encode(bytes: &[u8]) -> (out: String)
    ensures
        out@ == hex_text(bytes@),
{
    let mut out = String::new();
    let mut i: usize = 0;
    while i < bytes.len()
        invariant
            i <= bytes@.len(),
            out@ == hex_text(bytes@.subrange(0, i as int)),
        decreases bytes@.len() - i,
    {
        let b = bytes[i];
        let ghost before = out@;
        out.append(hex_digit_str(b / 16));
        out.append(hex_digit_str(b % 16));
        assert(out@ =~= hex_text(bytes@.subrange(0, i + 1))) by {
            assert(out@ == before + seq![hex_digit_char(b / 16)] + seq![hex_digit_char(b % 16)]);
            assert forall|k: int| 0 <= k < 2 * (i + 1) implies out@[k] == hex_text(
                bytes@.subrange(0, i + 1),
            )[k] by {
                if k < 2 * i {
                    assert(bytes@.subrange(0, i as int)[k / 2] == bytes@.subrange(0, i + 1)[k / 2]);
                    assert(out@[k] == before[k]);
                }
            }
        }
        i += 1;
    }
    assert(bytes@.subrange(0, i as int) =~= bytes@);
    out
}

/// Writes bytes as lowercase hex behind a leading `0x`.
pub fn bytes_to_hex(bytes: &[u8]) -> (out: String)
    ensures
        out@ == prefix_0x() + hex_text(bytes@),
{
    proof {
        reveal_strlit("0x");
    }
    let mut out = String::from_str("0x");
    assert(out@ =~= prefix_0x());
    let digits = hex_encode(bytes);
    out.append(digits.as_str());
    out
}

/// Decodes the hex form of a 20-byte address, with or without a leading `0x`.
///
/// Exactly 40 digits are accepted; the length is looked at first.
pub fn hex_to_address(hex_str: &str) -> (r: Result<[u8; 20], &'static str>)
    ensures
        ({
            let digits = strip_0x(hex_str.spec_bytes());
            match r {
                Ok(address) => digits.len() == 40 && all_hex_digits(digits) && address@
                    == hex_pairs_value(digits),
                Err(msg) => if digits.len() != 40 {
                    msg@ == "Address must be 40 hex characters"@
                } else {
                    !all_hex_digits(digits) && msg@ == "Invalid hex character"@
                },
            }
        }),
{
    let raw = hex_str.as_bytes();
    let start = digits_start(raw);
    let digits = vstd::slice::slice_subrange(raw, start, raw.len());
    if digits.len() != 40 {
        return Err("Address must be 40 hex characters");
    }
    match decode_pairs(digits) {
        Some(bytes) => {
            let mut address = [0u8; 20];
            let mut i: usize = 0;
            while i < 20
                invariant
                    i <= 20,
                    bytes@.len() == 20,
                    forall|k: int| 0 <= k < i ==> address@[k] == bytes@[k],
                decreases 20 - i,
            {
                address[i] = bytes[i];
                i += 1;
            }
            assert(address@ =~= bytes@);
            Ok(address)
        },
        None => Err("Invalid hex character"),
    }
}

/// Decodes the hex form of a 20-byte address, with or without a leading `0x`.
///
/// Exactly 40 digits are accepted; the length is looked at first.
pub fn address_from_hex(hex_str: &str) -> (r: Result<[u8; 20], &'static str>)
    ensures
        ({
            let digits = strip_0x(hex_str.spec_bytes());
            match r {
                Ok(address) => digits.len() == 40 && all_hex_digits(digits) && address@
                    == hex_pairs_value(digits),
                Err(msg) => if digits.len() != 40 {
                    msg@ == "Address must be 40 hex characters"@
                } else {
                    !all_hex_digits(digits) && msg@ == "Invalid hex character"@
                },
            }
        }),
{
    hex_to_address(hex_str)
}

/// Hex text is ASCII, so its UTF-8 bytes are its characters one for one.
pub proof fn lemma_hex_text_bytes(bytes: Seq<u8>)
    ensures
        vstd::utf8::is_ascii_chars(hex_text(bytes)),
        vstd::utf8::encode_utf8(hex_text(bytes)).len() == 2 * bytes.len(),
        forall|i: int|
            0 <= i < 2 * bytes.len() ==> #[trigger] vstd::utf8::encode_utf8(hex_text(bytes))[i]
                == hex_text(bytes)[i] as u8,
{
    let text = hex_text(bytes);
    assert(vstd::utf8::is_ascii_chars(text)) by {
        assert forall|i: int| 0 <= i < text.len() implies '\0' <= #[trigger] text[i]
            <= '\u{7f}' by {
            let b = bytes[i / 2];
            assert(b / 16 < 16 && b % 16 < 16);
        }
    }
    vstd::utf8::is_ascii_chars_encode_utf8(text);
}

/// Decoding the hex text of a byte string gives the byte string back.
pub proof fn lemma_hex_round_trip(bytes: Seq<u8>)
    ensures
        is_hex_pairs(vstd::utf8::encode_utf8(hex_text(bytes))),
        hex_pairs_value(vstd::utf8::encode_utf8(hex_text(bytes))) == bytes,
{
    lemma_hex_text_bytes(bytes);
    let text = hex_text(bytes);
    let raw = vstd::utf8::encode_utf8(text);
    assert forall|i: int| 0 <= i < raw.len() implies (#[trigger] hex_digit_value(raw[i])) is Some
        && hex_digit_value(raw[i]).unwrap() == (if i % 2 == 0 {
        bytes[i / 2] / 16
    } else {
        bytes[i / 2] % 16
    }) by {
        let b = bytes[i / 2];
        assert(b / 16 < 16 && b % 16 < 16);
        assert(raw[i] == text[i] as u8);
    }
    assert forall|k: int| 0 <= k < bytes.len() implies hex_pair_value(raw, k) == bytes[k] by {
        let b = bytes[k];
        assert(hex_digit_value(raw[2 * k]).unwrap() == b / 16);
        assert(hex_digit_value(raw[2 * k + 1]).unwrap() == b % 16);
    }
    assert(hex_pairs_value(raw) =~= bytes);
}

/// Decoding `0x` and the hex text of a byte string gives the byte string back.
pub proof fn lemma_prefixed_hex_round_trip(bytes: Seq<u8>)
    ensures
        is_hex_pairs(strip_0x(vstd::utf8::encode_utf8(prefix_0x() + hex_text(bytes)))),
        hex_pairs_value(strip_0x(vstd::utf8::encode_utf8(prefix_0x() + hex_text(bytes)))) == bytes,
        strip_0x(vstd::utf8::encode_utf8(prefix_0x() + hex_text(bytes))).len() == 2 * bytes.len(),
{
    lemma_hex_text_bytes(bytes);
    lemma_hex_round_trip(bytes);
    let text = prefix_0x() + hex_text(bytes);
    assert(vstd::utf8::is_ascii_chars(text)) by {
        assert forall|i: int| 0 <= i < text.len() implies '\0' <= #[trigger] text[i]
            <= '\u{7f}' by {
            if i >= 2 {
                assert(text[i] == hex_text(bytes)[i - 2]);
            }
        }
    }
    vstd::utf8::is_ascii_chars_encode_utf8(text);
    let raw = vstd::utf8::encode_utf8(text);
    assert(raw[0] == text[0] as u8 && raw[1] == text[1] as u8);
    let digits = vstd::utf8::encode_utf8(hex_text(bytes));
    assert(strip_0x(raw) =~= digits) by {
        assert forall|i: int| 0 <= i < digits.len() implies raw[i + 2] == digits[i] by {
            assert(raw[i + 2] == text[i + 2] as u8);
            assert(text[i + 2] == hex_text(bytes)[i]);
        }
    }
}

} // verus!
