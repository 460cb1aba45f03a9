//! Lowercase hexadecimal text, as the wallet file stores its byte fields.

use vstd::prelude::*;

verus! {

/// The character for a value below 16 in lowercase hexadecimal.
pub open spec fn hex_digit(n: int) -> char {
    if n < 10 {
        (n + 48) as char
    } else {
        (n + 87) as char
    }
}

/// Two lowercase hexadecimal characters per byte, high nibble first.
pub open spec fn hex_encode_spec(bytes: Seq<u8>) -> Seq<char>
    decreases bytes.len(),
{
    if bytes.len() == 0 {
        Seq::empty()
    } else {
        seq![hex_digit(bytes[0] as int / 16), hex_digit(bytes[0] as int % 16)] + hex_encode_spec(bytes.skip(1))
    }
}

/// The value of one hexadecimal character (either case), given as its byte.
pub open spec fn hex_nibble(c: u8) -> Option<u8> {
    if 48 <= c <= 57 {
        Some((c - 48) as u8)
    } else if 97 <= c <= 102 {
        Some((c - 87) as u8)
    } else if 65 <= c <= 70 {
        Some((c - 55) as u8)
    } else {
        None
    }
}

/// Decoding of hexadecimal text given as bytes: `None` for an odd length or
/// a character that is not a hexadecimal digit.
pub open spec fn hex_decode_spec(text: Seq<u8>) -> Option<Seq<u8>>
    decreases text.len(),
{
    if text.len() % 2 != 0 {
        None
    } else if text.len() == 0 {
        Some(Seq::empty())
    } else {
        match (hex_nibble(text[0]), hex_nibble(text[1]), hex_decode_spec(text.skip(2))) {
            (Some(hi), Some(lo), Some(rest)) => Some(seq![(hi * 16 + lo) as u8] + rest),
            _ => None,
        }
    }
}

proof fn lemma_hex_digit_value(n: int)
    requires
        0 <= n < 16,
    ensures
        '\0' <= hex_digit(n) <= '\u{7f}',
        hex_nibble(hex_digit(n) as u8) == Some(n as u8),
{
}

/// Hex text has two digits per byte: the high nibble's, then the low one's.
pub proof fn lemma_hex_encode_shape(bytes: Seq<u8>)
    ensures
        hex_encode_spec(bytes).len() == 2 * bytes.len(),
        forall|k: int|
            0 <= k < bytes.len() ==> {
                &&& #[trigger] hex_encode_spec(bytes)[2 * k] == hex_digit(bytes[k] as int / 16)
                &&& hex_encode_spec(bytes)[2 * k + 1] == hex_digit(bytes[k] as int % 16)
            },
    decreases bytes.len(),
{
    if bytes.len() > 0 {
        let rest = bytes.skip(1);
        lemma_hex_encode_shape(rest);
        assert forall|k: int| 0 <= k < bytes.len() implies {
            &&& #[trigger] hex_encode_spec(bytes)[2 * k] == hex_digit(bytes[k] as int / 16)
            &&& hex_encode_spec(bytes)[2 * k + 1] == hex_digit(bytes[k] as int % 16)
        } by {
            if k > 0 {
                assert(rest[k - 1] == bytes[k]);
                assert(hex_encode_spec(rest)[2 * (k - 1)] == hex_digit(rest[k - 1] as int / 16));
            }
        }
    }
}

proof fn lemma_hex_decode_of_digits(bytes: Seq<u8>, text: Seq<u8>)
    requires
        text.len() == 2 * bytes.len(),
        forall|k: int|
            0 <= k < bytes.len() ==> {
                &&& #[trigger] text[2 * k] == hex_digit(bytes[k] as int / 16) as u8
                &&& text[2 * k + 1] == hex_digit(bytes[k] as int % 16) as u8
            },
    ensures
        hex_decode_spec(text) == Some(bytes),
    decreases bytes.len(),
{
    if bytes.len() > 0 {
        let rest = bytes.skip(1);
        let tail = text.skip(2);
        assert forall|k: int| 0 <= k < rest.len() implies {
            &&& #[trigger] tail[2 * k] == hex_digit(rest[k] as int / 16) as u8
            &&& tail[2 * k + 1] == hex_digit(rest[k] as int % 16) as u8
        } by {
            assert(text[2 * (k + 1)] == hex_digit(bytes[k + 1] as int / 16) as u8);
        }
        lemma_hex_decode_of_digits(rest, tail);
        assert(text[2 * 0int] == hex_digit(bytes[0] as int / 16) as u8);
        let b = bytes[0];
        lemma_hex_digit_value(b as int / 16);
        lemma_hex_digit_value(b as int % 16);
        assert(((b as int / 16) * 16 + b as int % 16) as u8 == b);
        assert(seq![b] + rest =~= bytes);
    } else {
        assert(bytes =~= Seq::<u8>::empty());
    }
}

/// Law: the wallet file keeps its byte fields as text, and decoding the
/// UTF-8 bytes of the lowercase hexadecimal text gives the bytes back.
pub proof fn lemma_hex_round_trip(bytes: Seq<u8>)
    ensures
        hex_decode_spec(vstd::utf8::encode_utf8(hex_encode_spec(bytes))) == Some(bytes),
{
    let text = hex_encode_spec(bytes);
    lemma_hex_encode_shape(bytes);
    assert forall|i: int| 0 <= i < text.len() implies '\0' <= #[trigger] text[i] <= '\u{7f}' by {
        let k = i / 2;
        lemma_hex_digit_value(bytes[k] as int / 16);
        lemma_hex_digit_value(bytes[k] as int % 16);
        assert(text[2 * k] == hex_digit(bytes[k] as int / 16));
        if i == 2 * k {
        } else {
            assert(i == 2 * k + 1);
        }
    }
    assert(vstd::utf8::is_ascii_chars(text));
    vstd::utf8::is_ascii_chars_encode_utf8(text);
    let enc = vstd::utf8::encode_utf8(text);
    assert forall|k: int| 0 <= k < bytes.len() implies {
        &&& #[trigger] enc[2 * k] == hex_digit(bytes[k] as int / 16) as u8
        &&& enc[2 * k + 1] == hex_digit(bytes[k] as int % 16) as u8
    } by {
        assert(text[2 * k] == hex_digit(bytes[k] as int / 16));
    }
    lemma_hex_decode_of_digits(bytes, enc);
}

#[verifier::external_type_specification]
#[verifier::external_body]
pub struct ExFromHexError(hex::FromHexError);

/// `hex::encode`: two lowercase hexadecimal digits per byte, in order
/// (the crate encodes each byte through the table `0123456789abcdef`).
#[verifier::external_body]
pub(crate) fn hex_encode(data: &[u8]) -> (text: String)
    ensures
        text@ == hex_encode_spec(data@),
{
    hex::encode(data)
}

/// `hex::decode`: fails on an odd length or on a byte that is not an ASCII
/// hexadecimal digit of either case; otherwise one byte per pair of digits.
/// Which error value comes back is not stated.
#[verifier::external_body]
pub(crate) fn hex_decode(text: &[u8]) -> (res: Result<Vec<u8>, hex::FromHexError>)
    ensures
        res is Ok <==> hex_decode_spec(text@) is Some,
        res matches Ok(bytes) ==> hex_decode_spec(text@) == Some(bytes@),
{
    hex::decode(text)
}

} // verus!
