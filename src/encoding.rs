//! Percent-encoding of query values: every byte that is not an ASCII letter or
//! digit is written as `%` followed by two upper-case hexadecimal digits.

use vstd::prelude::*;
use vstd::utf8::encode_utf8;

verus! {

/// An ASCII letter or digit: the only bytes left as they are.
pub open spec fn is_alphanumeric_byte(b: u8) -> bool {
    (0x30 <= b <= 0x39) || (0x41 <= b <= 0x5a) || (0x61 <= b <= 0x7a)
}

/// The upper-case hexadecimal digit for `d`, for `d` below 16.
pub open spec fn hex_digit(d: u8) -> char {
    if d < 10 {
        (d + 0x30) as u8 as char
    } else {
        (d + 0x37) as u8 as char
    }
}

/// The value of an upper-case hexadecimal digit.
pub open spec fn hex_value(c: char) -> u8 {
    if '0' <= c <= '9' {
        (c as u32 - 0x30) as u8
    } else {
        (c as u32 - 0x37) as u8
    }
}

/// The text that stands for one byte.
pub open spec fn encode_byte(b: u8) -> Seq<char> {
    if is_alphanumeric_byte(b) {
        seq![b as char]
    } else {
        seq!['%', hex_digit(b / 16), hex_digit(b % 16)]
    }
}

/// The percent-encoding of a byte string: each byte's text, in order.
pub open spec fn percent_encoded(bytes: Seq<u8>) -> Seq<char>
    decreases bytes.len(),
{
    if bytes.len() == 0 {
        seq![]
    } else {
        encode_byte(bytes[0]) + percent_encoded(bytes.drop_first())
    }
}

/// Reads percent-encoded text back into bytes: `%` and two hexadecimal digits give
/// one byte, any other character gives its own code.
pub open spec fn percent_decoded(text: Seq<char>) -> Seq<u8>
    decreases text.len(),
{
    if text.len() == 0 {
        seq![]
    } else if text[0] == '%' && text.len() >= 3 {
        seq![(hex_value(text[1]) * 16 + hex_value(text[2])) as u8] + percent_decoded(
            text.subrange(3, text.len() as int),
        )
    } else {
        seq![text[0] as u8] + percent_decoded(text.drop_first())
    }
}

/// A character that may stand in percent-encoded text: an ASCII letter or digit, or `%`.
pub open spec fn is_encoded_char(c: char) -> bool {
    c == '%' || ('0' <= c <= '9') || ('A' <= c <= 'Z') || ('a' <= c <= 'z')
}

/// Relies on percent_encoding's `percent_encode` with the `NON_ALPHANUMERIC` set,
/// applied to the UTF-8 bytes of `raw`: ASCII letters and digits stay as they are,
/// every other byte becomes `%` and two upper-case hexadecimal digits.
#[verifier::external_body]
pub(crate) fn percent_encode_str(raw: &str) -> (encoded: String)
    ensures
        encoded@ == percent_encoded(encode_utf8(raw@)),
{
    percent_encoding::percent_encode(raw.as_bytes(), percent_encoding::NON_ALPHANUMERIC).to_string()
}

proof fn lemma_hex_digit(d: u8)
    requires
        d < 16,
    ensures
        hex_value(hex_digit(d)) == d,
        is_encoded_char(hex_digit(d)),
        hex_digit(d) != '%',
{
}

proof fn lemma_byte_round_trip(b: u8)
    ensures
        percent_decoded(encode_byte(b)) == seq![b],
        forall|i: int| 0 <= i < encode_byte(b).len() ==> is_encoded_char(#[trigger] encode_byte(b)[i]),
{
    let e = encode_byte(b);
    if is_alphanumeric_byte(b) {
        assert(e.drop_first() == Seq::<char>::empty());
        assert(percent_decoded(e) == seq![b] + percent_decoded(Seq::<char>::empty()));
    } else {
        let hi = b / 16;
        let lo = b % 16;
        assert(hi < 16 && lo < 16 && hi * 16 + lo == b) by (bit_vector)
            requires
                hi == b / 16,
                lo == b % 16,
        ;
        lemma_hex_digit(hi);
        lemma_hex_digit(lo);
        assert(e.subrange(3, 3) == Seq::<char>::empty());
        assert(percent_decoded(e) == seq![b] + percent_decoded(Seq::<char>::empty()));
    }
}

/// Percent-encoded text holds nothing but ASCII letters, digits and `%`, and reading
/// it back gives the bytes it was made from.
pub proof fn lemma_percent_round_trip(bytes: Seq<u8>)
    ensures
        percent_decoded(percent_encoded(bytes)) == bytes,
        forall|i: int|
            0 <= i < percent_encoded(bytes).len() ==> is_encoded_char(
                #[trigger] percent_encoded(bytes)[i],
            ),
    decreases bytes.len(),
{
    if bytes.len() > 0 {
        let b = bytes[0];
        let rest = bytes.drop_first();
        let head = encode_byte(b);
        let tail = percent_encoded(rest);
        let all = percent_encoded(bytes);
        assert(all == head + tail);
        lemma_percent_round_trip(rest);
        lemma_byte_round_trip(b);
        if is_alphanumeric_byte(b) {
            assert(all.drop_first() == tail);
        } else {
            assert(all.subrange(3, all.len() as int) == tail);
        }
        assert(percent_decoded(all) == seq![b] + rest);
        assert(seq![b] + rest == bytes);
        assert forall|i: int| 0 <= i < all.len() implies is_encoded_char(#[trigger] all[i]) by {
            if i < head.len() {
                assert(all[i] == head[i]);
            } else {
                assert(all[i] == tail[i - head.len()]);
            }
        }
    }
}

} // verus!
