//! The text codec: UTF-8 encoding and decoding of single characters, and
//! arbitrary-radix rendering of unsigned integers, as pure functions on
//! bytes.  The byte sequences themselves travel through the blocking byte
//! transport in `serial`.
//!
//! The decoder follows the channel's framing rule rather than general
//! UTF-8 stream decoding: a zero byte is a frame terminator, at most four
//! bytes form one character, and the count of bytes in the frame must
//! equal the width announced by the first byte's leading ones.

use vstd::prelude::*;

use vstd::arithmetic::div_mod::lemma_div_is_strictly_smaller;
use vstd::utf8::*;

verus! {

/// The ASCII digit for a value below 36: `0`-`9`, then `A`-`Z`.
pub open spec fn ascii_digit_of(value: int) -> u8
    recommends
        0 <= value < 36,
{
    if value < 10 {
        (0x30 + value) as u8
    } else {
        (0x37 + value) as u8
    }
}

/// The ASCII digit for a value below 36: `0`-`9`, then `A`-`Z`.
pub fn ascii_digit(value: u8) -> (digit: u8)
    requires
        value < 36,
    ensures
        digit == ascii_digit_of(value as int),
{
    if value < 10 {
        0x30 + value
    } else {
        0x37 + value
    }
}

/// The digits of `value` in the given radix, most significant first, with
/// no leading zeroes (zero itself renders as the single digit `0`).
pub open spec fn digits_in_radix(value: nat, radix: nat) -> Seq<u8>
    recommends
        2 <= radix <= 34,
    decreases value,
        when radix >= 2
        via digits_in_radix_decreases
{
    if value < radix {
        seq![ascii_digit_of(value as int)]
    } else {
        digits_in_radix(value / radix, radix).push(ascii_digit_of((value % radix) as int))
    }
}

#[via_fn]
proof fn digits_in_radix_decreases(value: nat, radix: nat) {
    if value >= radix {
        lemma_div_is_strictly_smaller(value as int, radix as int);
    }
}

/// The number of leading one bits of a byte.
pub open spec fn lead_ones(byte: u8) -> u32 {
    if byte < 0x80 {
        0
    } else if byte < 0xc0 {
        1
    } else if byte < 0xe0 {
        2
    } else if byte < 0xf0 {
        3
    } else if byte < 0xf8 {
        4
    } else if byte < 0xfc {
        5
    } else if byte < 0xfe {
        6
    } else if byte < 0xff {
        7
    } else {
        8
    }
}

/// The number of leading one bits of a byte.
pub fn leading_ones_u8(byte: u8) -> (count: u32)
    ensures
        count == lead_ones(byte),
{
    if byte < 0x80 {
        0
    } else if byte < 0xc0 {
        1
    } else if byte < 0xe0 {
        2
    } else if byte < 0xf0 {
        3
    } else if byte < 0xf8 {
        4
    } else if byte < 0xfc {
        5
    } else if byte < 0xfe {
        6
    } else if byte < 0xff {
        7
    } else {
        8
    }
}

/// True when the frame's bytes decode to a character under the channel's
/// rule.  With `k` the count of leading ones of the first byte: a frame of
/// more than one byte is accepted exactly when its length equals `k`,
/// every later byte is a continuation byte, and the assembled code point
/// is a Unicode scalar value; a shorter frame is accepted exactly when
/// `k` is zero (a single ASCII byte, or an empty frame reading as NUL).
pub open spec fn payload_decodes(payload: Seq<u8>) -> bool
    recommends
        payload.len() <= 4,
{
    if payload.len() == 0 {
        true
    } else {
        let k = lead_ones(payload[0]);
        if payload.len() > 1 && payload.len() == k {
            (forall|i: int| 1 <= i < payload.len() ==> is_continuation_byte(#[trigger] payload[i]))
                && is_scalar(scalar_of_payload(payload))
        } else {
            k == 0
        }
    }
}

/// The code point a frame assembles to under the channel's rule: the low
/// `7 - k` bits of the first byte, shifted left six bits for every
/// continuation byte, whose low six bits are merged in.
pub open spec fn scalar_of_payload(payload: Seq<u8>) -> u32
    recommends
        payload.len() <= 4,
{
    if payload.len() == 0 {
        0
    } else {
        let k = lead_ones(payload[0]);
        if payload.len() == 2 && k == 2 {
            codepoint_width_2(payload[0], payload[1])
        } else if payload.len() == 3 && k == 3 {
            codepoint_width_3(payload[0], payload[1], payload[2])
        } else if payload.len() == 4 && k == 4 {
            codepoint_width_4(payload[0], payload[1], payload[2], payload[3])
        } else {
            payload[0] as u32
        }
    }
}

/// Relies on char::from_u32: the conversion succeeds exactly when the
/// value is a Unicode scalar value (at most 0x10ffff and not a
/// surrogate), and then yields the character with that value.
pub assume_specification[ char::from_u32 ](value: u32) -> (result: Option<char>)
    ensures
        result is Some <==> is_scalar(value),
        result matches Some(c) ==> c as u32 == value,
;

/// Encode one character into its UTF-8 byte sequence (one to four bytes).
pub fn encode_char(value: char) -> (bytes: Vec<u8>)
    ensures
        bytes@ == encode_scalar(value as u32),
        1 <= bytes@.len() <= 4,
{
    proof {
        char_is_scalar(value);
    }
    let scalar = value as u32;
    let mut bytes: Vec<u8> = Vec::new();
    if scalar <= 0x7f {
        bytes.push((scalar & 0x7f) as u8);
    } else if scalar <= 0x7ff {
        bytes.push(0xc0 | (((scalar >> 6) & 0x1f) as u8));
        bytes.push(0x80 | ((scalar & 0x3f) as u8));
    } else if scalar <= 0xffff {
        bytes.push(0xe0 | (((scalar >> 12) & 0x0f) as u8));
        bytes.push(0x80 | (((scalar >> 6) & 0x3f) as u8));
        bytes.push(0x80 | ((scalar & 0x3f) as u8));
    } else {
        bytes.push(0xf0 | (((scalar >> 18) & 0x7) as u8));
        bytes.push(0x80 | (((scalar >> 12) & 0x3f) as u8));
        bytes.push(0x80 | (((scalar >> 6) & 0x3f) as u8));
        bytes.push(0x80 | ((scalar & 0x3f) as u8));
    }
    proof {
        assert(bytes@ =~= encode_scalar(value as u32));
    }
    bytes
}

/// The assembled code point after folding in the continuation bytes up to
/// (not including) index `end`.
pub open spec fn accum(payload: Seq<u8>, end: int) -> u32
    recommends
        1 <= end <= payload.len(),
    decreases end,
{
    if end <= 1 {
        initial_bits(payload[0])
    } else {
        (accum(payload, end - 1) << 6) | continuation_bits(payload[end - 1])
    }
}

/// The data bits of a frame's first byte: the low `7 - k` bits, with `k`
/// the count of leading ones.
pub open spec fn initial_bits(byte: u8) -> u32 {
    if lead_ones(byte) == 2 {
        leading_bits_width_2(byte)
    } else if lead_ones(byte) == 3 {
        leading_bits_width_3(byte)
    } else if lead_ones(byte) == 4 {
        leading_bits_width_4(byte)
    } else {
        byte as u32
    }
}

/// Folding the continuation bytes in one at a time assembles exactly the
/// code point of the frame.
proof fn lemma_accum_is_codepoint(payload: Seq<u8>)
    requires
        2 <= payload.len() <= 4,
        lead_ones(payload[0]) == payload.len(),
    ensures
        accum(payload, payload.len() as int) == scalar_of_payload(payload),
{
    let b0 = payload[0];
    assert(accum(payload, 1) == initial_bits(b0));
    if payload.len() == 2 {
        assert(accum(payload, 2) == (accum(payload, 1) << 6) | continuation_bits(payload[1]));
    } else if payload.len() == 3 {
        let x = leading_bits_width_3(b0);
        let y = continuation_bits(payload[1]);
        let z = continuation_bits(payload[2]);
        assert(accum(payload, 2) == (accum(payload, 1) << 6) | y);
        assert(accum(payload, 3) == (accum(payload, 2) << 6) | z);
        assert((((x << 6) | y) << 6) | z == (x << 12) | (y << 6) | z) by (bit_vector);
    } else {
        let x = leading_bits_width_4(b0);
        let y = continuation_bits(payload[1]);
        let z = continuation_bits(payload[2]);
        let w = continuation_bits(payload[3]);
        assert(accum(payload, 2) == (accum(payload, 1) << 6) | y);
        assert(accum(payload, 3) == (accum(payload, 2) << 6) | z);
        assert(accum(payload, 4) == (accum(payload, 3) << 6) | w);
        assert(((((((x << 6) | y) << 6) | z) << 6) | w) == (x << 18) | (y << 12) | (z << 6) | w)
            by (bit_vector);
    }
}

/// Decode one frame of at most four bytes under the channel's rule,
/// returning the character exactly when the frame is well formed and
/// assembles to a Unicode scalar value.
pub fn decode_char(bytes: &[u8]) -> (result: Option<char>)
    requires
        bytes@.len() <= 4,
    ensures
        result is Some <==> payload_decodes(bytes@),
        result matches Some(c) ==> c as u32 == scalar_of_payload(bytes@),
{
    let n: usize = bytes.len();
    if n == 0 {
        return char::from_u32(0);
    }
    let b0: u8 = bytes[0];
    let ones: u32 = leading_ones_u8(b0);
    let value: u32;
    if n > 1 && n == ones as usize {
        let shift: u32 = 7 - ones;
        proof {
            assert(shift <= 7 ==> (1u32 << shift) >= 1) by (bit_vector);
        }
        let mask: u32 = (1u32 << shift) - 1;
        let mut accumulator: u32 = (b0 as u32) & mask;
        proof {
            if ones == 2 {
                assert(1u32 << 5 == 32) by (bit_vector);
                assert((b0 as u32) & 31 == (b0 & 0x1f) as u32) by (bit_vector);
            } else if ones == 3 {
                assert(1u32 << 4 == 16) by (bit_vector);
                assert((b0 as u32) & 15 == (b0 & 0x0f) as u32) by (bit_vector);
            } else {
                assert(1u32 << 3 == 8) by (bit_vector);
                assert((b0 as u32) & 7 == (b0 & 0x07) as u32) by (bit_vector);
            }
        }
        let mut i: usize = 1;
        while i < n
            invariant
                2 <= n <= 4,
                n == bytes@.len(),
                1 <= i <= n,
                b0 == bytes@[0],
                lead_ones(b0) == n,
                forall|j: int| 1 <= j < i ==> is_continuation_byte(#[trigger] bytes@[j]),
                accumulator == accum(bytes@, i as int),
            decreases n - i,
        {
            let b = bytes[i];
            if leading_ones_u8(b) != 1 {
                return None;
            }
            accumulator = (accumulator << 6) | ((b & 0x3f) as u32);
            proof {
                assert((b & 0x3f) as u32 == continuation_bits(b));
            }
            i += 1;
        }
        proof {
            lemma_accum_is_codepoint(bytes@);
        }
        value = accumulator;
    } else if ones == 0 {
        value = b0 as u32;
    } else {
        return None;
    }
    char::from_u32(value)
}

/// Law: a character's UTF-8 encoding decodes back to the same character
/// under the channel's rule.
pub proof fn lemma_utf8_round_trip(value: char)
    ensures
        payload_decodes(encode_scalar(value as u32)),
        scalar_of_payload(encode_scalar(value as u32)) == value as u32,
{
    char_is_scalar(value);
    let s = value as u32;
    let chars = seq![value];
    encode_utf8_first_scalar(chars);
    assert(chars.drop_first() =~= Seq::<char>::empty());
    assert(encode_utf8(Seq::<char>::empty()) =~= Seq::<u8>::empty());
    assert(encode_utf8(chars) =~= encode_scalar(s) + Seq::<u8>::empty());
    assert(encode_scalar(s) + Seq::<u8>::empty() =~= encode_scalar(s));
    assert(encode_utf8(chars) == encode_scalar(s));
    let p = encode_scalar(s);
    if has_width_1_encoding(s) {
        assert(p =~= seq![leading_byte_width_1(s)]);
        assert(s <= 0x7f ==> ((s & 0x7f) as u8) < 0x80 && ((s & 0x7f) as u8) as u32 == s)
            by (bit_vector);
    } else if has_width_2_encoding(s) {
        assert(p.len() == 2);
        assert(is_leading_byte_width_2(p[0]));
        assert(lead_ones(p[0]) == 2);
    } else if has_width_3_encoding(s) {
        assert(p.len() == 3);
        assert(is_leading_byte_width_3(p[0]));
        assert(lead_ones(p[0]) == 3);
    } else {
        assert(p.len() == 4);
        assert(is_leading_byte_width_4(p[0]));
        assert(lead_ones(p[0]) == 4);
    }
}

/// The length of the longest prefix of `stream` that holds no zero byte,
/// capped at `cap` bytes.
pub open spec fn nonzero_prefix_len(stream: Seq<u8>, cap: int) -> int
    decreases cap,
{
    if cap <= 0 || stream.len() == 0 || stream[0] == 0 {
        0
    } else {
        1 + nonzero_prefix_len(stream.skip(1), cap - 1)
    }
}

/// The frame a single character read takes from the head of the pending
/// input: up to four bytes, cut short at the first zero byte.
pub open spec fn char_payload(stream: Seq<u8>) -> Seq<u8> {
    stream.take(nonzero_prefix_len(stream, 4))
}

/// How many pending bytes a single character read consumes: the frame's
/// bytes, plus the zero byte that terminated it when one was read.
pub open spec fn chars_consumed(stream: Seq<u8>) -> int {
    let n = nonzero_prefix_len(stream, 4);
    if n < 4 && n < stream.len() {
        n + 1
    } else {
        n
    }
}

/// The nonzero-prefix length is the unique `m` within both caps whose
/// first `m` bytes are nonzero and which is stopped by one of the three
/// conditions: the cap, the end of the stream, or a zero byte.
pub proof fn lemma_nonzero_prefix_len_is(stream: Seq<u8>, cap: int, m: int)
    requires
        0 <= m <= cap,
        m <= stream.len(),
        forall|i: int| 0 <= i < m ==> stream[i] != 0,
        m == cap || m == stream.len() || stream[m] == 0,
    ensures
        nonzero_prefix_len(stream, cap) == m,
    decreases m,
{
    if m == 0 {
    } else {
        assert(stream[0] != 0);
        let rest = stream.skip(1);
        assert(forall|i: int| 0 <= i < m - 1 ==> rest[i] == stream[i + 1] && rest[i] != 0);
        lemma_nonzero_prefix_len_is(rest, cap - 1, m - 1);
    }
}

/// Law: a frame whose first byte announces a multi-byte width but whose
/// later bytes include a malformed continuation byte is rejected, never
/// decoded to a character.
pub proof fn lemma_malformed_continuation_rejected(payload: Seq<u8>, index: int)
    requires
        payload.len() > 1,
        lead_ones(payload[0]) == payload.len(),
        1 <= index < payload.len(),
        !is_continuation_byte(payload[index]),
    ensures
        !payload_decodes(payload),
{
}

} // verus!
