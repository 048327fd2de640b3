//! What holds of percent-encoding.
use vstd::prelude::*;
use vstd::string::*;
use vstd::utf8::*;

use crate::percent;

verus! {

// ---------------------------------------------------------------------------
// Encoding
// ---------------------------------------------------------------------------

/// Which bytes stand for themselves.
pub proof fn unreserved_bytes_are_named(b: u8)
    ensures
        percent::unreserved(b) <==> ('A' as int <= b <= 'Z' as int) || ('a' as int <= b
            <= 'z' as int) || ('0' as int <= b <= '9' as int) || b == '-' as int || b == '_' as int
            || b == '.' as int || b == '~' as int,
{
}

/// A byte that does not stand for itself is written as `%` and its two digits to
/// the base of sixteen, in capitals.
pub proof fn other_bytes_are_written_in_hex(b: u8)
    ensures
        percent::unreserved(b) ==> percent::encoded(seq![b]) == seq![b as char],
        !percent::unreserved(b) ==> percent::encoded(seq![b]) == seq![
            '%',
            "0123456789ABCDEF"@[b as int / 16],
            "0123456789ABCDEF"@[b as int % 16],
        ],
{
    reveal_strlit("0123456789ABCDEF");
    reveal_with_fuel(percent::encoded, 2);
    assert(seq![b].skip(1) =~= Seq::<u8>::empty());
    assert(percent::encoded(seq![b]) =~= percent::written(b));
    let hi = b as int / 16;
    let lo = b as int % 16;
    assert("0123456789ABCDEF"@[hi] == percent::hex_char(hi));
    assert("0123456789ABCDEF"@[lo] == percent::hex_char(lo));
}

/// Bytes are written one by one.
pub proof fn encoding_goes_byte_by_byte(a: Seq<u8>, b: Seq<u8>)
    ensures
        percent::encoded(a + b) == percent::encoded(a) + percent::encoded(b),
        percent::encoded(Seq::empty()) == Seq::<char>::empty(),
    decreases a.len(),
{
    if a.len() > 0 {
        encoding_goes_byte_by_byte(a.skip(1), b);
        assert((a + b).skip(1) =~= a.skip(1) + b);
        assert(percent::encoded(a + b) =~= percent::encoded(a) + percent::encoded(b));
    } else {
        assert(a + b =~= b);
        assert(percent::encoded(a) + percent::encoded(b) =~= percent::encoded(b));
    }
}

/// A text is encoded as the bytes of its UTF-8 form are.
pub proof fn texts_are_encoded_as_their_bytes(s: Seq<char>)
    ensures
        percent::percent_encoded(s) == percent::encoded(encode_utf8(s)),
{
}

// ---------------------------------------------------------------------------
// Decoding
// ---------------------------------------------------------------------------

/// Which bytes are digits to the base of sixteen, and what they stand for.
pub proof fn hex_digits_are_named(b: u8)
    ensures
        '0' as int <= b <= '9' as int ==> percent::hex_value(b) == Some(b - '0' as int),
        'A' as int <= b <= 'F' as int ==> percent::hex_value(b) == Some(b - 'A' as int + 10),
        'a' as int <= b <= 'f' as int ==> percent::hex_value(b) == Some(b - 'a' as int + 10),
        percent::hex_value(b) is Some ==> ('0' as int <= b <= '9' as int) || ('A' as int <= b
            <= 'F' as int) || ('a' as int <= b <= 'f' as int),
{
}

/// A percent sign and two digits stand for one byte.
pub proof fn escape_stands_for_its_byte(hi: u8, lo: u8, rest: Seq<u8>)
    requires
        percent::hex_value(hi) is Some,
        percent::hex_value(lo) is Some,
    ensures
        percent::decoded(seq![0x25u8, hi, lo] + rest) == seq![
            (16 * percent::hex_value(hi)->0 + percent::hex_value(lo)->0) as u8,
        ] + percent::decoded(rest),
{
    percent::lemma_pair_utf8(hi, lo);
    let bytes = seq![0x25u8, hi, lo] + rest;
    assert(bytes.skip(3) =~= rest);
}

/// A byte that is neither a percent sign nor a plus sign stands for itself, and a
/// plus sign stands for a space.
pub proof fn other_bytes_stand_for_themselves(b: u8, rest: Seq<u8>)
    requires
        b != 0x25,
    ensures
        percent::decoded(seq![b] + rest) == seq![
            if b == '+' as int {
                ' ' as u8
            } else {
                b
            },
        ] + percent::decoded(rest),
        percent::decoded(Seq::empty()) == Seq::<u8>::empty(),
{
    assert((seq![b] + rest).skip(1) =~= rest);
}

/// A percent sign with fewer than two bytes behind it, with two ASCII bytes that are
/// no digits, or with a character of two bytes, stands for itself.
pub proof fn broken_escape_is_kept(rest: Seq<u8>)
    requires
        rest.len() < 2 || (rest[0] < 0x80 && rest[1] < 0x80 && (percent::hex_value(rest[1]) is None
            || (percent::hex_value(rest[0]) is None && rest[0] != 0x2b))) || (0xc2 <= rest[0] <= 0xdf
            && 0x80 <= rest[1] <= 0xbf),
    ensures
        percent::decoded(seq![0x25u8] + rest) == seq![0x25u8] + percent::decoded(rest),
{
    let bytes = seq![0x25u8] + rest;
    assert(bytes.skip(1) =~= rest);
    if rest.len() >= 2 {
        percent::lemma_pair_utf8(rest[0], rest[1]);
        assert(bytes[1] == rest[0] && bytes[2] == rest[1]);
    }
}

/// What is decoded is the text that the bytes are, where they are UTF-8.
pub proof fn decoded_bytes_are_read_as_text(s: Seq<char>, t: Seq<char>)
    requires
        percent::decoded(encode_utf8(s)) == encode_utf8(t),
    ensures
        percent::percent_decoded(s) == t,
{
    encode_utf8_valid_utf8(t);
    encode_utf8_decode_utf8(t);
}

/// A plus sign in place of the first digit counts as nothing, and two bytes that
/// cut a character in two stand for a zero byte.
pub proof fn odd_escapes_are_read(a: u8, b: u8, rest: Seq<u8>)
    ensures
        a == 0x2b && percent::hex_value(b) is Some ==> percent::decoded(seq![0x25u8, a, b] + rest)
            == seq![percent::hex_value(b)->0 as u8] + percent::decoded(rest),
        !((a < 0x80 && b < 0x80) || (0xc2 <= a <= 0xdf && 0x80 <= b <= 0xbf)) ==> percent::decoded(
            seq![0x25u8, a, b] + rest,
        ) == seq![0u8] + percent::decoded(rest),
{
    percent::lemma_pair_utf8(a, b);
    let bytes = seq![0x25u8, a, b] + rest;
    assert(bytes.skip(3) =~= rest);
}

/// Bytes are read as the text that they are in UTF-8, and repaired where they are
/// none.
pub proof fn bytes_are_read_as_text(bytes: Seq<u8>, s: Seq<char>)
    ensures
        bytes == encode_utf8(s) ==> percent::text_of(bytes) == s,
        !valid_utf8(bytes) ==> percent::text_of(bytes) == percent::repaired(bytes),
{
    encode_utf8_valid_utf8(s);
    encode_utf8_decode_utf8(s);
}

}
