//! Percent-encoding of text in paths and queries.
use vstd::prelude::*;
use vstd::string::*;
use vstd::utf8::*;

pub mod laws;

verus! {

// ---------------------------------------------------------------------------
// Encoding
// ---------------------------------------------------------------------------

/// The bytes that stand for themselves: ASCII letters, digits and `-_.~`.
pub open spec fn unreserved(b: u8) -> bool {
    ||| 0x41 <= b <= 0x5a
    ||| 0x61 <= b <= 0x7a
    ||| 0x30 <= b <= 0x39
    ||| b == 0x2d
    ||| b == 0x5f
    ||| b == 0x2e
    ||| b == 0x7e
}

/// The hexadecimal digit for a number below sixteen, in capitals.
pub open spec fn hex_char(n: int) -> char {
    if n < 10 {
        (48 + n) as char
    } else {
        (55 + n) as char
    }
}

/// How one byte is written.
pub open spec fn written(b: u8) -> Seq<char> {
    if unreserved(b) {
        seq![b as char]
    } else {
        seq!['%', hex_char(b as int / 16), hex_char(b as int % 16)]
    }
}

/// How a row of bytes is written.
pub open spec fn encoded(bytes: Seq<u8>) -> Seq<char>
    decreases bytes.len(),
{
    if bytes.len() == 0 {
        Seq::empty()
    } else {
        written(bytes[0]) + encoded(bytes.skip(1))
    }
}

/// How a text is written: byte by byte of its UTF-8 form.
pub open spec fn percent_encoded(s: Seq<char>) -> Seq<char> {
    encoded(encode_utf8(s))
}

/// `hex_char` on a number below sixteen.
fn hex_char_of(n: u8) -> (r: char)
    requires
        n < 16,
    ensures
        r == hex_char(n as int),
{
    if n < 10 {
        (48 + n) as char
    } else {
        (55 + n) as char
    }
}

/// Writes a text so that it can stand in a path or a query.
pub fn percent_encode(s: &str) -> (r: String)
    ensures
        r@ == percent_encoded(s@),
{
    let bytes = s.as_bytes();
    let mut out = String::new();
    let mut i: usize = 0;
    proof {
        assert(bytes@.skip(0) =~= bytes@);
        assert(out@ + encoded(bytes@) =~= encoded(bytes@));
    }
    while i < bytes.len()
        invariant
            0 <= i <= bytes@.len(),
            bytes@ == encode_utf8(s@),
            out@ + encoded(bytes@.skip(i as int)) == encoded(bytes@),
        decreases bytes@.len() - i,
    {
        let b = bytes[i];
        let ghost done = out@;
        let ghost rest = bytes@.skip(i as int);
        if (0x41 <= b && b <= 0x5a) || (0x61 <= b && b <= 0x7a) || (0x30 <= b && b <= 0x39) || b
            == 0x2d || b == 0x5f || b == 0x2e || b == 0x7e {
            out.push(b as char);
        } else {
            out.push('%');
            out.push(hex_char_of(b / 16));
            out.push(hex_char_of(b % 16));
        }
        proof {
            assert(out@ =~= done + written(b));
            assert(rest.skip(1) =~= bytes@.skip(i as int + 1));
            assert(done + (written(b) + encoded(rest.skip(1))) =~= done + written(b) + encoded(
                rest.skip(1),
            ));
        }
        i += 1;
    }
    assert(out@ + encoded(bytes@.skip(i as int)) =~= out@);
    out
}

// ---------------------------------------------------------------------------
// Decoding
// ---------------------------------------------------------------------------

/// The number that a hexadecimal digit stands for.
pub open spec fn hex_value(b: u8) -> Option<int> {
    if 0x30 <= b <= 0x39 {
        Some(b - 0x30)
    } else if 0x41 <= b <= 0x46 {
        Some(b - 0x37)
    } else if 0x61 <= b <= 0x66 {
        Some(b - 0x57)
    } else {
        None
    }
}

/// The byte that the two bytes behind a percent sign stand for. Two bytes that
/// cut a character in two stand for zero; a plus sign may take the place of the
/// first digit.
pub open spec fn hex_pair(a: u8, b: u8) -> Option<u8> {
    if !valid_utf8(seq![a, b]) {
        Some(0)
    } else if a == 0x2b && hex_value(b) is Some {
        Some(hex_value(b)->0 as u8)
    } else if hex_value(a) is Some && hex_value(b) is Some {
        Some((16 * hex_value(a)->0 + hex_value(b)->0) as u8)
    } else {
        None
    }
}

/// The bytes that a row of bytes stands for: `%` and two digits for one byte,
/// `+` for a space, every other byte for itself.
pub open spec fn decoded(bytes: Seq<u8>) -> Seq<u8>
    decreases bytes.len(),
{
    if bytes.len() == 0 {
        Seq::empty()
    } else if bytes[0] == 0x25 && bytes.len() > 2 && hex_pair(bytes[1], bytes[2]) is Some {
        seq![hex_pair(bytes[1], bytes[2])->0] + decoded(bytes.skip(3))
    } else {
        seq![
            if bytes[0] == 0x2b {
                0x20
            } else {
                bytes[0]
            },
        ] + decoded(bytes.skip(1))
    }
}

/// What `String::from_utf8_lossy` puts in place of bytes that are not UTF-8.
pub uninterp spec fn repaired(bytes: Seq<u8>) -> Seq<char>;

/// The text of a row of bytes: what they encode, or, where they are not UTF-8,
/// the repaired text.
pub open spec fn text_of(bytes: Seq<u8>) -> Seq<char> {
    if valid_utf8(bytes) {
        decode_utf8(bytes)
    } else {
        repaired(bytes)
    }
}

/// `String::from_utf8_lossy`: bytes that are UTF-8 give the text that they
/// encode. Other bytes give a text in which what is not UTF-8 has been
/// replaced; that text is named, not described.
#[verifier::external_body]
pub(crate) fn read_lossy(bytes: &Vec<u8>) -> (r: String)
    ensures
        r@ == (if valid_utf8(bytes@) {
            decode_utf8(bytes@)
        } else {
            repaired(bytes@)
        }),
{
    String::from_utf8_lossy(bytes).into_owned()
}

/// The text that percent-encoded text stands for.
pub open spec fn percent_decoded(s: Seq<char>) -> Seq<char> {
    text_of(decoded(encode_utf8(s)))
}

/// Which pairs of bytes are UTF-8.
pub proof fn lemma_pair_utf8(a: u8, b: u8)
    ensures
        valid_utf8(seq![a, b]) <==> (a < 0x80 && b < 0x80) || (0xc2 <= a <= 0xdf && 0x80 <= b
            <= 0xbf),
{
    let s = seq![a, b];
    reveal_with_fuel(valid_utf8, 3);
    assert((a & 0x7f) <= 0x7f) by (bit_vector);
    assert((b & 0x7f) <= 0x7f) by (bit_vector);
    if a < 0x80 {
        assert(pop_first_scalar(s) =~= seq![b]);
        if b < 0x80 {
            assert(pop_first_scalar(seq![b]) =~= Seq::<u8>::empty());
        }
    } else if 0xc0 <= a <= 0xdf && 0x80 <= b <= 0xbf {
        assert(pop_first_scalar(s) =~= Seq::<u8>::empty());
        let cp = codepoint_width_2(a, b);
        assert(cp == ((((a & 0x1f) as u32) << 6) | ((b & 0x3f) as u32)));
        assert(0xc0 <= a <= 0xdf && 0x80 <= b <= 0xbf ==> (((((a & 0x1f) as u32) << 6) | ((b
            & 0x3f) as u32)) >= 0x80 <==> a >= 0xc2)) by (bit_vector);
        assert(((((a & 0x1f) as u32) << 6) | ((b & 0x3f) as u32)) < 0x800) by (bit_vector);
    }
}

fn hex_value_of(b: u8) -> (r: Option<u8>)
    ensures
        r is Some <==> hex_value(b) is Some,
        r is Some ==> r->0 == hex_value(b)->0 && r->0 < 16,
{
    if 0x30 <= b && b <= 0x39 {
        Some(b - 0x30)
    } else if 0x41 <= b && b <= 0x46 {
        Some(b - 0x37)
    } else if 0x61 <= b && b <= 0x66 {
        Some(b - 0x57)
    } else {
        None
    }
}

fn hex_pair_of(a: u8, b: u8) -> (r: Option<u8>)
    ensures
        r == hex_pair(a, b),
{
    proof {
        lemma_pair_utf8(a, b);
    }
    if !((a < 0x80 && b < 0x80) || (0xc2 <= a && a <= 0xdf && 0x80 <= b && b <= 0xbf)) {
        return Some(0);
    }
    match hex_value_of(b) {
        None => None,
        Some(low) => if a == 0x2b {
            Some(low)
        } else {
            match hex_value_of(a) {
                None => None,
                Some(high) => Some(16 * high + low),
            }
        },
    }
}

/// Reads percent-encoded text.
pub fn percent_decode(s: &str) -> (r: String)
    ensures
        r@ == percent_decoded(s@),
{
    let bytes = s.as_bytes();
    let mut out: Vec<u8> = Vec::new();
    let mut i: usize = 0;
    proof {
        assert(bytes@.skip(0) =~= bytes@);
        assert(out@ + decoded(bytes@) =~= decoded(bytes@));
    }
    while i < bytes.len()
        invariant
            0 <= i <= bytes@.len(),
            bytes@ == encode_utf8(s@),
            out@ + decoded(bytes@.skip(i as int)) == decoded(bytes@),
        decreases bytes@.len() - i,
    {
        let ghost done = out@;
        let ghost rest = bytes@.skip(i as int);
        let pair: Option<u8> = if bytes[i] == 0x25 && bytes.len() - i > 2 {
            hex_pair_of(bytes[i + 1], bytes[i + 2])
        } else {
            None
        };
        match pair {
            Some(b) => {
                out.push(b);
                proof {
                    assert(rest.skip(3) =~= bytes@.skip(i as int + 3));
                    assert(out@ + decoded(rest.skip(3)) =~= done + (seq![b] + decoded(
                        rest.skip(3),
                    )));
                }
                i += 3;
            },
            None => {
                let b: u8 = if bytes[i] == 0x2b {
                    0x20
                } else {
                    bytes[i]
                };
                out.push(b);
                proof {
                    assert(rest.skip(1) =~= bytes@.skip(i as int + 1));
                    assert(out@ + decoded(rest.skip(1)) =~= done + (seq![b] + decoded(
                        rest.skip(1),
                    )));
                }
                i += 1;
            },
        }
    }
    assert(out@ + decoded(bytes@.skip(i as int)) =~= out@);
    read_lossy(&out)
}

// ---------------------------------------------------------------------------
// Laws
// ---------------------------------------------------------------------------

/// Whether a character can stand in percent-encoded text.
pub open spec fn safe(c: char) -> bool {
    c == '%' || (c <= '\u{7f}' && unreserved(c as u8))
}

/// Percent-encoded text holds nothing but unreserved characters and percent
/// signs: none of the characters that part a path or a query.
pub proof fn encoded_text_is_safe(s: Seq<char>)
    ensures
        forall|i: int| 0 <= i < percent_encoded(s).len() ==> safe(#[trigger] percent_encoded(s)[i]),
{
    lemma_encoded_safe(encode_utf8(s));
}

proof fn lemma_encoded_safe(bytes: Seq<u8>)
    ensures
        forall|i: int| 0 <= i < encoded(bytes).len() ==> safe(#[trigger] encoded(bytes)[i]),
    decreases bytes.len(),
{
    if bytes.len() > 0 {
        lemma_encoded_safe(bytes.skip(1));
        let w = written(bytes[0]);
        assert forall|i: int| 0 <= i < w.len() implies safe(#[trigger] w[i]) by {}
        assert forall|i: int| 0 <= i < encoded(bytes).len() implies safe(
            #[trigger] encoded(bytes)[i],
        ) by {
            if i < w.len() {
                assert(safe(w[i]));
            } else {
                assert(encoded(bytes.skip(1))[i - w.len()] == encoded(bytes)[i]);
            }
        }
    }
}

/// What was encoded is read back: for every text.
pub proof fn decoding_undoes_encoding(s: Seq<char>)
    ensures
        percent_decoded(percent_encoded(s)) == s,
{
    let bytes = encode_utf8(s);
    lemma_encoded_safe(bytes);
    let e = encoded(bytes);
    assert(is_ascii_chars(e)) by {
        assert forall|i: int| 0 <= i < e.len() implies '\0' <= #[trigger] e[i] <= '\u{7f}' by {
            lemma_ascii(e[i]);
            assert(safe(e[i]));
        }
    }
    is_ascii_chars_encode_utf8(e);
    lemma_decoded_encoded(bytes);
    assert(encode_utf8(e) =~= ascii_bytes(e));
    encode_utf8_valid_utf8(s);
    encode_utf8_decode_utf8(s);
}

/// A character below 128 is the byte of that number.
pub proof fn lemma_ascii(c: char)
    requires
        c <= '\u{7f}',
    ensures
        '\0' <= c,
        c as u8 as char == c,
{
}

/// The bytes of a text in ASCII.
spec fn ascii_bytes(s: Seq<char>) -> Seq<u8> {
    Seq::new(s.len(), |i: int| s[i] as u8)
}

proof fn lemma_decoded_encoded(bytes: Seq<u8>)
    ensures
        decoded(ascii_bytes(encoded(bytes))) == bytes,
    decreases bytes.len(),
{
    if bytes.len() > 0 {
        let b = bytes[0];
        let rest = bytes.skip(1);
        lemma_decoded_encoded(rest);
        let e = ascii_bytes(encoded(bytes));
        if unreserved(b) {
            assert(e[0] == b);
            assert(e.skip(1) =~= ascii_bytes(encoded(rest)));
        } else {
            let x = e[1];
            let y = e[2];
            assert(x == hex_char(b as int / 16) as u8);
            assert(y == hex_char(b as int % 16) as u8);
            lemma_pair_utf8(x, y);
            assert(hex_pair(x, y) == Some(b));
            assert(e[0] == 0x25);
            assert(e.skip(3) =~= ascii_bytes(encoded(rest)));
        }
        assert(decoded(e) =~= seq![b] + rest);
        assert(seq![b] + rest =~= bytes);
    } else {
        assert(ascii_bytes(encoded(bytes)) =~= Seq::<u8>::empty());
    }
}

/// Two texts that are encoded alike are the same text.
pub proof fn encoding_keeps_texts_apart(a: Seq<char>, b: Seq<char>)
    requires
        percent_encoded(a) == percent_encoded(b),
    ensures
        a == b,
{
    decoding_undoes_encoding(a);
    decoding_undoes_encoding(b);
}

/// Whether a text is made of unreserved characters alone.
pub open spec fn plain(s: Seq<char>) -> bool {
    forall|i: int| 0 <= i < s.len() ==> #[trigger] s[i] <= '\u{7f}' && unreserved(s[i] as u8)
}

/// A text of unreserved characters is encoded as itself.
pub proof fn plain_text_is_encoded_as_itself(s: Seq<char>)
    requires
        plain(s),
    ensures
        percent_encoded(s) == s,
{
    assert(is_ascii_chars(s)) by {
        assert forall|i: int| 0 <= i < s.len() implies '\0' <= #[trigger] s[i] <= '\u{7f}' by {
            lemma_ascii(s[i]);
            assert(s[i] <= '\u{7f}');
        }
    }
    is_ascii_chars_encode_utf8(s);
    assert(encode_utf8(s) =~= ascii_bytes(s));
    lemma_plain(s);
}

proof fn lemma_plain(s: Seq<char>)
    requires
        plain(s),
    ensures
        encoded(ascii_bytes(s)) == s,
    decreases s.len(),
{
    if s.len() > 0 {
        let t = s.skip(1);
        assert forall|i: int| 0 <= i < t.len() implies #[trigger] t[i] <= '\u{7f}' && unreserved(
            t[i] as u8,
        ) by {
            assert(t[i] == s[i + 1]);
        }
        lemma_plain(t);
        assert(ascii_bytes(s).skip(1) =~= ascii_bytes(t));
        assert(s[0] <= '\u{7f}');
        lemma_ascii(s[0]);
        assert(written(ascii_bytes(s)[0]) =~= seq![s[0]]);
        assert(seq![s[0]] + t =~= s);
    } else {
        assert(encoded(ascii_bytes(s)) =~= s);
    }
}

/// Encoding makes no row of bytes shorter, and longer any that holds a byte that
/// is not unreserved.
proof fn lemma_encoded_len(bytes: Seq<u8>)
    ensures
        encoded(bytes).len() >= bytes.len(),
        encoded(bytes).len() == bytes.len() ==> forall|i: int|
            0 <= i < bytes.len() ==> unreserved(#[trigger] bytes[i]),
    decreases bytes.len(),
{
    if bytes.len() > 0 {
        let rest = bytes.skip(1);
        lemma_encoded_len(rest);
        if encoded(bytes).len() == bytes.len() {
            assert forall|i: int| 0 <= i < bytes.len() implies unreserved(#[trigger] bytes[i]) by {
                if i > 0 {
                    assert(rest[i - 1] == bytes[i]);
                }
            }
        }
    }
}

/// A text that is encoded as itself is made of unreserved characters alone.
pub proof fn text_encoded_as_itself_is_plain(s: Seq<char>)
    requires
        percent_encoded(s) == s,
    ensures
        plain(s),
{
    encoded_text_is_safe(s);
    assert(is_ascii_chars(s)) by {
        assert forall|i: int| 0 <= i < s.len() implies '\0' <= #[trigger] s[i] <= '\u{7f}' by {
            lemma_ascii(s[i]);
            assert(safe(percent_encoded(s)[i]));
        }
    }
    is_ascii_chars_encode_utf8(s);
    assert(encode_utf8(s) =~= ascii_bytes(s));
    lemma_encoded_len(encode_utf8(s));
    assert forall|i: int| 0 <= i < s.len() implies #[trigger] s[i] <= '\u{7f}' && unreserved(
        s[i] as u8,
    ) by {
        assert(unreserved(ascii_bytes(s)[i]));
        assert(safe(percent_encoded(s)[i]));
    }
}

}
