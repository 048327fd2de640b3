//! What holds of texts.
use vstd::prelude::*;
use vstd::string::*;
use vstd::utf8::*;

use crate::text;

verus! {

// ---------------------------------------------------------------------------
// Order
// ---------------------------------------------------------------------------

/// Where the bytes of two texts first differ, the lesser byte comes first.
pub proof fn first_difference_orders(
    a: Seq<char>,
    b: Seq<char>,
    common: Seq<u8>,
    x: u8,
    y: u8,
    r: Seq<u8>,
    s: Seq<u8>,
)
    requires
        encode_utf8(a) == common + seq![x] + r,
        encode_utf8(b) == common + seq![y] + s,
        x < y,
    ensures
        text::before(a, b),
        !text::before(b, a),
{
    let k = common.len() as int;
    assert(text::parts_at(encode_utf8(a), encode_utf8(b), k));
    if text::before(b, a) {
        text::lemma_before_asymmetric(a, b);
    }
}

/// A text comes before those that go on behind it.
pub proof fn beginning_comes_first(a: Seq<char>, b: Seq<char>, more: Seq<u8>)
    requires
        encode_utf8(b) == encode_utf8(a) + more,
        more.len() > 0,
    ensures
        text::before(a, b),
{
    assert(text::parts_at(encode_utf8(a), encode_utf8(b), encode_utf8(a).len() as int));
}

// ---------------------------------------------------------------------------
// Splitting
// ---------------------------------------------------------------------------

/// Putting the two sides of a `c` together again gives the text, and the left side
/// holds no `c`; there are no sides only where there is no `c`.
pub proof fn sides_make_the_text(s: Seq<char>, c: char)
    ensures
        match text::sides(s, c) {
            Some((a, b)) => s == a + seq![c] + b && !a.contains(c),
            None => !s.contains(c),
        },
        text::head(s, c) == (match text::sides(s, c) {
            Some((a, _)) => a,
            None => s,
        }),
{
    lemma_parted(s, c);
    if s.contains(c) {
        let (a, b) = choose|a: Seq<char>, b: Seq<char>|
            s == #[trigger] (a.push(c) + b) && !a.contains(c);
        assert(s =~= a + seq![c] + b);
        text::lemma_split_at(a, c, b);
    } else {
        text::lemma_unsplit(s, c);
    }
}

proof fn lemma_parted(s: Seq<char>, c: char)
    ensures
        s.contains(c) ==> exists|a: Seq<char>, b: Seq<char>|
            s == #[trigger] (a.push(c) + b) && !a.contains(c),
    decreases s.len(),
{
    if s.contains(c) {
        if s[0] == c {
            assert(s =~= Seq::<char>::empty().push(c) + s.skip(1));
            assert(!Seq::<char>::empty().contains(c));
        } else {
            let t = s.skip(1);
            let i = choose|i: int| 0 <= i < s.len() && s[i] == c;
            assert(t[i - 1] == c);
            lemma_parted(t, c);
            let (a, b) = choose|a: Seq<char>, b: Seq<char>|
                t == #[trigger] (a.push(c) + b) && !a.contains(c);
            let first = seq![s[0]] + a;
            assert(s =~= seq![s[0]] + t);
            assert(s =~= first.push(c) + b);
            assert(!first.contains(c)) by {
                if first.contains(c) {
                    let j = choose|j: int| 0 <= j < first.len() && first[j] == c;
                    assert(a[j - 1] == c);
                }
            }
        }
    }
}

/// A text with one more part behind it is split into its parts and that part.
pub proof fn part_is_split_off(s: Seq<char>, c: char, part: Seq<char>)
    requires
        !part.contains(c),
    ensures
        text::split(s + seq![c] + part, c) == text::split(s, c).push(part),
    decreases s.len(),
{
    sides_make_the_text(s, c);
    match text::sides(s, c) {
        Some((a, b)) => {
            text::lemma_split_at(a, c, b);
            assert(b.len() < s.len());
            part_is_split_off(b, c, part);
            assert(s + seq![c] + part =~= a + seq![c] + (b + seq![c] + part));
            text::lemma_split_at(a, c, b + seq![c] + part);
            assert(seq![a] + text::split(b, c).push(part) =~= (seq![a] + text::split(b, c)).push(
                part,
            ));
        },
        None => {
            text::lemma_unsplit(s, c);
            text::lemma_split_at(s, c, part);
            text::lemma_unsplit(part, c);
            assert(seq![s] + seq![part] =~= seq![s].push(part));
        },
    }
}

/// Whether `a` and behind it `b` stand at a place of `s`.
pub open spec fn stand_at(s: Seq<char>, a: char, b: char, i: int) -> bool {
    0 <= i && i + 1 < s.len() && s[i] == a && s[i + 1] == b
}

/// A text is split where `a` and behind it `b` first stand, and loses nothing but
/// these two.
pub proof fn two_part_the_text(left: Seq<char>, a: char, b: char, right: Seq<char>)
    requires
        forall|i: int|
            0 <= i < left.len() ==> !(#[trigger] stand_at(left.push(a).push(b) + right, a, b, i)),
    ensures
        text::sides_of_two(left.push(a).push(b) + right, a, b) == Some((left, right)),
{
    let s = left.push(a).push(b) + right;
    lemma_find_two(s, a, b, left.len() as int);
    assert(s.take(left.len() as int) =~= left);
    assert(s.skip(left.len() as int + 2) =~= right);
}

/// A text in which the two stand nowhere is not split.
pub proof fn nothing_parts_the_text(s: Seq<char>, a: char, b: char)
    requires
        forall|i: int| 0 <= i < s.len() ==> !(#[trigger] stand_at(s, a, b, i)),
    ensures
        text::sides_of_two(s, a, b) is None,
{
    lemma_find_two(s, a, b, s.len() as int);
}

proof fn lemma_find_two(s: Seq<char>, a: char, b: char, n: int)
    requires
        0 <= n <= s.len(),
        forall|i: int| 0 <= i < n ==> !(#[trigger] stand_at(s, a, b, i)),
        n < s.len() ==> stand_at(s, a, b, n),
    ensures
        text::find_two(s, a, b) == n,
    decreases s.len(),
{
    if s.len() >= 2 && n > 0 {
        assert(!stand_at(s, a, b, 0));
        let t = s.skip(1);
        assert forall|i: int| 0 <= i < n - 1 implies !(#[trigger] stand_at(t, a, b, i)) by {
            assert(!stand_at(s, a, b, i + 1));
        }
        if n < s.len() {
            assert(stand_at(t, a, b, n - 1));
        }
        lemma_find_two(t, a, b, n - 1);
    }
}

// ---------------------------------------------------------------------------
// Trimming
// ---------------------------------------------------------------------------

/// Which characters are white space: those that Unicode says are.
pub proof fn white_space_is_unicodes(c: char)
    ensures
        text::white(c) <==> (c as int) == 0x20 || 0x9 <= (c as int) <= 0xd || (c as int) == 0x85 || (
        c as int) == 0xa0 || (c as int) == 0x1680 || 0x2000 <= (c as int) <= 0x200a || (c as int)
            == 0x2028 || (c as int) == 0x2029 || (c as int) == 0x202f || (c as int) == 0x205f || (
        c as int) == 0x3000,
{
}

/// Whether a text is made of white space alone.
pub open spec fn blank(s: Seq<char>) -> bool {
    forall|i: int| 0 <= i < s.len() ==> text::white(#[trigger] s[i])
}

/// Whether a text has no white space at its ends.
pub open spec fn tight(s: Seq<char>) -> bool {
    s.len() > 0 ==> !text::white(s[0]) && !text::white(s.last())
}

/// Trimming takes the white space around a text, and nothing of the text.
pub proof fn trimming_takes_what_is_around(before: Seq<char>, s: Seq<char>, after: Seq<char>)
    requires
        blank(before),
        blank(after),
        tight(s),
    ensures
        text::trimmed(before + s + after) == s,
{
    let p = |c: char| text::white(c);
    let whole = before + s + after;
    if s.len() > 0 {
        assert forall|j: int| 0 <= j < before.len() implies p(#[trigger] whole[j]) by {
            assert(text::white(before[j]));
        }
        text::lemma_strip_start(whole, p, before.len() as int);
        let t = whole.skip(before.len() as int);
        assert(t =~= s + after);
        assert forall|j: int| s.len() <= j < t.len() implies p(#[trigger] t[j]) by {
            assert(text::white(after[j - s.len()]));
        }
        assert(t[s.len() - 1] == s.last());
        text::lemma_strip_end(t, p, s.len() as int);
        assert(t.take(s.len() as int) =~= s);
    } else {
        assert forall|j: int| 0 <= j < whole.len() implies p(#[trigger] whole[j]) by {
            if j < before.len() {
                assert(text::white(before[j]));
            } else {
                assert(text::white(after[j - before.len()]));
            }
        }
        text::lemma_strip_start(whole, p, whole.len() as int);
        let t = whole.skip(whole.len() as int);
        assert(t =~= Seq::empty());
        text::lemma_strip_end(t, p, 0);
        assert(t.take(0) =~= s);
    }
}

/// Trimming takes a text as it is where there is nothing to take.
pub proof fn tight_text_is_trimmed_to_itself(s: Seq<char>)
    requires
        tight(s),
    ensures
        text::trimmed(s) == s,
{
    trimming_takes_what_is_around(Seq::empty(), s, Seq::empty());
    assert(Seq::<char>::empty() + s + Seq::<char>::empty() =~= s);
}

/// A blank text is trimmed to nothing, and only a blank one is.
pub proof fn blank_text_is_trimmed_to_nothing(s: Seq<char>)
    ensures
        text::trimmed(s).len() == 0 <==> blank(s),
{
    if blank(s) {
        trimming_takes_what_is_around(s, Seq::empty(), Seq::empty());
        assert(s + Seq::<char>::empty() + Seq::<char>::empty() =~= s);
    } else {
        let p = |c: char| text::white(c);
        let i = choose|i: int| 0 <= i < s.len() && !text::white(#[trigger] s[i]);
        lemma_first_ink(s, i);
        let n = choose|n: int|
            0 <= n < s.len() && !text::white(s[n]) && forall|j: int|
                0 <= j < n ==> text::white(#[trigger] s[j]);
        text::lemma_strip_start(s, p, n);
        let t = s.skip(n);
        assert(t[0] == s[n]);
        lemma_strip_end_keeps(t);
    }
}

proof fn lemma_first_ink(s: Seq<char>, i: int)
    requires
        0 <= i < s.len(),
        !text::white(s[i]),
    ensures
        exists|n: int|
            0 <= n < s.len() && !text::white(s[n]) && forall|j: int|
                0 <= j < n ==> text::white(#[trigger] s[j]),
    decreases i,
{
    if exists|j: int| 0 <= j < i && !text::white(#[trigger] s[j]) {
        let j = choose|j: int| 0 <= j < i && !text::white(#[trigger] s[j]);
        lemma_first_ink(s, j);
    } else {
        assert(0 <= i < s.len() && !text::white(s[i]) && forall|j: int|
            0 <= j < i ==> text::white(#[trigger] s[j]));
    }
}

proof fn lemma_strip_end_keeps(s: Seq<char>)
    requires
        s.len() > 0,
        !text::white(s[0]),
    ensures
        text::strip_end(s, |c: char| text::white(c)).len() > 0,
    decreases s.len(),
{
    if text::white(s.last()) {
        assert(s.len() > 1);
        assert(s.drop_last()[0] == s[0]);
        lemma_strip_end_keeps(s.drop_last());
    }
}

/// Stripping a character takes every one at that end, and nothing else.
pub proof fn stripping_takes_the_character_alone(n: nat, c: char, s: Seq<char>)
    ensures
        s.len() == 0 || s[0] != c ==> text::strip_start(
            Seq::new(n, |i: int| c) + s,
            |x: char| x == c,
        ) == s,
        s.len() == 0 || s.last() != c ==> text::strip_end(
            s + Seq::new(n, |i: int| c),
            |x: char| x == c,
        ) == s,
{
    let p = |x: char| x == c;
    let many = Seq::new(n, |i: int| c);
    let a = many + s;
    assert forall|j: int| 0 <= j < n implies p(#[trigger] a[j]) by {
        assert(a[j] == many[j]);
    }
    if s.len() == 0 || s[0] != c {
        text::lemma_strip_start(a, p, n as int);
        assert(a.skip(n as int) =~= s);
    }
    let b = s + many;
    assert forall|j: int| s.len() <= j < b.len() implies p(#[trigger] b[j]) by {
        assert(b[j] == many[j - s.len()]);
    }
    if s.len() == 0 || s.last() != c {
        text::lemma_strip_end(b, p, s.len() as int);
        assert(b.take(s.len() as int) =~= s);
    }
}

// ---------------------------------------------------------------------------
// Letter case
// ---------------------------------------------------------------------------

/// Only the letters `A` to `Z` are made small, each to its own letter, and only
/// `a` to `z` are made capital.
pub proof fn case_is_of_ascii_letters(c: char)
    ensures
        'A' <= c <= 'Z' ==> text::lower(c) as int == c as int + 32 && text::upper(c) == c,
        'a' <= c <= 'z' ==> text::upper(c) as int == c as int - 32 && text::lower(c) == c,
        !('A' <= c <= 'Z') && !('a' <= c <= 'z') ==> text::lower(c) == c && text::upper(c) == c,
{
}

/// A text is made small, and capital, character by character.
pub proof fn case_goes_by_characters(s: Seq<char>, i: int)
    requires
        0 <= i < s.len(),
    ensures
        text::lowered(s).len() == s.len(),
        text::raised(s).len() == s.len(),
        text::lowered(s)[i] == text::lower(s[i]),
        text::raised(s)[i] == text::upper(s[i]),
{
}

// ---------------------------------------------------------------------------
// Numbers
// ---------------------------------------------------------------------------

/// The last digit of a number is its remainder by ten, and the digits before it
/// are those of its tenth; a number below ten has one digit.
pub proof fn digits_are_decimal(n: nat)
    ensures
        text::decimal(n).last() as int == '0' as int + n as int % 10,
        n < 10 ==> text::decimal(n).len() == 1,
        n >= 10 ==> text::decimal(n).drop_last() == text::decimal(n / 10),
{
    if n >= 10 {
        assert(text::decimal(n).drop_last() =~= text::decimal(n / 10));
    }
}

/// Each digit counts ten times the one behind it.
pub proof fn number_goes_by_digits(s: Seq<char>, d: char)
    ensures
        text::number_in(Seq::empty()) == 0,
        text::number_in(s.push(d)) == 10 * text::number_in(s) + (d as int - '0' as int),
{
    assert(s.push(d).drop_last() =~= s);
}

/// A number is read from digits alone, with at most one plus sign before them, and
/// only where it is not too large; it is then the number that the digits write.
pub proof fn numbers_are_read(s: Seq<char>, max: int)
    requires
        forall|i: int| 0 <= i < s.len() ==> '0' <= #[trigger] s[i] <= '9',
        s.len() > 0,
    ensures
        text::unsigned(s, max) == (if text::number_in(s) <= max {
            Some(text::number_in(s))
        } else {
            None
        }),
        text::unsigned(seq!['+'] + s, max) == text::unsigned(s, max),
{
    assert('0' <= s[0] <= '9');
    assert((seq!['+'] + s).skip(1) =~= s);
}

/// A text with anything else in it is no number.
pub proof fn other_texts_are_no_numbers(s: Seq<char>, i: int, max: int)
    requires
        0 <= i < s.len(),
        !('0' <= s[i] <= '9'),
        i == 0 ==> s[i] != '+',
    ensures
        text::unsigned(s, max) is None,
        text::unsigned(Seq::empty(), max) is None,
        text::unsigned(seq!['+'], max) is None,
{
    if s[0] == '+' {
        let t = s.skip(1);
        assert(t[i - 1] == s[i]);
    }
    assert(seq!['+'].skip(1) =~= Seq::<char>::empty());
}

/// A number that was written is read.
pub proof fn written_number_is_read(n: nat, max: int)
    requires
        n <= max,
    ensures
        text::unsigned(text::decimal(n), max) == Some(n as int),
{
    text::written_number_reads_back(n);
    numbers_are_read(text::decimal(n), max);
}

// ---------------------------------------------------------------------------
// Beginnings
// ---------------------------------------------------------------------------

/// A text begins with what stands before the rest of it, and with nothing else.
pub proof fn texts_begin_with_their_beginning(s: Seq<char>, p: Seq<char>)
    ensures
        text::begins_with(p + s, p),
        text::begins_with(s, p) ==> exists|rest: Seq<char>| s == #[trigger] (p + rest),
{
    assert((p + s).take(p.len() as int) =~= p);
    if text::begins_with(s, p) {
        assert(s =~= p + s.skip(p.len() as int));
    }
}

// ---------------------------------------------------------------------------
// Texts
// ---------------------------------------------------------------------------

/// What stands for texts is their characters, in their order.
pub proof fn texts_are_their_characters(p: (String, String), v: Seq<String>, i: int)
    ensures
        text::pair_view(p) == (p.0@, p.1@),
        text::texts(v).len() == v.len(),
        0 <= i < v.len() ==> text::texts(v)[i] == v[i]@,
{
}

}
