//! Text: searching, splitting, trimming, ordering and letter case.
//!
//! A text is a sequence of characters. Positions count characters, not bytes,
//! except where a function speaks of the UTF-8 bytes of a text.
use vstd::prelude::*;
use vstd::string::*;
use vstd::utf8::*;

pub mod laws;

verus! {

/// `String::push`: one character is appended to the text.
pub assume_specification[ std::string::String::push ](s: &mut std::string::String, c: char)
    ensures
        final(s)@ == old(s)@.push(c),
;

// ---------------------------------------------------------------------------
// Equality and order
// ---------------------------------------------------------------------------

/// Two texts with the same UTF-8 bytes are the same text.
pub proof fn lemma_bytes_determine_text(a: Seq<char>, b: Seq<char>)
    requires
        encode_utf8(a) == encode_utf8(b),
    ensures
        a == b,
{
    encode_utf8_decode_utf8(a);
    encode_utf8_decode_utf8(b);
}

/// Whether the two texts hold the same characters.
pub fn same(a: &str, b: &str) -> (r: bool)
    ensures
        r == (a@ == b@),
{
    let x = a.as_bytes();
    let y = b.as_bytes();
    if x.len() != y.len() {
        return false;
    }
    let mut i: usize = 0;
    while i < x.len()
        invariant
            0 <= i <= x@.len(),
            x@.len() == y@.len(),
            x@ == encode_utf8(a@),
            y@ == encode_utf8(b@),
            forall|j: int| 0 <= j < i ==> x@[j] == y@[j],
        decreases x@.len() - i,
    {
        if x[i] != y[i] {
            return false;
        }
        i += 1;
    }
    proof {
        assert(x@ =~= y@);
        lemma_bytes_determine_text(a@, b@);
    }
    true
}

/// Position `k` is where `a` and `b` first part, and `a` is the lesser there.
pub open spec fn parts_at(a: Seq<u8>, b: Seq<u8>, k: int) -> bool {
    &&& 0 <= k <= a.len()
    &&& k < b.len()
    &&& forall|i: int| 0 <= i < k ==> a[i] == b[i]
    &&& (k == a.len() || a[k] < b[k])
}

/// The order of texts: byte by byte, a prefix before what it begins.
pub open spec fn before(a: Seq<char>, b: Seq<char>) -> bool {
    exists|k: int| #[trigger] parts_at(encode_utf8(a), encode_utf8(b), k)
}

/// No text is before itself, nor is any pair of texts before each other.
pub proof fn lemma_before_asymmetric(a: Seq<char>, b: Seq<char>)
    requires
        before(a, b),
    ensures
        !before(b, a),
        a != b,
{
    let x = encode_utf8(a);
    let y = encode_utf8(b);
    let k = choose|k: int| #[trigger] parts_at(x, y, k);
    if before(b, a) {
        let m = choose|m: int| #[trigger] parts_at(y, x, m);
        if m < k {
            assert(x[m] == y[m]);
        } else if k < m {
            assert(x[k] == y[k]);
        }
    }
}

/// The order of texts is transitive.
pub proof fn lemma_before_transitive(a: Seq<char>, b: Seq<char>, c: Seq<char>)
    requires
        before(a, b),
        before(b, c),
    ensures
        before(a, c),
{
    let x = encode_utf8(a);
    let y = encode_utf8(b);
    let z = encode_utf8(c);
    let k = choose|k: int| #[trigger] parts_at(x, y, k);
    let m = choose|m: int| #[trigger] parts_at(y, z, m);
    let n = if k < m { k } else { m };
    if k < m {
        assert(y[k] == z[k]);
    } else if m < k {
        assert(x[m] == y[m]);
    }
    assert(parts_at(x, z, n));
}

/// How one text stands to another in the order of texts.
pub enum Standing {
    Before,
    Same,
    After,
}

/// Compares two texts in the order of texts.
pub fn standing(a: &str, b: &str) -> (r: Standing)
    ensures
        match r {
            Standing::Before => before(a@, b@),
            Standing::Same => a@ == b@,
            Standing::After => before(b@, a@),
        },
{
    let x = a.as_bytes();
    let y = b.as_bytes();
    let mut i: usize = 0;
    while i < x.len() && i < y.len()
        invariant
            0 <= i <= x@.len(),
            i <= y@.len(),
            x@ == encode_utf8(a@),
            y@ == encode_utf8(b@),
            forall|j: int| 0 <= j < i ==> x@[j] == y@[j],
        decreases x@.len() - i,
    {
        if x[i] < y[i] {
            assert(parts_at(x@, y@, i as int));
            return Standing::Before;
        }
        if y[i] < x[i] {
            assert(parts_at(y@, x@, i as int));
            return Standing::After;
        }
        i += 1;
    }
    if i < y.len() {
        assert(parts_at(x@, y@, i as int));
        Standing::Before
    } else if i < x.len() {
        assert(parts_at(y@, x@, i as int));
        Standing::After
    } else {
        proof {
            assert(x@ =~= y@);
            lemma_bytes_determine_text(a@, b@);
        }
        Standing::Same
    }
}

// ---------------------------------------------------------------------------
// Characters
// ---------------------------------------------------------------------------

/// The characters of a text, one by one.
pub fn chars_of(s: &str) -> (r: Vec<char>)
    ensures
        r@ == s@,
{
    let mut out: Vec<char> = Vec::new();
    for c in it: s.chars()
        invariant
            out@ == it.seq().take(it.index() as int),
            it.seq() == s@,
    {
        out.push(c);
    }
    out
}

/// The text made of the characters from position `from` up to `to`.
pub fn text_between(chars: &Vec<char>, from: usize, to: usize) -> (r: String)
    requires
        from <= to <= chars@.len(),
    ensures
        r@ == chars@.subrange(from as int, to as int),
{
    let mut out = String::new();
    let mut i: usize = from;
    while i < to
        invariant
            from <= i <= to <= chars@.len(),
            out@ == chars@.subrange(from as int, i as int),
        decreases to - i,
    {
        out.push(chars[i]);
        i += 1;
    }
    out
}

/// The two texts, one behind the other.
pub fn join(a: &str, b: &str) -> (r: String)
    ensures
        r@ == a@ + b@,
{
    let mut out = a.to_owned();
    out.append(b);
    out
}

// ---------------------------------------------------------------------------
// Searching and splitting
// ---------------------------------------------------------------------------

/// Where `c` first stands in `s`; the length of `s` if it stands nowhere.
pub open spec fn find(s: Seq<char>, c: char) -> int
    decreases s.len(),
{
    if s.len() == 0 || s[0] == c {
        0
    } else {
        1 + find(s.skip(1), c)
    }
}

/// `find` gives the one position before which `c` does not stand, and at which
/// either `c` stands or the text ends.
pub proof fn lemma_find(s: Seq<char>, c: char, i: int)
    requires
        0 <= i <= s.len(),
        forall|j: int| 0 <= j < i ==> s[j] != c,
        i < s.len() ==> s[i] == c,
    ensures
        find(s, c) == i,
    decreases s.len(),
{
    if s.len() != 0 && s[0] != c {
        lemma_find(s.skip(1), c, i - 1);
    }
}

/// Finds where `c` first stands at or behind position `from`, or the end.
pub fn find_from(chars: &Vec<char>, from: usize, c: char) -> (r: usize)
    requires
        from <= chars@.len(),
    ensures
        from <= r <= chars@.len(),
        r == from + find(chars@.skip(from as int), c),
{
    let mut i: usize = from;
    while i < chars.len() && chars[i] != c
        invariant
            from <= i <= chars@.len(),
            forall|j: int| from <= j < i ==> chars@[j] != c,
        decreases chars@.len() - i,
    {
        i += 1;
    }
    proof {
        lemma_find(chars@.skip(from as int), c, i - from);
    }
    i
}

/// The two sides of the first `c` in `s`, where there is one.
pub open spec fn sides(s: Seq<char>, c: char) -> Option<(Seq<char>, Seq<char>)> {
    if find(s, c) < s.len() {
        Some((s.take(find(s, c)), s.skip(find(s, c) + 1)))
    } else {
        None
    }
}

/// The characters of each of two texts.
pub open spec fn pair_view(p: (String, String)) -> (Seq<char>, Seq<char>) {
    (p.0@, p.1@)
}

/// Splits a text at the first `c`, which belongs to neither side.
pub fn split_once(s: &str, c: char) -> (r: Option<(String, String)>)
    ensures
        match r {
            Some(p) => sides(s@, c) == Some(pair_view(p)),
            None => sides(s@, c) is None,
        },
{
    let chars = chars_of(s);
    let i = find_from(&chars, 0, c);
    assert(s@.skip(0) =~= s@);
    if i < chars.len() {
        let a = text_between(&chars, 0, i);
        let b = text_between(&chars, i + 1, chars.len());
        proof {
            assert(a@ =~= s@.take(i as int));
            assert(b@ =~= s@.skip(i as int + 1));
        }
        Some((a, b))
    } else {
        None
    }
}

/// Where `a` and behind it `b` first stand in `s`; the length of `s` if they
/// stand nowhere.
pub open spec fn find_two(s: Seq<char>, a: char, b: char) -> int
    decreases s.len(),
{
    if s.len() < 2 {
        s.len() as int
    } else if s[0] == a && s[1] == b {
        0
    } else {
        1 + find_two(s.skip(1), a, b)
    }
}

/// The two sides of the first `a` with `b` behind it in `s`, where there is one.
pub open spec fn sides_of_two(s: Seq<char>, a: char, b: char) -> Option<(Seq<char>, Seq<char>)> {
    if find_two(s, a, b) < s.len() {
        Some((s.take(find_two(s, a, b)), s.skip(find_two(s, a, b) + 2)))
    } else {
        None
    }
}

/// Splits a text at the first `a` with `b` behind it, which belong to neither
/// side.
pub fn split_once_at_two(s: &str, a: char, b: char) -> (r: Option<(String, String)>)
    ensures
        match r {
            Some(p) => sides_of_two(s@, a, b) == Some(pair_view(p)),
            None => sides_of_two(s@, a, b) is None,
        },
{
    let chars = chars_of(s);
    let n = chars.len();
    let mut i: usize = 0;
    assert(s@.skip(0) =~= s@);
    while i < n
        invariant
            0 <= i <= n,
            n == chars@.len(),
            chars@ == s@,
            find_two(s@, a, b) == i + find_two(s@.skip(i as int), a, b),
        decreases n - i,
    {
        let ghost rest = s@.skip(i as int);
        if n - i >= 2 && chars[i] == a && chars[i + 1] == b {
            assert(find_two(rest, a, b) == 0);
            let left = text_between(&chars, 0, i);
            let right = text_between(&chars, i + 2, n);
            proof {
                assert(left@ =~= s@.take(i as int));
                assert(right@ =~= s@.skip(i as int + 2));
            }
            return Some((left, right));
        }
        assert(rest.skip(1) =~= s@.skip(i as int + 1));
        i += 1;
    }
    None
}

/// What stands before the first `c`: the whole text if there is none.
pub open spec fn head(s: Seq<char>, c: char) -> Seq<char> {
    s.take(find(s, c))
}

/// The part of a text before the first `c`.
pub fn head_of(s: &str, c: char) -> (r: String)
    ensures
        r@ == head(s@, c),
{
    let chars = chars_of(s);
    let i = find_from(&chars, 0, c);
    assert(s@.skip(0) =~= s@);
    let a = text_between(&chars, 0, i);
    assert(a@ =~= s@.take(i as int));
    a
}

/// The parts of `s` between its `c`s; a text without `c` is one part.
pub open spec fn split(s: Seq<char>, c: char) -> Seq<Seq<char>>
    decreases s.len(),
{
    let i = find(s, c);
    if 0 <= i < s.len() {
        seq![s.take(i)] + split(s.skip(i + 1), c)
    } else {
        seq![s]
    }
}

/// The characters of each text in a list.
pub open spec fn texts(v: Seq<String>) -> Seq<Seq<char>> {
    v.map_values(|s: String| s@)
}

/// Splits a text at every `c`.
pub fn split_all(s: &str, c: char) -> (r: Vec<String>)
    ensures
        texts(r@) == split(s@, c),
{
    let chars = chars_of(s);
    let mut out: Vec<String> = Vec::new();
    let mut start: usize = 0;
    proof {
        assert(s@.skip(0) =~= s@);
        assert(texts(out@) + split(s@, c) =~= split(s@, c));
    }
    loop
        invariant_except_break
            chars@ == s@,
            start <= s@.len(),
            texts(out@) + split(s@.skip(start as int), c) == split(s@, c),
        ensures
            texts(out@) == split(s@, c),
        decreases s@.len() - start,
    {
        let end = find_from(&chars, start, c);
        let part = text_between(&chars, start, end);
        let ghost rest = s@.skip(start as int);
        let ghost done = texts(out@);
        assert(part@ =~= rest.take(end - start));
        out.push(part);
        assert(texts(out@) =~= done + seq![part@]);
        if end == chars.len() {
            proof {
                assert(rest.take(end - start) =~= rest);
            }
            break;
        }
        proof {
            assert(rest.skip(end - start + 1) =~= s@.skip(end as int + 1));
            assert(texts(out@) + split(s@.skip(end as int + 1), c) =~= done + (seq![part@] + split(
                s@.skip(end as int + 1),
                c,
            )));
        }
        start = end + 1;
    }
    out
}

/// A text without `c` has no sides, is its own head and its only part.
pub proof fn lemma_unsplit(s: Seq<char>, c: char)
    requires
        !s.contains(c),
    ensures
        sides(s, c) is None,
        head(s, c) == s,
        split(s, c) == seq![s],
{
    lemma_find(s, c, s.len() as int);
    assert(s.take(s.len() as int) =~= s);
}

/// A `c` behind a text without one is where the whole is split.
pub proof fn lemma_split_at(a: Seq<char>, c: char, b: Seq<char>)
    requires
        !a.contains(c),
    ensures
        sides(a + seq![c] + b, c) == Some((a, b)),
        head(a + seq![c] + b, c) == a,
        split(a + seq![c] + b, c) == seq![a] + split(b, c),
{
    let s = a + seq![c] + b;
    lemma_find(s, c, a.len() as int);
    assert(s.take(a.len() as int) =~= a);
    assert(s.skip(a.len() as int + 1) =~= b);
}

// ---------------------------------------------------------------------------
// Trimming
// ---------------------------------------------------------------------------

/// The characters with Unicode's property `White_Space`.
pub open spec fn white(c: char) -> bool {
    ||| '\u{9}' <= c <= '\u{d}'
    ||| c == '\u{20}'
    ||| c == '\u{85}'
    ||| c == '\u{a0}'
    ||| c == '\u{1680}'
    ||| '\u{2000}' <= c <= '\u{200a}'
    ||| c == '\u{2028}'
    ||| c == '\u{2029}'
    ||| c == '\u{202f}'
    ||| c == '\u{205f}'
    ||| c == '\u{3000}'
}

/// Whether a character is white space.
pub fn is_white(c: char) -> (r: bool)
    ensures
        r == white(c),
{
    ('\u{9}' <= c && c <= '\u{d}') || c == '\u{20}' || c == '\u{85}' || c == '\u{a0}' || c
        == '\u{1680}' || ('\u{2000}' <= c && c <= '\u{200a}') || c == '\u{2028}' || c == '\u{2029}'
        || c == '\u{202f}' || c == '\u{205f}' || c == '\u{3000}'
}

/// `s` without the characters of kind `p` that it begins with.
pub open spec fn strip_start(s: Seq<char>, p: spec_fn(char) -> bool) -> Seq<char>
    decreases s.len(),
{
    if s.len() > 0 && p(s[0]) {
        strip_start(s.skip(1), p)
    } else {
        s
    }
}

/// `s` without the characters of kind `p` that it ends with.
pub open spec fn strip_end(s: Seq<char>, p: spec_fn(char) -> bool) -> Seq<char>
    decreases s.len(),
{
    if s.len() > 0 && p(s.last()) {
        strip_end(s.drop_last(), p)
    } else {
        s
    }
}

/// Where the first character that is not of kind `p` stands, `strip_start` begins.
pub proof fn lemma_strip_start(s: Seq<char>, p: spec_fn(char) -> bool, i: int)
    requires
        0 <= i <= s.len(),
        forall|j: int| 0 <= j < i ==> p(#[trigger] s[j]),
        i < s.len() ==> !p(s[i]),
    ensures
        strip_start(s, p) == s.skip(i),
    decreases s.len(),
{
    if i > 0 {
        assert(p(s[0]));
        let t = s.skip(1);
        assert forall|j: int| 0 <= j < i - 1 implies p(#[trigger] t[j]) by {
            assert(t[j] == s[j + 1]);
        }
        lemma_strip_start(t, p, i - 1);
        assert(t.skip(i - 1) =~= s.skip(i));
    } else {
        assert(s.skip(0) =~= s);
    }
}

/// Behind the last character that is not of kind `p`, `strip_end` ends.
pub proof fn lemma_strip_end(s: Seq<char>, p: spec_fn(char) -> bool, i: int)
    requires
        0 <= i <= s.len(),
        forall|j: int| i <= j < s.len() ==> p(#[trigger] s[j]),
        i > 0 ==> !p(s[i - 1]),
    ensures
        strip_end(s, p) == s.take(i),
    decreases s.len(),
{
    if i < s.len() {
        assert(p(s[s.len() - 1]));
        let t = s.drop_last();
        assert forall|j: int| i <= j < t.len() implies p(#[trigger] t[j]) by {
            assert(t[j] == s[j]);
        }
        lemma_strip_end(t, p, i);
        assert(t.take(i) =~= s.take(i));
    } else {
        assert(s.take(i) =~= s);
    }
}

/// `s` without the white space at its two ends.
pub open spec fn trimmed(s: Seq<char>) -> Seq<char> {
    strip_end(strip_start(s, |c: char| white(c)), |c: char| white(c))
}

/// Takes the white space from the two ends of a text.
pub fn trim(s: &str) -> (r: String)
    ensures
        r@ == trimmed(s@),
{
    let chars = chars_of(s);
    let mut i: usize = 0;
    while i < chars.len() && is_white(chars[i])
        invariant
            0 <= i <= chars@.len(),
            forall|j: int| 0 <= j < i ==> white(#[trigger] chars@[j]),
        decreases chars@.len() - i,
    {
        i += 1;
    }
    let mut k: usize = chars.len();
    while k > i && is_white(chars[k - 1])
        invariant
            i <= k <= chars@.len(),
            forall|j: int| k <= j < chars@.len() ==> white(#[trigger] chars@[j]),
        decreases k,
    {
        k -= 1;
    }
    let out = text_between(&chars, i, k);
    proof {
        let p = |c: char| white(c);
        lemma_strip_start(s@, p, i as int);
        let t = s@.skip(i as int);
        assert forall|j: int| k - i <= j < t.len() implies p(#[trigger] t[j]) by {
            assert(t[j] == s@[j + i]);
        }
        lemma_strip_end(t, p, k - i);
        assert(t.take(k - i) =~= out@);
    }
    out
}

/// Takes every `c` that a text begins with.
pub fn trim_start_of(s: &str, c: char) -> (r: String)
    ensures
        r@ == strip_start(s@, |x: char| x == c),
{
    let chars = chars_of(s);
    let mut i: usize = 0;
    while i < chars.len() && chars[i] == c
        invariant
            0 <= i <= chars@.len(),
            forall|j: int| 0 <= j < i ==> chars@[j] == c,
        decreases chars@.len() - i,
    {
        i += 1;
    }
    let out = text_between(&chars, i, chars.len());
    proof {
        lemma_strip_start(s@, |x: char| x == c, i as int);
        assert(out@ =~= s@.skip(i as int));
    }
    out
}

/// Takes every `c` that a text ends with.
pub fn trim_end_of(s: &str, c: char) -> (r: String)
    ensures
        r@ == strip_end(s@, |x: char| x == c),
{
    let chars = chars_of(s);
    let mut k: usize = chars.len();
    while k > 0 && chars[k - 1] == c
        invariant
            0 <= k <= chars@.len(),
            forall|j: int| k <= j < chars@.len() ==> chars@[j] == c,
        decreases k,
    {
        k -= 1;
    }
    let out = text_between(&chars, 0, k);
    proof {
        lemma_strip_end(s@, |x: char| x == c, k as int);
        assert(out@ =~= s@.take(k as int));
    }
    out
}

// ---------------------------------------------------------------------------
// Letter case
// ---------------------------------------------------------------------------

/// An ASCII capital as its small letter, any other character as it is.
pub open spec fn lower(c: char) -> char {
    if 'A' <= c <= 'Z' {
        (c as u8 + 32) as char
    } else {
        c
    }
}

/// An ASCII small letter as its capital, any other character as it is.
pub open spec fn upper(c: char) -> char {
    if 'a' <= c <= 'z' {
        (c as u8 - 32) as char
    } else {
        c
    }
}

/// `s` with its ASCII capitals made small.
pub open spec fn lowered(s: Seq<char>) -> Seq<char> {
    s.map_values(|c: char| lower(c))
}

/// `s` with its ASCII small letters made capital.
pub open spec fn raised(s: Seq<char>) -> Seq<char> {
    s.map_values(|c: char| upper(c))
}

/// `lower` on one character.
pub fn lower_of(c: char) -> (r: char)
    ensures
        r == lower(c),
{
    if 'A' <= c && c <= 'Z' {
        (c as u8 + 32) as char
    } else {
        c
    }
}

/// Whether two texts are the same but for the case of ASCII letters.
pub fn same_but_for_case(a: &str, b: &str) -> (r: bool)
    ensures
        r == (lowered(a@) == lowered(b@)),
{
    let x = chars_of(a);
    let y = chars_of(b);
    if x.len() != y.len() {
        proof {
            assert(lowered(a@).len() != lowered(b@).len());
        }
        return false;
    }
    let mut i: usize = 0;
    while i < x.len()
        invariant
            0 <= i <= x@.len(),
            x@ == a@,
            y@ == b@,
            x@.len() == y@.len(),
            forall|j: int| 0 <= j < i ==> lower(x@[j]) == lower(y@[j]),
        decreases x@.len() - i,
    {
        if lower_of(x[i]) != lower_of(y[i]) {
            proof {
                assert(lowered(a@)[i as int] != lowered(b@)[i as int]);
            }
            return false;
        }
        i += 1;
    }
    assert(lowered(a@) =~= lowered(b@));
    true
}

/// What `str::to_lowercase` makes of a text.
pub uninterp spec fn lowercase(s: Seq<char>) -> Seq<char>;

/// What `str::to_uppercase` makes of a text.
pub uninterp spec fn uppercase(s: Seq<char>) -> Seq<char>;

/// `str::to_lowercase`: the text with its letters made small by Unicode's
/// rules, which for a text in ASCII touch the capitals `A` to `Z` alone.
#[verifier::external_body]
pub(crate) fn to_lowercase(s: &str) -> (r: String)
    ensures
        r@ == lowercase(s@),
        is_ascii_chars(s@) ==> r@ == lowered(s@),
{
    s.to_lowercase()
}

/// `str::to_uppercase`: the text with its letters made capital by Unicode's
/// rules, which for a text in ASCII touch the small letters `a` to `z` alone.
#[verifier::external_body]
pub(crate) fn to_uppercase(s: &str) -> (r: String)
    ensures
        r@ == uppercase(s@),
        is_ascii_chars(s@) ==> r@ == raised(s@),
{
    s.to_uppercase()
}

// ---------------------------------------------------------------------------
// Numbers in text
// ---------------------------------------------------------------------------

/// The decimal digits of `n`, without leading zeros.
pub open spec fn decimal(n: nat) -> Seq<char>
    decreases n,
{
    if n < 10 {
        seq![(48 + n) as char]
    } else {
        decimal(n / 10).push((48 + n % 10) as char)
    }
}

/// Writes a number in decimal digits.
pub fn decimal_of(n: u128) -> (r: String)
    ensures
        r@ == decimal(n as nat),
    decreases n,
{
    if n < 10 {
        let mut s = String::new();
        s.push((48 + n as u8) as char);
        assert(s@ =~= decimal(n as nat));
        s
    } else {
        let mut s = decimal_of(n / 10);
        s.push((48 + (n % 10) as u8) as char);
        s
    }
}

/// Whether a text is made of decimal digits alone.
pub open spec fn all_digits(s: Seq<char>) -> bool {
    forall|i: int| 0 <= i < s.len() ==> '0' <= #[trigger] s[i] <= '9'
}

/// The number that a row of decimal digits writes.
pub open spec fn number_in(s: Seq<char>) -> int
    decreases s.len(),
{
    if s.len() == 0 {
        0
    } else {
        10 * number_in(s.drop_last()) + (s.last() as int - 48)
    }
}

/// A number that was written in decimal digits is read back.
pub proof fn written_number_reads_back(n: nat)
    ensures
        decimal(n).len() > 0,
        all_digits(decimal(n)),
        number_in(decimal(n)) == n,
    decreases n,
{
    reveal_with_fuel(number_in, 2);
    if n >= 10 {
        written_number_reads_back(n / 10);
        let d = decimal(n);
        assert(d.drop_last() =~= decimal(n / 10));
        assert forall|i: int| 0 <= i < d.len() implies '0' <= #[trigger] d[i] <= '9' by {
            if i < d.len() - 1 {
                assert(d[i] == decimal(n / 10)[i]);
            }
        }
    }
}

/// The number of at most `max` that a text writes: digits, with at most one
/// plus sign before them.
pub open spec fn unsigned(s: Seq<char>, max: int) -> Option<int> {
    let digits = if s.len() > 0 && s[0] == '+' {
        s.skip(1)
    } else {
        s
    };
    if digits.len() > 0 && all_digits(digits) && number_in(digits) <= max {
        Some(number_in(digits))
    } else {
        None
    }
}

/// A number only grows with each digit written behind it.
proof fn lemma_number_grows(s: Seq<char>, i: int)
    requires
        0 <= i <= s.len(),
        all_digits(s),
    ensures
        0 <= number_in(s.take(i)) <= number_in(s),
    decreases s.len(),
{
    if i == s.len() {
        assert(s.take(i) =~= s);
        if s.len() > 0 {
            assert('0' <= s[s.len() - 1] <= '9');
            lemma_number_grows(s.drop_last(), s.len() - 1);
            assert(s.drop_last().take(s.len() - 1) =~= s.drop_last());
        }
    } else {
        assert('0' <= s[s.len() - 1] <= '9');
        lemma_number_grows(s.drop_last(), i);
        assert(s.drop_last().take(i) =~= s.take(i));
    }
}

/// Reads an unsigned decimal number of at most `max`.
pub fn read_unsigned(s: &str, max: u64) -> (r: Option<u64>)
    ensures
        r is Some <==> unsigned(s@, max as int) is Some,
        r is Some ==> r->0 == unsigned(s@, max as int)->0,
{
    let chars = chars_of(s);
    let start: usize = if chars.len() > 0 && chars[0] == '+' {
        1
    } else {
        0
    };
    let ghost digits = s@.skip(start as int);
    proof {
        assert(s@.skip(0) =~= s@);
        assert(digits.take(0) =~= Seq::<char>::empty());
    }
    if start == chars.len() {
        return None;
    }
    let mut acc: u64 = 0;
    let mut i: usize = start;
    while i < chars.len()
        invariant
            chars@ == s@,
            start <= i <= chars@.len(),
            digits == s@.skip(start as int),
            digits == if s@.len() > 0 && s@[0] == '+' {
                s@.skip(1)
            } else {
                s@
            },
            acc <= max,
            acc == number_in(digits.take(i - start)),
            forall|j: int| 0 <= j < i - start ==> '0' <= #[trigger] digits[j] <= '9',
        decreases chars@.len() - i,
    {
        let c = chars[i];
        assert(c == digits[i - start]);
        if !('0' <= c && c <= '9') {
            return None;
        }
        let next: u128 = acc as u128 * 10 + (c as u8 - 48) as u128;
        proof {
            assert(digits.take(i - start + 1).drop_last() =~= digits.take(i - start));
            assert(digits.take(i - start + 1).last() == c);
        }
        if next > max as u128 {
            proof {
                if all_digits(digits) {
                    lemma_number_grows(digits, i - start + 1);
                }
            }
            return None;
        }
        acc = next as u64;
        i += 1;
    }
    assert(digits.take(i - start) =~= digits);
    Some(acc)
}

/// Whether `s` begins with `p`.
pub open spec fn begins_with(s: Seq<char>, p: Seq<char>) -> bool {
    p.len() <= s.len() && s.take(p.len() as int) == p
}

/// Whether a text begins with another.
pub fn starts_with(s: &str, p: &str) -> (r: bool)
    ensures
        r == begins_with(s@, p@),
{
    let x = chars_of(s);
    let y = chars_of(p);
    if x.len() < y.len() {
        return false;
    }
    let mut i: usize = 0;
    while i < y.len()
        invariant
            0 <= i <= y@.len() <= x@.len(),
            x@ == s@,
            y@ == p@,
            forall|j: int| 0 <= j < i ==> x@[j] == y@[j],
        decreases y@.len() - i,
    {
        if x[i] != y[i] {
            proof {
                assert(s@.take(y@.len() as int)[i as int] != p@[i as int]);
            }
            return false;
        }
        i += 1;
    }
    assert(s@.take(p@.len() as int) =~= p@);
    true
}

}
