//! Query strings.
use vstd::prelude::*;
use vstd::string::*;

use crate::json::{Json, Object, Tree};
use crate::percent;
use crate::table::Table;
use crate::text;

verus! {

/// The characters of each text in a map.
pub open spec fn strings(m: Map<Seq<char>, String>) -> Map<Seq<char>, Seq<char>> {
    m.map_values(|s: String| s@)
}

/// The parameters that the parts of a query give: `k=v` gives `v` under `k`, a
/// part without `=` gives nothing, and a later part overrides an earlier one.
pub open spec fn params_of(parts: Seq<Seq<char>>) -> Map<Seq<char>, Seq<char>>
    decreases parts.len(),
{
    if parts.len() == 0 {
        Map::empty()
    } else {
        let m = params_of(parts.drop_last());
        match text::sides(parts.last(), '=') {
            Some((k, v)) => m.insert(k, v),
            None => m,
        }
    }
}

/// The parameters of a path: those behind its first `?`, as they are written.
pub open spec fn params(path: Seq<char>) -> Map<Seq<char>, Seq<char>> {
    match text::sides(path, '?') {
        Some((_, q)) => params_of(text::split(q, '&')),
        None => Map::empty(),
    }
}

/// Reads the parameters of a path, without decoding them.
pub fn parse_query(path: &str) -> (r: Table<String>)
    ensures
        strings(r@) == params(path@),
{
    let mut out: Table<String> = Table::new();
    match text::split_once(path, '?') {
        None => {
            assert(strings(out@) =~= Map::empty());
        },
        Some((_, q)) => {
            let parts = text::split_all(q.as_str(), '&');
            let ghost all = text::texts(parts@);
            let mut i: usize = 0;
            assert(strings(out@) =~= params_of(all.take(0)));
            while i < parts.len()
                invariant
                    0 <= i <= parts@.len(),
                    all == text::texts(parts@),
                    strings(out@) == params_of(all.take(i as int)),
                decreases parts@.len() - i,
            {
                let ghost m = out@;
                proof {
                    assert(all.take(i as int + 1).drop_last() =~= all.take(i as int));
                    assert(all.take(i as int + 1).last() == parts@[i as int]@);
                }
                match text::split_once(parts[i].as_str(), '=') {
                    Some((k, v)) => {
                        out.insert(k, v);
                        assert(strings(out@) =~= strings(m).insert(k@, v@));
                    },
                    None => {},
                }
                i += 1;
            }
            assert(all.take(i as int) =~= all);
        },
    }
    out
}

/// The fields that the parts of a query give a handler: empty parts give
/// nothing, a part without `=` gives an empty text under the whole part, names
/// and values are decoded, and a later part overrides an earlier one.
pub open spec fn decoded_fields(parts: Seq<Seq<char>>) -> Map<Seq<char>, Tree>
    decreases parts.len(),
{
    if parts.len() == 0 {
        Map::empty()
    } else {
        let m = decoded_fields(parts.drop_last());
        let part = parts.last();
        if part.len() == 0 {
            m
        } else {
            match text::sides(part, '=') {
                Some((k, v)) => m.insert(
                    percent::percent_decoded(k),
                    Tree::Text(percent::percent_decoded(v)),
                ),
                None => m.insert(
                    percent::percent_decoded(part),
                    Tree::Text(Seq::empty()),
                ),
            }
        }
    }
}

/// Reads a query string into an object of decoded texts.
pub fn decode_query(q: &str) -> (r: Object)
    ensures
        r.fields() == decoded_fields(text::split(q@, '&')),
{
    let mut out: Object = Table::empty();
    let parts = text::split_all(q, '&');
    let ghost all = text::texts(parts@);
    let mut i: usize = 0;
    assert(out.fields() =~= decoded_fields(all.take(0)));
    while i < parts.len()
        invariant
            0 <= i <= parts@.len(),
            all == text::texts(parts@),
            out.fields() == decoded_fields(all.take(i as int)),
        decreases parts@.len() - i,
    {
        proof {
            assert(all.take(i as int + 1).drop_last() =~= all.take(i as int));
            assert(all.take(i as int + 1).last() == parts@[i as int]@);
        }
        let part = parts[i].as_str();
        if !part.is_empty() {
            match text::split_once(part, '=') {
                Some((k, v)) => {
                    let name = percent::percent_decode(k.as_str());
                    let value = percent::percent_decode(v.as_str());
                    out.set(name.as_str(), Json::String(value));
                },
                None => {
                    let name = percent::percent_decode(part);
                    out.set(name.as_str(), Json::String(String::new()));
                },
            }
        }
        i += 1;
    }
    assert(all.take(i as int) =~= all);
    out
}

// ---------------------------------------------------------------------------
// Laws
// ---------------------------------------------------------------------------

/// A query of one part gives one parameter.
proof fn lemma_params_of(k: Seq<char>, v: Seq<char>)
    requires
        !k.contains('='),
    ensures
        params_of(seq![k + seq!['='] + v]) == map![k => v],
{
    let part = k + seq!['='] + v;
    text::lemma_split_at(k, '=', v);
    assert(seq![part].drop_last() =~= Seq::empty());
    assert(params_of(Seq::<Seq<char>>::empty()) == Map::<Seq<char>, Seq<char>>::empty());
}

/// A path with one parameter reads back as its route and that parameter.
pub proof fn one_parameter_reads_back(route: Seq<char>, k: Seq<char>, v: Seq<char>)
    requires
        !route.contains('?'),
        !k.contains('='),
        !k.contains('&'),
        !v.contains('&'),
    ensures
        text::head(route + seq!['?'] + (k + seq!['='] + v), '?') == route,
        params(route + seq!['?'] + (k + seq!['='] + v)) == map![k => v],
{
    let q = k + seq!['='] + v;
    text::lemma_split_at(route, '?', q);
    text::lemma_unsplit(q, '&');
    lemma_params_of(k, v);
}

/// A path with two parameters reads back as its route and those parameters.
pub proof fn two_parameters_read_back(
    route: Seq<char>,
    k: Seq<char>,
    v: Seq<char>,
    l: Seq<char>,
    w: Seq<char>,
)
    requires
        !route.contains('?'),
        !k.contains('='),
        !k.contains('&'),
        !v.contains('&'),
        !l.contains('='),
        !l.contains('&'),
        !w.contains('&'),
    ensures
        text::head(
            route + seq!['?'] + ((k + seq!['='] + v) + seq!['&'] + (l + seq!['='] + w)),
            '?',
        ) == route,
        params(
            route + seq!['?'] + ((k + seq!['='] + v) + seq!['&'] + (l + seq!['='] + w)),
        ) == map![k => v, l => w],
{
    let a = k + seq!['='] + v;
    let b = l + seq!['='] + w;
    let q = a + seq!['&'] + b;
    text::lemma_split_at(route, '?', q);
    text::lemma_split_at(a, '&', b);
    text::lemma_unsplit(b, '&');
    let parts = seq![a] + seq![b];
    assert(text::split(q, '&') == parts);
    assert(parts.drop_last() =~= seq![a]);
    lemma_params_of(k, v);
    text::lemma_split_at(l, '=', w);
}

/// A query of one encoded parameter is decoded to that parameter.
pub proof fn encoded_parameter_is_decoded(k: Seq<char>, v: Seq<char>)
    ensures
        decoded_fields(
            text::split(
                percent::percent_encoded(k) + seq!['='] + percent::percent_encoded(v),
                '&',
            ),
        ) == map![k => Tree::Text(v)],
{
    let a = percent::percent_encoded(k);
    let b = percent::percent_encoded(v);
    let part = a + seq!['='] + b;
    percent::encoded_text_is_safe(k);
    percent::encoded_text_is_safe(v);
    text::lemma_unsplit(part, '&');
    text::lemma_split_at(a, '=', b);
    assert(seq![part].drop_last() =~= Seq::empty());
    percent::decoding_undoes_encoding(k);
    percent::decoding_undoes_encoding(v);
    assert(decoded_fields(Seq::<Seq<char>>::empty()) == Map::<Seq<char>, Tree>::empty());
}

/// A parameter behind a path that has a query is added to those of the path, in
/// place of one of its name; a part without `=` adds nothing.
pub proof fn parameter_is_added(path: Seq<char>, k: Seq<char>, v: Seq<char>, part: Seq<char>)
    requires
        path.contains('?'),
        !k.contains('='),
        !k.contains('&'),
        !v.contains('&'),
        !part.contains('&'),
        !part.contains('='),
    ensures
        params(path + seq!['&'] + (k + seq!['='] + v)) == params(path).insert(k, v),
        text::head(path + seq!['&'] + (k + seq!['='] + v), '?') == text::head(path, '?'),
        params(path + seq!['&'] + part) == params(path),
{
    text::laws::sides_make_the_text(path, '?');
    let (route, q) = text::sides(path, '?')->0;
    text::lemma_split_at(route, '?', q);
    let p = k + seq!['='] + v;
    assert(path + seq!['&'] + p =~= route + seq!['?'] + (q + seq!['&'] + p));
    text::lemma_split_at(route, '?', q + seq!['&'] + p);
    text::laws::part_is_split_off(q, '&', p);
    assert(text::split(q, '&').push(p).drop_last() =~= text::split(q, '&'));
    text::lemma_split_at(k, '=', v);
    assert(path + seq!['&'] + part =~= route + seq!['?'] + (q + seq!['&'] + part));
    text::lemma_split_at(route, '?', q + seq!['&'] + part);
    text::laws::part_is_split_off(q, '&', part);
    assert(text::split(q, '&').push(part).drop_last() =~= text::split(q, '&'));
    text::lemma_unsplit(part, '=');
}

/// A path without a query has no parameters, and neither has one whose query is a
/// single part without `=`.
pub proof fn paths_without_parameters_have_none(path: Seq<char>, part: Seq<char>)
    requires
        !path.contains('?'),
        !part.contains('&'),
        !part.contains('='),
    ensures
        params(path) == Map::<Seq<char>, Seq<char>>::empty(),
        text::head(path, '?') == path,
        params(path + seq!['?'] + part) == Map::<Seq<char>, Seq<char>>::empty(),
{
    text::lemma_unsplit(path, '?');
    text::lemma_split_at(path, '?', part);
    text::lemma_unsplit(part, '&');
    text::lemma_unsplit(part, '=');
    assert(seq![part].drop_last() =~= Seq::empty());
    assert(params_of(Seq::<Seq<char>>::empty()) == Map::<Seq<char>, Seq<char>>::empty());
}

/// The fields that a query gives a handler.
pub open spec fn handed_over(q: Seq<char>) -> Map<Seq<char>, Tree> {
    decoded_fields(text::split(q, '&'))
}

/// A parameter behind a query is handed over with the others, its name and its
/// value decoded, in place of one of its name. One without `=` is handed over
/// with the empty text, and an empty part is not handed over.
pub proof fn parameter_is_handed_over(q: Seq<char>, k: Seq<char>, v: Seq<char>, part: Seq<char>)
    requires
        !k.contains('='),
        !k.contains('&'),
        !v.contains('&'),
        !part.contains('&'),
        !part.contains('='),
        part.len() > 0,
    ensures
        handed_over(q + seq!['&'] + (k + seq!['='] + v)) == handed_over(q).insert(
            percent::percent_decoded(k),
            Tree::Text(percent::percent_decoded(v)),
        ),
        handed_over(q + seq!['&'] + part) == handed_over(q).insert(
            percent::percent_decoded(part),
            Tree::Text(Seq::empty()),
        ),
        handed_over(q + seq!['&']) == handed_over(q),
        handed_over(Seq::empty()) == Map::<Seq<char>, Tree>::empty(),
{
    let p = k + seq!['='] + v;
    text::laws::part_is_split_off(q, '&', p);
    assert(text::split(q, '&').push(p).drop_last() =~= text::split(q, '&'));
    text::lemma_split_at(k, '=', v);
    text::laws::part_is_split_off(q, '&', part);
    assert(text::split(q, '&').push(part).drop_last() =~= text::split(q, '&'));
    text::lemma_unsplit(part, '=');
    let none = Seq::<char>::empty();
    text::laws::part_is_split_off(q, '&', none);
    assert(q + seq!['&'] + none =~= q + seq!['&']);
    assert(text::split(q, '&').push(none).drop_last() =~= text::split(q, '&'));
    text::lemma_unsplit(none, '&');
    assert(seq![none].drop_last() =~= Seq::empty());
    assert(decoded_fields(Seq::<Seq<char>>::empty()) == Map::<Seq<char>, Tree>::empty());
}

/// An encoded parameter behind a query is handed over as it was before it was
/// encoded.
pub proof fn encoded_parameter_is_handed_over(q: Seq<char>, k: Seq<char>, v: Seq<char>)
    ensures
        handed_over(
            q + seq!['&'] + (percent::percent_encoded(k) + seq!['='] + percent::percent_encoded(v)),
        ) == handed_over(q).insert(k, Tree::Text(v)),
{
    let a = percent::percent_encoded(k);
    let b = percent::percent_encoded(v);
    percent::encoded_text_is_safe(k);
    percent::encoded_text_is_safe(v);
    percent::decoding_undoes_encoding(k);
    percent::decoding_undoes_encoding(v);
    parameter_is_handed_over(q, a, b, seq!['x']);
}

/// The characters of the texts in a map are those of each text.
pub proof fn texts_of_a_map_are_kept(m: Map<Seq<char>, String>, k: Seq<char>)
    ensures
        strings(m).contains_key(k) <==> m.contains_key(k),
        m.contains_key(k) ==> strings(m)[k] == m[k]@,
{
}

/// A query of one part hands that part over alone.
pub proof fn single_parameter_is_handed_over(k: Seq<char>, v: Seq<char>, part: Seq<char>)
    requires
        !k.contains('='),
        !k.contains('&'),
        !v.contains('&'),
        !part.contains('&'),
        !part.contains('='),
        part.len() > 0,
    ensures
        handed_over(k + seq!['='] + v) == map![
            percent::percent_decoded(k) => Tree::Text(percent::percent_decoded(v))
        ],
        handed_over(part) == map![percent::percent_decoded(part) => Tree::Text(Seq::empty())],
{
    let p = k + seq!['='] + v;
    text::lemma_unsplit(p, '&');
    text::lemma_split_at(k, '=', v);
    assert(seq![p].drop_last() =~= Seq::empty());
    text::lemma_unsplit(part, '&');
    text::lemma_unsplit(part, '=');
    assert(seq![part].drop_last() =~= Seq::empty());
    assert(decoded_fields(Seq::<Seq<char>>::empty()) == Map::<Seq<char>, Tree>::empty());
}

}
