//! What holds of values.
use vstd::prelude::*;
use vstd::string::*;

use crate::document;
use crate::json;
use crate::json::{Json, Num, Numeral, Tree};
use crate::table::Table;

verus! {

// ---------------------------------------------------------------------------
// What a value means
// ---------------------------------------------------------------------------

/// Every value means what it holds: nothing is changed, and nothing is left out.
pub proof fn values_mean_what_they_hold(b: bool, s: String, u: u64, i: i64, a: Vec<Json>)
    ensures
        Json::Null@ == Tree::Null,
        Json::Bool(b)@ == Tree::Bool(b),
        Json::String(s)@ == Tree::Text(s@),
        Json::Number(Num::Unsigned(u))@ == Tree::Number(Numeral::Int(u as int)),
        Json::Number(Num::Signed(i))@ == Tree::Number(Numeral::Int(i as int)),
        Json::Array(a)@ is List,
        Json::Array(a)@->List_0.len() == a@.len(),
        forall|j: int| 0 <= j < a@.len() ==> Json::Array(a)@->List_0[j] == (#[trigger] a@[j])@,
{
}

/// A number that is no integer means what `serde_json` holds.
pub proof fn real_numbers_mean_what_they_hold(n: serde_json::Number)
    ensures
        Json::Number(Num::Real(n))@ == Tree::Number(document::numeral(n)),
{
}

/// An object means its fields: each under its name, and no others.
pub proof fn objects_mean_their_fields(t: Table<Json>, k: Seq<char>)
    ensures
        Json::Object(t)@ == Tree::Fields(t.fields()),
        t.fields().contains_key(k) <==> t@.contains_key(k),
        t@.contains_key(k) ==> t.fields()[k] == t@[k]@,
{
    json::lemma_fields(t.entries());
}

/// A row of values means the row of what they mean.
pub proof fn rows_mean_their_items(s: Seq<Json>, i: int)
    requires
        0 <= i < s.len(),
    ensures
        json::trees(s).len() == s.len(),
        json::trees(s)[i] == s[i]@,
{
}

/// What may be missing means what is there.
pub proof fn options_mean_what_is_there(v: Json, s: String)
    ensures
        json::tree_opt(Some(v)) == Some(v@),
        json::tree_opt(None) is None,
        json::text_opt(Some(s)) == Some(s@),
        json::text_opt(None) is None,
{
}

// ---------------------------------------------------------------------------
// What is read of a value
// ---------------------------------------------------------------------------

/// The field of an object is what stands under its name; nothing but an object has
/// fields.
pub proof fn fields_are_looked_up(v: Tree, k: Seq<char>, x: Tree)
    ensures
        v.field(k) == Some(x) <==> v is Fields && v->Fields_0.contains_key(k) && v->Fields_0[k] == x,
{
}

/// A text, a boolean and a list are read of nothing else.
pub proof fn values_are_read_as_they_are(v: Tree, s: Seq<char>, b: bool, l: Seq<Tree>)
    ensures
        v.text() == Some(s) <==> v == Tree::Text(s),
        v.truth() == Some(b) <==> v == Tree::Bool(b),
        v.list() == Some(l) <==> v == Tree::List(l),
{
}

/// An integer is read of a number that is that integer, where it lies between the
/// bounds, and of nothing else.
pub proof fn integers_are_read_as_they_are(v: Tree, low: int, high: int, i: int)
    ensures
        v.integer(low, high) == Some(i) <==> v == Tree::Number(Numeral::Int(i)) && low <= i <= high,
        json::int_tree(i) == Tree::Number(Numeral::Int(i)),
{
}

/// A field is read as a text, and as an integer, where it is one.
pub proof fn fields_are_read_as_they_are(
    v: Tree,
    k: Seq<char>,
    s: Seq<char>,
    low: int,
    high: int,
    i: int,
)
    ensures
        v.text_field(k) == Some(s) <==> v is Fields && v->Fields_0.contains_key(k)
            && v->Fields_0[k] == Tree::Text(s),
        v.integer_field(k, low, high) == Some(i) <==> v is Fields && v->Fields_0.contains_key(k)
            && v->Fields_0[k] == Tree::Number(Numeral::Int(i)) && low <= i <= high,
{
}

/// What is there is taken, and else what stands in for it.
pub proof fn what_is_there_is_taken<A>(a: A, d: A)
    ensures
        json::or_else(Some(a), d) == a,
        json::or_else(None, d) == d,
{
}

/// The text of a field is read out of an answer as it is; an answer without it
/// gives the empty text.
pub proof fn texts_are_read_out_of_answers(m: Map<Seq<char>, Tree>, k: Seq<char>, s: Seq<char>)
    ensures
        m.contains_key(k) && m[k] == Tree::Text(s) ==> json::text_in(Some(Tree::Fields(m)), k) == s,
        !m.contains_key(k) || !(m[k] is Text) ==> json::text_in(Some(Tree::Fields(m)), k)
            == Seq::<char>::empty(),
        json::text_in(None, k) == Seq::<char>::empty(),
{
}

/// Nothing but an object gives a text or a number.
pub proof fn only_objects_answer(v: Tree, k: Seq<char>)
    requires
        !(v is Fields),
    ensures
        json::text_in(Some(v), k) == Seq::<char>::empty(),
        json::count_in(Some(v), k) == 0,
{
}

/// The number of a field is read out of an answer as it is; an answer without it,
/// or with one that is negative or too large, gives zero.
pub proof fn counts_are_read_out_of_answers(m: Map<Seq<char>, Tree>, k: Seq<char>, n: int)
    ensures
        m.contains_key(k) && m[k] == Tree::Number(Numeral::Int(n)) ==> json::count_in(
            Some(Tree::Fields(m)),
            k,
        ) == (if 0 <= n <= u64::MAX {
            n
        } else {
            0
        }),
        !m.contains_key(k) || !(m[k] is Number) ==> json::count_in(Some(Tree::Fields(m)), k) == 0,
        json::count_in(None, k) == 0,
{
}

/// The texts of a list are picked out in their order, and everything else is left.
pub proof fn texts_are_picked_out(l: Seq<Tree>, x: Tree)
    ensures
        json::texts_in(Seq::empty()) == Seq::<Seq<char>>::empty(),
        json::texts_in(l.push(x)) == (match x {
            Tree::Text(s) => json::texts_in(l).push(s),
            _ => json::texts_in(l),
        }),
{
    assert(l.push(x).drop_last() =~= l);
}

/// A list of texts alone is picked out whole.
pub proof fn lists_of_texts_are_picked_out_whole(l: Seq<Tree>)
    requires
        forall|i: int| 0 <= i < l.len() ==> (#[trigger] l[i]) is Text,
    ensures
        json::texts_in(l).len() == l.len(),
        forall|i: int| 0 <= i < l.len() ==> #[trigger] l[i] == Tree::Text(json::texts_in(l)[i]),
    decreases l.len(),
{
    if l.len() > 0 {
        let before = l.drop_last();
        assert forall|i: int| 0 <= i < before.len() implies (#[trigger] before[i]) is Text by {
            assert(before[i] == l[i]);
        }
        lists_of_texts_are_picked_out_whole(before);
        assert(l[l.len() - 1] is Text);
        assert forall|i: int| 0 <= i < l.len() implies #[trigger] l[i] == Tree::Text(
            json::texts_in(l)[i],
        ) by {
            if i < before.len() {
                assert(before[i] == l[i]);
            }
        }
    }
}

}
