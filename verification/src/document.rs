//! The border to `serde_json`: documents, numbers and JSON text.
use vstd::prelude::*;
use vstd::string::*;

use crate::json;
use crate::json::{Json, Num, Numeral, Tree};
use crate::table;
use crate::table::Table;
use crate::text;

verus! {

// ---------------------------------------------------------------------------
// Numbers
// ---------------------------------------------------------------------------

/// `serde_json::Number`, carried as it is.
#[verifier::external_type_specification]
#[verifier::external_body]
pub struct ExNumber(serde_json::Number);

/// What a `serde_json::Number` holds: the integer that it was made of, or, where
/// it was made of a floating-point number, itself.
pub uninterp spec fn numeral(n: serde_json::Number) -> Numeral;

/// `serde_json::Number::as_u64`: the integer that the number holds, where that
/// lies in the range of `u64`.
#[verifier::external_body]
pub(crate) fn number_as_u64(n: &serde_json::Number) -> (r: Option<u64>)
    ensures
        r is Some <==> json::integer_in(numeral(*n), 0, u64::MAX as int) is Some,
        r is Some ==> json::integer_in(numeral(*n), 0, u64::MAX as int) == Some(r->0 as int),
{
    n.as_u64()
}

/// `serde_json::Number::as_i64`: the integer that the number holds, where that
/// lies in the range of `i64`.
#[verifier::external_body]
pub(crate) fn number_as_i64(n: &serde_json::Number) -> (r: Option<i64>)
    ensures
        r is Some <==> json::integer_in(numeral(*n), i64::MIN as int, i64::MAX as int) is Some,
        r is Some ==> json::integer_in(numeral(*n), i64::MIN as int, i64::MAX as int) == Some(
            r->0 as int,
        ),
{
    n.as_i64()
}

/// `serde_json::Number::clone`: the clone is the same number.
pub assume_specification[ <serde_json::Number as Clone>::clone ](n: &serde_json::Number) -> (r:
    serde_json::Number)
    ensures
        r == *n,
;

/// `serde_json::Number::from` of a `u64`: a number that holds that integer.
#[verifier::external_body]
fn number_from_u64(n: u64) -> (r: serde_json::Number)
    ensures
        numeral(r) == Numeral::Int(n as int),
{
    serde_json::Number::from(n)
}

/// `serde_json::Number::from` of an `i64`: a number that holds that integer.
#[verifier::external_body]
fn number_from_i64(n: i64) -> (r: serde_json::Number)
    ensures
        numeral(r) == Numeral::Int(n as int),
{
    serde_json::Number::from(n)
}

// ---------------------------------------------------------------------------
// Documents
// ---------------------------------------------------------------------------

/// `serde_json::Value`, a document.
#[verifier::external_type_specification]
#[verifier::external_body]
pub struct ExDocument(serde_json::Value);

/// What a document holds.
pub uninterp spec fn document(v: serde_json::Value) -> Tree;

/// The outermost level of a document.
pub enum Node {
    Null,
    Bool(bool),
    Number(serde_json::Number),
    Text(String),
    List(Vec<serde_json::Value>),
    Fields(Vec<(String, serde_json::Value)>),
}

/// What each document of a row holds.
pub open spec fn documents(s: Seq<serde_json::Value>) -> Seq<Tree> {
    s.map_values(|v: serde_json::Value| document(v))
}

/// What the documents of a row of entries hold, each under its key.
pub open spec fn document_fields(s: Seq<(String, serde_json::Value)>) -> Map<Seq<char>, Tree> {
    table::map_of(s).map_values(|v: serde_json::Value| document(v))
}

/// What a document of that outermost level holds.
pub open spec fn held(node: Node) -> Tree {
    match node {
        Node::Null => Tree::Null,
        Node::Bool(b) => Tree::Bool(b),
        Node::Number(n) => Tree::Number(numeral(n)),
        Node::Text(s) => Tree::Text(s@),
        Node::List(a) => Tree::List(documents(a@)),
        Node::Fields(e) => Tree::Fields(document_fields(e@)),
    }
}

/// The variants of `serde_json::Value`, and `serde_json::Map::into_iter`: a
/// document is taken apart by one level. The entries of a map come in the order
/// of their keys, each key once.
#[verifier::external_body]
fn open_document(v: serde_json::Value) -> (r: Node)
    ensures
        document(v) == held(r),
        r matches Node::Fields(e) ==> table::ascending(e@),
{
    match v {
        serde_json::Value::Null => Node::Null,
        serde_json::Value::Bool(b) => Node::Bool(b),
        serde_json::Value::Number(n) => Node::Number(n),
        serde_json::Value::String(s) => Node::Text(s),
        serde_json::Value::Array(a) => Node::List(a),
        serde_json::Value::Object(m) => Node::Fields(m.into_iter().collect()),
    }
}

/// The variants of `serde_json::Value`, and `serde_json::Map::from_iter`: a
/// document is put together from its outermost level.
#[verifier::external_body]
fn close_document(node: Node) -> (r: serde_json::Value)
    requires
        node matches Node::Fields(e) ==> table::ascending(e@),
    ensures
        document(r) == held(node),
{
    match node {
        Node::Null => serde_json::Value::Null,
        Node::Bool(b) => serde_json::Value::Bool(b),
        Node::Number(n) => serde_json::Value::Number(n),
        Node::Text(s) => serde_json::Value::String(s),
        Node::List(a) => serde_json::Value::Array(a),
        Node::Fields(e) => serde_json::Value::Object(e.into_iter().collect()),
    }
}

/// Reads a document of `serde_json` into a value.
pub fn from_document(v: serde_json::Value) -> (r: Json)
    ensures
        r@ == document(v),
    decreases document(v),
{
    match open_document(v) {
        Node::Null => Json::Null,
        Node::Bool(b) => Json::Bool(b),
        Node::Number(n) => Json::Number(from_number(n)),
        Node::Text(s) => Json::String(s),
        Node::List(items) => {
            let ghost all = items@;
            let mut out: Vec<Json> = Vec::new();
            for x in it: items
                invariant
                    it.seq() == all,
                    document(v) == Tree::List(documents(all)),
                    out@.len() == it.index(),
                    forall|j: int| 0 <= j < out@.len() ==> (#[trigger] out@[j])@ == document(all[j]),
            {
                proof {
                    let t = document(v);
                    assert(t->List_0[it.index() as int] == document(x));
                    assert(decreases_to!(t => t->List_0));
                    assert(decreases_to!(t->List_0 => t->List_0[it.index() as int]));
                }
                out.push(from_document(x));
            }
            proof {
                broadcast use json::lemma_array;

                assert(json::trees(out@) =~= documents(all));
            }
            Json::Array(out)
        },
        Node::Fields(entries) => {
            let ghost all = entries@;
            let mut out: Vec<(String, Json)> = Vec::new();
            for e in it: entries
                invariant
                    it.seq() == all,
                    table::ascending(all),
                    document(v) == Tree::Fields(document_fields(all)),
                    out@.len() == it.index(),
                    forall|j: int|
                        0 <= j < out@.len() ==> (#[trigger] out@[j]).0@ == all[j].0@ && out@[j].1@
                            == document(all[j].1),
            {
                let (k, x) = e;
                proof {
                    let t = document(v);
                    table::lemma_map_of_entry(all, it.index() as int);
                    table::lemma_map_of_finite(all);
                    assert(t->Fields_0.dom() =~= table::map_of(all).dom());
                    assert(t->Fields_0[k@] == document(x));
                    assert(decreases_to!(t => t->Fields_0));
                    assert(decreases_to!(t->Fields_0 => t->Fields_0[k@]));
                }
                out.push((k, from_document(x)));
            }
            proof {
                assert forall|a: int, b: int| 0 <= a < b < out@.len() implies crate::text::before(
                    #[trigger] out@[a].0@,
                    #[trigger] out@[b].0@,
                ) by {
                    assert(crate::text::before(all[a].0@, all[b].0@));
                }
                lemma_same_fields(all, out@);
            }
            Json::Object(Table::from_ascending(out))
        },
    }
}

/// Documents and values that hold the same, entry by entry, make the same fields.
proof fn lemma_same_fields(s: Seq<(String, serde_json::Value)>, t: Seq<(String, Json)>)
    requires
        s.len() == t.len(),
        forall|i: int|
            0 <= i < s.len() ==> (#[trigger] t[i]).0@ == s[i].0@ && t[i].1@ == document(s[i].1),
    ensures
        json::fields_of(t) == document_fields(s),
    decreases s.len(),
{
    if s.len() > 0 {
        let a = s.drop_last();
        let b = t.drop_last();
        assert forall|i: int| 0 <= i < a.len() implies (#[trigger] b[i]).0@ == a[i].0@ && b[i].1@
            == document(a[i].1) by {
            assert(t[i].0@ == s[i].0@);
        }
        lemma_same_fields(a, b);
        assert(t[t.len() - 1].0@ == s[s.len() - 1].0@);
    }
    assert(json::fields_of(t) =~= document_fields(s));
}

fn from_number(n: serde_json::Number) -> (r: Num)
    ensures
        r@ == numeral(n),
{
    match number_as_u64(&n) {
        Some(u) => Num::Unsigned(u),
        None => match number_as_i64(&n) {
            Some(i) => Num::Signed(i),
            None => Num::Real(n),
        },
    }
}

fn into_number(n: Num) -> (r: serde_json::Number)
    ensures
        numeral(r) == n@,
{
    match n {
        Num::Unsigned(u) => number_from_u64(u),
        Num::Signed(i) => number_from_i64(i),
        Num::Real(x) => x,
    }
}

/// Writes a value as a document of `serde_json`.
pub fn into_document(v: Json) -> (r: serde_json::Value)
    ensures
        document(r) == v@,
    decreases v,
{
    let ghost whole = v;
    match v {
        Json::Null => close_document(Node::Null),
        Json::Bool(b) => close_document(Node::Bool(b)),
        Json::Number(n) => close_document(Node::Number(into_number(n))),
        Json::String(s) => close_document(Node::Text(s)),
        Json::Array(items) => {
            let ghost all = items@;
            let mut out: Vec<serde_json::Value> = Vec::new();
            for x in it: items
                invariant
                    it.seq() == all,
                    whole is Array,
                    whole->Array_0@ == all,
                    whole == v,
                    out@.len() == it.index(),
                    forall|j: int|
                        0 <= j < out@.len() ==> document(#[trigger] out@[j]) == all[j]@,
            {
                proof {
                    json::lemma_item_smaller(whole, it.index() as int);
                }
                out.push(into_document(x));
            }
            proof {
                broadcast use json::lemma_array;

                assert(documents(out@) =~= json::trees(all));
            }
            close_document(Node::List(out))
        },
        Json::Object(t) => {
            let entries = t.into_entries();
            let ghost all = entries@;
            let mut out: Vec<(String, serde_json::Value)> = Vec::new();
            for e in it: entries
                invariant
                    it.seq() == all,
                    whole is Object,
                    whole->Object_0.entries() == all,
                    whole == v,
                    table::ascending(all),
                    out@.len() == it.index(),
                    forall|j: int|
                        0 <= j < out@.len() ==> (#[trigger] all[j]).0@ == out@[j].0@ && all[j].1@
                            == document(out@[j].1),
            {
                let (k, x) = e;
                proof {
                    json::lemma_value_smaller(whole, it.index() as int);
                }
                out.push((k, into_document(x)));
            }
            proof {
                lemma_same_fields(out@, all);
                assert forall|i: int, j: int| 0 <= i < j < out@.len() implies text::before(
                    #[trigger] out@[i].0@,
                    #[trigger] out@[j].0@,
                ) by {
                    assert(text::before(all[i].0@, all[j].0@));
                }
            }
            close_document(Node::Fields(out))
        },
    }
}

// ---------------------------------------------------------------------------
// JSON text
// ---------------------------------------------------------------------------

/// What `serde_json::from_str` makes of a text: what the document holds, or what
/// its error says.
pub uninterp spec fn parsed(text: Seq<char>) -> Result<Tree, Seq<char>>;

/// What `serde_json::to_string` writes for a document that holds this.
pub uninterp spec fn rendered(t: Tree) -> Seq<char>;

/// `serde_json::from_str`, and the text of its error. What it accepts and what
/// it says is named, not described.
#[verifier::external_body]
fn parse_document(text: &str) -> (r: Result<serde_json::Value, String>)
    ensures
        match r {
            Ok(v) => parsed(text@) == Ok::<Tree, Seq<char>>(document(v)),
            Err(e) => parsed(text@) == Err::<Tree, Seq<char>>(e@),
        },
{
    match serde_json::from_str(text) {
        Ok(v) => Ok(v),
        Err(e) => Err(e.to_string()),
    }
}

/// `serde_json::to_string` of a document, which never fails: what it writes is
/// named, not described, but for its being one line. It puts no white space
/// between the parts, and escapes every control character within a text.
#[verifier::external_body]
fn render_document(v: &serde_json::Value) -> (r: String)
    ensures
        r@ == rendered(document(*v)),
        !r@.contains('\n'),
{
    serde_json::to_string(v).unwrap_or_default()
}

/// What a result of reading JSON text means.
pub open spec fn reading(r: Result<Json, String>) -> Result<Tree, Seq<char>> {
    match r {
        Ok(v) => Ok(v@),
        Err(e) => Err(e@),
    }
}

/// Reads JSON text.
pub fn parse(text: &str) -> (r: Result<Json, String>)
    ensures
        reading(r) == parsed(text@),
{
    match parse_document(text) {
        Ok(v) => Ok(from_document(v)),
        Err(e) => Err(e),
    }
}

/// Writes a value as JSON text, which is one line.
pub fn render(v: Json) -> (r: String)
    ensures
        r@ == rendered(v@),
        !r@.contains('\n'),
{
    render_document(&into_document(v))
}

// ---------------------------------------------------------------------------
// Laws
// ---------------------------------------------------------------------------

/// What stands for what was read is what was read.
pub proof fn readings_are_what_was_read(v: Json, e: String)
    ensures
        reading(Ok(v)) == Ok::<Tree, Seq<char>>(v@),
        reading(Err(e)) == Err::<Tree, Seq<char>>(e@),
{
}

/// The outermost level of a document holds what the document holds, level by level.
pub proof fn levels_hold_the_document(
    b: bool,
    n: serde_json::Number,
    s: String,
    a: Vec<serde_json::Value>,
    e: Vec<(String, serde_json::Value)>,
    i: int,
)
    requires
        table::ascending(e@),
    ensures
        held(Node::Null) == Tree::Null,
        held(Node::Bool(b)) == Tree::Bool(b),
        held(Node::Number(n)) == Tree::Number(numeral(n)),
        held(Node::Text(s)) == Tree::Text(s@),
        held(Node::List(a)) is List,
        held(Node::List(a))->List_0.len() == a@.len(),
        0 <= i < a@.len() ==> held(Node::List(a))->List_0[i] == document(a@[i]),
        held(Node::Fields(e)) is Fields,
        0 <= i < e@.len() ==> held(Node::Fields(e))->Fields_0.contains_key(e@[i].0@)
            && held(Node::Fields(e))->Fields_0[e@[i].0@] == document(e@[i].1),
{
    if 0 <= i < e@.len() {
        table::lemma_map_of_entry(e@, i);
    }
}

}
