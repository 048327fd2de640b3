//! JSON values, and what they mean.
use vstd::prelude::*;
use vstd::string::*;

use crate::document;
use crate::table;
use crate::table::Table;
use crate::text;

pub mod laws;

verus! {

// ---------------------------------------------------------------------------
// What a value means
// ---------------------------------------------------------------------------

/// What a JSON number means: an integer, or a number that is none. The latter is
/// carried, never looked into.
pub enum Numeral {
    Int(int),
    Real(serde_json::Number),
}

/// What a JSON value means.
#[verifier::ext_equal]
pub enum Tree {
    Null,
    Bool(bool),
    Number(Numeral),
    Text(Seq<char>),
    List(Seq<Tree>),
    Fields(Map<Seq<char>, Tree>),
}

impl Tree {
    /// The field `k` of an object that has it.
    pub open spec fn field(self, k: Seq<char>) -> Option<Tree> {
        match self {
            Tree::Fields(m) => if m.contains_key(k) {
                Some(m[k])
            } else {
                None
            },
            _ => None,
        }
    }

    /// The text that the value is.
    pub open spec fn text(self) -> Option<Seq<char>> {
        match self {
            Tree::Text(s) => Some(s),
            _ => None,
        }
    }

    /// The boolean that the value is.
    pub open spec fn truth(self) -> Option<bool> {
        match self {
            Tree::Bool(b) => Some(b),
            _ => None,
        }
    }

    /// The list that the value is.
    pub open spec fn list(self) -> Option<Seq<Tree>> {
        match self {
            Tree::List(s) => Some(s),
            _ => None,
        }
    }

    /// The integer that the value is, if it lies between the bounds.
    pub open spec fn integer(self, low: int, high: int) -> Option<int> {
        match self {
            Tree::Number(n) => integer_in(n, low, high),
            _ => None,
        }
    }

    /// The text that the field `k` is.
    pub open spec fn text_field(self, k: Seq<char>) -> Option<Seq<char>> {
        match self.field(k) {
            Some(v) => v.text(),
            None => None,
        }
    }

    /// The integer that the field `k` is, if it lies between the bounds.
    pub open spec fn integer_field(self, k: Seq<char>, low: int, high: int) -> Option<int> {
        match self.field(k) {
            Some(v) => v.integer(low, high),
            None => None,
        }
    }
}

/// The integer that a number is, if it lies between the bounds.
pub open spec fn integer_in(n: Numeral, low: int, high: int) -> Option<int> {
    match n {
        Numeral::Int(i) => if low <= i <= high {
            Some(i)
        } else {
            None
        },
        Numeral::Real(_) => None,
    }
}

/// A number as a value.
pub open spec fn int_tree(i: int) -> Tree {
    Tree::Number(Numeral::Int(i))
}

/// What is there, or something else.
pub open spec fn or_else<A>(o: Option<A>, d: A) -> A {
    match o {
        Some(a) => a,
        None => d,
    }
}

// ---------------------------------------------------------------------------
// Values
// ---------------------------------------------------------------------------

/// A JSON number.
#[derive(Debug, PartialEq, Eq)]
pub enum Num {
    Unsigned(u64),
    Signed(i64),
    Real(serde_json::Number),
}

impl View for Num {
    type V = Numeral;

    open spec fn view(&self) -> Numeral {
        match self {
            Num::Unsigned(u) => Numeral::Int(*u as int),
            Num::Signed(i) => Numeral::Int(*i as int),
            Num::Real(n) => document::numeral(*n),
        }
    }
}

/// A JSON value.
#[derive(Debug, PartialEq, Eq)]
pub enum Json {
    Null,
    Bool(bool),
    Number(Num),
    String(String),
    Array(Vec<Json>),
    Object(Table<Json>),
}

/// A JSON object.
pub type Object = Table<Json>;

/// What a value means.
pub open spec fn tree_of(v: Json) -> Tree
    decreases v,
{
    match v {
        Json::Null => Tree::Null,
        Json::Bool(b) => Tree::Bool(b),
        Json::Number(n) => Tree::Number(n@),
        Json::String(s) => Tree::Text(s@),
        Json::Array(a) => Tree::List(
            Seq::new(
                a@.len(),
                |i: int|
                    if 0 <= i < a@.len() {
                        tree_of(a@[i])
                    } else {
                        Tree::Null
                    },
            ),
        ),
        Json::Object(t) => {
            proof {
                Table::<Json>::lemma_entries_smaller(t);
            }
            Tree::Fields(fields_of(t.entries()))
        },
    }
}

/// What a row of entries means.
pub open spec fn fields_of(s: Seq<(String, Json)>) -> Map<Seq<char>, Tree>
    decreases s,
{
    if s.len() == 0 {
        Map::empty()
    } else {
        fields_of(s.drop_last()).insert(s.last().0@, tree_of(s.last().1))
    }
}

impl View for Json {
    type V = Tree;

    open spec fn view(&self) -> Tree {
        tree_of(*self)
    }
}

/// What each value of a row means.
pub open spec fn trees(s: Seq<Json>) -> Seq<Tree> {
    s.map_values(|v: Json| v@)
}

/// What an optional value means.
pub open spec fn tree_opt(o: Option<Json>) -> Option<Tree> {
    match o {
        Some(v) => Some(v@),
        None => None,
    }
}

/// The characters of an optional text.
pub open spec fn text_opt(o: Option<String>) -> Option<Seq<char>> {
    match o {
        Some(s) => Some(s@),
        None => None,
    }
}

/// A list means the row of what its items mean.
pub broadcast proof fn lemma_array(a: Vec<Json>)
    ensures
        #[trigger] tree_of(Json::Array(a)) == Tree::List(trees(a@)),
{
    assert(tree_of(Json::Array(a))->List_0 =~= trees(a@));
}

/// An object means the map of what its values mean.
pub proof fn lemma_fields(s: Seq<(String, Json)>)
    ensures
        fields_of(s) == table::map_of(s).map_values(|v: Json| v@),
    decreases s.len(),
{
    if s.len() > 0 {
        lemma_fields(s.drop_last());
    }
    assert(fields_of(s) =~= table::map_of(s).map_values(|v: Json| v@));
}

/// Rows of entries with the same keys and values that mean the same mean the same.
proof fn lemma_fields_alike(s: Seq<(String, Json)>, t: Seq<(String, Json)>)
    requires
        s.len() == t.len(),
        forall|i: int| 0 <= i < s.len() ==> #[trigger] s[i].0@ == t[i].0@ && s[i].1@ == t[i].1@,
    ensures
        fields_of(s) == fields_of(t),
    decreases s.len(),
{
    if s.len() > 0 {
        let a = s.drop_last();
        let b = t.drop_last();
        assert forall|i: int| 0 <= i < a.len() implies #[trigger] a[i].0@ == b[i].0@ && a[i].1@
            == b[i].1@ by {
            assert(s[i].0@ == t[i].0@);
        }
        lemma_fields_alike(a, b);
        assert(s[s.len() - 1].0@ == t[t.len() - 1].0@);
    }
}

/// A list is larger than each of its items.
pub proof fn lemma_item_smaller(v: Json, i: int)
    requires
        v is Array,
        0 <= i < v->Array_0@.len(),
    ensures
        decreases_to!(v => v->Array_0@[i]),
{
    assert(decreases_to!(v => v->Array_0));
    assert(decreases_to!(v->Array_0 => v->Array_0@));
    assert(decreases_to!(v->Array_0@ => v->Array_0@[i]));
}

/// An object is larger than each of its values.
pub proof fn lemma_value_smaller(v: Json, i: int)
    requires
        v is Object,
        0 <= i < v->Object_0.entries().len(),
    ensures
        decreases_to!(v => v->Object_0.entries()[i].1),
{
    let t = v->Object_0;
    Table::<Json>::lemma_entries_smaller(t);
    assert(decreases_to!(v => v->Object_0));
    assert(decreases_to!(t => t.entries()));
    assert(decreases_to!(t.entries() => t.entries()[i]));
    assert(decreases_to!(t.entries()[i] => t.entries()[i].1));
}

/// Copies a row of values.
pub fn clone_all(v: &[Json]) -> (r: Vec<Json>)
    ensures
        trees(r@) == trees(v@),
{
    let mut out: Vec<Json> = Vec::new();
    let mut i: usize = 0;
    while i < v.len()
        invariant
            0 <= i <= v@.len(),
            out@.len() == i,
            forall|j: int| 0 <= j < i ==> #[trigger] out@[j]@ == v@[j]@,
        decreases v@.len() - i,
    {
        out.push(v[i].clone());
        i += 1;
    }
    assert(trees(out@) =~= trees(v@));
    out
}

impl Table<Json> {
    /// The fields of the object.
    pub open spec fn fields(&self) -> Map<Seq<char>, Tree> {
        fields_of(self.entries())
    }

    /// Puts a field into the object, in place of one of that name.
    pub fn set(&mut self, key: &str, value: Json)
        ensures
            final(self).fields() == old(self).fields().insert(key@, value@),
    {
        let ghost before_call = *self;
        self.insert(key.to_owned(), value);
        proof {
            lemma_fields(before_call.entries());
            lemma_fields(self.entries());
            assert(self.fields() =~= before_call.fields().insert(key@, value@));
        }
    }

    /// The field of that name.
    pub fn lookup(&self, key: &str) -> (r: Option<&Json>)
        ensures
            match r {
                Some(v) => self.fields().contains_key(key@) && v@ == self.fields()[key@],
                None => !self.fields().contains_key(key@),
            },
    {
        proof {
            lemma_fields(self.entries());
        }
        self.get(key)
    }

    /// The object without fields.
    pub fn empty() -> (r: Table<Json>)
        ensures
            r.fields() == Map::<Seq<char>, Tree>::empty(),
    {
        Table::new()
    }
}

impl Clone for Num {
    fn clone(&self) -> (r: Num)
        ensures
            r@ == self@,
    {
        match self {
            Num::Unsigned(u) => Num::Unsigned(*u),
            Num::Signed(i) => Num::Signed(*i),
            Num::Real(n) => Num::Real(n.clone()),
        }
    }
}

impl Clone for Json {
    fn clone(&self) -> (r: Json)
        ensures
            r@ == self@,
        decreases self,
    {
        match self {
            Json::Null => Json::Null,
            Json::Bool(b) => Json::Bool(*b),
            Json::Number(n) => Json::Number(n.clone()),
            Json::String(s) => Json::String(s.clone()),
            Json::Array(a) => {
                let mut out: Vec<Json> = Vec::new();
                let mut i: usize = 0;
                while i < a.len()
                    invariant
                        0 <= i <= a@.len(),
                        out@.len() == i,
                        *self == Json::Array(*a),
                        forall|j: int| 0 <= j < i ==> (#[trigger] out@[j])@ == a@[j]@,
                    decreases a@.len() - i,
                {
                    proof {
                        lemma_item_smaller(*self, i as int);
                    }
                    let v = a[i].clone();
                    out.push(v);
                    i += 1;
                }
                proof {
                    broadcast use lemma_array;

                    assert(trees(out@) =~= trees(a@));
                }
                Json::Array(out)
            },
            Json::Object(t) => {
                let n = t.len();
                let mut out: Vec<(String, Json)> = Vec::new();
                let mut i: usize = 0;
                while i < n
                    invariant
                        0 <= i <= n,
                        n == t.entries().len(),
                        out@.len() == i,
                        *self == Json::Object(*t),
                        forall|j: int|
                            0 <= j < i ==> (#[trigger] out@[j]).0@ == t.entries()[j].0@
                                && out@[j].1@ == t.entries()[j].1@,
                    decreases n - i,
                {
                    proof {
                        lemma_value_smaller(*self, i as int);
                    }
                    let v = t.value_at(i).clone();
                    out.push((t.key_at(i).clone(), v));
                    i += 1;
                }
                proof {
                    let s = t.entries();
                    assert forall|a: int, b: int| 0 <= a < b < out@.len() implies crate::text::before(
                        #[trigger] out@[a].0@,
                        #[trigger] out@[b].0@,
                    ) by {
                        assert(crate::text::before(s[a].0@, s[b].0@));
                    }
                    lemma_fields_alike(out@, s);
                }
                Json::Object(Table::from_ascending(out))
            },
        }
    }
}

impl Json {
    /// A text as a value.
    pub fn text(s: &str) -> (r: Json)
        ensures
            r@ == Tree::Text(s@),
    {
        Json::String(s.to_owned())
    }

    /// A number as a value.
    pub fn unsigned(n: u64) -> (r: Json)
        ensures
            r@ == int_tree(n as int),
    {
        Json::Number(Num::Unsigned(n))
    }

    /// A number as a value.
    pub fn signed(n: i64) -> (r: Json)
        ensures
            r@ == int_tree(n as int),
    {
        if n >= 0 {
            Json::Number(Num::Unsigned(n as u64))
        } else {
            Json::Number(Num::Signed(n))
        }
    }

    /// The field of that name, where the value is an object that has it.
    pub fn get(&self, key: &str) -> (r: Option<&Json>)
        ensures
            match r {
                Some(v) => self@.field(key@) == Some(v@),
                None => self@.field(key@) is None,
            },
    {
        match self {
            Json::Object(t) => t.lookup(key),
            _ => None,
        }
    }

    /// The text that the value is.
    pub fn as_str(&self) -> (r: Option<&str>)
        ensures
            match r {
                Some(s) => self@.text() == Some(s@),
                None => self@.text() is None,
            },
    {
        match self {
            Json::String(s) => Some(s.as_str()),
            _ => None,
        }
    }

    /// The boolean that the value is.
    pub fn as_bool(&self) -> (r: Option<bool>)
        ensures
            r == self@.truth(),
    {
        match self {
            Json::Bool(b) => Some(*b),
            _ => None,
        }
    }

    /// The items of the list that the value is.
    pub fn as_array(&self) -> (r: Option<&Vec<Json>>)
        ensures
            match r {
                Some(a) => self@.list() == Some(trees(a@)),
                None => self@.list() is None,
            },
    {
        broadcast use lemma_array;

        match self {
            Json::Array(a) => Some(a),
            _ => None,
        }
    }

    /// The unsigned integer that the value is.
    pub fn as_u64(&self) -> (r: Option<u64>)
        ensures
            match r {
                Some(n) => self@.integer(0, u64::MAX as int) == Some(n as int),
                None => self@.integer(0, u64::MAX as int) is None,
            },
    {
        match self {
            Json::Number(n) => match n {
                Num::Unsigned(u) => Some(*u),
                Num::Signed(i) => if *i >= 0 {
                    Some(*i as u64)
                } else {
                    None
                },
                Num::Real(x) => document::number_as_u64(x),
            },
            _ => None,
        }
    }

    /// The signed integer that the value is.
    pub fn as_i64(&self) -> (r: Option<i64>)
        ensures
            match r {
                Some(n) => self@.integer(i64::MIN as int, i64::MAX as int) == Some(n as int),
                None => self@.integer(i64::MIN as int, i64::MAX as int) is None,
            },
    {
        match self {
            Json::Number(n) => match n {
                Num::Unsigned(u) => if *u <= i64::MAX as u64 {
                    Some(*u as i64)
                } else {
                    None
                },
                Num::Signed(i) => Some(*i),
                Num::Real(x) => document::number_as_i64(x),
            },
            _ => None,
        }
    }

    /// The text that the field of that name is.
    pub fn text_field(&self, key: &str) -> (r: Option<String>)
        ensures
            text_opt(r) == self@.text_field(key@),
    {
        match self.get(key) {
            Some(v) => match v.as_str() {
                Some(s) => Some(s.to_owned()),
                None => None,
            },
            None => None,
        }
    }
}

/// The text in the field `k` of an answer: empty where it has none.
pub open spec fn text_in(answer: Option<Tree>, k: Seq<char>) -> Seq<char> {
    match answer {
        Some(v) => or_else(v.text_field(k), Seq::empty()),
        None => Seq::empty(),
    }
}

/// Reads the text in the field `key` of an answer.
pub fn take_text(answer: &Option<Json>, key: &str) -> (r: String)
    ensures
        r@ == text_in(tree_opt(*answer), key@),
{
    match answer {
        Some(v) => match v.text_field(key) {
            Some(s) => s,
            None => String::new(),
        },
        None => String::new(),
    }
}

/// The number in the field `k` of an answer: zero where it has none.
pub open spec fn count_in(answer: Option<Tree>, k: Seq<char>) -> int {
    match answer {
        Some(v) => or_else(v.integer_field(k, 0, u64::MAX as int), 0),
        None => 0,
    }
}

/// Reads the number in the field `key` of an answer.
pub fn take_count(answer: &Option<Json>, key: &str) -> (r: u64)
    ensures
        r == count_in(tree_opt(*answer), key@),
{
    match answer {
        Some(v) => match v.get(key) {
            Some(x) => match x.as_u64() {
                Some(n) => n,
                None => 0,
            },
            None => 0,
        },
        None => 0,
    }
}

/// The items of a row that are texts.
pub open spec fn texts_in(items: Seq<Tree>) -> Seq<Seq<char>>
    decreases items.len(),
{
    if items.len() == 0 {
        Seq::empty()
    } else {
        let before = texts_in(items.drop_last());
        match items.last() {
            Tree::Text(s) => before.push(s),
            _ => before,
        }
    }
}

/// Picks out the items that are texts.
pub fn take_texts(items: &Vec<Json>) -> (r: Vec<String>)
    ensures
        text::texts(r@) == texts_in(trees(items@)),
{
    let ghost all = trees(items@);
    let mut out: Vec<String> = Vec::new();
    let mut i: usize = 0;
    proof {
        assert(text::texts(out@) =~= Seq::empty());
        assert(all.take(0) =~= Seq::empty());
    }
    while i < items.len()
        invariant
            0 <= i <= items@.len(),
            all == trees(items@),
            text::texts(out@) == texts_in(all.take(i as int)),
        decreases items@.len() - i,
    {
        let ghost before = text::texts(out@);
        proof {
            assert(all.take(i as int + 1).drop_last() =~= all.take(i as int));
            assert(all.take(i as int + 1).last() == items@[i as int]@);
        }
        match items[i].as_str() {
            Some(s) => {
                out.push(s.to_owned());
                assert(text::texts(out@) =~= before.push(s@));
            },
            None => {},
        }
        i += 1;
    }
    assert(all.take(i as int) =~= all);
    out
}

}
