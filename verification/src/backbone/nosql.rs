//! Collections of documents.
use vstd::prelude::*;
use vstd::string::*;

use crate::document;
use crate::json;
use crate::json::{Json, Object, Tree};
use crate::percent;
use crate::table::Table;
use crate::text;
use crate::wire;
use crate::wire::Request;

verus! {

/// A collection of documents.
#[derive(Debug)]
pub struct Collection {
    name: String,
}

impl View for Collection {
    type V = Seq<char>;

    closed spec fn view(&self) -> Seq<char> {
        self.name@
    }
}

/// The collection of that name.
pub fn collection(name: &str) -> (r: Collection)
    ensures
        r@ == name@,
{
    Collection { name: name.to_owned() }
}

/// The fields of the call that adds a document: those of an object beside the
/// name of the collection, which a field `collection` overrides; any other value
/// as the field `data`.
pub open spec fn addition(name: Seq<char>, doc: Tree) -> Map<Seq<char>, Tree> {
    let m = map!["collection"@ => Tree::Text(name)];
    match doc {
        Tree::Fields(f) => m.union_prefer_right(f),
        _ => m.insert("data"@, doc),
    }
}

/// The call that adds a document.
pub open spec fn inserting(name: Seq<char>, doc: Tree) -> wire::Call {
    wire::post("write"@, addition(name, doc))
}

/// The call that reads a document by its key.
pub open spec fn reading(name: Seq<char>, key: Seq<char>) -> wire::Call {
    wire::bare(
        "GET"@,
        "read?collection="@ + percent::percent_encoded(name) + "&key="@ + percent::percent_encoded(
            key,
        ),
    )
}

/// The call that asks for the documents of an `_id`.
pub open spec fn getting(name: Seq<char>, id: Seq<char>) -> wire::Call {
    wire::bare(
        "GET"@,
        "nosql/list?collection="@ + percent::percent_encoded(name) + "&field=_id&value="@
            + percent::percent_encoded(id),
    )
}

/// The call that deletes a document by its key.
pub open spec fn deleting(name: Seq<char>, key: Seq<char>) -> wire::Call {
    wire::bare(
        "POST"@,
        "nosql/delete?collection="@ + percent::percent_encoded(name) + "&key="@
            + percent::percent_encoded(key),
    )
}

/// The parameters of a filter: each field with the value it must have.
pub open spec fn conditions(filter: Seq<(Seq<char>, Seq<char>)>) -> Seq<char>
    decreases filter.len(),
{
    if filter.len() == 0 {
        Seq::empty()
    } else {
        conditions(filter.drop_last()) + ("&field="@ + percent::percent_encoded(filter.last().0)
            + "&value="@ + percent::percent_encoded(filter.last().1))
    }
}

/// The call that lists the documents that pass a filter.
pub open spec fn listing(name: Seq<char>, filter: Seq<(Seq<char>, Seq<char>)>) -> wire::Call {
    wire::bare(
        "GET"@,
        "nosql/list?collection="@ + percent::percent_encoded(name) + conditions(filter),
    )
}

/// The call that drops a collection.
pub open spec fn dropping(name: Seq<char>) -> wire::Call {
    wire::bare("POST"@, "nosql/drop?collection="@ + percent::percent_encoded(name))
}

impl Collection {
    /// Adds a document. `key_in` reads its key out of the answer.
    pub fn insert(&self, doc: Json) -> (r: Request)
        ensures
            r@ == inserting(self@, doc@),
    {
        let mut body: Object = Table::empty();
        body.set("collection", Json::text(self.name.as_str()));
        let ghost base = body.fields();
        match doc {
            Json::Object(fields) => {
                let n = fields.len();
                let ghost all = fields.entries();
                let mut i: usize = 0;
                assert(body.fields() =~= base.union_prefer_right(json::fields_of(all.take(0))));
                while i < n
                    invariant
                        0 <= i <= n,
                        all == fields.entries(),
                        n == all.len(),
                        body.fields() == base.union_prefer_right(json::fields_of(all.take(i as int))),
                    decreases n - i,
                {
                    body.set(fields.key_at(i).as_str(), fields.value_at(i).clone());
                    proof {
                        assert(all.take(i as int + 1).drop_last() =~= all.take(i as int));
                        assert(body.fields() =~= base.union_prefer_right(
                            json::fields_of(all.take(i as int + 1)),
                        ));
                    }
                    i += 1;
                }
                assert(all.take(n as int) =~= all);
            },
            _ => {
                body.set("data", doc);
            },
        }
        wire::post_request("write", body)
    }

    /// Reads the document of that key. The answer is the document.
    pub fn read(&self, key: &str) -> (r: Request)
        ensures
            r@ == reading(self@, key@),
    {
        wire::bare_request(
            "GET",
            wire::path_with_two("read?collection=", self.name.as_str(), "&key=", key),
        )
    }

    /// Asks for the documents whose `_id` is `id`. `first_in` reads the first of
    /// them out of the answer.
    pub fn get(&self, id: &str) -> (r: Request)
        ensures
            r@ == getting(self@, id@),
    {
        wire::bare_request(
            "GET",
            wire::path_with_two(
                "nosql/list?collection=",
                self.name.as_str(),
                "&field=_id&value=",
                id,
            ),
        )
    }

    /// Deletes the document of that key.
    pub fn delete(&self, key: &str) -> (r: Request)
        ensures
            r@ == deleting(self@, key@),
    {
        wire::bare_request(
            "POST",
            wire::path_with_two("nosql/delete?collection=", self.name.as_str(), "&key=", key),
        )
    }

    /// Lists the documents that pass the filter. `all_in` reads them out of the
    /// answer.
    pub fn list(&self, filter: Option<Vec<(String, String)>>) -> (r: Request)
        ensures
            r@ == listing(
                self@,
                match filter {
                    Some(f) => wire::pairs(f@),
                    None => Seq::empty(),
                },
            ),
    {
        let mut path = wire::path_with("nosql/list?collection=", self.name.as_str());
        let ghost start = path@;
        assert(path@ =~= start + conditions(Seq::empty()));
        match filter {
            Some(f) => {
                let ghost all = wire::pairs(f@);
                let mut i: usize = 0;
                assert(all.take(0) =~= Seq::empty());
                while i < f.len()
                    invariant
                        0 <= i <= f@.len(),
                        all == wire::pairs(f@),
                        path@ == start + conditions(all.take(i as int)),
                    decreases f@.len() - i,
                {
                    let part = wire::path_with_two(
                        "&field=",
                        f[i].0.as_str(),
                        "&value=",
                        f[i].1.as_str(),
                    );
                    let ghost before = path@;
                    path = text::join(path.as_str(), part.as_str());
                    proof {
                        assert(all.take(i as int + 1).drop_last() =~= all.take(i as int));
                        assert(all.take(i as int + 1).last() == all[i as int]);
                        assert(path@ =~= start + conditions(all.take(i as int + 1)));
                    }
                    i += 1;
                }
                assert(all.take(i as int) =~= all);
            },
            None => {},
        }
        wire::bare_request("GET", path)
    }

    /// Drops the collection with all its documents.
    pub fn drop(&self) -> (r: Request)
        ensures
            r@ == dropping(self@),
    {
        wire::bare_request("POST", wire::path_with("nosql/drop?collection=", self.name.as_str()))
    }
}

/// Reads the key of an added document out of the answer: empty where it has none.
pub fn key_in(answer: &Option<Json>) -> (r: String)
    ensures
        r@ == json::text_in(json::tree_opt(*answer), "key"@),
{
    json::take_text(answer, "key")
}

/// The documents that an answer lists: none where it is no list.
pub open spec fn listed(answer: Option<Tree>) -> Seq<Tree> {
    match answer {
        Some(Tree::List(l)) => l,
        _ => Seq::empty(),
    }
}

/// Reads the documents out of the answer.
pub fn all_in(answer: Option<Json>) -> (r: Vec<Json>)
    ensures
        json::trees(r@) == listed(json::tree_opt(answer)),
{
    broadcast use json::lemma_array;

    match answer {
        Some(Json::Array(a)) => a,
        _ => {
            let none: Vec<Json> = Vec::new();
            assert(json::trees(none@) =~= Seq::empty());
            none
        },
    }
}

/// The first document that an answer lists.
pub open spec fn first_listed(answer: Option<Tree>) -> Option<Tree> {
    if listed(answer).len() > 0 {
        Some(listed(answer)[0])
    } else {
        None
    }
}

/// Reads the first document out of the answer.
pub fn first_in(answer: Option<Json>) -> (r: Option<Json>)
    ensures
        json::tree_opt(r) == first_listed(json::tree_opt(answer)),
{
    let all = all_in(answer);
    assert(json::trees(all@).len() == all@.len());
    if all.len() > 0 {
        Some(all[0].clone())
    } else {
        None
    }
}

// ---------------------------------------------------------------------------
// Laws
// ---------------------------------------------------------------------------

/// Every field of an object is posted as it is, whatever its name and its value,
/// beside the name of the collection where the object has no field `collection` of
/// its own. Nothing else is posted.
pub proof fn documents_are_sent_whole(name: Seq<char>, doc: Map<Seq<char>, Tree>, k: Seq<char>)
    ensures
        ({
            let call = inserting(name, Tree::Fields(doc));
            let m = call.body->0->Fields_0;
            &&& call.method == "POST"@
            &&& call.path == "write"@
            &&& call.body is Some && call.body->0 is Fields
            &&& doc.contains_key(k) ==> m.contains_key(k) && m[k] == doc[k]
            &&& m.contains_key(k) ==> doc.contains_key(k) || k == "collection"@
            &&& !doc.contains_key("collection"@) ==> m.contains_key("collection"@)
                && m["collection"@] == Tree::Text(name)
        }),
{
}

/// A value that is no object is posted as it is under `data`, beside the name of the
/// collection.
pub proof fn other_values_are_sent_whole(name: Seq<char>, doc: Tree, k: Seq<char>)
    requires
        !(doc is Fields),
    ensures
        ({
            let call = inserting(name, doc);
            let m = call.body->0->Fields_0;
            &&& call.method == "POST"@
            &&& call.path == "write"@
            &&& call.body is Some && call.body->0 is Fields
            &&& m.contains_key("data"@) && m["data"@] == doc
            &&& m.contains_key("collection"@) && m["collection"@] == Tree::Text(name)
            &&& m.contains_key(k) ==> k == "data"@ || k == "collection"@
        }),
{
    reveal_strlit("data");
    reveal_strlit("collection");
    assert("data"@.len() == 4 && "collection"@.len() == 10);
}

/// Documents are asked for by the encoded name of their collection, and by their
/// encoded key or identifier.
pub proof fn documents_are_asked_for(name: Seq<char>, key: Seq<char>)
    ensures
        reading(name, key).method == "GET"@,
        reading(name, key).path == "read?collection="@ + percent::percent_encoded(name) + "&key="@
            + percent::percent_encoded(key),
        reading(name, key).body is None,
        getting(name, key).method == "GET"@,
        getting(name, key).path == "nosql/list?collection="@ + percent::percent_encoded(name)
            + "&field=_id&value="@ + percent::percent_encoded(key),
        getting(name, key).body is None,
        deleting(name, key).method == "POST"@,
        deleting(name, key).path == "nosql/delete?collection="@ + percent::percent_encoded(name)
            + "&key="@ + percent::percent_encoded(key),
        deleting(name, key).body is None,
        dropping(name).method == "POST"@,
        dropping(name).path == "nosql/drop?collection="@ + percent::percent_encoded(name),
        dropping(name).body is None,
{
}

/// Every condition of a filter is asked for, its field and its value encoded, in
/// the order in which they are given.
pub proof fn conditions_are_asked_for(
    name: Seq<char>,
    filter: Seq<(Seq<char>, Seq<char>)>,
    field: Seq<char>,
    value: Seq<char>,
)
    ensures
        listing(name, filter).method == "GET"@,
        listing(name, filter).body is None,
        listing(name, Seq::empty()).path == "nosql/list?collection="@ + percent::percent_encoded(
            name,
        ),
        listing(name, filter.push((field, value))).path == listing(name, filter).path + "&field="@
            + percent::percent_encoded(field) + "&value="@ + percent::percent_encoded(value),
{
    let more = filter.push((field, value));
    assert(more.drop_last() =~= filter);
    let start = "nosql/list?collection="@ + percent::percent_encoded(name);
    assert(start + conditions(Seq::empty()) =~= start);
    assert(start + conditions(more) =~= start + conditions(filter) + "&field="@
        + percent::percent_encoded(field) + "&value="@ + percent::percent_encoded(value));
}

/// The documents of a list are read out of an answer as they are, in their order,
/// and the first of them is the one that is got; anything else gives none.
pub proof fn documents_are_read_as_they_are(l: Seq<Tree>, v: Tree)
    ensures
        listed(Some(Tree::List(l))) == l,
        l.len() > 0 ==> first_listed(Some(Tree::List(l))) == Some(l[0]),
        l.len() == 0 ==> first_listed(Some(Tree::List(l))) is None,
        !(v is List) ==> listed(Some(v)).len() == 0 && first_listed(Some(v)) is None,
        listed(None).len() == 0,
        first_listed(None) is None,
{
}

/// The documents that a running slice answers are given as they are, in their
/// order, and the first of them is the one that is got.
pub proof fn answered_documents_are_given(status: u16, body: Seq<char>, l: Seq<Tree>)
    requires
        status != 204,
        body.len() > 0,
        document::parsed(body) == Ok::<Tree, Seq<char>>(Tree::List(l)),
    ensures
        listed(wire::reply_value(wire::Outcome::Accepted(status, body))) == l,
        l.len() > 0 ==> first_listed(wire::reply_value(wire::Outcome::Accepted(status, body)))
            == Some(l[0]),
{
}

}
