//! The store that stands in for the backbone during local development.
use vstd::prelude::*;
use vstd::string::*;

use crate::json;
use crate::json::{Json, Tree};
use crate::query;
use crate::table;
use crate::table::Table;
use crate::text;

pub mod laws;

verus! {

// ---------------------------------------------------------------------------
// The store
// ---------------------------------------------------------------------------

/// Secrets, cached values, collections of documents, queues, blobs and locks, by
/// name.
#[derive(Debug, PartialEq, Eq)]
pub struct LocalStore {
    secrets: Table<String>,
    cache: Table<Json>,
    nosql: Table<Vec<Json>>,
    queues: Table<Vec<Json>>,
    blobs: Table<Json>,
    locks: Table<String>,
}

/// What a store holds.
#[verifier::ext_equal]
pub struct Holding {
    pub secrets: Map<Seq<char>, Seq<char>>,
    pub cache: Map<Seq<char>, Tree>,
    pub nosql: Map<Seq<char>, Seq<Tree>>,
    pub queues: Map<Seq<char>, Seq<Tree>>,
    pub blobs: Map<Seq<char>, Tree>,
    pub locks: Map<Seq<char>, Seq<char>>,
}

/// What each value of a map means.
pub open spec fn values(m: Map<Seq<char>, Json>) -> Map<Seq<char>, Tree> {
    m.map_values(|v: Json| v@)
}

/// What each list of a map means.
pub open spec fn lists(m: Map<Seq<char>, Vec<Json>>) -> Map<Seq<char>, Seq<Tree>> {
    m.map_values(|v: Vec<Json>| json::trees(v@))
}

impl View for LocalStore {
    type V = Holding;

    closed spec fn view(&self) -> Holding {
        Holding {
            secrets: query::strings(self.secrets@),
            cache: values(self.cache@),
            nosql: lists(self.nosql@),
            queues: lists(self.queues@),
            blobs: values(self.blobs@),
            locks: query::strings(self.locks@),
        }
    }
}

/// The store that holds nothing.
pub open spec fn nothing() -> Holding {
    Holding {
        secrets: Map::empty(),
        cache: Map::empty(),
        nosql: Map::empty(),
        queues: Map::empty(),
        blobs: Map::empty(),
        locks: Map::empty(),
    }
}

impl Holding {
    /// Whether the documents of every collection are numbered: each has its place,
    /// counted from one, as its key.
    pub open spec fn numbered(self) -> bool {
        forall|c: Seq<char>, i: int|
            #![trigger self.nosql[c][i]]
            self.nosql.contains_key(c) && 0 <= i < self.nosql[c].len()
                ==> self.nosql[c][i].text_field("_key"@) == Some(text::decimal((i + 1) as nat))
    }
}

// ---------------------------------------------------------------------------
// What each request does
// ---------------------------------------------------------------------------

/// What the store says to a request: an answer, or that the environment variable
/// of that name is the answer.
#[derive(Debug, PartialEq, Eq)]
pub enum Local {
    Answer(Option<Json>),
    Variable(String),
}

/// What the store says to a request.
#[verifier::ext_equal]
pub enum Word {
    Answer(Option<Tree>),
    Variable(Seq<char>),
}

impl View for Local {
    type V = Word;

    open spec fn view(&self) -> Word {
        match self {
            Local::Answer(v) => Word::Answer(json::tree_opt(*v)),
            Local::Variable(s) => Word::Variable(s@),
        }
    }
}

/// What stands under a key, if anything does.
pub open spec fn at<A>(m: Map<Seq<char>, A>, k: Seq<char>) -> Option<A> {
    if m.contains_key(k) {
        Some(m[k])
    } else {
        None
    }
}

/// The list under a key: the empty one where nothing stands.
pub open spec fn list_at(m: Map<Seq<char>, Seq<Tree>>, k: Seq<char>) -> Seq<Tree> {
    json::or_else(at(m, k), Seq::empty())
}

/// A secret that is not stored is looked for in the environment.
pub open spec fn secret_get(s: Holding, name: Option<Seq<char>>) -> Word {
    match name {
        Some(n) => if s.secrets.contains_key(n) {
            Word::Answer(Some(Tree::Text(s.secrets[n])))
        } else {
            Word::Variable(n)
        },
        None => Word::Answer(None),
    }
}

/// A secret is stored under its name if both are texts.
pub open spec fn secret_set(s: Holding, body: Tree) -> Holding {
    match (body.text_field("name"@), body.text_field("value"@)) {
        (Some(n), Some(v)) => Holding { secrets: s.secrets.insert(n, v), ..s },
        _ => s,
    }
}

/// A value is cached under its key if the key is a text.
pub open spec fn cache_set(s: Holding, body: Tree) -> Holding {
    match (body.text_field("key"@), body.field("value"@)) {
        (Some(k), Some(v)) => Holding { cache: s.cache.insert(k, v), ..s },
        _ => s,
    }
}

/// The document that a request writes: its whole body, with its key.
pub open spec fn keyed(body: Tree, key: Seq<char>) -> Tree {
    match body {
        Tree::Fields(m) => Tree::Fields(m.insert("_key"@, Tree::Text(key))),
        _ => body,
    }
}

/// The key of the next document of a list: keys count from one.
pub open spec fn next_key(docs: Seq<Tree>) -> Seq<char> {
    text::decimal((docs.len() + 1) as nat)
}

/// A document goes to the end of its collection, and its key is the answer.
pub open spec fn write(s: Holding, body: Tree) -> (Holding, Option<Tree>) {
    match body.text_field("collection"@) {
        Some(c) => {
            let docs = list_at(s.nosql, c);
            let key = next_key(docs);
            (
                Holding { nosql: s.nosql.insert(c, docs.push(keyed(body, key))), ..s },
                Some(Tree::Fields(map!["key"@ => Tree::Text(key)])),
            )
        },
        None => (s, None),
    }
}

/// The first document of that key.
pub open spec fn document_of(docs: Seq<Tree>, key: Seq<char>) -> Option<Tree>
    decreases docs.len(),
{
    if docs.len() == 0 {
        None
    } else if docs[0].text_field("_key"@) == Some(key) {
        Some(docs[0])
    } else {
        document_of(docs.skip(1), key)
    }
}

/// A document is read by collection and key.
pub open spec fn read(s: Holding, c: Option<Seq<char>>, key: Option<Seq<char>>) -> Option<Tree> {
    match (c, key) {
        (Some(c), Some(k)) => document_of(list_at(s.nosql, c), k),
        _ => None,
    }
}

/// A message goes to the end of its queue.
pub open spec fn queue_push(s: Holding, body: Tree) -> Holding {
    match (body.text_field("queue"@), body.field("body"@)) {
        (Some(q), Some(m)) => Holding {
            queues: s.queues.insert(q, list_at(s.queues, q).push(m)),
            ..s
        },
        _ => s,
    }
}

/// The message at the front of a queue that holds one is taken out.
pub open spec fn queue_pop(s: Holding, body: Tree) -> (Holding, Option<Tree>) {
    match body.text_field("queue"@) {
        Some(q) => {
            let messages = list_at(s.queues, q);
            if messages.len() == 0 {
                (s, None)
            } else {
                (Holding { queues: s.queues.insert(q, messages.skip(1)), ..s }, Some(messages[0]))
            }
        },
        None => (s, None),
    }
}

/// A blob is stored under its name if the name is a text.
pub open spec fn blob_put(s: Holding, body: Tree) -> Holding {
    match (body.text_field("name"@), body.field("data"@)) {
        (Some(n), Some(d)) => Holding { blobs: s.blobs.insert(n, d), ..s },
        _ => s,
    }
}

/// The token that the next lock is held with.
pub open spec fn next_token(s: Holding) -> Seq<char> {
    "local-"@ + text::decimal(s.locks.len())
}

/// A lock that nobody holds is taken, and its token is the answer.
pub open spec fn lock_acquire(s: Holding, body: Tree) -> (Holding, Option<Tree>) {
    match body.text_field("name"@) {
        Some(n) => if s.locks.contains_key(n) {
            (s, None)
        } else {
            (
                Holding { locks: s.locks.insert(n, next_token(s)), ..s },
                Some(Tree::Fields(map!["token"@ => Tree::Text(next_token(s))])),
            )
        },
        None => (s, None),
    }
}

/// A lock is given up, whatever the token.
pub open spec fn lock_release(s: Holding, body: Tree) -> Holding {
    match body.text_field("name"@) {
        Some(n) => Holding { locks: s.locks.remove(n), ..s },
        None => s,
    }
}

/// The names of the secrets, each once, in some order.
pub open spec fn names_all(answer: Option<Tree>, secrets: Map<Seq<char>, Seq<char>>) -> bool {
    match answer {
        Some(Tree::List(l)) => {
            &&& forall|i: int| 0 <= i < l.len() ==> (#[trigger] l[i]) is Text
            &&& forall|i: int, j: int| 0 <= i < j < l.len() ==> #[trigger] l[i] != #[trigger] l[j]
            &&& forall|n: Seq<char>| secrets.contains_key(n) <==> #[trigger] l.contains(Tree::Text(n))
        },
        _ => false,
    }
}

/// What a request that needs a body does, given the body.
pub open spec fn with_body(s: Holding, route: Seq<char>, body: Tree) -> (Holding, Option<Tree>) {
    if route == "secret/set"@ {
        (secret_set(s, body), None)
    } else if route == "cache/set"@ {
        (cache_set(s, body), None)
    } else if route == "write"@ {
        write(s, body)
    } else if route == "queue/push"@ {
        (queue_push(s, body), None)
    } else if route == "queue/pop"@ {
        queue_pop(s, body)
    } else if route == "blob/put"@ {
        (blob_put(s, body), None)
    } else if route == "lock/acquire"@ {
        lock_acquire(s, body)
    } else if route == "lock/release"@ {
        (lock_release(s, body), None)
    } else {
        (s, None)
    }
}

/// Nothing under a key that is not given.
pub open spec fn without<A>(m: Map<Seq<char>, A>, k: Option<Seq<char>>) -> Map<Seq<char>, A> {
    match k {
        Some(k) => m.remove(k),
        None => m,
    }
}

/// What stands under a key that is given.
pub open spec fn under<A>(m: Map<Seq<char>, A>, k: Option<Seq<char>>) -> Option<A> {
    match k {
        Some(k) => at(m, k),
        None => None,
    }
}

/// What a request that reads its query does, given the parameters.
pub open spec fn with_query(s: Holding, route: Seq<char>, q: Map<Seq<char>, Seq<char>>) -> (
    Holding,
    Option<Tree>,
) {
    if route == "secret/delete"@ {
        (Holding { secrets: without(s.secrets, at(q, "name"@)), ..s }, None)
    } else if route == "cache/get"@ {
        (s, under(s.cache, at(q, "key"@)))
    } else if route == "cache/del"@ {
        (Holding { cache: without(s.cache, at(q, "key"@)), ..s }, None)
    } else if route == "read"@ {
        (s, read(s, at(q, "collection"@), at(q, "key"@)))
    } else if route == "nosql/list"@ {
        (
            s,
            match at(q, "collection"@) {
                Some(c) => Some(Tree::List(list_at(s.nosql, c))),
                None => None,
            },
        )
    } else if route == "nosql/drop"@ {
        (Holding { nosql: without(s.nosql, at(q, "collection"@)), ..s }, None)
    } else if route == "blob/get"@ {
        (s, under(s.blobs, at(q, "name"@)))
    } else {
        (s, None)
    }
}

/// Whether a route takes what it needs from the body.
pub open spec fn takes_body(route: Seq<char>) -> bool {
    ||| route == "secret/set"@
    ||| route == "cache/set"@
    ||| route == "write"@
    ||| route == "queue/push"@
    ||| route == "queue/pop"@
    ||| route == "blob/put"@
    ||| route == "lock/acquire"@
    ||| route == "lock/release"@
}

/// What a request does to the store, and what the store says to it. The route is
/// what stands before the `?` of the path; the method plays no part.
pub open spec fn local_step(s: Holding, path: Seq<char>, body: Option<Tree>) -> (Holding, Word) {
    let route = text::head(path, '?');
    let q = query::params(path);
    if route == "secret/get"@ {
        (s, secret_get(s, at(q, "name"@)))
    } else if takes_body(route) {
        match body {
            Some(b) => {
                let (t, a) = with_body(s, route, b);
                (t, Word::Answer(a))
            },
            None => (s, Word::Answer(None)),
        }
    } else {
        let (t, a) = with_query(s, route, q);
        (t, Word::Answer(a))
    }
}

// ---------------------------------------------------------------------------
// Serving requests
// ---------------------------------------------------------------------------

proof fn lemma_strings(m: Map<Seq<char>, String>, k: Seq<char>, v: String)
    ensures
        query::strings(m.insert(k, v)) == query::strings(m).insert(k, v@),
        query::strings(m.remove(k)) == query::strings(m).remove(k),
{
    assert(query::strings(m.insert(k, v)) =~= query::strings(m).insert(k, v@));
    assert(query::strings(m.remove(k)) =~= query::strings(m).remove(k));
}

proof fn lemma_values(m: Map<Seq<char>, Json>, k: Seq<char>, v: Json)
    ensures
        values(m.insert(k, v)) == values(m).insert(k, v@),
        values(m.remove(k)) == values(m).remove(k),
{
    assert(values(m.insert(k, v)) =~= values(m).insert(k, v@));
    assert(values(m.remove(k)) =~= values(m).remove(k));
}

proof fn lemma_lists(m: Map<Seq<char>, Vec<Json>>, k: Seq<char>, v: Vec<Json>)
    ensures
        lists(m.remove(k).insert(k, v)) == lists(m).insert(k, json::trees(v@)),
        lists(m.remove(k)) == lists(m).remove(k),
{
    assert(lists(m.remove(k).insert(k, v)) =~= lists(m).insert(k, json::trees(v@)));
    assert(lists(m.remove(k)) =~= lists(m).remove(k));
}

/// The parameter of that name.
fn param(q: &Table<String>, name: &str) -> (r: Option<String>)
    ensures
        json::text_opt(r) == at(query::strings(q@), name@),
{
    match q.get(name) {
        Some(v) => Some(v.clone()),
        None => None,
    }
}

/// Takes the list under a key out of a table: the empty one where nothing stands.
fn take_list(lists_by_name: &mut Table<Vec<Json>>, name: &str) -> (r: Vec<Json>)
    ensures
        json::trees(r@) == list_at(lists(old(lists_by_name)@), name@),
        final(lists_by_name)@ == old(lists_by_name)@.remove(name@),
{
    match lists_by_name.remove(name) {
        Some(v) => v,
        None => {
            let none: Vec<Json> = Vec::new();
            assert(json::trees(none@) =~= Seq::empty());
            none
        },
    }
}

impl LocalStore {
    /// The store that holds nothing.
    pub fn new() -> (r: LocalStore)
        ensures
            r@ == nothing(),
    {
        let r = LocalStore {
            secrets: Table::new(),
            cache: Table::new(),
            nosql: Table::new(),
            queues: Table::new(),
            blobs: Table::new(),
            locks: Table::new(),
        };
        assert(r@ =~= nothing());
        r
    }

    fn secret_get(&self, name: Option<String>) -> (r: Local)
        ensures
            r@ == secret_get(self@, json::text_opt(name)),
    {
        match name {
            Some(n) => match self.secrets.get(n.as_str()) {
                Some(v) => Local::Answer(Some(Json::String(v.clone()))),
                None => Local::Variable(n),
            },
            None => Local::Answer(None),
        }
    }

    fn secret_set(&mut self, body: &Json)
        ensures
            final(self)@ == secret_set(old(self)@, body@),
    {
        match body.text_field("name") {
            Some(n) => match body.text_field("value") {
                Some(v) => {
                    proof {
                        lemma_strings(self.secrets@, n@, v);
                    }
                    self.secrets.insert(n, v);
                },
                None => {},
            },
            None => {},
        }
    }

    fn cache_set(&mut self, body: &Json)
        ensures
            final(self)@ == cache_set(old(self)@, body@),
    {
        match body.text_field("key") {
            Some(k) => match body.get("value") {
                Some(v) => {
                    let value = v.clone();
                    proof {
                        lemma_values(self.cache@, k@, value);
                    }
                    self.cache.insert(k, value);
                },
                None => {},
            },
            None => {},
        }
    }

    fn write(&mut self, body: Json) -> (r: Option<Json>)
        ensures
            (final(self)@, json::tree_opt(r)) == write(old(self)@, body@),
    {
        match body.text_field("collection") {
            Some(c) => {
                let ghost held = self.nosql@;
                let mut docs = take_list(&mut self.nosql, c.as_str());
                let key = text::decimal_of(docs.len() as u128 + 1);
                let mut doc = body;
                match &mut doc {
                    Json::Object(t) => t.set("_key", Json::text(key.as_str())),
                    _ => {},
                }
                let ghost listed = json::trees(docs@);
                docs.push(doc);
                proof {
                    assert(json::trees(docs@) =~= listed.push(doc@));
                    lemma_lists(held, c@, docs);
                }
                self.nosql.insert(c, docs);
                let mut answer: Table<Json> = Table::empty();
                answer.set("key", Json::String(key));
                Some(Json::Object(answer))
            },
            None => None,
        }
    }

    fn read(&self, collection: Option<String>, key: Option<String>) -> (r: Option<Json>)
        ensures
            json::tree_opt(r) == read(
                self@,
                json::text_opt(collection),
                json::text_opt(key),
            ),
    {
        match (collection, key) {
            (Some(c), Some(k)) => match self.nosql.get(c.as_str()) {
                Some(docs) => find_document(docs, k.as_str()),
                None => None,
            },
            _ => None,
        }
    }

    fn list(&self, collection: Option<String>) -> (r: Option<Json>)
        ensures
            json::tree_opt(r) == (match json::text_opt(collection) {
                Some(c) => Some(Tree::List(list_at(self@.nosql, c))),
                None => None,
            }),
    {
        broadcast use json::lemma_array;

        match collection {
            Some(c) => match self.nosql.get(c.as_str()) {
                Some(docs) => Some(Json::Array(json::clone_all(docs.as_slice()))),
                None => {
                    let none: Vec<Json> = Vec::new();
                    assert(json::trees(none@) =~= Seq::empty());
                    Some(Json::Array(none))
                },
            },
            None => None,
        }
    }

    fn queue_push(&mut self, body: &Json)
        ensures
            final(self)@ == queue_push(old(self)@, body@),
    {
        match body.text_field("queue") {
            Some(q) => match body.get("body") {
                Some(m) => {
                    let ghost held = self.queues@;
                    let mut messages = take_list(&mut self.queues, q.as_str());
                    let ghost listed = json::trees(messages@);
                    messages.push(m.clone());
                    proof {
                        assert(json::trees(messages@) =~= listed.push(m@));
                        lemma_lists(held, q@, messages);
                    }
                    self.queues.insert(q, messages);
                },
                None => {},
            },
            None => {},
        }
    }

    fn queue_pop(&mut self, body: &Json) -> (r: Option<Json>)
        ensures
            (final(self)@, json::tree_opt(r)) == queue_pop(old(self)@, body@),
    {
        match body.text_field("queue") {
            Some(q) => {
                let waiting: bool = match self.queues.get(q.as_str()) {
                    Some(messages) => messages.len() > 0,
                    None => false,
                };
                if !waiting {
                    return None;
                }
                let ghost held = self.queues@;
                let mut messages = take_list(&mut self.queues, q.as_str());
                let ghost listed = json::trees(messages@);
                assert(listed.len() == json::trees(held[q@]@).len());
                let first = messages.remove(0);
                proof {
                    assert(json::trees(messages@) =~= listed.skip(1));
                    lemma_lists(held, q@, messages);
                }
                self.queues.insert(q, messages);
                Some(first)
            },
            None => None,
        }
    }

    fn blob_put(&mut self, body: &Json)
        ensures
            final(self)@ == blob_put(old(self)@, body@),
    {
        match body.text_field("name") {
            Some(n) => match body.get("data") {
                Some(d) => {
                    let data = d.clone();
                    proof {
                        lemma_values(self.blobs@, n@, data);
                    }
                    self.blobs.insert(n, data);
                },
                None => {},
            },
            None => {},
        }
    }

    fn lock_acquire(&mut self, body: &Json) -> (r: Option<Json>)
        ensures
            (final(self)@, json::tree_opt(r)) == lock_acquire(old(self)@, body@),
    {
        match body.text_field("name") {
            Some(n) => {
                if self.locks.contains_key(n.as_str()) {
                    return None;
                }
                let held = self.locks.len();
                proof {
                    table::lemma_map_of_len(self.locks.entries());
                    assert(query::strings(self.locks@).dom() =~= self.locks@.dom());
                }
                let count = text::decimal_of(held as u128);
                let token = text::join("local-", count.as_str());
                proof {
                    lemma_strings(self.locks@, n@, token);
                }
                let kept = token.clone();
                proof {
                    lemma_strings(self.locks@, n@, kept);
                }
                self.locks.insert(n, kept);
                let mut answer: Table<Json> = Table::empty();
                answer.set("token", Json::String(token));
                Some(Json::Object(answer))
            },
            None => None,
        }
    }

    fn lock_release(&mut self, body: &Json)
        ensures
            final(self)@ == lock_release(old(self)@, body@),
    {
        match body.text_field("name") {
            Some(n) => {
                proof {
                    lemma_strings(self.locks@, n@, n);
                }
                let _ = self.locks.remove(n.as_str());
            },
            None => {},
        }
    }
}

/// Finds the first document of that key.
fn find_document(docs: &Vec<Json>, key: &str) -> (r: Option<Json>)
    ensures
        json::tree_opt(r) == document_of(json::trees(docs@), key@),
{
    let ghost all = json::trees(docs@);
    let mut i: usize = 0;
    assert(all.skip(0) =~= all);
    while i < docs.len()
        invariant
            0 <= i <= docs@.len(),
            all == json::trees(docs@),
            document_of(all, key@) == document_of(all.skip(i as int), key@),
        decreases docs@.len() - i,
    {
        let found: bool = match docs[i].text_field("_key") {
            Some(k) => text::same(k.as_str(), key),
            None => false,
        };
        assert(all.skip(i as int)[0] == docs@[i as int]@);
        if found {
            return Some(docs[i].clone());
        }
        assert(all.skip(i as int).skip(1) =~= all.skip(i as int + 1));
        i += 1;
    }
    None
}

impl LocalStore {
    /// The names of the secrets.
    fn secret_list(&self) -> (r: Option<Json>)
        ensures
            names_all(json::tree_opt(r), self@.secrets),
    {
        broadcast use json::lemma_array;

        let n = self.secrets.len();
        let ghost entries = self.secrets.entries();
        let mut names: Vec<Json> = Vec::new();
        let mut i: usize = 0;
        while i < n
            invariant
                0 <= i <= n,
                entries == self.secrets.entries(),
                n == entries.len(),
                names@.len() == i,
                forall|j: int| 0 <= j < i ==> #[trigger] names@[j]@ == Tree::Text(entries[j].0@),
            decreases n - i,
        {
            names.push(Json::text(self.secrets.key_at(i).as_str()));
            i += 1;
        }
        let ghost l = json::trees(names@);
        proof {
            assert forall|i: int, j: int| 0 <= i < j < l.len() implies #[trigger] l[i]
                != #[trigger] l[j] by {
                assert(names@[i]@ == Tree::Text(entries[i].0@));
                assert(names@[j]@ == Tree::Text(entries[j].0@));
                if entries[i].0@ == entries[j].0@ {
                    table::lemma_ascending_distinct(entries, i, j);
                }
            }
            assert forall|n: Seq<char>| self@.secrets.contains_key(n) <==> #[trigger] l.contains(
                Tree::Text(n),
            ) by {
                table::lemma_map_of_keys(entries, n);
                if self@.secrets.contains_key(n) {
                    let i = choose|i: int| 0 <= i < entries.len() && #[trigger] entries[i].0@ == n;
                    assert(l[i] == names@[i]@);
                }
                if l.contains(Tree::Text(n)) {
                    let i = choose|i: int| 0 <= i < l.len() && l[i] == Tree::Text(n);
                    assert(names@[i]@ == Tree::Text(entries[i].0@));
                }
            }
            assert forall|i: int| 0 <= i < l.len() implies (#[trigger] l[i]) is Text by {
                assert(names@[i]@ == Tree::Text(entries[i].0@));
            }
        }
        Some(Json::Array(names))
    }

    fn call_with_body(&mut self, route: &str, body: Json) -> (r: Option<Json>)
        requires
            takes_body(route@),
        ensures
            (final(self)@, json::tree_opt(r)) == with_body(old(self)@, route@, body@),
    {
        if text::same(route, "secret/set") {
            self.secret_set(&body);
            None
        } else if text::same(route, "cache/set") {
            self.cache_set(&body);
            None
        } else if text::same(route, "write") {
            self.write(body)
        } else if text::same(route, "queue/push") {
            self.queue_push(&body);
            None
        } else if text::same(route, "queue/pop") {
            self.queue_pop(&body)
        } else if text::same(route, "blob/put") {
            self.blob_put(&body);
            None
        } else if text::same(route, "lock/acquire") {
            self.lock_acquire(&body)
        } else {
            self.lock_release(&body);
            None
        }
    }

    fn call_with_query(&mut self, route: &str, q: &Table<String>) -> (r: Option<Json>)
        ensures
            (final(self)@, json::tree_opt(r)) == with_query(
                old(self)@,
                route@,
                query::strings(q@),
            ),
    {
        if text::same(route, "secret/delete") {
            match param(q, "name") {
                Some(n) => {
                    proof {
                        lemma_strings(self.secrets@, n@, n);
                    }
                    let _ = self.secrets.remove(n.as_str());
                },
                None => {},
            }
            None
        } else if text::same(route, "cache/get") {
            match param(q, "key") {
                Some(k) => match self.cache.get(k.as_str()) {
                    Some(v) => Some(v.clone()),
                    None => None,
                },
                None => None,
            }
        } else if text::same(route, "cache/del") {
            match param(q, "key") {
                Some(k) => {
                    proof {
                        lemma_values(self.cache@, k@, Json::Null);
                    }
                    let _ = self.cache.remove(k.as_str());
                },
                None => {},
            }
            None
        } else if text::same(route, "read") {
            self.read(param(q, "collection"), param(q, "key"))
        } else if text::same(route, "nosql/list") {
            self.list(param(q, "collection"))
        } else if text::same(route, "nosql/drop") {
            match param(q, "collection") {
                Some(c) => {
                    let ghost held = self.nosql@;
                    let dropped = take_list(&mut self.nosql, c.as_str());
                    proof {
                        lemma_lists(held, c@, dropped);
                    }
                },
                None => {},
            }
            None
        } else if text::same(route, "blob/get") {
            match param(q, "name") {
                Some(n) => match self.blobs.get(n.as_str()) {
                    Some(v) => Some(v.clone()),
                    None => None,
                },
                None => None,
            }
        } else {
            None
        }
    }

    /// Serves a request.
    pub fn call_local(&mut self, path: &str, body: Option<Json>) -> (r: Local)
        ensures
            text::head(path@, '?') != "secret/list"@ ==> (final(self)@, r@) == local_step(
                old(self)@,
                path@,
                json::tree_opt(body),
            ),
            text::head(path@, '?') == "secret/list"@ ==> final(self)@ == old(self)@
                && r@ is Answer && names_all(r@->Answer_0, old(self)@.secrets),
    {
        let q = query::parse_query(path);
        let route = text::head_of(path, '?');
        let route = route.as_str();
        if text::same(route, "secret/list") {
            Local::Answer(self.secret_list())
        } else if text::same(route, "secret/get") {
            self.secret_get(param(&q, "name"))
        } else if text::same(route, "secret/set") || text::same(route, "cache/set") || text::same(
            route,
            "write",
        ) || text::same(route, "queue/push") || text::same(route, "queue/pop") || text::same(
            route,
            "blob/put",
        ) || text::same(route, "lock/acquire") || text::same(route, "lock/release") {
            match body {
                Some(b) => Local::Answer(self.call_with_body(route, b)),
                None => Local::Answer(None),
            }
        } else {
            Local::Answer(self.call_with_query(route, &q))
        }
    }
}

}
