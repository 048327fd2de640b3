//! What holds of the local store as a whole.
//!
//! Names and keys that go into a query are percent-encoded, and the store takes
//! parameters as they are written. So a value that is stored under a name is found
//! again under that name exactly where the name is encoded as itself.
use vstd::prelude::*;
use vstd::string::*;

use crate::backbone;
use crate::backbone::{cache, lock, nosql, realtime, secret};
use crate::deed::jwt;
use crate::json;
use crate::json::{Json, Tree};
use crate::local;
use crate::local::{Holding, Local, Word};
use crate::percent;
use crate::query;
use crate::text;
use crate::wire;

verus! {

// ---------------------------------------------------------------------------
// Routes
// ---------------------------------------------------------------------------

/// What tells the routes apart: the length, the first character, and the last but
/// two.
spec fn mark(s: Seq<char>) -> (nat, char, char) {
    (s.len(), s[0], s[s.len() - 3])
}

proof fn lemma_marks()
    ensures
        mark("secret/get"@) == (10nat, 's', 'g'),
        mark("secret/set"@) == (10nat, 's', 's'),
        mark("secret/delete"@) == (13nat, 's', 'e'),
        mark("secret/list"@) == (11nat, 's', 'i'),
        mark("cache/get"@) == (9nat, 'c', 'g'),
        mark("cache/set"@) == (9nat, 'c', 's'),
        mark("cache/del"@) == (9nat, 'c', 'd'),
        mark("write"@) == (5nat, 'w', 'i'),
        mark("read"@) == (4nat, 'r', 'e'),
        mark("nosql/list"@) == (10nat, 'n', 'i'),
        mark("nosql/drop"@) == (10nat, 'n', 'r'),
        mark("queue/push"@) == (10nat, 'q', 'u'),
        mark("queue/pop"@) == (9nat, 'q', 'p'),
        mark("blob/put"@) == (8nat, 'b', 'p'),
        mark("blob/get"@) == (8nat, 'b', 'g'),
        mark("lock/acquire"@) == (12nat, 'l', 'i'),
        mark("lock/release"@) == (12nat, 'l', 'a'),
{
    reveal_strlit("secret/get");
    reveal_strlit("secret/set");
    reveal_strlit("secret/delete");
    reveal_strlit("secret/list");
    reveal_strlit("cache/get");
    reveal_strlit("cache/set");
    reveal_strlit("cache/del");
    reveal_strlit("write");
    reveal_strlit("read");
    reveal_strlit("nosql/list");
    reveal_strlit("nosql/drop");
    reveal_strlit("queue/push");
    reveal_strlit("queue/pop");
    reveal_strlit("blob/put");
    reveal_strlit("blob/get");
    reveal_strlit("lock/acquire");
    reveal_strlit("lock/release");
}

// ---------------------------------------------------------------------------
// The cache
// ---------------------------------------------------------------------------

/// Encoded text holds none of the characters that part a path or a query.
proof fn lemma_parts_nothing(s: Seq<char>)
    ensures
        !percent::percent_encoded(s).contains('&'),
        !percent::percent_encoded(s).contains('='),
        !percent::percent_encoded(s).contains('?'),
{
    percent::encoded_text_is_safe(s);
}

/// What a path with one parameter is read as.
proof fn lemma_cache_paths(key: Seq<char>)
    ensures
        text::head(cache::asking(key).path, '?') == "cache/get"@,
        query::params(cache::asking(key).path) == map!["key"@ => percent::percent_encoded(key)],
        text::head(cache::deleting(key).path, '?') == "cache/del"@,
        query::params(cache::deleting(key).path) == map!["key"@ => percent::percent_encoded(key)],
        text::head("cache/set"@, '?') == "cache/set"@,
{
    let e = percent::percent_encoded(key);
    lemma_parts_nothing(key);
    reveal_strlit("key");
    reveal_strlit("cache/get");
    reveal_strlit("cache/get?key=");
    reveal_strlit("cache/del");
    reveal_strlit("cache/del?key=");
    reveal_strlit("cache/set");
    query::one_parameter_reads_back("cache/get"@, "key"@, e);
    query::one_parameter_reads_back("cache/del"@, "key"@, e);
    text::lemma_unsplit("cache/set"@, '?');
    assert("cache/get?key="@ + e =~= "cache/get"@ + seq!['?'] + ("key"@ + seq!['='] + e));
    assert("cache/del?key="@ + e =~= "cache/del"@ + seq!['?'] + ("key"@ + seq!['='] + e));
}

/// What the store holds after a call.
pub open spec fn after(s: Holding, call: wire::Call) -> Holding {
    local::local_step(s, call.path, call.body).0
}

/// What the store says to a call.
pub open spec fn said(s: Holding, call: wire::Call) -> Word {
    local::local_step(s, call.path, call.body).1
}

/// Setting a cached value changes what is read under the key that is encoded as
/// that key, and under no other; the time to live plays no part.
pub proof fn cache_reads_what_was_set(
    s: Holding,
    key: Seq<char>,
    value: Tree,
    ttl: u64,
    other: Seq<char>,
)
    ensures
        after(s, cache::storing(key, value, ttl)) == (Holding {
            cache: s.cache.insert(key, value),
            ..s
        }),
        said(after(s, cache::storing(key, value, ttl)), cache::asking(other)) == (if percent::percent_encoded(
            other,
        ) == key {
            Word::Answer(Some(value))
        } else {
            said(s, cache::asking(other))
        }),
{
    lemma_marks();
    lemma_cache_paths(other);
    reveal_strlit("key");
    reveal_strlit("value");
    reveal_strlit("ttl");
    assert("ttl"@[0] != "key"@[0]);
    let body = Tree::Fields(cache::entry(key, value, ttl));
    assert(body.text_field("key"@) == Some(key));
    assert(body.field("value"@) == Some(value));
}

/// A value that is cached under a key of unreserved characters is read back under
/// that key. Under any other key it is not: what is read there stays what it was.
pub proof fn cache_gives_back(s: Holding, key: Seq<char>, value: Tree, ttl: u64)
    ensures
        said(after(s, cache::storing(key, value, ttl)), cache::asking(key)) == (if percent::plain(
            key,
        ) {
            Word::Answer(Some(value))
        } else {
            said(s, cache::asking(key))
        }),
{
    cache_reads_what_was_set(s, key, value, ttl, key);
    if percent::plain(key) {
        percent::plain_text_is_encoded_as_itself(key);
    } else if percent::percent_encoded(key) == key {
        percent::text_encoded_as_itself_is_plain(key);
    }
}

/// A value that was deleted is not read, whatever its key; nothing else changes.
pub proof fn cache_forgets(s: Holding, key: Seq<char>, other: Seq<char>)
    ensures
        said(after(s, cache::deleting(key)), cache::asking(key)) == Word::Answer(None),
        other != key ==> said(after(s, cache::deleting(key)), cache::asking(other)) == said(
            s,
            cache::asking(other),
        ),
        after(s, cache::deleting(key)) == (Holding {
            cache: s.cache.remove(percent::percent_encoded(key)),
            ..s
        }),
{
    lemma_marks();
    lemma_cache_paths(key);
    lemma_cache_paths(other);
    if percent::percent_encoded(key) == percent::percent_encoded(other) {
        percent::encoding_keeps_texts_apart(key, other);
    }
}

// ---------------------------------------------------------------------------
// Secrets
// ---------------------------------------------------------------------------

proof fn lemma_secret_paths(name: Seq<char>)
    ensures
        text::head(secret::asking(name).path, '?') == "secret/get"@,
        query::params(secret::asking(name).path) == map!["name"@ => percent::percent_encoded(name)],
        text::head(secret::deleting(name).path, '?') == "secret/delete"@,
        query::params(secret::deleting(name).path) == map!["name"@ => percent::percent_encoded(
            name,
        )],
        text::head("secret/set"@, '?') == "secret/set"@,
{
    let e = percent::percent_encoded(name);
    lemma_parts_nothing(name);
    reveal_strlit("name");
    reveal_strlit("secret/get");
    reveal_strlit("secret/get?name=");
    reveal_strlit("secret/delete");
    reveal_strlit("secret/delete?name=");
    reveal_strlit("secret/set");
    query::one_parameter_reads_back("secret/get"@, "name"@, e);
    query::one_parameter_reads_back("secret/delete"@, "name"@, e);
    text::lemma_unsplit("secret/set"@, '?');
    assert("secret/get?name="@ + e =~= "secret/get"@ + seq!['?'] + ("name"@ + seq!['='] + e));
    assert("secret/delete?name="@ + e =~= "secret/delete"@ + seq!['?'] + ("name"@ + seq!['='] + e));
}

/// Setting a secret changes what is read under the name that is encoded as that
/// name, and under no other.
pub proof fn secret_reads_what_was_set(
    s: Holding,
    name: Seq<char>,
    value: Seq<char>,
    other: Seq<char>,
)
    ensures
        after(s, secret::storing(name, value)) == (Holding {
            secrets: s.secrets.insert(name, value),
            ..s
        }),
        said(after(s, secret::storing(name, value)), secret::asking(other)) == (if percent::percent_encoded(
            other,
        ) == name {
            Word::Answer(Some(Tree::Text(value)))
        } else {
            said(s, secret::asking(other))
        }),
{
    lemma_marks();
    lemma_secret_paths(other);
    reveal_strlit("name");
    reveal_strlit("value");
    assert("name"@.len() != "value"@.len());
    let body = secret::storing(name, value).body->0;
    assert(body.text_field("name"@) == Some(name));
    assert(body.text_field("value"@) == Some(value));
}

/// A secret that is stored under a name of unreserved characters is read back
/// under that name.
pub proof fn secret_gives_back(s: Holding, name: Seq<char>, value: Seq<char>)
    requires
        percent::plain(name),
    ensures
        ({
            let w = said(after(s, secret::storing(name, value)), secret::asking(name));
            w is Answer && secret::secret_in(w->Answer_0) == value
        }),
{
    secret_reads_what_was_set(s, name, value, name);
    percent::plain_text_is_encoded_as_itself(name);
}

/// A secret that was deleted is looked for in the environment, whatever its name,
/// and no other secret is touched.
pub proof fn secret_is_forgotten(s: Holding, name: Seq<char>, other: Seq<char>)
    ensures
        said(after(s, secret::deleting(name)), secret::asking(name)) == Word::Variable(
            percent::percent_encoded(name),
        ),
        other != name ==> said(after(s, secret::deleting(name)), secret::asking(other)) == said(
            s,
            secret::asking(other),
        ),
{
    lemma_marks();
    lemma_secret_paths(name);
    lemma_secret_paths(other);
    if percent::percent_encoded(name) == percent::percent_encoded(other) {
        percent::encoding_keeps_texts_apart(name, other);
    }
}

// ---------------------------------------------------------------------------
// Collections
// ---------------------------------------------------------------------------

proof fn lemma_reading_path(name: Seq<char>, key: Seq<char>)
    ensures
        text::head(nosql::reading(name, key).path, '?') == "read"@,
        query::params(nosql::reading(name, key).path) == map![
            "collection"@ => percent::percent_encoded(name),
            "key"@ => percent::percent_encoded(key)
        ],
{
    let c = percent::percent_encoded(name);
    let k = percent::percent_encoded(key);
    lemma_parts_nothing(name);
    lemma_parts_nothing(key);
    reveal_strlit("collection");
    reveal_strlit("key");
    reveal_strlit("read");
    reveal_strlit("read?collection=");
    reveal_strlit("&key=");
    query::two_parameters_read_back("read"@, "collection"@, c, "key"@, k);
    assert("read?collection="@ + c + "&key="@ + k =~= "read"@ + seq!['?'] + (("collection"@ + seq![
        '=',
    ] + c) + seq!['&'] + ("key"@ + seq!['='] + k)));
}

proof fn lemma_collection_paths(name: Seq<char>)
    ensures
        text::head(nosql::dropping(name).path, '?') == "nosql/drop"@,
        query::params(nosql::dropping(name).path) == map!["collection"@ => percent::percent_encoded(
            name,
        )],
        text::head(nosql::listing(name, Seq::empty()).path, '?') == "nosql/list"@,
        query::params(nosql::listing(name, Seq::empty()).path)
            == map!["collection"@ => percent::percent_encoded(name)],
        text::head("write"@, '?') == "write"@,
{
    let c = percent::percent_encoded(name);
    lemma_parts_nothing(name);
    reveal_strlit("collection");
    reveal_strlit("nosql/drop");
    reveal_strlit("nosql/drop?collection=");
    reveal_strlit("nosql/list");
    reveal_strlit("nosql/list?collection=");
    reveal_strlit("write");
    query::one_parameter_reads_back("nosql/drop"@, "collection"@, c);
    query::one_parameter_reads_back("nosql/list"@, "collection"@, c);
    text::lemma_unsplit("write"@, '?');
    assert("nosql/drop?collection="@ + c =~= "nosql/drop"@ + seq!['?'] + ("collection"@ + seq!['=']
        + c));
    assert("nosql/list?collection="@ + c + nosql::conditions(Seq::empty()) =~= "nosql/list"@ + seq![
        '?',
    ] + ("collection"@ + seq!['='] + c));
}

/// A written number is encoded as itself.
proof fn lemma_number_is_plain(n: nat)
    ensures
        percent::percent_encoded(text::decimal(n)) == text::decimal(n),
{
    text::written_number_reads_back(n);
    let d = text::decimal(n);
    assert forall|i: int| 0 <= i < d.len() implies #[trigger] d[i] <= '\u{7f}'
        && percent::unreserved(d[i] as u8) by {
        assert('0' <= d[i] <= '9');
    }
    percent::plain_text_is_encoded_as_itself(d);
}

/// In a list that is numbered from `from`, the document of a number stands at its
/// place.
proof fn lemma_document_of(docs: Seq<Tree>, from: nat, i: int)
    requires
        0 <= i < docs.len(),
        forall|j: int|
            0 <= j < docs.len() ==> (#[trigger] docs[j]).text_field("_key"@) == Some(
                text::decimal((from + j) as nat),
            ),
    ensures
        local::document_of(docs, text::decimal((from + i) as nat)) == Some(docs[i]),
    decreases docs.len(),
{
    assert(docs[0].text_field("_key"@) == Some(text::decimal(from)));
    if i > 0 {
        text::written_number_reads_back(from);
        text::written_number_reads_back((from + i) as nat);
        let rest = docs.skip(1);
        assert forall|j: int| 0 <= j < rest.len() implies (#[trigger] rest[j]).text_field("_key"@)
            == Some(text::decimal((from + 1 + j) as nat)) by {
            assert(rest[j] == docs[j + 1]);
        }
        lemma_document_of(rest, from + 1, i - 1);
        assert(rest[i - 1] == docs[i]);
    } else {
        assert(docs[i].text_field("_key"@) == Some(text::decimal((from + i) as nat)));
    }
}

/// The empty store is numbered, and every request keeps the numbers.
pub proof fn requests_keep_numbers(s: Holding, path: Seq<char>, body: Option<Tree>)
    ensures
        local::nothing().numbered(),
        s.numbered() ==> local::local_step(s, path, body).0.numbered(),
{
    if s.numbered() {
        let t = local::local_step(s, path, body).0;
        assert forall|c: Seq<char>, i: int|
            #![trigger t.nosql[c][i]]
            t.nosql.contains_key(c) && 0 <= i < t.nosql[c].len() implies t.nosql[c][i].text_field(
            "_key"@,
        ) == Some(text::decimal((i + 1) as nat)) by {
            if s.nosql.contains_key(c) && i < s.nosql[c].len() {
                assert(s.nosql[c][i].text_field("_key"@) == Some(text::decimal((i + 1) as nat)));
            }
        }
    }
}

/// The document of a number is read by that number: keys count from one, and the
/// documents stand in the order in which they were added.
pub proof fn document_is_read_by_its_number(s: Holding, name: Seq<char>, i: int)
    requires
        s.numbered(),
        percent::plain(name),
        s.nosql.contains_key(name),
        0 <= i < s.nosql[name].len(),
    ensures
        said(s, nosql::reading(name, text::decimal((i + 1) as nat))) == Word::Answer(
            Some(s.nosql[name][i]),
        ),
{
    let key = text::decimal((i + 1) as nat);
    lemma_marks();
    lemma_reading_path(name, key);
    lemma_number_is_plain((i + 1) as nat);
    percent::plain_text_is_encoded_as_itself(name);
    let docs = s.nosql[name];
    assert forall|j: int| 0 <= j < docs.len() implies (#[trigger] docs[j]).text_field("_key"@)
        == Some(text::decimal((1 + j) as nat)) by {
        assert(s.nosql[name][j].text_field("_key"@) == Some(text::decimal((j + 1) as nat)));
    }
    lemma_document_of(docs, 1, i);
    let q = query::params(nosql::reading(name, key).path);
    reveal_strlit("collection");
    reveal_strlit("key");
    assert("collection"@.len() != "key"@.len());
    assert(q.contains_key("collection"@) && q["collection"@] == name);
    assert(q.contains_key("key"@) && q["key"@] == key);
}

/// The collection that a document is added to: the one it is given, unless the
/// document names another by a text of its own.
pub open spec fn home(name: Seq<char>, doc: Tree) -> Option<Seq<char>> {
    match doc.field("collection"@) {
        Some(f) => f.text(),
        None => Some(name),
    }
}

/// A document that is added goes behind those that are there, under the next
/// number, which is the answer; nothing else changes.
pub proof fn document_is_added(s: Holding, name: Seq<char>, doc: Tree)
    requires
        home(name, doc) == Some(name),
    ensures
        ({
            let docs = local::list_at(s.nosql, name);
            let key = text::decimal((docs.len() + 1) as nat);
            let kept = local::keyed(Tree::Fields(nosql::addition(name, doc)), key);
            let call = nosql::inserting(name, doc);
            &&& after(s, call) == (Holding { nosql: s.nosql.insert(name, docs.push(kept)), ..s })
            &&& said(s, call) is Answer
            &&& json::text_in(said(s, call)->Answer_0, "key"@) == key
        }),
{
    lemma_marks();
    lemma_collection_paths(name);
    reveal_strlit("collection");
    reveal_strlit("data");
    assert("collection"@.len() != "data"@.len());
    let body = Tree::Fields(nosql::addition(name, doc));
    assert(body.text_field("collection"@) == Some(name));
}

/// What was added is read back by the key that the answer gave: the fields of the
/// document, the name of the collection, and the key.
pub proof fn document_is_read_back(s: Holding, name: Seq<char>, doc: Tree)
    requires
        s.numbered(),
        percent::plain(name),
        home(name, doc) == Some(name),
    ensures
        ({
            let call = nosql::inserting(name, doc);
            let key = json::text_in(said(s, call)->Answer_0, "key"@);
            said(after(s, call), nosql::reading(name, key)) == Word::Answer(
                Some(local::keyed(Tree::Fields(nosql::addition(name, doc)), key)),
            )
        }),
{
    let call = nosql::inserting(name, doc);
    document_is_added(s, name, doc);
    requests_keep_numbers(s, call.path, call.body);
    let t = after(s, call);
    document_is_read_by_its_number(t, name, t.nosql[name].len() - 1);
}

/// A collection is listed in the order in which its documents were added, and is
/// empty once it has been dropped.
pub proof fn collection_is_listed_and_dropped(s: Holding, name: Seq<char>)
    ensures
        ({
            let c = percent::percent_encoded(name);
            let listing = nosql::listing(name, Seq::empty());
            &&& said(s, listing) == Word::Answer(Some(Tree::List(local::list_at(s.nosql, c))))
            &&& after(s, nosql::dropping(name)) == (Holding { nosql: s.nosql.remove(c), ..s })
            &&& said(after(s, nosql::dropping(name)), listing) == Word::Answer(
                Some(Tree::List(Seq::empty())),
            )
        }),
{
    lemma_marks();
    lemma_collection_paths(name);
    reveal_strlit("collection");
}

// ---------------------------------------------------------------------------
// Queues
// ---------------------------------------------------------------------------

proof fn lemma_queue_paths()
    ensures
        text::head("queue/push"@, '?') == "queue/push"@,
        text::head("queue/pop"@, '?') == "queue/pop"@,
{
    reveal_strlit("queue/push");
    reveal_strlit("queue/pop");
    text::lemma_unsplit("queue/push"@, '?');
    text::lemma_unsplit("queue/pop"@, '?');
}

/// A message is appended to its queue, and nothing else changes.
pub proof fn message_is_appended(s: Holding, name: Seq<char>, message: Tree)
    ensures
        after(s, backbone::pushing(name, message)) == (Holding {
            queues: s.queues.insert(name, local::list_at(s.queues, name).push(message)),
            ..s
        }),
{
    lemma_marks();
    lemma_queue_paths();
    reveal_strlit("queue");
    reveal_strlit("body");
    assert("queue"@.len() != "body"@.len());
    let body = backbone::pushing(name, message).body->0;
    assert(body.text_field("queue"@) == Some(name));
    assert(body.field("body"@) == Some(message));
}

/// The first message of a queue is taken out, and nothing else changes; an empty
/// queue gives nothing.
pub proof fn first_message_is_taken(s: Holding, name: Seq<char>)
    ensures
        ({
            let messages = local::list_at(s.queues, name);
            if messages.len() == 0 {
                &&& said(s, backbone::popping(name)) == Word::Answer(None)
                &&& after(s, backbone::popping(name)) == s
            } else {
                &&& said(s, backbone::popping(name)) == Word::Answer(Some(messages[0]))
                &&& after(s, backbone::popping(name)) == (Holding {
                    queues: s.queues.insert(name, messages.skip(1)),
                    ..s
                })
            }
        }),
{
    lemma_marks();
    lemma_queue_paths();
    reveal_strlit("queue");
    let body = backbone::popping(name).body->0;
    assert(body.text_field("queue"@) == Some(name));
}

/// What the store holds after messages have been appended one after the other.
pub open spec fn after_pushes(s: Holding, name: Seq<char>, messages: Seq<Tree>) -> Holding
    decreases messages.len(),
{
    if messages.len() == 0 {
        s
    } else {
        after(
            after_pushes(s, name, messages.drop_last()),
            backbone::pushing(name, messages.last()),
        )
    }
}

/// What the store holds after so many messages have been taken out.
pub open spec fn after_pops(s: Holding, name: Seq<char>, n: nat) -> Holding
    decreases n,
{
    if n == 0 {
        s
    } else {
        after(after_pops(s, name, (n - 1) as nat), backbone::popping(name))
    }
}

/// Messages leave a queue in the order in which they came.
pub proof fn queue_keeps_order(s: Holding, name: Seq<char>, messages: Seq<Tree>, n: nat)
    requires
        n < local::list_at(s.queues, name).len() + messages.len(),
    ensures
        said(after_pops(after_pushes(s, name, messages), name, n), backbone::popping(name))
            == Word::Answer(Some((local::list_at(s.queues, name) + messages)[n as int])),
{
    let all = local::list_at(s.queues, name) + messages;
    let t = after_pushes(s, name, messages);
    lemma_after_pushes(s, name, messages);
    lemma_after_pops(t, name, n);
    first_message_is_taken(after_pops(t, name, n), name);
    assert(all.skip(n as int)[0] == all[n as int]);
}

proof fn lemma_after_pushes(s: Holding, name: Seq<char>, messages: Seq<Tree>)
    ensures
        local::list_at(after_pushes(s, name, messages).queues, name) == local::list_at(
            s.queues,
            name,
        ) + messages,
    decreases messages.len(),
{
    if messages.len() > 0 {
        let before = messages.drop_last();
        lemma_after_pushes(s, name, before);
        message_is_appended(after_pushes(s, name, before), name, messages.last());
        assert(before.push(messages.last()) =~= messages);
    }
    assert(local::list_at(after_pushes(s, name, messages).queues, name) =~= local::list_at(
        s.queues,
        name,
    ) + messages);
}

proof fn lemma_after_pops(s: Holding, name: Seq<char>, n: nat)
    requires
        n <= local::list_at(s.queues, name).len(),
    ensures
        local::list_at(after_pops(s, name, n).queues, name) == local::list_at(
            s.queues,
            name,
        ).skip(n as int),
    decreases n,
{
    let all = local::list_at(s.queues, name);
    if n > 0 {
        lemma_after_pops(s, name, (n - 1) as nat);
        first_message_is_taken(after_pops(s, name, (n - 1) as nat), name);
        assert(all.skip(n - 1).skip(1) =~= all.skip(n as int));
    } else {
        assert(all.skip(0) =~= all);
    }
}

// ---------------------------------------------------------------------------
// Locks
// ---------------------------------------------------------------------------

proof fn lemma_lock_paths()
    ensures
        text::head("lock/acquire"@, '?') == "lock/acquire"@,
        text::head("lock/release"@, '?') == "lock/release"@,
{
    reveal_strlit("lock/acquire");
    reveal_strlit("lock/release");
    text::lemma_unsplit("lock/acquire"@, '?');
    text::lemma_unsplit("lock/release"@, '?');
}

/// The token that a call for a lock was answered with: empty where it was not
/// taken.
pub open spec fn token(s: Holding, name: Seq<char>, ttl: u64) -> Seq<char> {
    json::text_in(said(s, lock::acquiring(name, ttl))->Answer_0, "token"@)
}

/// A lock that nobody holds is taken, with a token that is not empty; one that is
/// held is not. Nothing else changes.
pub proof fn lock_is_taken_once(s: Holding, name: Seq<char>, ttl: u64)
    ensures
        s.locks.contains_key(name) ==> token(s, name, ttl).len() == 0 && after(
            s,
            lock::acquiring(name, ttl),
        ) == s,
        !s.locks.contains_key(name) ==> token(s, name, ttl).len() > 0 && after(
            s,
            lock::acquiring(name, ttl),
        ) == (Holding { locks: s.locks.insert(name, token(s, name, ttl)), ..s }),
{
    lemma_marks();
    lemma_lock_paths();
    reveal_strlit("name");
    reveal_strlit("ttl");
    assert("name"@.len() != "ttl"@.len());
    reveal_strlit("local-");
    let body = lock::acquiring(name, ttl).body->0;
    assert(body.text_field("name"@) == Some(name));
}

/// A lock that was taken is not taken again until it is released; another lock is
/// not affected.
pub proof fn lock_excludes(
    s: Holding,
    name: Seq<char>,
    ttl: u64,
    again: u64,
    given: Seq<char>,
    other: Seq<char>,
)
    ensures
        ({
            let held = after(s, lock::acquiring(name, ttl));
            let free = after(held, lock::releasing(name, given));
            &&& token(held, name, again).len() == 0
            &&& token(free, name, again).len() > 0
            &&& other != name ==> (token(held, other, again).len() > 0 <==> token(
                s,
                other,
                again,
            ).len() > 0)
        }),
{
    let held = after(s, lock::acquiring(name, ttl));
    let free = after(held, lock::releasing(name, given));
    lock_is_taken_once(s, name, ttl);
    lock_is_taken_once(held, name, again);
    lock_is_released(held, name, given);
    lock_is_taken_once(free, name, again);
    lock_is_taken_once(held, other, again);
    lock_is_taken_once(s, other, again);
}

/// A lock that is released is free, whatever token it is released with; nothing
/// else changes.
pub proof fn lock_is_released(s: Holding, name: Seq<char>, given: Seq<char>)
    ensures
        after(s, lock::releasing(name, given)) == (Holding { locks: s.locks.remove(name), ..s }),
{
    lemma_marks();
    lemma_lock_paths();
    reveal_strlit("name");
    reveal_strlit("token");
    assert("name"@.len() != "token"@.len());
    let body = lock::releasing(name, given).body->0;
    assert(body.text_field("name"@) == Some(name));
}

// ---------------------------------------------------------------------------
// Blobs
// ---------------------------------------------------------------------------

/// The call that puts a blob into the store.
pub open spec fn putting(name: Seq<char>, data: Tree) -> wire::Call {
    wire::post("blob/put"@, map!["name"@ => Tree::Text(name), "data"@ => data])
}

/// The call that gets a blob out of the store.
pub open spec fn fetching(name: Seq<char>) -> wire::Call {
    wire::bare("GET"@, "blob/get?name="@ + name)
}

/// A blob that was put is read back under its name, and no other blob is touched.
pub proof fn blob_gives_back(s: Holding, name: Seq<char>, data: Tree, other: Seq<char>)
    requires
        !other.contains('&'),
    ensures
        said(after(s, putting(name, data)), fetching(other)) == (if other == name {
            Word::Answer(Some(data))
        } else {
            said(s, fetching(other))
        }),
{
    lemma_marks();
    reveal_strlit("name");
    reveal_strlit("data");
    assert("name"@[0] != "data"@[0]);
    reveal_strlit("blob/put");
    reveal_strlit("blob/get");
    reveal_strlit("blob/get?name=");
    text::lemma_unsplit("blob/put"@, '?');
    query::one_parameter_reads_back("blob/get"@, "name"@, other);
    assert("blob/get?name="@ + other =~= "blob/get"@ + seq!['?'] + ("name"@ + seq!['='] + other));
    let body = putting(name, data).body->0;
    assert(body.text_field("name"@) == Some(name));
    assert(body.field("data"@) == Some(data));
}

// ---------------------------------------------------------------------------
// Every request
// ---------------------------------------------------------------------------

/// A request changes at most the part of the store that its route names.
pub proof fn requests_touch_their_own_part(s: Holding, path: Seq<char>, body: Option<Tree>)
    ensures
        ({
            let route = text::head(path, '?');
            let t = local::local_step(s, path, body).0;
            &&& route != "secret/set"@ && route != "secret/delete"@ ==> t.secrets == s.secrets
            &&& route != "cache/set"@ && route != "cache/del"@ ==> t.cache == s.cache
            &&& route != "write"@ && route != "nosql/drop"@ ==> t.nosql == s.nosql
            &&& route != "queue/push"@ && route != "queue/pop"@ ==> t.queues == s.queues
            &&& route != "blob/put"@ ==> t.blobs == s.blobs
            &&& route != "lock/acquire"@ && route != "lock/release"@ ==> t.locks == s.locks
        }),
{
}

/// Whether a route is served by the store.
pub open spec fn served(route: Seq<char>) -> bool {
    ||| local::takes_body(route)
    ||| route == "secret/get"@
    ||| route == "secret/delete"@
    ||| route == "secret/list"@
    ||| route == "cache/get"@
    ||| route == "cache/del"@
    ||| route == "read"@
    ||| route == "nosql/list"@
    ||| route == "nosql/drop"@
    ||| route == "blob/get"@
}

/// A request that the store does not serve changes nothing and is not answered.
pub proof fn other_requests_do_nothing(s: Holding, path: Seq<char>, body: Option<Tree>)
    requires
        !served(text::head(path, '?')),
    ensures
        local::local_step(s, path, body) == (s, Word::Answer(None)),
{
}

/// Without a running slice no token is issued or accepted, and the slice has no
/// name.
pub proof fn tokens_need_a_slice(s: Holding, fields: Map<Seq<char>, Tree>)
    ensures
        local::local_step(s, "jwt/sign"@, Some(Tree::Fields(fields))) == (s, Word::Answer(None)),
        local::local_step(s, "jwt/verify"@, Some(Tree::Fields(fields))) == (s, Word::Answer(None)),
        local::local_step(s, "jwt/slice-id"@, None) == (s, Word::Answer(None)),
        jwt::granted(None) == Err::<Tree, Seq<char>>("internal_error"@),
{
    lemma_marks();
    reveal_strlit("jwt/sign");
    reveal_strlit("jwt/verify");
    reveal_strlit("jwt/slice-id");
    text::lemma_unsplit("jwt/sign"@, '?');
    text::lemma_unsplit("jwt/verify"@, '?');
    text::lemma_unsplit("jwt/slice-id"@, '?');
    assert(mark("jwt/sign"@).1 == 'j');
    assert(mark("jwt/verify"@).1 == 'j');
    assert(mark("jwt/slice-id"@).1 == 'j');
}

/// Without a running slice no statement is run: there are no rows, nothing is
/// changed, and no transaction begins.
pub proof fn statements_need_a_slice(s: Holding, fields: Map<Seq<char>, Tree>, db: Seq<char>)
    ensures
        local::local_step(s, "sql/query"@, Some(Tree::Fields(fields))) == (s, Word::Answer(None)),
        local::local_step(s, "sql/execute"@, Some(Tree::Fields(fields))) == (s, Word::Answer(None)),
        local::local_step(s, "sql/begin"@, Some(Tree::Fields(fields))) == (s, Word::Answer(None)),
        backbone::rows_in(None).len() == 0,
        backbone::change_in(None, "rows_affected"@) == 0,
        backbone::transaction_in(db, None) is None,
{
    lemma_marks();
    reveal_strlit("sql/query");
    reveal_strlit("sql/execute");
    reveal_strlit("sql/begin");
    text::lemma_unsplit("sql/query"@, '?');
    text::lemma_unsplit("sql/execute"@, '?');
    text::lemma_unsplit("sql/begin"@, '?');
    assert(mark("sql/query"@).0 == 9);
    assert(mark("sql/execute"@) == (11nat, 's', 'u'));
    assert(mark("sql/begin"@).0 == 9);
}

/// Without a running slice a message reaches nobody.
pub proof fn messages_need_a_slice(s: Holding, name: Seq<char>, message: Tree)
    ensures
        after(s, realtime::publishing(name, message)) == s,
        said(s, realtime::publishing(name, message)) == Word::Answer(None),
        json::count_in(None, "recipients"@) == 0,
{
    lemma_marks();
    reveal_strlit("realtime/publish");
    text::lemma_unsplit("realtime/publish"@, '?');
    assert(mark("realtime/publish"@).0 == 16);
}

/// A secret is stored as it is under its name, in place of what stood there, whatever
/// else the request holds; a request without a text for each stores nothing.
pub proof fn secret_is_stored(
    s: Holding,
    path: Seq<char>,
    m: Map<Seq<char>, Tree>,
    name: Seq<char>,
    v: Seq<char>,
)
    requires
        text::head(path, '?') == "secret/set"@,
    ensures
        m.contains_key("name"@) && m["name"@] == Tree::Text(name) && m.contains_key(
            "value"@,
        ) && m["value"@] == Tree::Text(v) ==> local::local_step(s, path, Some(Tree::Fields(m))) == (
            Holding { secrets: s.secrets.insert(name, v), ..s },
            Word::Answer(None),
        ),
        !m.contains_key("name"@) || !(m["name"@] is Text) || !m.contains_key("value"@) || !(m["value"@] is Text)
            ==> local::local_step(s, path, Some(Tree::Fields(m))) == (s, Word::Answer(None)),
{
    lemma_marks();
}

/// A value is cached as it is, whatever it is, under its key, in place of what stood
/// there; a request without a text for the key, or without a value, caches nothing.
pub proof fn value_is_cached(
    s: Holding,
    path: Seq<char>,
    m: Map<Seq<char>, Tree>,
    key: Seq<char>,
    v: Tree,
)
    requires
        text::head(path, '?') == "cache/set"@,
    ensures
        m.contains_key("key"@) && m["key"@] == Tree::Text(key) && m.contains_key(
            "value"@,
        ) && m["value"@] == v ==> local::local_step(s, path, Some(Tree::Fields(m))) == (
            Holding { cache: s.cache.insert(key, v), ..s },
            Word::Answer(None),
        ),
        !m.contains_key("key"@) || !(m["key"@] is Text) || !m.contains_key("value"@)
            ==> local::local_step(s, path, Some(Tree::Fields(m))) == (s, Word::Answer(None)),
{
    lemma_marks();
}

/// A blob is stored as it is, whatever it is, under its name; a request without a text
/// for the name, or without data, stores nothing.
pub proof fn blob_is_stored(
    s: Holding,
    path: Seq<char>,
    m: Map<Seq<char>, Tree>,
    name: Seq<char>,
    v: Tree,
)
    requires
        text::head(path, '?') == "blob/put"@,
    ensures
        m.contains_key("name"@) && m["name"@] == Tree::Text(name) && m.contains_key(
            "data"@,
        ) && m["data"@] == v ==> local::local_step(s, path, Some(Tree::Fields(m))) == (
            Holding { blobs: s.blobs.insert(name, v), ..s },
            Word::Answer(None),
        ),
        !m.contains_key("name"@) || !(m["name"@] is Text) || !m.contains_key("data"@)
            ==> local::local_step(s, path, Some(Tree::Fields(m))) == (s, Word::Answer(None)),
{
    lemma_marks();
}

/// A message goes to the end of its queue as it is, whatever it is; a request without
/// a text for the queue, or without a message, pushes nothing.
pub proof fn message_is_queued(
    s: Holding,
    path: Seq<char>,
    m: Map<Seq<char>, Tree>,
    name: Seq<char>,
    v: Tree,
)
    requires
        text::head(path, '?') == "queue/push"@,
    ensures
        m.contains_key("queue"@) && m["queue"@] == Tree::Text(name) && m.contains_key("body"@)
            && m["body"@] == v ==> ({
            let (t, w) = local::local_step(s, path, Some(Tree::Fields(m)));
            &&& w == Word::Answer(None)
            &&& t == (Holding { queues: t.queues, ..s })
            &&& t.queues == s.queues.insert(name, t.queues[name])
            &&& s.queues.contains_key(name) ==> t.queues[name] == s.queues[name].push(v)
            &&& !s.queues.contains_key(name) ==> t.queues[name] == seq![v]
        }),
        !m.contains_key("queue"@) || !(m["queue"@] is Text) || !m.contains_key("body"@)
            ==> local::local_step(s, path, Some(Tree::Fields(m))) == (s, Word::Answer(None)),
{
    lemma_marks();
    assert(Seq::<Tree>::empty().push(v) =~= seq![v]);
}

/// The message at the front of a queue is taken out and is the answer, as it is; a
/// queue that holds none gives none.
pub proof fn message_is_handed_out(
    s: Holding,
    path: Seq<char>,
    m: Map<Seq<char>, Tree>,
    name: Seq<char>,
)
    requires
        text::head(path, '?') == "queue/pop"@,
    ensures
        m.contains_key("queue"@) && m["queue"@] == Tree::Text(name) && s.queues.contains_key(name)
            && s.queues[name].len() > 0 ==> local::local_step(s, path, Some(Tree::Fields(m))) == (
            Holding { queues: s.queues.insert(name, s.queues[name].skip(1)), ..s },
            Word::Answer(Some(s.queues[name][0])),
        ),
        m.contains_key("queue"@) && m["queue"@] == Tree::Text(name) && (!s.queues.contains_key(name)
            || s.queues[name].len() == 0) ==> local::local_step(s, path, Some(Tree::Fields(m))) == (
            s,
            Word::Answer(None),
        ),
        !m.contains_key("queue"@) || !(m["queue"@] is Text) ==> local::local_step(
            s,
            path,
            Some(Tree::Fields(m)),
        ) == (s, Word::Answer(None)),
{
    lemma_marks();
}

/// A document goes to the end of its collection with every field that it came with,
/// as it is, but for its key, which is its number and the answer. The documents
/// before it stay as they are. A request without a text for the collection writes
/// nothing.
pub proof fn document_is_kept_whole(
    s: Holding,
    path: Seq<char>,
    m: Map<Seq<char>, Tree>,
    c: Seq<char>,
    k: Seq<char>,
)
    requires
        text::head(path, '?') == "write"@,
    ensures
        m.contains_key("collection"@) && m["collection"@] == Tree::Text(c) ==> ({
            let (t, w) = local::local_step(s, path, Some(Tree::Fields(m)));
            let docs = t.nosql[c];
            let kept = docs.last();
            let number = Tree::Text(text::decimal(docs.len()));
            &&& t == (Holding { nosql: s.nosql.insert(c, docs), ..s })
            &&& docs.len() > 0
            &&& s.nosql.contains_key(c) ==> docs.drop_last() == s.nosql[c]
            &&& !s.nosql.contains_key(c) ==> docs.len() == 1
            &&& kept is Fields
            &&& kept->Fields_0.contains_key("_key"@) && kept->Fields_0["_key"@] == number
            &&& k != "_key"@ ==> (kept->Fields_0.contains_key(k) <==> m.contains_key(k))
            &&& k != "_key"@ && m.contains_key(k) ==> kept->Fields_0[k] == m[k]
            &&& w == Word::Answer(Some(Tree::Fields(map!["key"@ => number])))
        }),
        !m.contains_key("collection"@) || !(m["collection"@] is Text) ==> local::local_step(
            s,
            path,
            Some(Tree::Fields(m)),
        ) == (s, Word::Answer(None)),
{
    lemma_marks();
    if m.contains_key("collection"@) && m["collection"@] is Text {
        let c = m["collection"@]->Text_0;
        let docs = local::local_step(s, path, Some(Tree::Fields(m))).0.nosql[c];
        assert(docs.drop_last() =~= local::list_at(s.nosql, c));
    }
}

/// After a document has been added, reading it by the key that was answered gives
/// every field that it has, as it is, but for the key, and the name of its
/// collection.
pub proof fn every_field_is_read_back(
    s: Holding,
    name: Seq<char>,
    doc: Map<Seq<char>, Tree>,
    k: Seq<char>,
)
    requires
        s.numbered(),
        percent::plain(name),
        !doc.contains_key("collection"@) || doc["collection"@] == Tree::Text(name),
    ensures
        ({
            let call = nosql::inserting(name, Tree::Fields(doc));
            let key = json::text_in(said(s, call)->Answer_0, "key"@);
            let read = said(after(s, call), nosql::reading(name, key));
            &&& read is Answer && read->Answer_0 is Some && read->Answer_0->0 is Fields
            &&& k != "_key"@ && doc.contains_key(k)
                ==> read->Answer_0->0->Fields_0.contains_key(k)
                && read->Answer_0->0->Fields_0[k] == doc[k]
            &&& read->Answer_0->0->Fields_0.contains_key(k) ==> doc.contains_key(k) || k == "_key"@
                || k == "collection"@
            &&& read->Answer_0->0->Fields_0["_key"@] == Tree::Text(key)
            &&& read->Answer_0->0->Fields_0["collection"@] == Tree::Text(name)
        }),
{
    let tree = Tree::Fields(doc);
    assert(home(name, tree) == Some(name));
    document_is_read_back(s, name, tree);
    reveal_strlit("_key");
    reveal_strlit("collection");
    assert("_key"@.len() != "collection"@.len());
}

/// A value that is no object is read back under `data`.
pub proof fn every_value_is_read_back(s: Holding, name: Seq<char>, doc: Tree)
    requires
        s.numbered(),
        percent::plain(name),
        !(doc is Fields),
    ensures
        ({
            let call = nosql::inserting(name, doc);
            let key = json::text_in(said(s, call)->Answer_0, "key"@);
            let read = said(after(s, call), nosql::reading(name, key));
            &&& read is Answer && read->Answer_0 is Some && read->Answer_0->0 is Fields
            &&& read->Answer_0->0->Fields_0.contains_key("data"@)
            &&& read->Answer_0->0->Fields_0["data"@] == doc
        }),
{
    assert(home(name, doc) == Some(name));
    document_is_read_back(s, name, doc);
    reveal_strlit("_key");
    reveal_strlit("data");
    assert("_key"@[0] != "data"@[0]);
}

/// What is read of a collection is the first document of that key, as it is; where
/// no document has the key, nothing is.
pub proof fn first_document_of_a_key_is_read(docs: Seq<Tree>, key: Seq<char>, i: int)
    ensures
        0 <= i < docs.len() && docs[i].text_field("_key"@) == Some(key) && (forall|j: int|
            0 <= j < i ==> (#[trigger] docs[j]).text_field("_key"@) != Some(key))
            ==> local::document_of(docs, key) == Some(docs[i]),
        (forall|j: int| 0 <= j < docs.len() ==> (#[trigger] docs[j]).text_field("_key"@) != Some(key))
            ==> local::document_of(docs, key) is None,
    decreases docs.len(),
{
    if docs.len() > 0 {
        let rest = docs.skip(1);
        first_document_of_a_key_is_read(rest, key, i - 1);
        if 0 < i < docs.len() && (forall|j: int|
            0 <= j < i ==> (#[trigger] docs[j]).text_field("_key"@) != Some(key)) {
            assert forall|j: int| 0 <= j < i - 1 implies (#[trigger] rest[j]).text_field("_key"@)
                != Some(key) by {
                assert(rest[j] == docs[j + 1]);
            }
            assert(rest[i - 1] == docs[i]);
            assert(docs[0].text_field("_key"@) != Some(key));
        }
        if forall|j: int|
            0 <= j < docs.len() ==> (#[trigger] docs[j]).text_field("_key"@) != Some(key) {
            assert forall|j: int| 0 <= j < rest.len() implies (#[trigger] rest[j]).text_field(
                "_key"@,
            ) != Some(key) by {
                assert(rest[j] == docs[j + 1]);
            }
            assert(docs[0].text_field("_key"@) != Some(key));
        }
    }
}

/// A lock that nobody holds is taken, with a token of its own that is the answer;
/// one that is held stays with its holder. A request without a text for the name
/// takes none.
pub proof fn lock_is_handed_out(
    s: Holding,
    path: Seq<char>,
    m: Map<Seq<char>, Tree>,
    name: Seq<char>,
)
    requires
        text::head(path, '?') == "lock/acquire"@,
    ensures
        m.contains_key("name"@) && m["name"@] == Tree::Text(name) && !s.locks.contains_key(name)
            ==> ({
            let (t, w) = local::local_step(s, path, Some(Tree::Fields(m)));
            let token = "local-"@ + text::decimal(s.locks.len());
            &&& t == (Holding { locks: s.locks.insert(name, token), ..s })
            &&& w == Word::Answer(Some(Tree::Fields(map!["token"@ => Tree::Text(token)])))
        }),
        m.contains_key("name"@) && m["name"@] == Tree::Text(name) && s.locks.contains_key(name)
            ==> local::local_step(s, path, Some(Tree::Fields(m))) == (s, Word::Answer(None)),
        !m.contains_key("name"@) || !(m["name"@] is Text) ==> local::local_step(
            s,
            path,
            Some(Tree::Fields(m)),
        ) == (s, Word::Answer(None)),
{
    lemma_marks();
}

/// A lock is given up by its name, and no other lock is.
pub proof fn lock_is_given_up(s: Holding, path: Seq<char>, m: Map<Seq<char>, Tree>, name: Seq<char>)
    requires
        text::head(path, '?') == "lock/release"@,
    ensures
        m.contains_key("name"@) && m["name"@] == Tree::Text(name) ==> local::local_step(
            s,
            path,
            Some(Tree::Fields(m)),
        ) == (Holding { locks: s.locks.remove(name), ..s }, Word::Answer(None)),
        !m.contains_key("name"@) || !(m["name"@] is Text) ==> local::local_step(
            s,
            path,
            Some(Tree::Fields(m)),
        ) == (s, Word::Answer(None)),
{
    lemma_marks();
}

/// A request that takes what it needs from a body does nothing without one, or with
/// one that is no object.
pub proof fn requests_without_a_body_do_nothing(s: Holding, path: Seq<char>, v: Tree)
    requires
        local::takes_body(text::head(path, '?')),
        !(v is Fields),
    ensures
        local::local_step(s, path, None) == (s, Word::Answer(None)),
        local::local_step(s, path, Some(v)) == (s, Word::Answer(None)),
{
    lemma_marks();
}

/// What is asked for by a parameter is answered as it is stored, whatever body the
/// request has; what is not stored, or not asked for by name, is not answered. A
/// secret that is not stored is looked for in the environment under the same name.
pub proof fn stored_things_are_answered(
    s: Holding,
    path: Seq<char>,
    body: Option<Tree>,
    k: Seq<char>,
)
    ensures
        text::head(path, '?') == "cache/get"@ ==> local::local_step(s, path, body).0 == s && (
        query::params(path).contains_key("key"@) && query::params(path)["key"@] == k
            ==> local::local_step(s, path, body).1 == (if s.cache.contains_key(k) {
            Word::Answer(Some(s.cache[k]))
        } else {
            Word::Answer(None)
        })) && (!query::params(path).contains_key("key"@) ==> local::local_step(s, path, body).1
            == Word::Answer(None)),
        text::head(path, '?') == "blob/get"@ ==> local::local_step(s, path, body).0 == s && (
        query::params(path).contains_key("name"@) && query::params(path)["name"@] == k
            ==> local::local_step(s, path, body).1 == (if s.blobs.contains_key(k) {
            Word::Answer(Some(s.blobs[k]))
        } else {
            Word::Answer(None)
        })) && (!query::params(path).contains_key("name"@) ==> local::local_step(s, path, body).1
            == Word::Answer(None)),
        text::head(path, '?') == "secret/get"@ ==> local::local_step(s, path, body).0 == s && (
        query::params(path).contains_key("name"@) && query::params(path)["name"@] == k
            ==> local::local_step(s, path, body).1 == (if s.secrets.contains_key(k) {
            Word::Answer(Some(Tree::Text(s.secrets[k])))
        } else {
            Word::Variable(k)
        })) && (!query::params(path).contains_key("name"@) ==> local::local_step(s, path, body).1
            == Word::Answer(None)),
        text::head(path, '?') == "nosql/list"@ ==> local::local_step(s, path, body).0 == s && (
        query::params(path).contains_key("collection"@) && query::params(path)["collection"@] == k
            ==> local::local_step(s, path, body).1 == Word::Answer(
            Some(
                Tree::List(
                    if s.nosql.contains_key(k) {
                        s.nosql[k]
                    } else {
                        Seq::empty()
                    },
                ),
            ),
        )) && (!query::params(path).contains_key("collection"@) ==> local::local_step(
            s,
            path,
            body,
        ).1 == Word::Answer(None)),
{
    lemma_marks();
}

/// A document is asked for by its collection and its key, and only where both are
/// given.
pub proof fn documents_are_answered(
    s: Holding,
    path: Seq<char>,
    body: Option<Tree>,
    c: Seq<char>,
    k: Seq<char>,
)
    requires
        text::head(path, '?') == "read"@,
    ensures
        local::local_step(s, path, body).0 == s,
        query::params(path).contains_key("collection"@) && query::params(path)["collection"@] == c
            && query::params(path).contains_key("key"@) && query::params(path)["key"@] == k
            && s.nosql.contains_key(c) ==> local::local_step(s, path, body).1 == Word::Answer(
            local::document_of(s.nosql[c], k),
        ),
        query::params(path).contains_key("collection"@) && query::params(path)["collection"@] == c
            && !s.nosql.contains_key(c) ==> local::local_step(s, path, body).1 == Word::Answer(None),
        !query::params(path).contains_key("collection"@) || !query::params(path).contains_key(
            "key"@,
        ) ==> local::local_step(s, path, body).1 == Word::Answer(None),
{
    lemma_marks();
}

/// What is taken out by a parameter is gone, and nothing else is.
pub proof fn named_things_are_taken_out(
    s: Holding,
    path: Seq<char>,
    body: Option<Tree>,
    k: Seq<char>,
)
    ensures
        text::head(path, '?') == "secret/delete"@ && query::params(path).contains_key("name"@)
            && query::params(path)["name"@] == k ==> local::local_step(s, path, body) == (
            Holding { secrets: s.secrets.remove(k), ..s },
            Word::Answer(None),
        ),
        text::head(path, '?') == "cache/del"@ && query::params(path).contains_key("key"@)
            && query::params(path)["key"@] == k ==> local::local_step(s, path, body) == (
            Holding { cache: s.cache.remove(k), ..s },
            Word::Answer(None),
        ),
        text::head(path, '?') == "nosql/drop"@ && query::params(path).contains_key("collection"@)
            && query::params(path)["collection"@] == k ==> local::local_step(s, path, body) == (
            Holding { nosql: s.nosql.remove(k), ..s },
            Word::Answer(None),
        ),
        text::head(path, '?') == "secret/delete"@ && !query::params(path).contains_key("name"@)
            ==> local::local_step(s, path, body) == (s, Word::Answer(None)),
        text::head(path, '?') == "cache/del"@ && !query::params(path).contains_key("key"@)
            ==> local::local_step(s, path, body) == (s, Word::Answer(None)),
        text::head(path, '?') == "nosql/drop"@ && !query::params(path).contains_key("collection"@)
            ==> local::local_step(s, path, body) == (s, Word::Answer(None)),
{
    lemma_marks();
}

proof fn lemma_filtered_path(name: Seq<char>, filter: Seq<(Seq<char>, Seq<char>)>)
    ensures
        ({
            let path = nosql::listing(name, filter).path;
            &&& path.contains('?')
            &&& text::head(path, '?') == "nosql/list"@
            &&& query::params(path).contains_key("collection"@)
            &&& query::params(path)["collection"@] == percent::percent_encoded(name)
        }),
    decreases filter.len(),
{
    reveal_strlit("collection");
    reveal_strlit("field");
    reveal_strlit("value");
    assert("collection"@.len() == 10 && "field"@.len() == 5 && "value"@.len() == 5);
    if filter.len() == 0 {
        assert(filter =~= Seq::empty());
        lemma_collection_paths(name);
        reveal_strlit("nosql/list?collection=");
        let path = nosql::listing(name, filter).path;
        assert(path[10] == '?');
    } else {
        let before = filter.drop_last();
        let (f, v) = filter.last();
        lemma_filtered_path(name, before);
        assert(filter =~= before.push((f, v)));
        nosql::conditions_are_asked_for(name, before, f, v);
        let path = nosql::listing(name, before).path;
        let ef = percent::percent_encoded(f);
        let ev = percent::percent_encoded(v);
        lemma_parts_nothing(f);
        lemma_parts_nothing(v);
        reveal_strlit("&field=");
        reveal_strlit("&value=");
        let one = path + seq!['&'] + ("field"@ + seq!['='] + ef);
        let two = one + seq!['&'] + ("value"@ + seq!['='] + ev);
        assert(nosql::listing(name, filter).path =~= two);
        let i = choose|i: int| 0 <= i < path.len() && path[i] == '?';
        assert(one[i] == '?');
        assert(two[i] == '?');
        query::parameter_is_added(path, "field"@, ef, "field"@);
        query::parameter_is_added(one, "value"@, ev, "value"@);
    }
}

/// The local store lists a collection whole, whatever the filter, and what is got of
/// it by an identifier is its first document.
pub proof fn filters_are_left_to_the_slice(
    s: Holding,
    name: Seq<char>,
    filter: Seq<(Seq<char>, Seq<char>)>,
    id: Seq<char>,
)
    ensures
        said(s, nosql::listing(name, filter)) == Word::Answer(
            Some(Tree::List(local::list_at(s.nosql, percent::percent_encoded(name)))),
        ),
        said(s, nosql::getting(name, id)) == Word::Answer(
            Some(Tree::List(local::list_at(s.nosql, percent::percent_encoded(name)))),
        ),
        after(s, nosql::listing(name, filter)) == s,
        after(s, nosql::getting(name, id)) == s,
{
    lemma_marks();
    lemma_filtered_path(name, filter);
    reveal_strlit("_id");
    reveal_strlit("&field=_id&value=");
    reveal_strlit("&field=");
    reveal_strlit("&value=");
    lemma_parts_nothing(id);
    percent::plain_text_is_encoded_as_itself("_id"@);
    let one = seq![("_id"@, id)];
    assert(Seq::<(Seq<char>, Seq<char>)>::empty().push(("_id"@, id)) =~= one);
    nosql::conditions_are_asked_for(name, Seq::empty(), "_id"@, id);
    assert(nosql::getting(name, id).path =~= nosql::listing(name, one).path);
    lemma_filtered_path(name, one);
}

/// A document whose deletion is asked for stays: the local store keeps every
/// document until its collection is dropped.
pub proof fn deletions_are_left_to_the_slice(s: Holding, name: Seq<char>, key: Seq<char>)
    ensures
        after(s, nosql::deleting(name, key)) == s,
        said(s, nosql::deleting(name, key)) == Word::Answer(None),
{
    lemma_marks();
    let c = percent::percent_encoded(name);
    let k = percent::percent_encoded(key);
    lemma_parts_nothing(name);
    lemma_parts_nothing(key);
    reveal_strlit("collection");
    reveal_strlit("key");
    reveal_strlit("nosql/delete");
    reveal_strlit("nosql/delete?collection=");
    reveal_strlit("&key=");
    query::two_parameters_read_back("nosql/delete"@, "collection"@, c, "key"@, k);
    assert("nosql/delete?collection="@ + c + "&key="@ + k =~= "nosql/delete"@ + seq!['?'] + ((
    "collection"@ + seq!['='] + c) + seq!['&'] + ("key"@ + seq!['='] + k)));
    assert(mark("nosql/delete"@).0 == 12);
    assert(mark("nosql/delete"@).1 == 'n');
}

/// The list of the names of the secrets holds each name that is stored, once, and no
/// other.
pub proof fn listed_secrets_are_the_stored_ones(
    l: Seq<Tree>,
    secrets: Map<Seq<char>, Seq<char>>,
    n: Seq<char>,
    i: int,
    j: int,
)
    requires
        local::names_all(Some(Tree::List(l)), secrets),
    ensures
        secrets.contains_key(n) <==> exists|k: int| 0 <= k < l.len() && #[trigger] l[k] == Tree::Text(n),
        0 <= i < j < l.len() ==> l[i] != l[j],
        0 <= i < l.len() ==> l[i] is Text && secrets.contains_key(l[i]->Text_0),
{
    if secrets.contains_key(n) {
        assert(l.contains(Tree::Text(n)));
    }
    if exists|k: int| 0 <= k < l.len() && #[trigger] l[k] == Tree::Text(n) {
        assert(l.contains(Tree::Text(n)));
    }
    if 0 <= i < l.len() {
        assert(l[i] is Text);
        let x = l[i]->Text_0;
        assert(l.contains(Tree::Text(x)));
    }
}

/// What is answered is what the store says, and what a store holds is kept under the
/// names that it has.
pub proof fn words_are_what_is_said(
    v: Json,
    s: String,
    m: Map<Seq<char>, Json>,
    n: Map<Seq<char>, Vec<Json>>,
    k: Seq<char>,
)
    ensures
        Local::Answer(Some(v))@ == Word::Answer(Some(v@)),
        Local::Answer(None)@ == Word::Answer(None),
        Local::Variable(s)@ == Word::Variable(s@),
        local::values(m).contains_key(k) <==> m.contains_key(k),
        m.contains_key(k) ==> local::values(m)[k] == m[k]@,
        local::lists(n).contains_key(k) <==> n.contains_key(k),
        n.contains_key(k) ==> local::lists(n)[k] == json::trees(n[k]@),
{
}

/// The empty store holds nothing.
pub proof fn empty_store_holds_nothing(k: Seq<char>)
    ensures
        !local::nothing().secrets.contains_key(k),
        !local::nothing().cache.contains_key(k),
        !local::nothing().nosql.contains_key(k),
        !local::nothing().queues.contains_key(k),
        !local::nothing().blobs.contains_key(k),
        !local::nothing().locks.contains_key(k),
{
}

}
