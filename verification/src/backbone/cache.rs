//! Cached values.
use vstd::prelude::*;
use vstd::string::*;

use crate::json;
use crate::json::{Json, Object, Tree};
use crate::percent;
use crate::table::Table;
use crate::wire;
use crate::wire::Request;

verus! {

/// The call that asks for a cached value.
pub open spec fn asking(key: Seq<char>) -> wire::Call {
    wire::bare("GET"@, "cache/get?key="@ + percent::percent_encoded(key))
}

/// Asks for the value cached under `key`. The answer is the value.
pub fn get(key: &str) -> (r: Request)
    ensures
        r@ == asking(key@),
{
    wire::bare_request("GET", wire::path_with("cache/get?key=", key))
}

/// The fields of the call that caches a value: a time to live of zero is left out.
pub open spec fn entry(key: Seq<char>, value: Tree, ttl: u64) -> Map<Seq<char>, Tree> {
    let m = map!["key"@ => Tree::Text(key), "value"@ => value];
    if ttl > 0 {
        m.insert("ttl"@, json::int_tree(ttl as int))
    } else {
        m
    }
}

/// The call that caches a value.
pub open spec fn storing(key: Seq<char>, value: Tree, ttl: u64) -> wire::Call {
    wire::post("cache/set"@, entry(key, value, ttl))
}

/// Caches a value under `key` for `ttl` seconds, or without an end where `ttl` is
/// zero.
pub fn set(key: &str, value: Json, ttl: u64) -> (r: Request)
    ensures
        r@ == storing(key@, value@, ttl),
{
    let mut body: Object = Table::empty();
    body.set("key", Json::text(key));
    body.set("value", value);
    if ttl > 0 {
        body.set("ttl", Json::unsigned(ttl));
    }
    wire::post_request("cache/set", body)
}

/// The call that forgets a cached value.
pub open spec fn deleting(key: Seq<char>) -> wire::Call {
    wire::bare("DELETE"@, "cache/del?key="@ + percent::percent_encoded(key))
}

/// Forgets the value cached under `key`.
pub fn delete(key: &str) -> (r: Request)
    ensures
        r@ == deleting(key@),
{
    wire::bare_request("DELETE", wire::path_with("cache/del?key=", key))
}

// ---------------------------------------------------------------------------
// Laws
// ---------------------------------------------------------------------------

/// A cached value is asked for and forgotten under its encoded key, and stored as
/// it is, whatever it is, under its key. Its time to live is sent as it is, unless
/// it is zero. Nothing else is sent.
pub proof fn values_are_sent_whole(key: Seq<char>, value: Tree, ttl: u64, k: Seq<char>)
    ensures
        asking(key).method == "GET"@,
        asking(key).path == "cache/get?key="@ + percent::percent_encoded(key),
        asking(key).body is None,
        deleting(key).method == "DELETE"@,
        deleting(key).path == "cache/del?key="@ + percent::percent_encoded(key),
        deleting(key).body is None,
        ({
            let call = storing(key, value, ttl);
            let m = call.body->0->Fields_0;
            &&& call.method == "POST"@
            &&& call.path == "cache/set"@
            &&& call.body is Some && call.body->0 is Fields
            &&& m.contains_key("key"@) && m["key"@] == Tree::Text(key)
            &&& m.contains_key("value"@) && m["value"@] == value
            &&& m.contains_key("ttl"@) <==> ttl > 0
            &&& ttl > 0 ==> m["ttl"@] == Tree::Number(json::Numeral::Int(ttl as int))
            &&& m.contains_key(k) ==> k == "key"@ || k == "value"@ || k == "ttl"@
        }),
{
    reveal_strlit("key");
    reveal_strlit("value");
    reveal_strlit("ttl");
    assert("key"@.len() == 3 && "value"@.len() == 5 && "ttl"@.len() == 3);
    assert("key"@[0] != "ttl"@[0]);
}

}
