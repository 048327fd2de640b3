//! Locks.
use vstd::prelude::*;
use vstd::string::*;

use crate::json;
use crate::json::{Json, Object, Tree};
use crate::table::Table;
use crate::wire;
use crate::wire::Request;

verus! {

/// The call that takes a lock.
pub open spec fn acquiring(name: Seq<char>, ttl: u64) -> wire::Call {
    wire::post(
        "lock/acquire"@,
        map!["name"@ => Tree::Text(name), "ttl"@ => json::int_tree(ttl as int)],
    )
}

/// Takes a lock for `ttl` seconds. `token_in` reads its token out of the answer.
pub fn acquire(name: &str, ttl: u64) -> (r: Request)
    ensures
        r@ == acquiring(name@, ttl),
{
    let mut body: Object = Table::empty();
    body.set("name", Json::text(name));
    body.set("ttl", Json::unsigned(ttl));
    wire::post_request("lock/acquire", body)
}

/// Reads the token of a lock out of the answer: empty where the lock was not
/// taken.
pub fn token_in(answer: &Option<Json>) -> (r: String)
    ensures
        r@ == json::text_in(json::tree_opt(*answer), "token"@),
{
    json::take_text(answer, "token")
}

/// The call that gives up a lock.
pub open spec fn releasing(name: Seq<char>, token: Seq<char>) -> wire::Call {
    wire::post(
        "lock/release"@,
        map!["name"@ => Tree::Text(name), "token"@ => Tree::Text(token)],
    )
}

/// Gives up a lock.
pub fn release(name: &str, token: &str) -> (r: Request)
    ensures
        r@ == releasing(name@, token@),
{
    let mut body: Object = Table::empty();
    body.set("name", Json::text(name));
    body.set("token", Json::text(token));
    wire::post_request("lock/release", body)
}

// ---------------------------------------------------------------------------
// Laws
// ---------------------------------------------------------------------------

/// A lock is taken by its name for the time that is given, and given up by its name
/// with the token that is given.
pub proof fn locks_are_sent_whole(name: Seq<char>, ttl: u64, token: Seq<char>, k: Seq<char>)
    ensures
        ({
            let call = acquiring(name, ttl);
            let m = call.body->0->Fields_0;
            &&& call.method == "POST"@
            &&& call.path == "lock/acquire"@
            &&& call.body is Some && call.body->0 is Fields
            &&& m.contains_key("name"@) && m["name"@] == Tree::Text(name)
            &&& m.contains_key("ttl"@) && m["ttl"@] == Tree::Number(json::Numeral::Int(ttl as int))
            &&& m.contains_key(k) ==> k == "name"@ || k == "ttl"@
        }),
        ({
            let call = releasing(name, token);
            let m = call.body->0->Fields_0;
            &&& call.method == "POST"@
            &&& call.path == "lock/release"@
            &&& call.body is Some && call.body->0 is Fields
            &&& m.contains_key("name"@) && m["name"@] == Tree::Text(name)
            &&& m.contains_key("token"@) && m["token"@] == Tree::Text(token)
            &&& m.contains_key(k) ==> k == "name"@ || k == "token"@
        }),
{
    reveal_strlit("name");
    reveal_strlit("ttl");
    reveal_strlit("token");
    assert("name"@.len() == 4 && "ttl"@.len() == 3 && "token"@.len() == 5);
}

}
