//! Data of an app that follows an identity from device to device.
//!
//! Every call is made under the token of a session, and reaches the data of that
//! token's identity alone.
use vstd::prelude::*;
use vstd::string::*;

use crate::deed;
use crate::deed::{DeedError, DeedRequest};
use crate::json;
use crate::json::{Json, Object, Tree};
use crate::percent;
use crate::table::Table;
use crate::text;
use crate::wire;
use crate::wire::Request;

verus! {

fn under(token: &str, request: Request) -> (r: DeedRequest)
    ensures
        r@ == deed::call_under(token@, request@),
{
    DeedRequest { token: Some(token.to_owned()), request }
}

/// Stores a blob under `key`. `deed::done` checks the outcome.
pub fn set(token: &str, key: &str, blob: Json) -> (r: DeedRequest)
    ensures
        r@ == deed::call_under(
            token@,
            wire::post("deed/pocket/set"@, map!["key"@ => Tree::Text(key@), "blob"@ => blob@]),
        ),
{
    let mut body: Object = Table::empty();
    body.set("key", Json::text(key));
    body.set("blob", blob);
    under(token, wire::post_request("deed/pocket/set", body))
}

/// Asks for the blob under `key`. `blob_in` reads it out of the outcome.
pub fn get(token: &str, key: &str) -> (r: DeedRequest)
    ensures
        r@ == deed::call_under(
            token@,
            wire::bare("GET"@, "deed/pocket/get?key="@ + percent::percent_encoded(key@)),
        ),
{
    under(token, wire::bare_request("GET", wire::path_with("deed/pocket/get?key=", key)))
}

/// Reads the blob out of the outcome: one that is not there is an error.
pub fn blob_in(outcome: Result<Json, DeedError>) -> (r: Result<Json, DeedError>)
    ensures
        deed::tree_result(r) == deed::value_of(
            deed::tree_result(outcome),
            "blob"@,
            "deed/pocket/get"@,
        ),
{
    deed::take_value(outcome, "blob", "deed/pocket/get")
}

/// Removes what is stored under `key`. `deed::done` checks the outcome.
pub fn delete(token: &str, key: &str) -> (r: DeedRequest)
    ensures
        r@ == deed::call_under(
            token@,
            wire::post("deed/pocket/delete"@, map!["key"@ => Tree::Text(key@)]),
        ),
{
    let mut body: Object = Table::empty();
    body.set("key", Json::text(key));
    under(token, wire::post_request("deed/pocket/delete", body))
}

/// Asks for every key. `keys_in` reads them out of the outcome.
pub fn list(token: &str) -> (r: DeedRequest)
    ensures
        r@ == deed::call_under(token@, wire::bare("GET"@, "deed/pocket/list"@)),
{
    under(token, wire::bare_request("GET", "deed/pocket/list".to_owned()))
}

/// The keys that an outcome lists: the items that are texts. Anything but a list
/// is an error.
pub open spec fn keys_of(outcome: Result<Tree, Seq<char>>) -> Result<Seq<Seq<char>>, Seq<char>> {
    match outcome {
        Ok(Tree::List(l)) => Ok(json::texts_in(l)),
        Ok(_) => Err(deed::malformed_message("deed/pocket/list"@)),
        Err(e) => Err(e),
    }
}

/// What a list of keys, or an error in its place, is.
pub open spec fn keys_result(r: Result<Vec<String>, DeedError>) -> Result<
    Seq<Seq<char>>,
    Seq<char>,
> {
    match r {
        Ok(v) => Ok(text::texts(v@)),
        Err(e) => Err(e@),
    }
}

/// Reads the keys out of the outcome.
pub fn keys_in(outcome: Result<Json, DeedError>) -> (r: Result<Vec<String>, DeedError>)
    ensures
        keys_result(r) == keys_of(deed::tree_result(outcome)),
{
    match outcome {
        Ok(v) => match v.as_array() {
            Some(a) => Ok(json::take_texts(a)),
            None => Err(deed::malformed("deed/pocket/list")),
        },
        Err(e) => Err(e),
    }
}

// ---------------------------------------------------------------------------
// Laws
// ---------------------------------------------------------------------------

/// Every key of a list of keys is read as it is, in its order; anything but a list
/// is an error, and an earlier error stays as it is.
pub proof fn keys_are_read_as_they_are(l: Seq<Tree>, i: int, v: Tree, e: Seq<char>)
    requires
        forall|j: int| 0 <= j < l.len() ==> (#[trigger] l[j]) is Text,
        0 <= i < l.len(),
    ensures
        keys_of(Ok(Tree::List(l))) is Ok,
        keys_of(Ok(Tree::List(l)))->Ok_0.len() == l.len(),
        l[i] == Tree::Text(keys_of(Ok(Tree::List(l)))->Ok_0[i]),
        !(v is List) ==> keys_of(Ok(v)) == Err::<Seq<Seq<char>>, Seq<char>>(
            "drift deed: malformed "@ + "deed/pocket/list"@ + " response"@,
        ),
        keys_of(Err(e)) == Err::<Seq<Seq<char>>, Seq<char>>(e),
{
    json::laws::lists_of_texts_are_picked_out_whole(l);
}

/// What stands for a list of keys is the list.
pub proof fn results_mean_what_they_hold(v: Vec<String>, e: DeedError, i: int)
    ensures
        keys_result(Ok(v)) is Ok,
        keys_result(Ok(v))->Ok_0.len() == v@.len(),
        0 <= i < v@.len() ==> keys_result(Ok(v))->Ok_0[i] == v@[i]@,
        keys_result(Err(e)) == Err::<Seq<Seq<char>>, Seq<char>>(e@),
{
}

/// Of a list that holds more than keys, the keys are read.
pub proof fn keys_are_picked_out(l: Seq<Tree>)
    ensures
        keys_of(Ok(Tree::List(l))) == Ok::<Seq<Seq<char>>, Seq<char>>(json::texts_in(l)),
{
}

}
