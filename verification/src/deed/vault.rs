//! Backups that only their owner can read.
//!
//! A blob is encrypted before it gets here, and is kept as it comes.
use vstd::prelude::*;
use vstd::string::*;

use crate::deed;
use crate::deed::{DeedError, DeedRequest};
use crate::json::{Json, Object, Tree};
use crate::percent;
use crate::table::Table;
use crate::wire;

verus! {

/// Appends a backup for `uid`. `deed::done` checks the outcome.
pub fn put(uid: &str, blob: Json) -> (r: DeedRequest)
    ensures
        r@ == deed::open_call(
            wire::post("deed/vault/put"@, map!["uid"@ => Tree::Text(uid@), "blob"@ => blob@]),
        ),
{
    let mut body: Object = Table::empty();
    body.set("uid", Json::text(uid));
    body.set("blob", blob);
    deed::post("deed/vault/put", body)
}

/// Asks for the newest backup of `uid`. `blob_in` reads it out of the outcome.
pub fn get(uid: &str) -> (r: DeedRequest)
    ensures
        r@ == deed::open_call(
            wire::bare("GET"@, "deed/vault/get?uid="@ + percent::percent_encoded(uid@)),
        ),
{
    DeedRequest {
        token: None,
        request: wire::bare_request("GET", wire::path_with("deed/vault/get?uid=", uid)),
    }
}

/// Reads the backup out of the outcome: one that is not there is an error.
pub fn blob_in(outcome: Result<Json, DeedError>) -> (r: Result<Json, DeedError>)
    ensures
        deed::tree_result(r) == deed::value_of(
            deed::tree_result(outcome),
            "blob"@,
            "deed/vault/get"@,
        ),
{
    deed::take_value(outcome, "blob", "deed/vault/get")
}

}
