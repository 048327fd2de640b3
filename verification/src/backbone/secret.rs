//! Secrets.
use vstd::prelude::*;
use vstd::string::*;

use crate::document;
use crate::json;
use crate::json::{Json, Object, Tree};
use crate::percent;
use crate::table::Table;
use crate::text;
use crate::wire;
use crate::wire::Request;

verus! {

/// The environment variable that a running slice hands a secret over in.
pub open spec fn variable_name(name: Seq<char>) -> Seq<char> {
    "DRIFT_SECRET_"@ + text::uppercase(name)
}

/// The name of the environment variable that a running slice hands a secret over
/// in.
pub fn variable(name: &str) -> (r: String)
    ensures
        r@ == variable_name(name@),
{
    let upper = text::to_uppercase(name);
    text::join("DRIFT_SECRET_", upper.as_str())
}

/// The call that asks for a secret.
pub open spec fn asking(name: Seq<char>) -> wire::Call {
    wire::bare("GET"@, "secret/get?name="@ + percent::percent_encoded(name))
}

/// Where a secret is: in the environment, or to be asked for.
#[derive(Debug)]
pub enum Reading {
    Found(String),
    Ask(Request),
}

/// Reads a secret, given its environment variable: the variable where it is set,
/// and else a call.
pub fn get(name: &str, variable: Option<String>) -> (r: Reading)
    ensures
        match variable {
            Some(v) => r matches Reading::Found(s) && s@ == v@,
            None => r matches Reading::Ask(q) && q@ == asking(name@),
        },
{
    match variable {
        Some(v) => Reading::Found(v),
        None => Reading::Ask(wire::bare_request("GET", wire::path_with("secret/get?name=", name))),
    }
}

/// The secret that an answer carries: a text as it is, another value as JSON text,
/// and no value as the empty text.
pub open spec fn secret_in(answer: Option<Tree>) -> Seq<char> {
    match answer {
        Some(Tree::Text(s)) => s,
        Some(v) => document::rendered(v),
        None => Seq::empty(),
    }
}

/// Reads the secret out of an answer.
pub fn value(answer: Option<Json>) -> (r: String)
    ensures
        r@ == secret_in(json::tree_opt(answer)),
{
    match answer {
        Some(v) => match v {
            Json::String(s) => s,
            _ => document::render(v),
        },
        None => String::new(),
    }
}

/// The call that stores a secret.
pub open spec fn storing(name: Seq<char>, value: Seq<char>) -> wire::Call {
    wire::post(
        "secret/set"@,
        map!["name"@ => Tree::Text(name), "value"@ => Tree::Text(value)],
    )
}

/// Stores a secret.
pub fn set(name: &str, value: &str) -> (r: Request)
    ensures
        r@ == storing(name@, value@),
{
    let mut body: Object = Table::empty();
    body.set("name", Json::text(name));
    body.set("value", Json::text(value));
    wire::post_request("secret/set", body)
}

/// The call that deletes a secret.
pub open spec fn deleting(name: Seq<char>) -> wire::Call {
    wire::bare("DELETE"@, "secret/delete?name="@ + percent::percent_encoded(name))
}

/// Deletes a secret.
pub fn delete(name: &str) -> (r: Request)
    ensures
        r@ == deleting(name@),
{
    wire::bare_request("DELETE", wire::path_with("secret/delete?name=", name))
}

// ---------------------------------------------------------------------------
// Laws
// ---------------------------------------------------------------------------

/// A secret is asked for, stored and deleted under its name, encoded where it goes
/// into the path and as it is where it goes into the body; its value is stored as
/// it is.
pub proof fn secrets_are_sent_whole(name: Seq<char>, value: Seq<char>, k: Seq<char>)
    ensures
        asking(name).method == "GET"@,
        asking(name).path == "secret/get?name="@ + percent::percent_encoded(name),
        asking(name).body is None,
        deleting(name).method == "DELETE"@,
        deleting(name).path == "secret/delete?name="@ + percent::percent_encoded(name),
        deleting(name).body is None,
        ({
            let call = storing(name, value);
            let m = call.body->0->Fields_0;
            &&& call.method == "POST"@
            &&& call.path == "secret/set"@
            &&& call.body is Some && call.body->0 is Fields
            &&& m.contains_key("name"@) && m["name"@] == Tree::Text(name)
            &&& m.contains_key("value"@) && m["value"@] == Tree::Text(value)
            &&& m.contains_key(k) ==> k == "name"@ || k == "value"@
        }),
        variable_name(name) == "DRIFT_SECRET_"@ + text::uppercase(name),
{
    reveal_strlit("name");
    reveal_strlit("value");
    assert("name"@.len() == 4 && "value"@.len() == 5);
}

/// A secret is read out of an answer as it is where it is a text, as its JSON text
/// where it is another value, and as nothing where there is no answer.
pub proof fn secret_is_read_as_it_is(s: Seq<char>, v: Tree)
    ensures
        secret_in(Some(Tree::Text(s))) == s,
        !(v is Text) ==> secret_in(Some(v)) == document::rendered(v),
        secret_in(None) == Seq::<char>::empty(),
{
}

}
