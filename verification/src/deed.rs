//! Identity, verified.
//!
//! Each function but those of `jwt` plans a request of Deed, which `request`
//! turns into an HTTP request. `outcome` reads the reply, and the function that
//! the plan names reads the result out of the outcome. A call that fails is an
//! error, never an empty result.
use vstd::prelude::*;
use vstd::string::*;

use crate::document;
use crate::json;
use crate::json::{Json, Tree};
use crate::table::Table;
use crate::text;
use crate::wire;
use crate::wire::{HttpRequest, Reply, Request};

pub mod jwt;
pub mod keyauth;
pub mod link;
pub mod pocket;
pub mod vault;

verus! {

// ---------------------------------------------------------------------------
// Errors
// ---------------------------------------------------------------------------

/// Why a call of Deed failed: no slice is running, the request did not get
/// through, it was answered with a status other than success, or the body of the
/// answer is malformed.
#[derive(Debug, Clone, PartialEq, Eq)]
pub struct DeedError {
    pub message: String,
}

impl View for DeedError {
    type V = Seq<char>;

    open spec fn view(&self) -> Seq<char> {
        self.message@
    }
}

impl DeedError {
    /// The error in words.
    pub fn text(&self) -> (r: String)
        ensures
            r@ == self@,
    {
        self.message.clone()
    }
}

/// What is said where no slice is running.
pub open spec fn unavailable_message() -> Seq<char> {
    "drift deed: requires a running slice (DEED_URL) — not available in local dev"@
}

fn unavailable() -> (r: DeedError)
    ensures
        r@ == unavailable_message(),
{
    DeedError {
        message: "drift deed: requires a running slice (DEED_URL) — not available in local dev".to_owned(),
    }
}

/// What is said of an answer without what it should hold.
pub open spec fn malformed_message(path: Seq<char>) -> Seq<char> {
    "drift deed: malformed "@ + path + " response"@
}

pub(crate) fn malformed(path: &str) -> (r: DeedError)
    ensures
        r@ == malformed_message(path@),
{
    let m = text::join("drift deed: malformed ", path);
    DeedError { message: text::join(m.as_str(), " response") }
}

/// What is said of a status other than success: with the body, less the white
/// space around it, where there is one.
pub open spec fn status_message(path: Seq<char>, status: u16, body: Seq<char>) -> Seq<char> {
    let m = "drift deed: "@ + path + " HTTP "@ + text::decimal(status as nat);
    let said = text::trimmed(body);
    if said.len() == 0 {
        m
    } else {
        m + ": "@ + said
    }
}

fn refused(path: &str, status: u16, body: &str) -> (r: DeedError)
    ensures
        r@ == status_message(path@, status, body@),
{
    let m = text::join("drift deed: ", path);
    let m = text::join(m.as_str(), " HTTP ");
    let code = text::decimal_of(status as u128);
    let m = text::join(m.as_str(), code.as_str());
    let said = text::trim(body);
    if said.as_str().is_empty() {
        DeedError { message: m }
    } else {
        let m = text::join(m.as_str(), ": ");
        DeedError { message: text::join(m.as_str(), said.as_str()) }
    }
}

/// What is said of a request that did not get through.
pub open spec fn failure_message(path: Seq<char>, reason: Seq<char>) -> Seq<char> {
    "drift deed: "@ + path + " request failed: "@ + reason
}

fn failed(path: &str, reason: &str) -> (r: DeedError)
    ensures
        r@ == failure_message(path@, reason@),
{
    let m = text::join("drift deed: ", path);
    let m = text::join(m.as_str(), " request failed: ");
    DeedError { message: text::join(m.as_str(), reason) }
}

/// What is said of a body that is not JSON.
pub open spec fn parse_message(path: Seq<char>, reason: Seq<char>) -> Seq<char> {
    "drift deed: parse "@ + path + " response: "@ + reason
}

fn unparsed(path: &str, reason: &str) -> (r: DeedError)
    ensures
        r@ == parse_message(path@, reason@),
{
    let m = text::join("drift deed: parse ", path);
    let m = text::join(m.as_str(), " response: ");
    DeedError { message: text::join(m.as_str(), reason) }
}

// ---------------------------------------------------------------------------
// Requests
// ---------------------------------------------------------------------------

/// A call of Deed, with the token that it is made under.
#[derive(Debug)]
pub struct DeedRequest {
    pub token: Option<String>,
    pub request: Request,
}

/// What a call of Deed is.
#[verifier::ext_equal]
pub struct Errand {
    pub token: Option<Seq<char>>,
    pub call: wire::Call,
}

impl View for DeedRequest {
    type V = Errand;

    open spec fn view(&self) -> Errand {
        Errand { token: json::text_opt(self.token), call: self.request@ }
    }
}

/// A call of Deed without a token.
pub open spec fn open_call(call: wire::Call) -> Errand {
    Errand { token: None, call }
}

/// A call of Deed under a token.
pub open spec fn call_under(token: Seq<char>, call: wire::Call) -> Errand {
    Errand { token: Some(token), call }
}

/// The header fields that a token adds.
pub open spec fn credentials(token: Option<Seq<char>>) -> Seq<(Seq<char>, Seq<char>)> {
    match token {
        Some(t) => seq![("Authorization"@, "Bearer "@ + t)],
        None => Seq::empty(),
    }
}

/// The HTTP request that a call of Deed makes, where a slice is running.
pub open spec fn request_of(base: Seq<char>, e: Errand) -> Result<wire::Http, Seq<char>> {
    if base.len() == 0 {
        Err(unavailable_message())
    } else {
        Ok(wire::http_of(base, e.call, credentials(e.token)))
    }
}

/// What an HTTP request, or an error in its place, is.
pub open spec fn http_result(r: Result<HttpRequest, DeedError>) -> Result<wire::Http, Seq<char>> {
    match r {
        Ok(q) => Ok(q@),
        Err(e) => Err(e@),
    }
}

/// Builds the HTTP request that a call of Deed makes. Where there is no base URL,
/// no slice is running, and that is an error.
pub fn request(base: &str, deed: DeedRequest) -> (r: Result<HttpRequest, DeedError>)
    ensures
        http_result(r) == request_of(base@, deed@),
{
    if base.is_empty() {
        return Err(unavailable());
    }
    let mut first: Vec<(String, String)> = Vec::new();
    match deed.token {
        Some(t) => {
            first.push(("Authorization".to_owned(), text::join("Bearer ", t.as_str())));
            assert(wire::pairs(first@) =~= credentials(Some(t@)));
        },
        None => {
            assert(wire::pairs(first@) =~= Seq::empty());
        },
    }
    Ok(wire::to_http(base, deed.request, first))
}

// ---------------------------------------------------------------------------
// Replies
// ---------------------------------------------------------------------------

/// What a value, or an error in its place, is.
pub open spec fn tree_result(r: Result<Json, DeedError>) -> Result<Tree, Seq<char>> {
    match r {
        Ok(v) => Ok(v@),
        Err(e) => Err(e@),
    }
}

/// What a text, or an error in its place, is.
pub open spec fn text_result(r: Result<String, DeedError>) -> Result<Seq<char>, Seq<char>> {
    match r {
        Ok(s) => Ok(s@),
        Err(e) => Err(e@),
    }
}

/// What an error, where there is one, says.
pub open spec fn unit_result(r: Result<(), DeedError>) -> Result<(), Seq<char>> {
    match r {
        Ok(u) => Ok(u),
        Err(e) => Err(e@),
    }
}

/// Whether a status is one of success.
pub open spec fn success(status: u16) -> bool {
    200 <= status <= 299
}

/// What was read of the body of an answer to a path.
pub open spec fn parsed_outcome(path: Seq<char>, parsed: Result<Tree, Seq<char>>) -> Result<
    Tree,
    Seq<char>,
> {
    match parsed {
        Ok(t) => Ok(t),
        Err(e) => Err(parse_message(path, e)),
    }
}

/// What comes of a call to a path: the value that an answer of success carries,
/// null where it has no body, and an error in every other case.
pub open spec fn outcome_of(path: Seq<char>, o: wire::Outcome) -> Result<Tree, Seq<char>> {
    match o {
        wire::Outcome::Accepted(status, body) => if !success(status) {
            Err(status_message(path, status, body))
        } else if status == 204 || body.len() == 0 {
            Ok(Tree::Null)
        } else {
            parsed_outcome(path, document::parsed(body))
        },
        wire::Outcome::Refused(status, body) => Err(status_message(path, status, body)),
        wire::Outcome::Failed(reason) => Err(failure_message(path, reason)),
    }
}

/// Takes what was read of the body of an answer.
pub fn read_parsed(path: &str, parsed: Result<Json, String>) -> (r: Result<Json, DeedError>)
    ensures
        tree_result(r) == parsed_outcome(path@, document::reading(parsed)),
{
    match parsed {
        Ok(v) => Ok(v),
        Err(e) => Err(unparsed(path, e.as_str())),
    }
}

/// Reads the reply to a call to a path.
pub fn outcome(path: &str, reply: Reply) -> (r: Result<Json, DeedError>)
    ensures
        tree_result(r) == outcome_of(path@, reply@),
{
    match reply {
        Reply::Accepted(status, body) => {
            if status < 200 || status > 299 {
                Err(refused(path, status, body.as_str()))
            } else if status == 204 || body.as_str().is_empty() {
                Ok(Json::Null)
            } else {
                read_parsed(path, document::parse(body.as_str()))
            }
        },
        Reply::Refused(status, body) => Err(refused(path, status, body.as_str())),
        Reply::Failed(reason) => Err(failed(path, reason.as_str())),
    }
}

/// The text in the field `k` of an outcome; an error where it has none.
pub open spec fn text_of(outcome: Result<Tree, Seq<char>>, k: Seq<char>, path: Seq<char>) -> Result<
    Seq<char>,
    Seq<char>,
> {
    match outcome {
        Ok(v) => match v.text_field(k) {
            Some(s) => Ok(s),
            None => Err(malformed_message(path)),
        },
        Err(e) => Err(e),
    }
}

pub(crate) fn take_text(outcome: Result<Json, DeedError>, key: &str, path: &str) -> (r: Result<
    String,
    DeedError,
>)
    ensures
        text_result(r) == text_of(tree_result(outcome), key@, path@),
{
    match outcome {
        Ok(v) => match v.text_field(key) {
            Some(s) => Ok(s),
            None => Err(malformed(path)),
        },
        Err(e) => Err(e),
    }
}

/// The value in the field `k` of an outcome; an error where it has none.
pub open spec fn value_of(outcome: Result<Tree, Seq<char>>, k: Seq<char>, path: Seq<char>) -> Result<
    Tree,
    Seq<char>,
> {
    match outcome {
        Ok(v) => match v.field(k) {
            Some(f) => Ok(f),
            None => Err(malformed_message(path)),
        },
        Err(e) => Err(e),
    }
}

pub(crate) fn take_value(outcome: Result<Json, DeedError>, key: &str, path: &str) -> (r: Result<
    Json,
    DeedError,
>)
    ensures
        tree_result(r) == value_of(tree_result(outcome), key@, path@),
{
    match outcome {
        Ok(v) => match v.get(key) {
            Some(f) => Ok(f.clone()),
            None => Err(malformed(path)),
        },
        Err(e) => Err(e),
    }
}

/// That an outcome is no error.
pub open spec fn done_of(outcome: Result<Tree, Seq<char>>) -> Result<(), Seq<char>> {
    match outcome {
        Ok(_) => Ok(()),
        Err(e) => Err(e),
    }
}

/// Checks that an outcome is no error.
pub fn done(outcome: Result<Json, DeedError>) -> (r: Result<(), DeedError>)
    ensures
        unit_result(r) == done_of(tree_result(outcome)),
{
    match outcome {
        Ok(_) => Ok(()),
        Err(e) => Err(e),
    }
}

/// Plans a call that posts a JSON object, without a token.
pub(crate) fn post(path: &str, body: Table<Json>) -> (r: DeedRequest)
    ensures
        r@ == open_call(wire::post(path@, body.fields())),
{
    DeedRequest { token: None, request: wire::post_request(path, body) }
}

// ---------------------------------------------------------------------------
// Laws
// ---------------------------------------------------------------------------

/// Nothing that goes wrong passes for a result: a request that did not get
/// through, a status other than success, and a body that is not JSON are errors.
pub proof fn failures_are_errors(path: Seq<char>, o: wire::Outcome)
    ensures
        o is Failed ==> outcome_of(path, o) is Err,
        o is Refused ==> outcome_of(path, o) is Err,
        o is Accepted && !success(o->Accepted_0) ==> outcome_of(path, o) is Err,
        o is Accepted && success(o->Accepted_0) && o->Accepted_0 != 204 && o->Accepted_1.len() > 0
            && document::parsed(o->Accepted_1) is Err ==> outcome_of(path, o) is Err,
{
}

/// An answer without what was asked for is an error, and so is every error before
/// it: no default takes its place.
pub proof fn missing_results_are_errors(
    outcome: Result<Tree, Seq<char>>,
    k: Seq<char>,
    path: Seq<char>,
)
    ensures
        value_of(outcome, k, path) is Ok <==> outcome is Ok && outcome->Ok_0.field(k) is Some,
        text_of(outcome, k, path) is Ok <==> outcome is Ok && outcome->Ok_0.text_field(k) is Some,
        done_of(outcome) is Ok <==> outcome is Ok,
        link::info_of(outcome) is Ok <==> outcome is Ok && outcome->Ok_0.text_field(
            "new_pubkey"@,
        ) is Some,
        link::status_of(outcome) is Ok <==> outcome is Ok && outcome->Ok_0.text_field(
            "status"@,
        ) is Some,
        pocket::keys_of(outcome) is Ok <==> outcome is Ok && outcome->Ok_0 is List,
{
}

/// A call carries the token that it is made under, and none where it is made under
/// none.
pub proof fn token_is_carried(base: Seq<char>, e: Errand)
    requires
        base.len() > 0,
    ensures
        ({
            let headers = request_of(base, e)->Ok_0.headers;
            match e.token {
                Some(t) => headers[0] == ("Authorization"@, "Bearer "@ + t),
                None => forall|i: int|
                    0 <= i < headers.len() ==> (#[trigger] headers[i]).0 != "Authorization"@,
            }
        }),
{
    reveal_strlit("Authorization");
    reveal_strlit("Content-Type");
    assert("Authorization"@.len() != "Content-Type"@.len());
}

/// What a slice answers is the outcome, whatever value it is. An answer of success
/// without a body has null for its outcome.
pub proof fn answers_are_the_outcome(
    path: Seq<char>,
    status: u16,
    body: Seq<char>,
    value: Tree,
)
    requires
        200 <= status <= 299,
    ensures
        status != 204 && body.len() > 0 && document::parsed(body) == Ok::<Tree, Seq<char>>(value)
            ==> outcome_of(path, wire::Outcome::Accepted(status, body)) == Ok::<Tree, Seq<char>>(
            value,
        ),
        outcome_of(path, wire::Outcome::Accepted(204, body)) == Ok::<Tree, Seq<char>>(Tree::Null),
        outcome_of(path, wire::Outcome::Accepted(status, Seq::empty())) == Ok::<Tree, Seq<char>>(
            Tree::Null,
        ),
        success(status),
{
}

/// Only statuses from 200 to 299 are of success.
pub proof fn other_statuses_are_of_failure(status: u16)
    ensures
        success(status) <==> 200 <= status <= 299,
{
}

/// An error says where it happened and why: the path, the status with what the
/// slice said, the reason of the failure, or what is wrong with the body.
pub proof fn errors_say_why(
    path: Seq<char>,
    status: u16,
    before: Seq<char>,
    said: Seq<char>,
    after: Seq<char>,
    why: Seq<char>,
)
    requires
        said.len() > 0,
        text::laws::tight(said),
        text::laws::blank(before),
        text::laws::blank(after),
    ensures
        outcome_of(path, wire::Outcome::Refused(status, before + said + after)) == Err::<
            Tree,
            Seq<char>,
        >("drift deed: "@ + path + " HTTP "@ + text::decimal(status as nat) + ": "@ + said),
        outcome_of(path, wire::Outcome::Refused(status, before)) == Err::<Tree, Seq<char>>(
            "drift deed: "@ + path + " HTTP "@ + text::decimal(status as nat),
        ),
        !(200 <= status <= 299) ==> outcome_of(path, wire::Outcome::Accepted(status, why))
            == outcome_of(path, wire::Outcome::Refused(status, why)),
        outcome_of(path, wire::Outcome::Failed(why)) == Err::<Tree, Seq<char>>(
            "drift deed: "@ + path + " request failed: "@ + why,
        ),
        parsed_outcome(path, Err(why)) == Err::<Tree, Seq<char>>(
            "drift deed: parse "@ + path + " response: "@ + why,
        ),
        200 <= status <= 299 && status != 204 && document::parsed(said) == Err::<Tree, Seq<char>>(
            why,
        ) ==> outcome_of(path, wire::Outcome::Accepted(status, said)) == Err::<Tree, Seq<char>>(
            "drift deed: parse "@ + path + " response: "@ + why,
        ),
        malformed_message(path) == "drift deed: malformed "@ + path + " response"@,
{
    text::laws::trimming_takes_what_is_around(before, said, after);
    text::laws::blank_text_is_trimmed_to_nothing(before);
}

/// A body that was read is the outcome as it was read.
pub proof fn read_bodies_are_the_outcome(path: Seq<char>, value: Tree)
    ensures
        parsed_outcome(path, Ok(value)) == Ok::<Tree, Seq<char>>(value),
{
}

/// What an answer holds is the result, as it is, and an earlier error stays as it
/// is.
pub proof fn results_are_what_was_answered(
    m: Map<Seq<char>, Tree>,
    k: Seq<char>,
    path: Seq<char>,
    s: Seq<char>,
    e: Seq<char>,
)
    ensures
        m.contains_key(k) ==> value_of(Ok(Tree::Fields(m)), k, path) == Ok::<Tree, Seq<char>>(m[k]),
        !m.contains_key(k) ==> value_of(Ok(Tree::Fields(m)), k, path) == Err::<Tree, Seq<char>>(
            malformed_message(path),
        ),
        m.contains_key(k) && m[k] == Tree::Text(s) ==> text_of(Ok(Tree::Fields(m)), k, path)
            == Ok::<Seq<char>, Seq<char>>(s),
        !m.contains_key(k) || !(m[k] is Text) ==> text_of(Ok(Tree::Fields(m)), k, path)
            == Err::<Seq<char>, Seq<char>>(malformed_message(path)),
        value_of(Err(e), k, path) == Err::<Tree, Seq<char>>(e),
        text_of(Err(e), k, path) == Err::<Seq<char>, Seq<char>>(e),
        done_of(Err(e)) == Err::<(), Seq<char>>(e),
{
}

/// A call is made with what it is given, and not made without a running slice.
pub proof fn calls_are_made_whole(base: Seq<char>, e: Errand, token: Seq<char>, call: wire::Call)
    ensures
        request_of(Seq::empty(), e) is Err,
        base.len() > 0 ==> ({
            let sent = request_of(base, e);
            &&& sent is Ok
            &&& sent->Ok_0.method == e.call.method
            &&& sent->Ok_0.url == base + seq!['/'] + e.call.path
            &&& sent->Ok_0.timeout is None
            &&& e.call.body is None ==> sent->Ok_0.payload is Nothing
            &&& e.call.body is Some ==> sent->Ok_0.payload == wire::Content::Text(
                document::rendered(e.call.body->0),
            )
            &&& sent->Ok_0.headers.len() == (if e.token is Some {
                1int
            } else {
                0int
            }) + (if e.call.body is Some {
                1int
            } else {
                0int
            })
            &&& e.call.body is Some ==> sent->Ok_0.headers.last() == (
                "Content-Type"@,
                "application/json"@,
            )
        }),
        open_call(call).token is None,
        open_call(call).call == call,
        call_under(token, call).token == Some(token),
        call_under(token, call).call == call,
{
    reveal_strlit("/");
    assert("/"@ =~= seq!['/']);
}

/// What stands for a result is the result.
pub proof fn results_mean_what_they_hold(v: Json, s: String, e: DeedError, r: HttpRequest, d: DeedRequest)
    ensures
        e@ == e.message@,
        tree_result(Ok(v)) == Ok::<Tree, Seq<char>>(v@),
        tree_result(Err(e)) == Err::<Tree, Seq<char>>(e@),
        text_result(Ok(s)) == Ok::<Seq<char>, Seq<char>>(s@),
        text_result(Err(e)) == Err::<Seq<char>, Seq<char>>(e@),
        unit_result(Ok(())) == Ok::<(), Seq<char>>(()),
        unit_result(Err(e)) == Err::<(), Seq<char>>(e@),
        http_result(Ok(r)) == Ok::<wire::Http, Seq<char>>(r@),
        http_result(Err(e)) == Err::<wire::Http, Seq<char>>(e@),
        d@.call == d.request@,
        d@.token is Some <==> d.token is Some,
        d.token is Some ==> d@.token->0 == d.token->0@,
{
}

}
