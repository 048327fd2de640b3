//! What goes over the wire, and what comes back.
use vstd::prelude::*;
use vstd::string::*;

use crate::document;
use crate::json;
use crate::json::{Json, Tree};
use crate::percent;
use crate::query;
use crate::table;
use crate::table::Table;
use crate::text;

verus! {

// ---------------------------------------------------------------------------
// Calls
// ---------------------------------------------------------------------------

/// A call of a primitive: a method, a path with its query, and a JSON body.
#[derive(Debug)]
pub struct Request {
    pub method: String,
    pub path: String,
    pub body: Option<Json>,
}

/// What a call means.
#[verifier::ext_equal]
pub struct Call {
    pub method: Seq<char>,
    pub path: Seq<char>,
    pub body: Option<Tree>,
}

impl View for Request {
    type V = Call;

    open spec fn view(&self) -> Call {
        Call { method: self.method@, path: self.path@, body: json::tree_opt(self.body) }
    }
}

/// A call without a body.
pub open spec fn bare(method: Seq<char>, path: Seq<char>) -> Call {
    Call { method, path, body: None }
}

/// A call that posts a JSON object.
pub open spec fn post(path: Seq<char>, fields: Map<Seq<char>, Tree>) -> Call {
    Call { method: "POST"@, path, body: Some(Tree::Fields(fields)) }
}

/// A call without a body.
pub fn bare_request(method: &str, path: String) -> (r: Request)
    ensures
        r@ == bare(method@, path@),
{
    Request { method: method.to_owned(), path, body: None }
}

/// A call that posts a JSON object.
pub fn post_request(path: &str, fields: Table<Json>) -> (r: Request)
    ensures
        r@ == post(path@, fields.fields()),
{
    Request { method: "POST".to_owned(), path: path.to_owned(), body: Some(Json::Object(fields)) }
}

/// Builds a path that ends in a percent-encoded parameter.
pub fn path_with(prefix: &str, value: &str) -> (r: String)
    ensures
        r@ == prefix@ + percent::percent_encoded(value@),
{
    let encoded = percent::percent_encode(value);
    text::join(prefix, encoded.as_str())
}

/// Builds a path with two percent-encoded parameters.
pub fn path_with_two(prefix: &str, value: &str, middle: &str, second: &str) -> (r: String)
    ensures
        r@ == prefix@ + percent::percent_encoded(value@) + middle@ + percent::percent_encoded(
            second@,
        ),
{
    let first = text::join(path_with(prefix, value).as_str(), middle);
    path_with(first.as_str(), second)
}

// ---------------------------------------------------------------------------
// HTTP requests
// ---------------------------------------------------------------------------

/// The body of an HTTP request.
#[derive(Debug, PartialEq, Eq)]
pub enum Payload {
    Nothing,
    Text(String),
    Bytes(Vec<u8>),
}

/// What the body of an HTTP request is.
#[verifier::ext_equal]
pub enum Content {
    Nothing,
    Text(Seq<char>),
    Bytes(Seq<u8>),
}

impl View for Payload {
    type V = Content;

    open spec fn view(&self) -> Content {
        match self {
            Payload::Nothing => Content::Nothing,
            Payload::Text(s) => Content::Text(s@),
            Payload::Bytes(b) => Content::Bytes(b@),
        }
    }
}

/// A span of time.
#[derive(Debug, Clone, Copy, PartialEq, Eq)]
pub struct Timeout {
    pub secs: u64,
    pub nanos: u32,
}

/// An HTTP request to send: its header fields are set in their order.
#[derive(Debug, PartialEq, Eq)]
pub struct HttpRequest {
    pub method: String,
    pub url: String,
    pub headers: Vec<(String, String)>,
    pub payload: Payload,
    pub timeout: Option<Timeout>,
}

/// What an HTTP request is.
#[verifier::ext_equal]
pub struct Http {
    pub method: Seq<char>,
    pub url: Seq<char>,
    pub headers: Seq<(Seq<char>, Seq<char>)>,
    pub payload: Content,
    pub timeout: Option<Timeout>,
}

/// The characters of each pair in a list.
pub open spec fn pairs(s: Seq<(String, String)>) -> Seq<(Seq<char>, Seq<char>)> {
    s.map_values(|p: (String, String)| (p.0@, p.1@))
}

/// Whether header fields stand in the order of their names, each name once.
pub open spec fn ordered(fields: Seq<(Seq<char>, Seq<char>)>) -> bool {
    forall|i: int, j: int|
        0 <= i < j < fields.len() ==> text::before(#[trigger] fields[i].0, #[trigger] fields[j].0)
}

/// The value of each header field by its name.
pub open spec fn field_map(fields: Seq<(Seq<char>, Seq<char>)>) -> Map<Seq<char>, Seq<char>>
    decreases fields.len(),
{
    if fields.len() == 0 {
        Map::empty()
    } else {
        field_map(fields.drop_last()).insert(fields.last().0, fields.last().1)
    }
}

/// The header fields of a row of entries say what its map says.
pub proof fn lemma_fields(entries: Seq<(String, String)>)
    requires
        table::ascending(entries),
    ensures
        ordered(pairs(entries)),
        field_map(pairs(entries)) == query::strings(table::map_of(entries)),
{
    lemma_field_map(entries);
    assert forall|i: int, j: int| 0 <= i < j < pairs(entries).len() implies text::before(
        #[trigger] pairs(entries)[i].0,
        #[trigger] pairs(entries)[j].0,
    ) by {
        assert(text::before(entries[i].0@, entries[j].0@));
    }
}

proof fn lemma_field_map(entries: Seq<(String, String)>)
    ensures
        field_map(pairs(entries)) == query::strings(table::map_of(entries)),
    decreases entries.len(),
{
    if entries.len() > 0 {
        lemma_field_map(entries.drop_last());
        assert(pairs(entries).drop_last() =~= pairs(entries.drop_last()));
    }
    assert(field_map(pairs(entries)) =~= query::strings(table::map_of(entries)));
}

impl View for HttpRequest {
    type V = Http;

    open spec fn view(&self) -> Http {
        Http {
            method: self.method@,
            url: self.url@,
            headers: pairs(self.headers@),
            payload: self.payload@,
            timeout: self.timeout,
        }
    }
}

/// The URL of a path at a base URL.
pub open spec fn url_at(base: Seq<char>, path: Seq<char>) -> Seq<char> {
    base + "/"@ + path
}

/// Builds the URL of a path at a base URL.
pub fn url_of(base: &str, path: &str) -> (r: String)
    ensures
        r@ == url_at(base@, path@),
{
    text::join(text::join(base, "/").as_str(), path)
}

/// The header field that says that the body is JSON.
pub open spec fn json_header() -> (Seq<char>, Seq<char>) {
    ("Content-Type"@, "application/json"@)
}

/// The HTTP request that makes a call at a base URL, with header fields of its
/// own before the one for the body.
pub open spec fn http_of(base: Seq<char>, call: Call, first: Seq<(Seq<char>, Seq<char>)>) -> Http {
    Http {
        method: call.method,
        url: url_at(base, call.path),
        headers: match call.body {
            Some(_) => first + seq![json_header()],
            None => first,
        },
        payload: match call.body {
            Some(b) => Content::Text(document::rendered(b)),
            None => Content::Nothing,
        },
        timeout: None,
    }
}

/// Builds the HTTP request that makes a call at a base URL.
pub fn to_http(base: &str, request: Request, first: Vec<(String, String)>) -> (r: HttpRequest)
    ensures
        r@ == http_of(base@, request@, pairs(first@)),
{
    let mut headers = first;
    let url = url_of(base, request.path.as_str());
    let payload = match request.body {
        Some(b) => {
            headers.push(("Content-Type".to_owned(), "application/json".to_owned()));
            assert(pairs(headers@) =~= pairs(first@) + seq![json_header()]);
            Payload::Text(document::render(b))
        },
        None => Payload::Nothing,
    };
    HttpRequest { method: request.method, url, headers, payload, timeout: None }
}

// ---------------------------------------------------------------------------
// Replies
// ---------------------------------------------------------------------------

/// What came of sending an HTTP request: an answer, an answer with an error
/// status, or no answer.
#[derive(Debug, PartialEq, Eq)]
pub enum Reply {
    Accepted(u16, String),
    Refused(u16, String),
    Failed(String),
}

/// What came of sending an HTTP request.
#[verifier::ext_equal]
pub enum Outcome {
    Accepted(u16, Seq<char>),
    Refused(u16, Seq<char>),
    Failed(Seq<char>),
}

impl View for Reply {
    type V = Outcome;

    open spec fn view(&self) -> Outcome {
        match self {
            Reply::Accepted(status, body) => Outcome::Accepted(*status, body@),
            Reply::Refused(status, body) => Outcome::Refused(*status, body@),
            Reply::Failed(reason) => Outcome::Failed(reason@),
        }
    }
}

/// A text as JSON where it is JSON, else as a text.
pub open spec fn value_or_text(parsed: Result<Tree, Seq<char>>, body: Seq<char>) -> Tree {
    match parsed {
        Ok(t) => t,
        Err(_) => Tree::Text(body),
    }
}

/// Takes what was read of a text, or the text itself where it is not JSON.
pub fn keep_value_or_text(parsed: Result<Json, String>, body: String) -> (r: Json)
    ensures
        r@ == value_or_text(document::reading(parsed), body@),
{
    match parsed {
        Ok(v) => v,
        Err(_) => Json::String(body),
    }
}

/// Reads a text as JSON where it is JSON, else as a text.
pub fn read_value_or_text(body: String) -> (r: Json)
    ensures
        r@ == value_or_text(document::parsed(body@), body@),
{
    let parsed = document::parse(body.as_str());
    keep_value_or_text(parsed, body)
}

/// The value that an answer carries: none with status 204 or an empty body.
pub open spec fn answer_value(status: u16, body: Seq<char>) -> Option<Tree> {
    if status == 204 || body.len() == 0 {
        None
    } else {
        Some(value_or_text(document::parsed(body), body))
    }
}

/// The value that a reply carries. An error status is read like any other; a
/// failure carries none.
pub open spec fn reply_value(o: Outcome) -> Option<Tree> {
    match o {
        Outcome::Accepted(status, body) => answer_value(status, body),
        Outcome::Refused(status, body) => answer_value(status, body),
        Outcome::Failed(_) => None,
    }
}

fn read_answer(status: u16, body: String) -> (r: Option<Json>)
    ensures
        json::tree_opt(r) == answer_value(status, body@),
{
    if status == 204 || body.as_str().is_empty() {
        None
    } else {
        Some(read_value_or_text(body))
    }
}

/// Reads the value that a reply carries.
pub fn read_reply(reply: Reply) -> (r: Option<Json>)
    ensures
        json::tree_opt(r) == reply_value(reply@),
{
    match reply {
        Reply::Accepted(status, body) => read_answer(status, body),
        Reply::Refused(status, body) => read_answer(status, body),
        Reply::Failed(_) => None,
    }
}

/// What came of sending an HTTP request whose answer is raw bytes: an answer, an
/// answer with an error status, or no answer.
#[derive(Debug, PartialEq, Eq)]
pub enum RawReply {
    Accepted(Vec<u8>),
    Refused(u16),
    Failed(String),
}

/// Reads the bytes that a raw reply carries: those of an answer, also where there
/// are none, and nothing with an error status or a failure.
pub fn read_raw_reply(reply: RawReply) -> (r: Option<Vec<u8>>)
    ensures
        match reply {
            RawReply::Accepted(b) => r is Some && r->0@ == b@,
            RawReply::Refused(_) => r is None,
            RawReply::Failed(_) => r is None,
        },
{
    match reply {
        RawReply::Accepted(b) => Some(b),
        RawReply::Refused(_) => None,
        RawReply::Failed(_) => None,
    }
}

// ---------------------------------------------------------------------------
// Laws
// ---------------------------------------------------------------------------

/// An answer carries the value that its body is, whatever the value is. The body is
/// carried as a text only where it is not JSON. It makes no difference whether the
/// status is one of an error.
pub proof fn answers_carry_their_value(status: u16, body: Seq<char>, value: Tree)
    requires
        status != 204,
        body.len() > 0,
    ensures
        document::parsed(body) == Ok::<Tree, Seq<char>>(value) ==> reply_value(
            Outcome::Accepted(status, body),
        ) == Some(value) && reply_value(Outcome::Refused(status, body)) == Some(value),
        document::parsed(body) is Err ==> reply_value(Outcome::Accepted(status, body)) == Some(
            Tree::Text(body),
        ) && reply_value(Outcome::Refused(status, body)) == Some(Tree::Text(body)),
{
}

/// An answer with status 204 or without a body carries nothing, and nothing is
/// carried where there was no answer.
pub proof fn empty_answers_carry_nothing(status: u16, body: Seq<char>, reason: Seq<char>)
    ensures
        reply_value(Outcome::Accepted(204, body)) is None,
        reply_value(Outcome::Refused(204, body)) is None,
        reply_value(Outcome::Accepted(status, Seq::empty())) is None,
        reply_value(Outcome::Refused(status, Seq::empty())) is None,
        reply_value(Outcome::Failed(reason)) is None,
{
}

/// A text is taken for the value that was read of it, and for itself where none
/// was.
pub proof fn read_values_are_taken(body: Seq<char>, value: Tree, why: Seq<char>)
    ensures
        value_or_text(Ok(value), body) == value,
        value_or_text(Err(why), body) == Tree::Text(body),
{
}

/// A reply is what came: its status and its body.
pub proof fn replies_are_what_came(status: u16, s: String)
    ensures
        Reply::Accepted(status, s)@ == Outcome::Accepted(status, s@),
        Reply::Refused(status, s)@ == Outcome::Refused(status, s@),
        Reply::Failed(s)@ == Outcome::Failed(s@),
{
}

/// A call is its method, its path and its body.
pub proof fn calls_are_what_was_planned(r: Request)
    ensures
        r@.method == r.method@,
        r@.path == r.path@,
        r@.body is Some <==> r.body is Some,
        r.body is Some ==> r@.body->0 == r.body->0@,
{
}

/// A call without a body has none, and one that posts an object has that object
/// for its body.
pub proof fn calls_hold_what_they_are_given(
    method: Seq<char>,
    path: Seq<char>,
    fields: Map<Seq<char>, Tree>,
)
    ensures
        bare(method, path).method == method,
        bare(method, path).path == path,
        bare(method, path).body is None,
        post(path, fields).method == "POST"@,
        post(path, fields).path == path,
        post(path, fields).body == Some(Tree::Fields(fields)),
{
}

/// An HTTP request is what is to be sent: all of its parts, and its header fields
/// in their order.
pub proof fn requests_are_what_is_sent(r: HttpRequest, i: int)
    ensures
        r@.method == r.method@,
        r@.url == r.url@,
        r@.timeout == r.timeout,
        r@.headers.len() == r.headers@.len(),
        0 <= i < r.headers@.len() ==> r@.headers[i] == (r.headers@[i].0@, r.headers@[i].1@),
        r.payload is Nothing ==> r@.payload == Content::Nothing,
        r.payload is Text ==> r@.payload == Content::Text(r.payload->Text_0@),
        r.payload is Bytes ==> r@.payload == Content::Bytes(r.payload->Bytes_0@),
{
}

/// A call is sent with its method to its path behind the base URL. Its body is sent
/// as JSON text, and said to be JSON; one without a body is sent without either.
/// The header fields that are given come first, and no time is set.
pub proof fn calls_are_sent_whole(
    base: Seq<char>,
    call: Call,
    first: Seq<(Seq<char>, Seq<char>)>,
    i: int,
)
    ensures
        ({
            let sent = http_of(base, call, first);
            &&& sent.method == call.method
            &&& sent.url == base + seq!['/'] + call.path
            &&& sent.timeout is None
            &&& 0 <= i < first.len() ==> sent.headers[i] == first[i]
            &&& call.body is None ==> sent.payload == Content::Nothing && sent.headers.len()
                == first.len()
            &&& call.body is Some ==> sent.payload == Content::Text(
                document::rendered(call.body->0),
            ) && sent.headers.len() == first.len() + 1 && sent.headers.last() == (
                "Content-Type"@,
                "application/json"@,
            )
        }),
{
    reveal_strlit("/");
    assert("/"@ =~= seq!['/']);
}

/// The value of a header field is the one that stands last under its name.
pub proof fn header_fields_are_looked_up(
    fields: Seq<(Seq<char>, Seq<char>)>,
    k: Seq<char>,
    v: Seq<char>,
)
    ensures
        field_map(Seq::empty()) == Map::<Seq<char>, Seq<char>>::empty(),
        field_map(fields.push((k, v))) == field_map(fields).insert(k, v),
{
    assert(fields.push((k, v)).drop_last() =~= fields);
}

/// Header fields that stand in order name no field twice, and each is found under
/// its name.
pub proof fn ordered_fields_are_found(fields: Seq<(Seq<char>, Seq<char>)>, i: int)
    requires
        ordered(fields),
        0 <= i < fields.len(),
    ensures
        field_map(fields).contains_key(fields[i].0),
        field_map(fields)[fields[i].0] == fields[i].1,
    decreases fields.len(),
{
    let before = fields.drop_last();
    if i < before.len() {
        assert(ordered(before)) by {
            assert forall|a: int, b: int| 0 <= a < b < before.len() implies text::before(
                #[trigger] before[a].0,
                #[trigger] before[b].0,
            ) by {
                assert(text::before(fields[a].0, fields[b].0));
            }
        }
        ordered_fields_are_found(before, i);
        assert(text::before(fields[i].0, fields[fields.len() - 1].0));
        if fields[i].0 == fields.last().0 {
            text::lemma_before_asymmetric(fields[i].0, fields.last().0);
        }
    }
}

}
