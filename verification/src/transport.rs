//! Where a call goes: to a running slice, or to the local store.
use vstd::prelude::*;
use vstd::string::*;

use crate::json;
use crate::json::{Json, Tree};
use crate::local;
use crate::local::{Local, LocalStore};
use crate::text;
use crate::wire;
use crate::wire::{HttpRequest, Payload, Request};

verus! {

/// What is to be done about a call: nothing more, an environment variable to be
/// read, or an HTTP request to be sent.
#[derive(Debug, PartialEq, Eq)]
pub enum Step {
    Answer(Option<Json>),
    Variable(String),
    Send(HttpRequest),
}

/// What is to be done about a call.
#[verifier::ext_equal]
pub enum Stage {
    Answer(Option<Tree>),
    Variable(Seq<char>),
    Send(wire::Http),
}

impl View for Step {
    type V = Stage;

    open spec fn view(&self) -> Stage {
        match self {
            Step::Answer(v) => Stage::Answer(json::tree_opt(*v)),
            Step::Variable(s) => Stage::Variable(s@),
            Step::Send(r) => Stage::Send(r@),
        }
    }
}

/// What the local store says, as what is to be done.
pub open spec fn stage_of(w: local::Word) -> Stage {
    match w {
        local::Word::Answer(a) => Stage::Answer(a),
        local::Word::Variable(n) => Stage::Variable(n),
    }
}

/// Whether a call asks for the names of the secrets.
pub open spec fn lists_secrets(call: wire::Call) -> bool {
    text::head(call.path, '?') == "secret/list"@
}

/// Makes a call at a base URL. Where there is none, the local store serves it.
///
/// The base URL is Backbone's or Deed's; both go the same way.
pub fn call(base: &str, store: &mut LocalStore, request: Request) -> (r: Step)
    ensures
        base@.len() > 0 ==> final(store)@ == old(store)@ && r@ == Stage::Send(
            wire::http_of(base@, request@, Seq::empty()),
        ),
        base@.len() == 0 && !lists_secrets(request@) ==> {
            let (held, word) = local::local_step(old(store)@, request@.path, request@.body);
            final(store)@ == held && r@ == stage_of(word)
        },
        base@.len() == 0 && lists_secrets(request@) ==> {
            &&& final(store)@ == old(store)@
            &&& r@ is Answer
            &&& local::names_all(r@->Answer_0, old(store)@.secrets)
        },
{
    if base.is_empty() {
        match store.call_local(request.path.as_str(), request.body) {
            Local::Answer(a) => Step::Answer(a),
            Local::Variable(n) => Step::Variable(n),
        }
    } else {
        let none: Vec<(String, String)> = Vec::new();
        assert(wire::pairs(none@) =~= Seq::empty());
        Step::Send(wire::to_http(base, request, none))
    }
}

/// The answer that an environment variable is, where it is set.
pub open spec fn variable_value(variable: Option<Seq<char>>) -> Option<Tree> {
    match variable {
        Some(v) => Some(Tree::Text(v)),
        None => None,
    }
}

/// Takes an environment variable that was read as the answer to a call.
pub fn read_variable(variable: Option<String>) -> (r: Option<Json>)
    ensures
        json::tree_opt(r) == variable_value(json::text_opt(variable)),
{
    match variable {
        Some(v) => Some(Json::String(v)),
        None => None,
    }
}

/// What an optional HTTP request is.
pub open spec fn http_opt(o: Option<HttpRequest>) -> Option<wire::Http> {
    match o {
        Some(r) => Some(r@),
        None => None,
    }
}

/// The HTTP request that carries raw bytes to a path, where there is a base URL.
pub open spec fn raw_http(
    base: Seq<char>,
    method: Seq<char>,
    path: Seq<char>,
    data: Seq<u8>,
    content_type: Seq<char>,
) -> Option<wire::Http> {
    if base.len() == 0 {
        None
    } else {
        Some(
            wire::Http {
                method,
                url: wire::url_at(base, path),
                headers: seq![("Content-Type"@, content_type)],
                payload: wire::Content::Bytes(data),
                timeout: None,
            },
        )
    }
}

/// Builds the HTTP request that carries raw bytes to a path. Where there is no
/// base URL, nothing is sent. `wire::read_raw_reply` reads the bytes that come
/// back.
pub fn call_raw(base: &str, method: &str, path: &str, data: Vec<u8>, content_type: &str) -> (r: Option<
    HttpRequest,
>)
    ensures
        http_opt(r) == raw_http(base@, method@, path@, data@, content_type@),
{
    if base.is_empty() {
        None
    } else {
        let mut headers: Vec<(String, String)> = Vec::new();
        headers.push(("Content-Type".to_owned(), content_type.to_owned()));
        assert(wire::pairs(headers@) =~= seq![("Content-Type"@, content_type@)]);
        Some(
            HttpRequest {
                method: method.to_owned(),
                url: wire::url_of(base, path),
                headers,
                payload: Payload::Bytes(data),
                timeout: None,
            },
        )
    }
}

// ---------------------------------------------------------------------------
// Laws
// ---------------------------------------------------------------------------

/// What the local store says is what is done: it is answered, or the variable that
/// it names is read.
pub proof fn the_stores_word_is_followed(a: Option<Tree>, name: Seq<char>)
    ensures
        stage_of(local::Word::Answer(a)) == Stage::Answer(a),
        stage_of(local::Word::Variable(name)) == Stage::Variable(name),
{
}

/// A variable that is set is the answer, as the text that it holds.
pub proof fn variables_answer(v: Seq<char>)
    ensures
        variable_value(Some(v)) == Some(Tree::Text(v)),
        variable_value(None) is None,
{
}

/// Raw bytes are sent as they are, with the content type that is given, to their
/// path behind the base URL; without a base URL nothing is sent.
pub proof fn raw_bytes_are_sent_whole(
    base: Seq<char>,
    method: Seq<char>,
    path: Seq<char>,
    data: Seq<u8>,
    content_type: Seq<char>,
)
    ensures
        raw_http(Seq::empty(), method, path, data, content_type) is None,
        base.len() > 0 ==> ({
            let sent = raw_http(base, method, path, data, content_type);
            &&& sent is Some
            &&& sent->0.method == method
            &&& sent->0.url == base + seq!['/'] + path
            &&& sent->0.headers == seq![("Content-Type"@, content_type)]
            &&& sent->0.payload == wire::Content::Bytes(data)
            &&& sent->0.timeout is None
        }),
{
    reveal_strlit("/");
    assert("/"@ =~= seq!['/']);
}

/// A step is what is to be done.
pub proof fn steps_are_what_is_done(v: Json, s: String, r: HttpRequest)
    ensures
        Step::Answer(Some(v))@ == Stage::Answer(Some(v@)),
        Step::Answer(None)@ == Stage::Answer(None),
        Step::Variable(s)@ == Stage::Variable(s@),
        Step::Send(r)@ == Stage::Send(r@),
        http_opt(Some(r)) == Some(r@),
        http_opt(None) is None,
{
}

/// Only a call of that route asks for the names of the secrets.
pub proof fn names_of_secrets_have_their_route(call: wire::Call)
    ensures
        lists_secrets(call) <==> text::head(call.path, '?') == "secret/list"@,
{
}

}
