//! Requests to anywhere.
use vstd::prelude::*;
use vstd::string::*;

use crate::table::Table;
use crate::text;
use crate::wire;
use crate::wire::{HttpRequest, Payload, Reply, Timeout};

verus! {

/// What is to be done about a request: a status and a text are its result, or it
/// is to be sent.
#[derive(Debug, PartialEq, Eq)]
pub enum Outgoing {
    Done(u16, String),
    Send(HttpRequest),
}

/// What is to be done about a request.
#[verifier::ext_equal]
pub enum Plan {
    Done(u16, Seq<char>),
    Send(wire::Http),
}

impl View for Outgoing {
    type V = Plan;

    open spec fn view(&self) -> Plan {
        match self {
            Outgoing::Done(status, s) => Plan::Done(*status, s@),
            Outgoing::Send(r) => Plan::Send(r@),
        }
    }
}

/// What is said of a URL that needs TLS where there is none.
pub open spec fn no_tls_message() -> Seq<char> {
    "drift-sdk: outbound HTTPS needs the \"tls\" feature — set drift-sdk = { ..., features = [\"tls\"] } in Cargo.toml (deploys then require a C cross-toolchain such as zig)."@
}

/// The header fields of a table, in the order of their names.
pub open spec fn fields(headers: Option<Table<String>>) -> Seq<(Seq<char>, Seq<char>)> {
    match headers {
        Some(t) => wire::pairs(t.entries()),
        None => Seq::empty(),
    }
}

/// The body of a request, where it has one.
pub open spec fn content(body: Option<&str>) -> wire::Content {
    match body {
        Some(b) => wire::Content::Text(b@),
        None => wire::Content::Nothing,
    }
}

/// What is to be done about a request. A URL that needs TLS is not sent where
/// there is none.
pub open spec fn plan(request: wire::Http, tls: bool) -> Plan {
    if !tls && text::begins_with(request.url, "https://"@) {
        Plan::Done(0, no_tls_message())
    } else {
        Plan::Send(request)
    }
}

/// The timeout of a request that is given none: thirty seconds.
pub open spec fn default_timeout() -> Timeout {
    Timeout { secs: 30, nanos: 0 }
}

/// Plans a request that is given up after thirty seconds.
pub fn http_request(
    method: &str,
    url: &str,
    headers: Option<Table<String>>,
    body: Option<&str>,
    tls: bool,
) -> (r: Outgoing)
    ensures
        r@ == plan(
            wire::Http {
                method: method@,
                url: url@,
                headers: fields(headers),
                payload: content(body),
                timeout: Some(default_timeout()),
            },
            tls,
        ),
{
    http_request_with_timeout(method, url, headers, body, Timeout { secs: 30, nanos: 0 }, tls)
}

/// Plans a request that is given up after the timeout.
pub fn http_request_with_timeout(
    method: &str,
    url: &str,
    headers: Option<Table<String>>,
    body: Option<&str>,
    timeout: Timeout,
    tls: bool,
) -> (r: Outgoing)
    ensures
        r@ == plan(
            wire::Http {
                method: method@,
                url: url@,
                headers: fields(headers),
                payload: content(body),
                timeout: Some(timeout),
            },
            tls,
        ),
{
    if !tls && text::starts_with(url, "https://") {
        return Outgoing::Done(
            0,
            "drift-sdk: outbound HTTPS needs the \"tls\" feature — set drift-sdk = { ..., features = [\"tls\"] } in Cargo.toml (deploys then require a C cross-toolchain such as zig).".to_owned(),
        );
    }
    let headers: Vec<(String, String)> = match headers {
        Some(t) => t.into_entries(),
        None => {
            let none: Vec<(String, String)> = Vec::new();
            assert(wire::pairs(none@) =~= Seq::empty());
            none
        },
    };
    let payload = match body {
        Some(b) => Payload::Text(b.to_owned()),
        None => Payload::Nothing,
    };
    Outgoing::Send(
        HttpRequest {
            method: method.to_owned(),
            url: url.to_owned(),
            headers,
            payload,
            timeout: Some(timeout),
        },
    )
}

/// The status and the body of a reply: zero and nothing where there was no answer.
pub open spec fn result_of(o: wire::Outcome) -> (u16, Seq<char>) {
    match o {
        wire::Outcome::Accepted(status, body) => (status, body),
        wire::Outcome::Refused(status, body) => (status, body),
        wire::Outcome::Failed(_) => (0, Seq::empty()),
    }
}

/// Reads the status and the body of a reply.
pub fn http_result(reply: Reply) -> (r: (u16, String))
    ensures
        (r.0, r.1@) == result_of(reply@),
{
    match reply {
        Reply::Accepted(status, body) => (status, body),
        Reply::Refused(status, body) => (status, body),
        Reply::Failed(_) => (0, String::new()),
    }
}

// ---------------------------------------------------------------------------
// Laws
// ---------------------------------------------------------------------------

/// A request is sent unless it needs TLS that is not there; one that is not sent
/// says why.
pub proof fn nothing_is_dropped_in_silence(request: wire::Http, tls: bool)
    ensures
        plan(request, tls) is Send <==> tls || !text::begins_with(request.url, "https://"@),
        plan(request, tls) is Done ==> plan(request, tls) == Plan::Done(0, no_tls_message()),
        no_tls_message().len() > 0,
{
    reveal_strlit(
        "drift-sdk: outbound HTTPS needs the \"tls\" feature — set drift-sdk = { ..., features = [\"tls\"] } in Cargo.toml (deploys then require a C cross-toolchain such as zig).",
    );
}

/// A request is planned with what it is given: every header field of the table
/// under its name, the body as it is, and the timeout.
pub proof fn requests_hold_what_they_are_given(
    t: Table<String>,
    body: &str,
    status: u16,
    s: String,
    r: HttpRequest,
)
    ensures
        fields(None) == Seq::<(Seq<char>, Seq<char>)>::empty(),
        fields(Some(t)).len() == t.entries().len(),
        forall|i: int|
            0 <= i < t.entries().len() ==> fields(Some(t))[i] == (
                (#[trigger] t.entries()[i]).0@,
                t.entries()[i].1@,
            ),
        content(Some(body)) == wire::Content::Text(body@),
        content(None) == wire::Content::Nothing,
        default_timeout().secs == 30,
        default_timeout().nanos == 0,
        Outgoing::Done(status, s)@ == Plan::Done(status, s@),
        Outgoing::Send(r)@ == Plan::Send(r@),
{
}

/// A request that is sent is sent unchanged.
pub proof fn requests_are_sent_unchanged(request: wire::Http, tls: bool)
    ensures
        plan(request, true) == Plan::Send(request),
        plan(request, tls) is Send ==> plan(request, tls)->Send_0 == request,
{
}

/// The result of a request is the status and the body of its answer, whether the
/// status is one of an error or not; without an answer it is zero and nothing.
pub proof fn results_are_what_was_answered(status: u16, body: Seq<char>)
    ensures
        result_of(wire::Outcome::Accepted(status, body)) == (status, body),
        result_of(wire::Outcome::Refused(status, body)) == (status, body),
        result_of(wire::Outcome::Failed(body)) == (0u16, Seq::<char>::empty()),
{
}

}
