//! Serving requests: what a handler is given, and what becomes of its result.
use vstd::prelude::*;
use vstd::string::*;
use vstd::utf8::*;

use crate::document;
use crate::json;
use crate::json::{Json, Object, Tree};
use crate::percent;
use crate::query;
use crate::table::Table;
use crate::text;
use crate::wire;

verus! {

// ---------------------------------------------------------------------------
// Behind a runner
// ---------------------------------------------------------------------------

/// What was read, or null where it is not JSON.
pub open spec fn value_or_null(parsed: Result<Tree, Seq<char>>) -> Tree {
    match parsed {
        Ok(t) => t,
        Err(_) => Tree::Null,
    }
}

/// A request with its query, where that is a text, as an object of decoded texts.
pub open spec fn with_decoded_query(req: Tree) -> Tree {
    match req {
        Tree::Fields(m) => match req.text_field("query"@) {
            Some(q) => Tree::Fields(
                m.insert("query"@, Tree::Fields(query::decoded_fields(text::split(q, '&')))),
            ),
            None => req,
        },
        _ => req,
    }
}

/// Takes what was read, or null where it is not JSON.
pub fn keep_value_or_null(parsed: Result<Json, String>) -> (r: Json)
    ensures
        r@ == value_or_null(document::reading(parsed)),
{
    match parsed {
        Ok(v) => v,
        Err(_) => Json::Null,
    }
}

/// Decodes the query of a request where it is a text.
pub fn decode_request(req: Json) -> (r: Json)
    ensures
        r@ == with_decoded_query(req@),
{
    let q = req.text_field("query");
    match req {
        Json::Object(fields) => {
            let mut fields = fields;
            match q {
                Some(s) => {
                    let decoded = query::decode_query(s.as_str());
                    fields.set("query", Json::Object(decoded));
                },
                None => {},
            }
            Json::Object(fields)
        },
        _ => req,
    }
}

/// Reads the request that a runner hands over.
pub fn deployed_request(input: &str) -> (r: Json)
    ensures
        r@ == with_decoded_query(value_or_null(document::parsed(input@))),
{
    decode_request(keep_value_or_null(document::parse(input)))
}

/// Reads the request that a runner hands over to a function that streams. Its
/// query stays as it is.
pub fn streamed_request(input: &str) -> (r: Json)
    ensures
        r@ == value_or_null(document::parsed(input@)),
{
    keep_value_or_null(document::parse(input))
}

/// Writes the response for a runner.
pub fn deployed_response(resp: Json) -> (r: String)
    ensures
        r@ == document::rendered(resp@),
{
    document::render(resp)
}

// ---------------------------------------------------------------------------
// A local server
// ---------------------------------------------------------------------------

/// The port to listen on: what the variable holds, and 8080 where it holds no
/// port.
pub open spec fn port_of(variable: Option<Seq<char>>) -> int {
    match variable {
        Some(s) => json::or_else(text::unsigned(s, u16::MAX as int), 8080),
        None => 8080,
    }
}

/// Reads the port to listen on.
pub fn listen_port(variable: Option<String>) -> (r: u16)
    ensures
        r == port_of(json::text_opt(variable)),
{
    match variable {
        Some(s) => match text::read_unsigned(s.as_str(), 65535) {
            Some(n) => n as u16,
            None => 8080,
        },
        None => 8080,
    }
}

/// The target of a request line: what stands between its first two spaces, or
/// behind the only one.
pub open spec fn target_of(line: Seq<char>) -> Option<Seq<char>> {
    match text::sides(text::trimmed(line), ' ') {
        Some((_, rest)) => Some(text::head(rest, ' ')),
        None => None,
    }
}

/// Reads the target out of a request line.
pub fn request_target(line: &str) -> (r: Option<String>)
    ensures
        json::text_opt(r) == target_of(line@),
{
    let line = text::trim(line);
    match text::split_once(line.as_str(), ' ') {
        Some((_, rest)) => Some(text::head_of(rest.as_str(), ' ')),
        None => None,
    }
}

/// The head of a request, as far as it has been read.
#[derive(Debug, PartialEq, Eq)]
pub struct RequestHead {
    pub headers: Object,
    pub content_length: usize,
}

/// What the head of a request says.
#[verifier::ext_equal]
pub struct Head {
    pub headers: Map<Seq<char>, Tree>,
    pub content_length: int,
}

impl View for RequestHead {
    type V = Head;

    open spec fn view(&self) -> Head {
        Head { headers: self.headers.fields(), content_length: self.content_length as int }
    }
}

/// The length that a header field gives: zero where it is no length.
pub open spec fn length_of(value: Seq<char>) -> int {
    json::or_else(text::unsigned(value, usize::MAX as int), 0)
}

/// The head with one more line: a field goes under its name in lower case, and one
/// that is named like `content-length` gives the length of the body. A line that
/// is no field changes nothing.
pub open spec fn head_with(head: Head, line: Seq<char>) -> Head {
    match text::sides_of_two(text::trimmed(line), ':', ' ') {
        Some((k, v)) => Head {
            headers: head.headers.insert(text::lowercase(k), Tree::Text(v)),
            content_length: if text::lowered(k) == text::lowered("content-length"@) {
                length_of(v)
            } else {
                head.content_length
            },
        },
        None => head,
    }
}

impl RequestHead {
    /// The head of which nothing has been read.
    pub fn new() -> (r: RequestHead)
        ensures
            r@ == (Head { headers: Map::empty(), content_length: 0 }),
    {
        RequestHead { headers: Table::empty(), content_length: 0 }
    }

    /// Takes the next line, and says whether another one belongs to the head: a
    /// blank line ends it.
    pub fn feed(&mut self, line: &str) -> (more: bool)
        ensures
            more == (text::trimmed(line@).len() > 0),
            more ==> final(self)@ == head_with(old(self)@, line@),
            !more ==> final(self)@ == old(self)@,
    {
        let line = text::trim(line);
        if line.as_str().is_empty() {
            return false;
        }
        match text::split_once_at_two(line.as_str(), ':', ' ') {
            Some((k, v)) => {
                if text::same_but_for_case(k.as_str(), "content-length") {
                    self.content_length = match text::read_unsigned(
                        v.as_str(),
                        usize::MAX as u64,
                    ) {
                        Some(n) => n as usize,
                        None => 0,
                    };
                }
                let name = text::to_lowercase(k.as_str());
                self.headers.set(name.as_str(), Json::String(v));
            },
            None => {},
        }
        true
    }
}

/// The body of a request: null where it is empty, else JSON where it is JSON, else
/// a text.
pub open spec fn body_of(content: Seq<u8>) -> Tree {
    if content.len() == 0 {
        Tree::Null
    } else {
        let s = percent::text_of(content);
        wire::value_or_text(document::parsed(s), s)
    }
}

/// Reads the body of a request.
pub fn request_body(content: &Vec<u8>) -> (r: Json)
    ensures
        r@ == body_of(content@),
{
    if content.len() == 0 {
        Json::Null
    } else {
        wire::read_value_or_text(percent::read_lossy(content))
    }
}

/// The two sides of the `?` of a target.
pub open spec fn path_and_query(target: Seq<char>) -> (Seq<char>, Seq<char>) {
    match text::sides(target, '?') {
        Some(p) => p,
        None => (target, Seq::empty()),
    }
}

/// The request that a local server hands to a handler.
pub open spec fn local_request_of(
    target: Seq<char>,
    headers: Map<Seq<char>, Tree>,
    body: Tree,
) -> Tree {
    let (path, query) = path_and_query(target);
    Tree::Fields(
        map![
            "path"@ => Tree::Text(path),
            "headers"@ => Tree::Fields(headers),
            "query"@ => Tree::Text(query),
            "body"@ => body
        ],
    )
}

/// Puts together the request that a local server hands to a handler.
pub fn local_request(target: &str, headers: Object, body: Json) -> (r: Json)
    ensures
        r@ == local_request_of(target@, headers.fields(), body@),
{
    let (path, query) = match text::split_once(target, '?') {
        Some(p) => p,
        None => (target.to_owned(), String::new()),
    };
    let mut req: Object = Table::empty();
    req.set("path", Json::String(path));
    req.set("headers", Json::Object(headers));
    req.set("query", Json::String(query));
    req.set("body", body);
    Json::Object(req)
}

/// A request, as far as a local server has received it.
#[derive(Debug, PartialEq, Eq)]
pub struct Reception {
    target: Option<String>,
    head: RequestHead,
}

/// What a local server has received of a request.
#[verifier::ext_equal]
pub struct Received {
    pub target: Option<Seq<char>>,
    pub head: Head,
}

impl View for Reception {
    type V = Received;

    closed spec fn view(&self) -> Received {
        Received { target: json::text_opt(self.target), head: self.head@ }
    }
}

/// What a local server is to read next: a line, or the content, of so many bytes.
/// A request without a target is passed over.
#[derive(Debug, Clone, Copy, PartialEq, Eq)]
pub enum Next {
    Line,
    Content(usize),
    PassOver,
}

/// That nothing has been received.
pub open spec fn nothing_received() -> Received {
    Received { target: None, head: Head { headers: Map::empty(), content_length: 0 } }
}

/// What a line adds to what has been received: the first one gives the target,
/// those behind it make the head, and a blank one ends it.
pub open spec fn received_with(r: Received, line: Seq<char>) -> Received {
    match r.target {
        None => Received { target: target_of(line), ..r },
        Some(_) => if text::trimmed(line).len() > 0 {
            Received { head: head_with(r.head, line), ..r }
        } else {
            r
        },
    }
}

/// What is to be read behind a line.
pub open spec fn next_after(r: Received, line: Seq<char>) -> Next {
    match r.target {
        None => if target_of(line) is Some {
            Next::Line
        } else {
            Next::PassOver
        },
        Some(_) => if text::trimmed(line).len() > 0 {
            Next::Line
        } else {
            Next::Content(r.head.content_length as usize)
        },
    }
}

/// The request that has been received, once its content is there.
pub open spec fn received_request(r: Received, content: Seq<u8>) -> Option<Tree> {
    match r.target {
        Some(t) => Some(local_request_of(t, r.head.headers, body_of(content))),
        None => None,
    }
}

impl Reception {
    /// Nothing has been received.
    pub fn new() -> (r: Reception)
        ensures
            r@ == nothing_received(),
    {
        Reception { target: None, head: RequestHead::new() }
    }

    /// Takes the next line, and says what is to be read behind it.
    pub fn line(&mut self, line: &str) -> (next: Next)
        ensures
            final(self)@ == received_with(old(self)@, line@),
            next == next_after(old(self)@, line@),
    {
        match &self.target {
            None => {
                self.target = request_target(line);
                if self.target.is_some() {
                    Next::Line
                } else {
                    Next::PassOver
                }
            },
            Some(_) => {
                if self.head.feed(line) {
                    Next::Line
                } else {
                    Next::Content(self.head.content_length)
                }
            },
        }
    }

    /// Puts the request together, given its content.
    pub fn request(self, content: &Vec<u8>) -> (r: Option<Json>)
        ensures
            json::tree_opt(r) == received_request(self@, content@),
    {
        match self.target {
            Some(t) => Some(local_request(t.as_str(), self.head.headers, request_body(content))),
            None => None,
        }
    }
}

/// The status of a response: 200 where it gives none.
pub open spec fn status_of(resp: Tree) -> int {
    json::or_else(resp.integer_field("status"@, 0, u64::MAX as int), 200)
}

/// An HTTP response of JSON.
pub open spec fn response_text(status: nat, body: Seq<char>) -> Seq<char> {
    "HTTP/1.1 "@ + text::decimal(status)
        + " OK\r\nContent-Type: application/json\r\nContent-Length: "@ + text::decimal(
        encode_utf8(body).len(),
    ) + "\r\n\r\n"@ + body
}

/// Writes an HTTP response of JSON.
pub fn response_with(status: u64, body: &str) -> (r: String)
    ensures
        r@ == response_text(status as nat, body@),
{
    let code = text::decimal_of(status as u128);
    let length = text::decimal_of(body.as_bytes().len() as u128);
    let r = text::join("HTTP/1.1 ", code.as_str());
    let r = text::join(
        r.as_str(),
        " OK\r\nContent-Type: application/json\r\nContent-Length: ",
    );
    let r = text::join(r.as_str(), length.as_str());
    let r = text::join(r.as_str(), "\r\n\r\n");
    text::join(r.as_str(), body)
}

/// Writes the HTTP response for what a handler returned.
pub fn local_response(resp: Json) -> (r: String)
    ensures
        r@ == response_text(status_of(resp@) as nat, document::rendered(resp@)),
{
    let status: u64 = match resp.get("status") {
        Some(s) => match s.as_u64() {
            Some(n) => n,
            None => 200,
        },
        None => 200,
    };
    let body = document::render(resp);
    response_with(status, body.as_str())
}

// ---------------------------------------------------------------------------
// Server-sent events
// ---------------------------------------------------------------------------

/// The head of a response that streams events.
pub open spec fn stream_head() -> Seq<char> {
    "HTTP/1.1 200 OK\r\nContent-Type: text/event-stream\r\nCache-Control: no-cache, no-transform\r\nConnection: keep-alive\r\nX-Accel-Buffering: no\r\n\r\n"@
}

/// The head of a response that streams events.
pub fn event_stream_head() -> (r: String)
    ensures
        r@ == stream_head(),
{
    "HTTP/1.1 200 OK\r\nContent-Type: text/event-stream\r\nCache-Control: no-cache, no-transform\r\nConnection: keep-alive\r\nX-Accel-Buffering: no\r\n\r\n".to_owned()
}

/// An event on a stream: a line with its name, where it has one, a line with its
/// data, and a blank line.
pub open spec fn event_text(event: Seq<char>, data: Seq<char>) -> Seq<char> {
    let body = "data: "@ + data + "\n\n"@;
    if event.len() == 0 {
        body
    } else {
        "event: "@ + event + "\n"@ + body
    }
}

/// Writes an event whose data is given as text.
pub fn event_with(event: &str, data: &str) -> (r: String)
    ensures
        r@ == event_text(event@, data@),
{
    let body = text::join("data: ", data);
    let body = text::join(body.as_str(), "\n\n");
    if event.is_empty() {
        body
    } else {
        let name = text::join("event: ", event);
        let name = text::join(name.as_str(), "\n");
        text::join(name.as_str(), body.as_str())
    }
}

/// Writes an event. Its data is one line.
pub fn sse_event(event: &str, data: Json) -> (r: String)
    ensures
        r@ == event_text(event@, document::rendered(data@)),
        !document::rendered(data@).contains('\n'),
{
    let data = document::render(data);
    event_with(event, data.as_str())
}

// ---------------------------------------------------------------------------
// WebSockets
// ---------------------------------------------------------------------------

/// A connection on which each message is a line.
#[derive(Debug, Clone, Copy, PartialEq, Eq)]
pub struct WsConn {}

/// The message in a line: JSON where it is JSON, else a text. Only where there is
/// no line is there no message.
pub open spec fn message_in(line: Option<Seq<char>>) -> Option<Tree> {
    match line {
        Some(s) => Some(wire::value_or_text(document::parsed(s), s)),
        None => None,
    }
}

impl WsConn {
    /// A connection.
    pub fn new() -> (r: WsConn)
        ensures
            r == (WsConn {  }),
    {
        WsConn {  }
    }

    /// Reads the message in the next line from the client. There is no line once
    /// the client has disconnected.
    pub fn read(&self, line: Option<String>) -> (r: Option<Json>)
        ensures
            json::tree_opt(r) == message_in(json::text_opt(line)),
    {
        match line {
            Some(s) => Some(wire::read_value_or_text(s)),
            None => None,
        }
    }

    /// Writes a JSON message to the client, as one line.
    pub fn write(&self, data: Json) -> (r: String)
        ensures
            r@ == document::rendered(data@) + "\n"@,
            !document::rendered(data@).contains('\n'),
    {
        let data = document::render(data);
        self.write_raw(data.as_str())
    }

    /// Writes a message to the client as it is.
    pub fn write_raw(&self, msg: &str) -> (r: String)
        ensures
            r@ == msg@ + "\n"@,
    {
        text::join(msg, "\n")
    }
}

/// The request that opens a connection: the first message, or null.
pub fn opening_request(first: Option<Json>) -> (r: Json)
    ensures
        r@ == json::or_else(json::tree_opt(first), Tree::Null),
{
    match first {
        Some(v) => v,
        None => Json::Null,
    }
}

// ---------------------------------------------------------------------------
// Laws
// ---------------------------------------------------------------------------

/// An event ends in a blank line.
pub proof fn event_ends_in_a_blank_line(event: Seq<char>, data: Seq<char>)
    ensures
        event_text(event, data).len() >= 2,
        event_text(event, data).last() == '\n',
        event_text(event, data)[event_text(event, data).len() - 2] == '\n',
{
    reveal_strlit("\n\n");
}

/// A request is handed over with its path and its query parted at the first `?`.
pub proof fn target_is_parted(path: Seq<char>, query: Seq<char>)
    requires
        !path.contains('?'),
    ensures
        path_and_query(path + seq!['?'] + query) == (path, query),
        path_and_query(path) == (path, Seq::<char>::empty()),
{
    text::lemma_split_at(path, '?', query);
    text::lemma_unsplit(path, '?');
}

/// Every line is a message, a blank one too: a connection is out of messages only
/// once there is no line.
pub proof fn every_line_is_a_message(line: Option<Seq<char>>)
    ensures
        message_in(line) is Some <==> line is Some,
{
}

/// What a local server has received after lines.
pub open spec fn received_after(lines: Seq<Seq<char>>) -> Received
    decreases lines.len(),
{
    if lines.len() == 0 {
        nothing_received()
    } else {
        received_with(received_after(lines.drop_last()), lines.last())
    }
}

/// The head that lines make.
pub open spec fn head_of(lines: Seq<Seq<char>>) -> Head
    decreases lines.len(),
{
    if lines.len() == 0 {
        Head { headers: Map::empty(), content_length: 0 }
    } else {
        head_with(head_of(lines.drop_last()), lines.last())
    }
}

/// A request line with a target and the lines of a head, none of them blank, are
/// received as that target and that head; the blank line behind them asks for as
/// much content as the head announces.
pub proof fn request_is_received(first: Seq<char>, fields: Seq<Seq<char>>, blank: Seq<char>)
    requires
        target_of(first) is Some,
        forall|i: int| 0 <= i < fields.len() ==> text::trimmed(#[trigger] fields[i]).len() > 0,
        text::trimmed(blank).len() == 0,
    ensures
        ({
            let r = received_after(seq![first] + fields);
            &&& r == (Received { target: target_of(first), head: head_of(fields) })
            &&& received_with(r, blank) == r
            &&& next_after(r, blank) == Next::Content(r.head.content_length as usize)
        }),
    decreases fields.len(),
{
    let lines = seq![first] + fields;
    if fields.len() == 0 {
        assert(lines.drop_last() =~= Seq::empty());
        assert(received_after(Seq::<Seq<char>>::empty()) == nothing_received());
    } else {
        let before = fields.drop_last();
        assert forall|i: int| 0 <= i < before.len() implies text::trimmed(
            #[trigger] before[i],
        ).len() > 0 by {
            assert(before[i] == fields[i]);
        }
        request_is_received(first, before, blank);
        assert(lines.drop_last() =~= seq![first] + before);
        assert(text::trimmed(fields[fields.len() - 1]).len() > 0);
    }
}

/// The line of a header field.
pub open spec fn field_line(k: Seq<char>, v: Seq<char>) -> Seq<char> {
    k.push(':').push(' ') + v
}

/// A header field is kept as it came: its value, character for character, under its
/// name in lower case. Every other field stays, and so does the announced length,
/// unless the field is the one that announces it. What is blank around the line
/// plays no part.
pub proof fn header_field_is_kept(
    head: Head,
    before: Seq<char>,
    k: Seq<char>,
    v: Seq<char>,
    after: Seq<char>,
)
    requires
        text::laws::blank(before),
        text::laws::blank(after),
        text::laws::tight(field_line(k, v)),
        forall|i: int| 0 <= i < k.len() ==> !(#[trigger] text::laws::stand_at(k, ':', ' ', i)),
    ensures
        ({
            let fed = head_with(head, before + field_line(k, v) + after);
            &&& fed.headers == head.headers.insert(text::lowercase(k), Tree::Text(v))
            &&& text::lowered(k) != "content-length"@ ==> fed.content_length == head.content_length
            &&& text::lowered(k) == "content-length"@ ==> fed.content_length == (
            match text::unsigned(v, usize::MAX as int) {
                Some(n) => n,
                None => 0,
            })
        }),
{
    let line = field_line(k, v);
    text::laws::trimming_takes_what_is_around(before, line, after);
    assert forall|i: int| 0 <= i < k.len() implies !(#[trigger] text::laws::stand_at(
        k.push(':').push(' ') + v,
        ':',
        ' ',
        i,
    )) by {
        assert(!text::laws::stand_at(k, ':', ' ', i));
    }
    text::laws::two_part_the_text(k, ':', ' ', v);
    reveal_strlit("content-length");
    assert(text::lowered("content-length"@) =~= "content-length"@);
}

/// A line that is no field changes nothing.
pub proof fn other_lines_are_passed_over(head: Head, line: Seq<char>)
    requires
        text::laws::tight(line),
        forall|i: int| 0 <= i < line.len() ==> !(#[trigger] text::laws::stand_at(line, ':', ' ', i)),
    ensures
        head_with(head, line) == head,
{
    text::laws::tight_text_is_trimmed_to_itself(line);
    text::laws::nothing_parts_the_text(line, ':', ' ');
}

/// The target is the second word of a request line, as it came, whatever stands
/// behind it; a line of one word has none.
pub proof fn target_is_the_second_word(
    before: Seq<char>,
    method: Seq<char>,
    target: Seq<char>,
    version: Seq<char>,
    after: Seq<char>,
)
    requires
        text::laws::blank(before),
        text::laws::blank(after),
        !method.contains(' '),
        !target.contains(' '),
    ensures
        text::laws::tight(method + seq![' '] + (target + seq![' '] + version)) ==> target_of(
            before + (method + seq![' '] + (target + seq![' '] + version)) + after,
        ) == Some(target),
        text::laws::tight(method + seq![' '] + target) ==> target_of(
            before + (method + seq![' '] + target) + after,
        ) == Some(target),
        text::laws::tight(method) ==> target_of(before + method + after) is None,
{
    let full = method + seq![' '] + (target + seq![' '] + version);
    if text::laws::tight(full) {
        text::laws::trimming_takes_what_is_around(before, full, after);
        text::lemma_split_at(method, ' ', target + seq![' '] + version);
        text::lemma_split_at(target, ' ', version);
    }
    let short = method + seq![' '] + target;
    if text::laws::tight(short) {
        text::laws::trimming_takes_what_is_around(before, short, after);
        text::lemma_split_at(method, ' ', target);
        text::lemma_unsplit(target, ' ');
    }
    if text::laws::tight(method) {
        text::laws::trimming_takes_what_is_around(before, method, after);
        text::lemma_unsplit(method, ' ');
    }
}

/// The body of a request is the value that its text is, the text itself where it is
/// not JSON, and null where there is none.
pub proof fn body_is_what_came(s: Seq<char>, value: Tree)
    ensures
        body_of(Seq::empty()) == Tree::Null,
        encode_utf8(s).len() > 0 && document::parsed(s) == Ok::<Tree, Seq<char>>(value) ==> body_of(
            encode_utf8(s),
        ) == value,
        encode_utf8(s).len() > 0 && document::parsed(s) is Err ==> body_of(encode_utf8(s))
            == Tree::Text(s),
{
    percent::laws::bytes_are_read_as_text(encode_utf8(s), s);
}

/// A handler behind a runner is given the request as it came, but for a query that
/// is a text: that is handed over as its decoded parameters, beside every other
/// field.
pub proof fn deployed_request_is_handed_over(m: Map<Seq<char>, Tree>, q: Seq<char>)
    ensures
        m.contains_key("query"@) && m["query"@] == Tree::Text(q) ==> with_decoded_query(
            Tree::Fields(m),
        ) == Tree::Fields(m.insert("query"@, Tree::Fields(query::handed_over(q)))),
        !m.contains_key("query"@) || !(m["query"@] is Text) ==> with_decoded_query(Tree::Fields(m))
            == Tree::Fields(m),
{
}

/// A request that is no object is handed over as it came, and one that is not JSON
/// as null.
pub proof fn other_requests_are_handed_over(v: Tree, why: Seq<char>)
    ensures
        !(v is Fields) ==> with_decoded_query(v) == v,
        value_or_null(Ok(v)) == v,
        value_or_null(Err(why)) == Tree::Null,
{
}

/// The port is the number that the variable writes, where that is a port.
pub proof fn port_is_the_one_given(n: nat, s: Seq<char>)
    ensures
        n <= 65535 ==> port_of(Some(text::decimal(n))) == n,
        text::unsigned(s, 65535) is Some ==> port_of(Some(s)) == text::unsigned(s, 65535)->0,
        text::unsigned(s, 65535) is None ==> port_of(Some(s)) == 8080,
        port_of(None) == 8080,
{
    if n <= 65535 {
        text::laws::written_number_is_read(n, 65535);
    }
}

/// A local server hands over the path, the query as it is written, the header
/// fields and the body, each under its name, and nothing else.
pub proof fn local_request_is_handed_over(
    path: Seq<char>,
    query: Seq<char>,
    headers: Map<Seq<char>, Tree>,
    body: Tree,
    k: Seq<char>,
)
    requires
        !path.contains('?'),
    ensures
        ({
            let req = local_request_of(path + seq!['?'] + query, headers, body);
            let plain = local_request_of(path, headers, body);
            &&& req.field("path"@) == Some(Tree::Text(path))
            &&& req.field("query"@) == Some(Tree::Text(query))
            &&& req.field("headers"@) == Some(Tree::Fields(headers))
            &&& req.field("body"@) == Some(body)
            &&& req.field(k) is Some ==> k == "path"@ || k == "query"@ || k == "headers"@ || k
                == "body"@
            &&& plain.field("path"@) == Some(Tree::Text(path))
            &&& plain.field("query"@) == Some(Tree::Text(Seq::empty()))
            &&& plain.field("headers"@) == Some(Tree::Fields(headers))
            &&& plain.field("body"@) == Some(body)
        }),
{
    target_is_parted(path, query);
    reveal_strlit("path");
    reveal_strlit("query");
    reveal_strlit("headers");
    reveal_strlit("body");
    assert("path"@.len() == 4 && "query"@.len() == 5 && "headers"@.len() == 7 && "body"@.len() == 4);
    assert("path"@[0] != "body"@[0]);
}

/// What has been received makes the request, once its content is there.
pub proof fn received_parts_make_the_request(
    target: Seq<char>,
    head: Head,
    content: Seq<u8>,
)
    ensures
        received_request(Received { target: Some(target), head }, content) == Some(
            local_request_of(target, head.headers, body_of(content)),
        ),
        received_request(Received { target: None, head }, content) is None,
{
}

/// A first line without a target has the request passed over.
pub proof fn request_without_a_target_is_passed_over(r: Received, line: Seq<char>)
    requires
        r.target is None,
        target_of(line) is None,
    ensures
        next_after(r, line) == Next::PassOver,
        received_with(r, line).target is None,
{
}

/// The status of a response is the one that it gives, and 200 where it gives none
/// that a status can be.
pub proof fn status_is_the_one_given(m: Map<Seq<char>, Tree>, n: int, v: Tree)
    ensures
        m.contains_key("status"@) && m["status"@] == Tree::Number(json::Numeral::Int(n)) && 0 <= n
            <= u64::MAX ==> status_of(Tree::Fields(m)) == n,
        m.contains_key("status"@) && m["status"@] == Tree::Number(json::Numeral::Int(n)) && !(0 <= n
            <= u64::MAX) ==> status_of(Tree::Fields(m)) == 200,
        !m.contains_key("status"@) || !(m["status"@] is Number) ==> status_of(Tree::Fields(m))
            == 200,
        !(v is Fields) ==> status_of(v) == 200,
{
}

/// A response ends in its body, whole, behind the blank line, and announces as many
/// bytes as the body has.
pub proof fn response_carries_its_body(status: nat, body: Seq<char>)
    ensures
        response_text(status, body) == "HTTP/1.1 "@ + text::decimal(status)
            + " OK\r\nContent-Type: application/json\r\nContent-Length: "@ + text::decimal(
            encode_utf8(body).len(),
        ) + "\r\n\r\n"@ + body,
        response_text(status, body).skip(response_text(status, body).len() - body.len()) == body,
{
    let r = response_text(status, body);
    assert(r.skip(r.len() - body.len()) =~= body);
}

/// An event carries its data, whole, behind `data: `, and its name, where it has
/// one, on a line before that.
pub proof fn event_carries_its_data(event: Seq<char>, data: Seq<char>)
    ensures
        event_text(Seq::empty(), data) == "data: "@ + data + seq!['\n', '\n'],
        event.len() > 0 ==> event_text(event, data) == "event: "@ + event + seq!['\n'] + (
        "data: "@ + data + seq!['\n', '\n']),
{
    reveal_strlit("\n");
    reveal_strlit("\n\n");
    assert("\n"@ =~= seq!['\n']);
    assert("\n\n"@ =~= seq!['\n', '\n']);
}

/// A message is the value that its line is, and the line itself where it is not
/// JSON.
pub proof fn message_is_its_line(line: Seq<char>, value: Tree)
    ensures
        document::parsed(line) == Ok::<Tree, Seq<char>>(value) ==> message_in(Some(line)) == Some(
            value,
        ),
        document::parsed(line) is Err ==> message_in(Some(line)) == Some(Tree::Text(line)),
        message_in(None) is None,
{
}

/// What has been read of a head is what it holds.
pub proof fn heads_are_what_was_read(h: RequestHead)
    ensures
        h@.headers == h.headers.fields(),
        h@.content_length == h.content_length,
{
}

}
