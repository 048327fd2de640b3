use drift_sdk::document;
use drift_sdk::http::{self, Outgoing};
use drift_sdk::json::Json;
use drift_sdk::serve::{self, Next, Reception, RequestHead};
use drift_sdk::slices::{self, Surroundings};
use drift_sdk::table::Table;
use drift_sdk::wire::{HttpRequest, Payload, Reply, Timeout};
use drift_sdk::{caller_slice, http_request, http_request_with_timeout, slice, WsConn};

fn read(s: &str) -> Json {
    document::parse(s).unwrap()
}

fn table(pairs: &[(&str, &str)]) -> Table<String> {
    let mut t = Table::new();
    for (k, v) in pairs {
        t.insert(k.to_string(), v.to_string());
    }
    t
}

fn fields(pairs: &[(&str, &str)]) -> Vec<(String, String)> {
    pairs.iter().map(|(k, v)| (k.to_string(), v.to_string())).collect()
}

// --- HTTP ------------------------------------------------------------------

#[test]
fn a_request_is_given_thirty_seconds() {
    assert_eq!(
        http_request("GET", "http://x", Some(table(&[("B", "2"), ("A", "1")])), Some("body"), false),
        Outgoing::Send(HttpRequest {
            method: "GET".to_string(),
            url: "http://x".to_string(),
            headers: fields(&[("A", "1"), ("B", "2")]),
            payload: Payload::Text("body".to_string()),
            timeout: Some(Timeout { secs: 30, nanos: 0 }),
        })
    );
}

#[test]
fn a_timeout_can_be_given() {
    let t = Timeout { secs: 1, nanos: 500 };
    assert_eq!(
        http_request_with_timeout("POST", "http://x", None, None, t, false),
        Outgoing::Send(HttpRequest {
            method: "POST".to_string(),
            url: "http://x".to_string(),
            headers: vec![],
            payload: Payload::Nothing,
            timeout: Some(t),
        })
    );
}

#[test]
fn https_is_not_sent_without_tls() {
    assert_eq!(
        http_request("GET", "https://x", None, None, false),
        Outgoing::Done(
            0,
            "drift-sdk: outbound HTTPS needs the \"tls\" feature — set \
             drift-sdk = { ..., features = [\"tls\"] } in Cargo.toml (deploys then \
             require a C cross-toolchain such as zig)."
                .to_string()
        )
    );
    assert!(matches!(http_request("GET", "https://x", None, None, true), Outgoing::Send(_)));
    assert!(matches!(http_request("GET", "HTTPS://x", None, None, false), Outgoing::Send(_)));
    assert!(matches!(http_request("GET", "", None, None, false), Outgoing::Send(_)));
}

#[test]
fn statuses_and_bodies_are_read() {
    assert_eq!(http::http_result(Reply::Accepted(201, "a".to_string())), (201, "a".to_string()));
    assert_eq!(http::http_result(Reply::Refused(500, "b".to_string())), (500, "b".to_string()));
    assert_eq!(http::http_result(Reply::Failed("c".to_string())), (0, String::new()));
}

// --- Slices ----------------------------------------------------------------

fn around(link: &str) -> Surroundings {
    Surroundings { link_url: link.to_string(), own_name: "me".to_string(), tls: false }
}

#[test]
fn variables_of_links_are_named() {
    assert_eq!(slices::link_env_name("c12"), "DRIFT_LINK_C12_URL");
    assert_eq!(slices::link_env_name("my-slice.x"), "DRIFT_LINK_MY_SLICE_X_URL");
    assert_eq!(slices::link_env_name("é"), "DRIFT_LINK___URL");
    assert_eq!(slices::link_env_name("ß"), "DRIFT_LINK_SS_URL");
}

#[test]
fn urls_meet_in_one_slash() {
    let c = slice("c12");
    assert_eq!(c.url("http://a//", "//api/x").unwrap(), "http://a/api/x");
    assert_eq!(c.url("http://a", "x").unwrap(), "http://a/x");
    assert_eq!(c.url("http://a/", "").unwrap(), "http://a/");
    assert_eq!(
        c.url("", "/x").unwrap_err(),
        "drift: not linked to slice \"c12\" — run `drift slice link add c12`"
    );
}

#[test]
fn a_missing_link_is_said() {
    assert_eq!(
        slice("c12").get(&around(""), "/x"),
        Outgoing::Done(
            0,
            "drift: not linked to slice \"c12\" — run `drift slice link add c12`".to_string()
        )
    );
}

#[test]
fn calls_carry_the_name_of_the_slice() {
    match slice("c12").get(&around("http://a/"), "/x") {
        Outgoing::Send(r) => {
            assert_eq!(r.method, "GET");
            assert_eq!(r.url, "http://a/x");
            assert_eq!(r.headers, fields(&[("X-Drift-Slice", "me")]));
            assert_eq!(r.payload, Payload::Nothing);
            assert_eq!(r.timeout, Some(Timeout { secs: 30, nanos: 0 }));
        }
        other => panic!("{:?}", other),
    }
    match slice("c12").post(&around("http://a"), "/x", Some("{}")) {
        Outgoing::Send(r) => {
            assert_eq!(
                r.headers,
                fields(&[("Content-Type", "application/json"), ("X-Drift-Slice", "me")])
            );
            assert_eq!(r.payload, Payload::Text("{}".to_string()));
        }
        other => panic!("{:?}", other),
    }
    let given = table(&[("X-Drift-Slice", "forged"), ("A", "1")]);
    match slice("c12").request(&around("http://a"), "PUT", "x", Some(given), None) {
        Outgoing::Send(r) => {
            assert_eq!(r.method, "PUT");
            assert_eq!(r.headers, fields(&[("A", "1"), ("X-Drift-Slice", "me")]));
        }
        other => panic!("{:?}", other),
    }
}

#[test]
fn a_link_over_https_needs_tls() {
    match slice("s").get(&around("https://a"), "x") {
        Outgoing::Done(0, m) => assert!(m.starts_with("drift-sdk: outbound HTTPS")),
        other => panic!("{:?}", other),
    }
}

#[test]
fn the_calling_slice_is_found() {
    assert_eq!(caller_slice(&read("{\"headers\":{\"x-drift-slice\":\"a\"}}")), "a");
    assert_eq!(caller_slice(&read("{\"headers\":{\"a\":1,\"X-DRIFT-Slice\":\"b\"}}")), "b");
    assert_eq!(
        caller_slice(&read("{\"headers\":{\"x-drift-slice\":\"low\",\"X-Drift-Slice\":\"up\"}}")),
        "up"
    );
    assert_eq!(
        caller_slice(&read("{\"headers\":{\"X-Drift-Slice\":1,\"x-drift-slice\":\"low\"}}")),
        ""
    );
    assert_eq!(caller_slice(&read("{\"headers\":{}}")), "");
    assert_eq!(caller_slice(&read("{\"headers\":[]}")), "");
    assert_eq!(caller_slice(&Json::Null), "");
}

#[test]
fn a_callers_name_arrives() {
    let out = match slice("c12").get(&around("http://a"), "/x?y=1") {
        Outgoing::Send(r) => r,
        other => panic!("{:?}", other),
    };
    let mut head = RequestHead::new();
    for (k, v) in &out.headers {
        assert!(head.feed(&format!("{}: {}\r\n", k, v)));
    }
    assert!(!head.feed("\r\n"));
    let req = serve::local_request("/x?y=1", head.headers, serve::request_body(&vec![]));
    assert_eq!(caller_slice(&req), "me");
}

// --- Serving ---------------------------------------------------------------

#[test]
fn a_deployed_request_has_its_query_decoded() {
    let r = serve::deployed_request("{\"path\":\"/p\",\"query\":\"a=1%202&b\"}");
    assert_eq!(
        document::render(r),
        "{\"path\":\"/p\",\"query\":{\"a\":\"1 2\",\"b\":\"\"}}"
    );
    let r = serve::deployed_request("{\"query\":{\"a\":\"x\"}}");
    assert_eq!(document::render(r), "{\"query\":{\"a\":\"x\"}}");
    assert_eq!(serve::deployed_request("not json"), Json::Null);
    assert_eq!(serve::deployed_request("\"text\""), Json::text("text"));
    assert_eq!(serve::keep_value_or_null(Err("e".to_string())), Json::Null);
}

#[test]
fn a_streamed_request_keeps_its_query() {
    let r = serve::streamed_request("{\"query\":\"a=1\"}");
    assert_eq!(document::render(r), "{\"query\":\"a=1\"}");
    assert_eq!(serve::streamed_request(""), Json::Null);
}

#[test]
fn a_deployed_response_is_written() {
    assert_eq!(serve::deployed_response(read("{ \"status\": 200 }")), "{\"status\":200}");
}

#[test]
fn the_port_is_read() {
    let port = |s: &str| serve::listen_port(Some(s.to_string()));
    assert_eq!(port("3000"), 3000);
    assert_eq!(port("65536"), 8080);
    assert_eq!(port("x"), 8080);
    assert_eq!(port(""), 8080);
    assert_eq!(port("0"), 0);
    assert_eq!(serve::listen_port(None), 8080);
}

#[test]
fn the_target_of_a_request_line_is_read() {
    let target = |s: &str| serve::request_target(s);
    assert_eq!(target("GET /x?y=1 HTTP/1.1\r\n"), Some("/x?y=1".to_string()));
    assert_eq!(target("GET /x"), Some("/x".to_string()));
    assert_eq!(target("GET  /x"), Some(String::new()));
    assert_eq!(target("GET\r\n"), None);
    assert_eq!(target("\r\n"), None);
}

#[test]
fn the_head_of_a_request_is_read() {
    let mut h = RequestHead::new();
    assert!(h.feed("Host: a:80\r\n"));
    assert!(h.feed("CONTENT-Length: 12\r\n"));
    assert!(h.feed("no field\r\n"));
    assert!(h.feed("X-Colon: a: b\r\n"));
    assert!(h.feed("host: later\n"));
    assert!(!h.feed("\r\n"));
    assert_eq!(h.content_length, 12);
    assert_eq!(
        document::render(Json::Object(h.headers)),
        "{\"content-length\":\"12\",\"host\":\"later\",\"x-colon\":\"a: b\"}"
    );
    let mut h = RequestHead::new();
    h.feed("Content-Length: 5");
    h.feed("Content-Length: x");
    assert_eq!(h.content_length, 0);
}

#[test]
fn names_of_header_fields_are_lowered() {
    let mut h = RequestHead::new();
    h.feed("ÀB: v");
    assert_eq!(document::render(Json::Object(h.headers)), "{\"àb\":\"v\"}");
}

#[test]
fn the_body_of_a_request_is_read() {
    let body = |s: &str| document::render(serve::request_body(&s.as_bytes().to_vec()));
    assert_eq!(body(""), "null");
    assert_eq!(body("{\"a\":1}"), "{\"a\":1}");
    assert_eq!(body("plain"), "\"plain\"");
    assert_eq!(serve::request_body(&vec![0x61, 0xff]), Json::text("a\u{fffd}"));
}

#[test]
fn a_local_request_is_put_together() {
    let h = RequestHead::new();
    let r = serve::local_request("/x?a=1%20&b?", h.headers, Json::unsigned(1));
    assert_eq!(
        document::render(r),
        "{\"body\":1,\"headers\":{},\"path\":\"/x\",\"query\":\"a=1%20&b?\"}"
    );
    let r = serve::local_request("/x", RequestHead::new().headers, Json::Null);
    assert_eq!(
        document::render(r),
        "{\"body\":null,\"headers\":{},\"path\":\"/x\",\"query\":\"\"}"
    );
}

#[test]
fn a_local_response_is_framed() {
    assert_eq!(
        serve::local_response(read("{\"status\":404,\"m\":\"é\"}")),
        "HTTP/1.1 404 OK\r\nContent-Type: application/json\r\nContent-Length: 23\r\n\r\n{\"m\":\"é\",\"status\":404}"
    );
    assert_eq!(
        serve::local_response(read("{\"status\":-1}")),
        "HTTP/1.1 200 OK\r\nContent-Type: application/json\r\nContent-Length: 13\r\n\r\n{\"status\":-1}"
    );
    assert_eq!(
        serve::local_response(Json::Null),
        "HTTP/1.1 200 OK\r\nContent-Type: application/json\r\nContent-Length: 4\r\n\r\nnull"
    );
}

#[test]
fn events_are_framed() {
    assert_eq!(
        serve::sse_event("counter", read("{\"v\":\"a\\nb\"}")),
        "event: counter\ndata: {\"v\":\"a\\nb\"}\n\n"
    );
    assert_eq!(serve::sse_event("", Json::unsigned(1)), "data: 1\n\n");
    assert_eq!(
        serve::event_stream_head(),
        "HTTP/1.1 200 OK\r\n\
         Content-Type: text/event-stream\r\n\
         Cache-Control: no-cache, no-transform\r\n\
         Connection: keep-alive\r\n\
         X-Accel-Buffering: no\r\n\
         \r\n"
    );
}

#[test]
fn messages_of_a_connection_are_lines() {
    let c = WsConn::new();
    assert_eq!(c.read(Some("{\"a\":1}".to_string())), Some(read("{\"a\":1}")));
    assert_eq!(c.read(Some(" hi ".to_string())), Some(Json::text(" hi ")));
    assert_eq!(c.read(Some(" \t".to_string())), Some(Json::text(" \t")));
    assert_eq!(c.read(Some(String::new())), Some(Json::text("")));
    assert_eq!(c.read(None), None);
    assert_eq!(c.write(read("{\"a\":\"x\\ny\"}")), "{\"a\":\"x\\ny\"}\n");
    assert_eq!(c.write_raw("raw"), "raw\n");
    assert_eq!(serve::opening_request(None), Json::Null);
    assert_eq!(serve::opening_request(Some(Json::unsigned(1))), Json::unsigned(1));
}

#[test]
fn a_request_is_received_line_by_line() {
    let mut r = Reception::new();
    assert_eq!(r.line("POST /x?y=1 HTTP/1.1\r\n"), Next::Line);
    assert_eq!(r.line("Content-Length: 7\r\n"), Next::Line);
    assert_eq!(r.line("nonsense\r\n"), Next::Line);
    assert_eq!(r.line("\r\n"), Next::Content(7));
    assert_eq!(
        document::render(r.request(&b"{\"a\":1}".to_vec()).unwrap()),
        "{\"body\":{\"a\":1},\"headers\":{\"content-length\":\"7\"},\"path\":\"/x\",\"query\":\"y=1\"}"
    );
}

#[test]
fn a_request_without_a_target_is_passed_over() {
    let mut r = Reception::new();
    assert_eq!(r.line("\r\n"), Next::PassOver);
    assert!(r.request(&vec![]).is_none());
    let mut r = Reception::new();
    assert_eq!(r.line("GET"), Next::PassOver);
    let mut r = Reception::new();
    assert_eq!(r.line("GET /"), Next::Line);
    assert_eq!(r.line(""), Next::Content(0));
    assert_eq!(
        document::render(r.request(&vec![]).unwrap()),
        "{\"body\":null,\"headers\":{},\"path\":\"/\",\"query\":\"\"}"
    );
}

#[test]
fn given_text_is_framed() {
    assert_eq!(
        serve::response_with(201, "é"),
        "HTTP/1.1 201 OK\r\nContent-Type: application/json\r\nContent-Length: 2\r\n\r\né"
    );
    assert_eq!(serve::event_with("e", "x"), "event: e\ndata: x\n\n");
    assert_eq!(serve::event_with("", "x"), "data: x\n\n");
}
