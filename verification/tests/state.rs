use drift_sdk::backbone::{self, blob, cache, lock, nosql, realtime, secret, SqlExecResult};
use drift_sdk::document;
use drift_sdk::json::Json;
use drift_sdk::local::{Local, LocalStore};
use drift_sdk::transport::{self, Step};
use drift_sdk::wire::{self, HttpRequest, Payload, RawReply, Reply, Request};

fn read(s: &str) -> Json {
    document::parse(s).unwrap()
}

fn shown(v: &Option<Json>) -> String {
    match v {
        Some(v) => document::render(v.clone()),
        None => "none".to_string(),
    }
}

fn ask(store: &mut LocalStore, request: Request) -> Option<Json> {
    match transport::call("", store, request) {
        Step::Answer(a) => a,
        other => panic!("{:?}", other),
    }
}

fn planned(request: Request) -> (String, String, String) {
    let body = shown(&request.body);
    (request.method, request.path, body)
}

fn plan(method: &str, path: &str, body: &str) -> (String, String, String) {
    (method.to_string(), path.to_string(), body.to_string())
}

// --- Plans -----------------------------------------------------------------

#[test]
fn secrets_are_planned() {
    assert_eq!(secret::variable("api_key"), "DRIFT_SECRET_API_KEY");
    assert_eq!(secret::variable("straße"), "DRIFT_SECRET_STRASSE");
    match secret::get("a b", Some("x".to_string())) {
        secret::Reading::Found(s) => assert_eq!(s, "x"),
        secret::Reading::Ask(_) => panic!("asked"),
    }
    match secret::get("a b", None) {
        secret::Reading::Found(_) => panic!("found"),
        secret::Reading::Ask(r) => {
            assert_eq!(planned(r), plan("GET", "secret/get?name=a%20b", "none"))
        }
    }
    assert_eq!(
        planned(secret::set("n", "v")),
        plan("POST", "secret/set", "{\"name\":\"n\",\"value\":\"v\"}")
    );
    assert_eq!(
        planned(secret::delete("a/b")),
        plan("DELETE", "secret/delete?name=a%2Fb", "none")
    );
}

#[test]
fn a_secret_is_read_out_of_any_answer() {
    assert_eq!(secret::value(Some(Json::text("x"))), "x");
    assert_eq!(secret::value(Some(read("{\"a\":1}"))), "{\"a\":1}");
    assert_eq!(secret::value(Some(Json::Null)), "null");
    assert_eq!(secret::value(None), "");
}

#[test]
fn cached_values_are_planned() {
    assert_eq!(planned(cache::get("k&l")), plan("GET", "cache/get?key=k%26l", "none"));
    assert_eq!(
        planned(cache::set("k", read("[1]"), 0)),
        plan("POST", "cache/set", "{\"key\":\"k\",\"value\":[1]}")
    );
    assert_eq!(
        planned(cache::set("k", Json::Null, 60)),
        plan("POST", "cache/set", "{\"key\":\"k\",\"ttl\":60,\"value\":null}")
    );
    assert_eq!(planned(cache::delete("k")), plan("DELETE", "cache/del?key=k", "none"));
}

#[test]
fn documents_are_planned() {
    let c = nosql::collection("or ders");
    assert_eq!(
        planned(c.insert(read("{\"a\":1}"))),
        plan("POST", "write", "{\"a\":1,\"collection\":\"or ders\"}")
    );
    assert_eq!(
        planned(c.insert(read("{\"collection\":\"x\"}"))),
        plan("POST", "write", "{\"collection\":\"x\"}")
    );
    assert_eq!(
        planned(c.insert(read("[1]"))),
        plan("POST", "write", "{\"collection\":\"or ders\",\"data\":[1]}")
    );
    assert_eq!(
        planned(c.read("1")),
        plan("GET", "read?collection=or%20ders&key=1", "none")
    );
    assert_eq!(
        planned(c.get("i=d")),
        plan("GET", "nosql/list?collection=or%20ders&field=_id&value=i%3Dd", "none")
    );
    assert_eq!(
        planned(c.delete("k")),
        plan("POST", "nosql/delete?collection=or%20ders&key=k", "none")
    );
    assert_eq!(planned(c.list(None)), plan("GET", "nosql/list?collection=or%20ders", "none"));
    assert_eq!(
        planned(c.list(Some(vec![
            ("f".to_string(), "v w".to_string()),
            ("g&".to_string(), "x".to_string()),
        ]))),
        plan(
            "GET",
            "nosql/list?collection=or%20ders&field=f&value=v%20w&field=g%26&value=x",
            "none"
        )
    );
    assert_eq!(planned(c.drop()), plan("POST", "nosql/drop?collection=or%20ders", "none"));
}

#[test]
fn documents_are_read_out_of_answers() {
    assert_eq!(nosql::key_in(&Some(read("{\"key\":\"7\"}"))), "7");
    assert_eq!(nosql::key_in(&Some(read("[]"))), "");
    assert_eq!(nosql::key_in(&None), "");
    assert_eq!(nosql::all_in(Some(read("[1,2]"))), vec![Json::unsigned(1), Json::unsigned(2)]);
    assert_eq!(nosql::all_in(Some(Json::Null)), vec![]);
    assert_eq!(nosql::all_in(None), vec![]);
    assert_eq!(nosql::first_in(Some(read("[1,2]"))), Some(Json::unsigned(1)));
    assert_eq!(nosql::first_in(Some(read("[]"))), None);
    assert_eq!(nosql::first_in(None), None);
}

#[test]
fn queues_locks_and_channels_are_planned() {
    let q = backbone::queue("q");
    assert_eq!(
        planned(q.push(read("{\"m\":1}"))),
        plan("POST", "queue/push", "{\"body\":{\"m\":1},\"queue\":\"q\"}")
    );
    assert_eq!(planned(q.pop()), plan("POST", "queue/pop", "{\"queue\":\"q\"}"));
    assert_eq!(
        planned(lock::acquire("r", 30)),
        plan("POST", "lock/acquire", "{\"name\":\"r\",\"ttl\":30}")
    );
    assert_eq!(
        planned(lock::release("r", "t")),
        plan("POST", "lock/release", "{\"name\":\"r\",\"token\":\"t\"}")
    );
    assert_eq!(lock::token_in(&Some(read("{\"token\":\"t\"}"))), "t");
    let c = realtime::channel("e v");
    assert_eq!(
        planned(c.publish(Json::text("hi"))),
        plan("POST", "realtime/publish", "{\"channel\":\"e v\",\"message\":\"hi\"}")
    );
    assert_eq!(planned(c.presence()), plan("GET", "realtime/presence?channel=e%20v", "none"));
    assert_eq!(realtime::recipients_in(&Some(read("{\"recipients\":4}"))), 4);
    assert_eq!(realtime::recipients_in(&Some(read("{\"recipients\":-4}"))), 0);
    assert_eq!(realtime::present_in(&Some(read("{\"present\":2}"))), 2);
    assert_eq!(realtime::present_in(&None), 0);
}

#[test]
fn blobs_are_planned() {
    assert_eq!(
        blob::split_bucket_key("b/k/l"),
        ("b".to_string(), "k/l".to_string())
    );
    assert_eq!(blob::split_bucket_key("k"), ("default".to_string(), "k".to_string()));
    assert_eq!(
        blob::put("http://b", "pics/a b", &[1, 2], Some("image/png")),
        Some(HttpRequest {
            method: "POST".to_string(),
            url: "http://b/blob/put?bucket=pics&key=a%20b".to_string(),
            headers: vec![("Content-Type".to_string(), "image/png".to_string())],
            payload: Payload::Bytes(vec![1, 2]),
            timeout: None,
        })
    );
    assert_eq!(
        blob::put("http://b", "k", &[], None).unwrap().headers[0].1,
        "application/octet-stream"
    );
    assert_eq!(
        blob::get("http://b", "k"),
        Some(HttpRequest {
            method: "GET".to_string(),
            url: "http://b/blob/get?bucket=default&key=k".to_string(),
            headers: vec![],
            payload: Payload::Nothing,
            timeout: None,
        })
    );
}

#[test]
fn blobs_are_not_sent_without_a_slice() {
    assert_eq!(blob::put("", "k", &[1], None), None);
    assert_eq!(blob::get("", "k"), None);
}

#[test]
fn statements_are_planned() {
    let db = backbone::sql("clinic");
    let args = [Json::text("a"), Json::unsigned(1)];
    assert_eq!(
        planned(db.query("SELECT ?", &args)),
        plan("POST", "sql/query", "{\"args\":[\"a\",1],\"db\":\"clinic\",\"sql\":\"SELECT ?\"}")
    );
    assert_eq!(
        planned(db.execute("X", &[])),
        plan("POST", "sql/execute", "{\"args\":[],\"db\":\"clinic\",\"sql\":\"X\"}")
    );
    assert_eq!(planned(db.begin()), plan("POST", "sql/begin", "{\"db\":\"clinic\"}"));
    assert!(db.begun(None).is_none());
    assert!(db.begun(Some(read("{\"tx\":1}"))).is_none());
    let tx = db.begun(Some(read("{\"tx\":\"t1\"}"))).unwrap();
    assert_eq!(
        planned(tx.query("Q", &[])),
        plan("POST", "sql/query", "{\"args\":[],\"db\":\"clinic\",\"sql\":\"Q\",\"tx\":\"t1\"}")
    );
    assert_eq!(
        planned(tx.execute("E", &args)),
        plan("POST", "sql/execute", "{\"args\":[\"a\",1],\"db\":\"clinic\",\"sql\":\"E\",\"tx\":\"t1\"}")
    );
    assert_eq!(planned(tx.commit()), plan("POST", "sql/commit", "{\"tx\":\"t1\"}"));
    assert_eq!(planned(tx.rollback()), plan("POST", "sql/rollback", "{\"tx\":\"t1\"}"));
}

fn rows(answer: &str) -> Vec<String> {
    backbone::sql_rows(Some(read(answer)))
        .into_iter()
        .map(|o| document::render(Json::Object(o)))
        .collect()
}

#[test]
fn rows_are_read_out_of_answers() {
    assert_eq!(
        rows("{\"columns\":[\"id\",\"name\"],\"rows\":[[1,\"a\"],[2,\"b\"]]}"),
        vec!["{\"id\":1,\"name\":\"a\"}", "{\"id\":2,\"name\":\"b\"}"]
    );
    assert_eq!(rows("{\"columns\":[\"a\",\"b\"],\"rows\":[[1],[1,2,3],7]}"), vec![
        "{\"a\":1,\"b\":null}",
        "{\"a\":1,\"b\":2}",
        "{\"a\":null,\"b\":null}"
    ]);
    assert_eq!(rows("{\"columns\":[\"a\",5,\"b\"],\"rows\":[[1,2,3]]}"), vec!["{\"a\":1,\"b\":2}"]);
    assert_eq!(rows("{\"columns\":[\"a\",\"a\"],\"rows\":[[1,2]]}"), vec!["{\"a\":2}"]);
    assert_eq!(rows("{\"rows\":[[1]]}"), vec!["{}"]);
    assert_eq!(rows("{\"columns\":[\"a\"]}").len(), 0);
    assert_eq!(rows("{\"columns\":\"a\",\"rows\":3}").len(), 0);
    assert_eq!(rows("5").len(), 0);
    assert_eq!(backbone::sql_rows(None).len(), 0);
}

#[test]
fn changes_are_read_out_of_answers() {
    assert_eq!(
        backbone::sql_exec_from_value(Some(read("{\"rows_affected\":3,\"last_insert_id\":-1}"))),
        SqlExecResult { rows_affected: 3, last_insert_id: -1 }
    );
    assert_eq!(
        backbone::sql_exec_from_value(Some(read("{\"rows_affected\":9223372036854775808}"))),
        SqlExecResult::default()
    );
    assert_eq!(backbone::sql_exec_from_value(None), SqlExecResult::default());
}

// --- Over the wire ---------------------------------------------------------

#[test]
fn a_call_is_sent_to_the_base_url() {
    let mut store = LocalStore::new();
    let step = transport::call("http://b:1", &mut store, cache::set("k", Json::unsigned(1), 0));
    assert_eq!(
        step,
        Step::Send(HttpRequest {
            method: "POST".to_string(),
            url: "http://b:1/cache/set".to_string(),
            headers: vec![("Content-Type".to_string(), "application/json".to_string())],
            payload: Payload::Text("{\"key\":\"k\",\"value\":1}".to_string()),
            timeout: None,
        })
    );
    assert_eq!(store, LocalStore::new());
    let step = transport::call("http://b:1", &mut store, cache::get("k"));
    assert_eq!(
        step,
        Step::Send(HttpRequest {
            method: "GET".to_string(),
            url: "http://b:1/cache/get?key=k".to_string(),
            headers: vec![],
            payload: Payload::Nothing,
            timeout: None,
        })
    );
}

#[test]
fn replies_are_read() {
    let ok = |status: u16, s: &str| shown(&wire::read_reply(Reply::Accepted(status, s.to_string())));
    assert_eq!(ok(200, "{\"a\":1}"), "{\"a\":1}");
    assert_eq!(ok(200, "plain text"), "\"plain text\"");
    assert_eq!(ok(200, ""), "none");
    assert_eq!(ok(204, "ignored"), "none");
    let bad = |status: u16, s: &str| shown(&wire::read_reply(Reply::Refused(status, s.to_string())));
    assert_eq!(bad(404, "{\"error\":\"x\"}"), "{\"error\":\"x\"}");
    assert_eq!(bad(500, "oops"), "\"oops\"");
    assert_eq!(bad(500, ""), "none");
    assert_eq!(shown(&wire::read_reply(Reply::Failed("refused".to_string()))), "none");
}

// --- In the local store ----------------------------------------------------

#[test]
fn the_cache_gives_back_and_forgets() {
    let mut s = LocalStore::new();
    assert_eq!(ask(&mut s, cache::get("k")), None);
    assert_eq!(ask(&mut s, cache::set("k", read("{\"v\":1.5}"), 60)), None);
    assert_eq!(shown(&ask(&mut s, cache::get("k"))), "{\"v\":1.5}");
    ask(&mut s, cache::set("k", Json::Null, 0));
    assert_eq!(ask(&mut s, cache::get("k")), Some(Json::Null));
    ask(&mut s, cache::delete("k"));
    assert_eq!(ask(&mut s, cache::get("k")), None);
}

#[test]
fn a_cached_value_is_read_under_the_encoded_key() {
    let mut s = LocalStore::new();
    ask(&mut s, cache::set("a b", Json::unsigned(1), 0));
    assert_eq!(ask(&mut s, cache::get("a b")), None);
    ask(&mut s, cache::set("a%20b", Json::unsigned(2), 0));
    assert_eq!(ask(&mut s, cache::get("a b")), Some(Json::unsigned(2)));
}

#[test]
fn secrets_come_from_the_store_or_the_environment() {
    let mut s = LocalStore::new();
    let get = |s: &mut LocalStore, n: &str| match secret::get(n, None) {
        secret::Reading::Ask(r) => transport::call("", s, r),
        secret::Reading::Found(_) => panic!("found"),
    };
    assert_eq!(get(&mut s, "A B"), Step::Variable("A%20B".to_string()));
    ask(&mut s, secret::set("KEY", "v"));
    assert_eq!(get(&mut s, "KEY"), Step::Answer(Some(Json::text("v"))));
    ask(&mut s, secret::delete("KEY"));
    assert_eq!(get(&mut s, "KEY"), Step::Variable("KEY".to_string()));
    assert_eq!(transport::read_variable(Some("e".to_string())), Some(Json::text("e")));
    assert_eq!(transport::read_variable(None), None);
}

#[test]
fn names_of_secrets_are_listed() {
    let mut s = LocalStore::new();
    ask(&mut s, secret::set("b", "1"));
    ask(&mut s, secret::set("a", "2"));
    ask(&mut s, secret::set("b", "3"));
    assert_eq!(
        s.call_local("secret/list", None),
        Local::Answer(Some(read("[\"a\",\"b\"]")))
    );
}

#[test]
fn documents_are_numbered_from_one() {
    let mut s = LocalStore::new();
    let c = nosql::collection("orders");
    assert_eq!(nosql::key_in(&ask(&mut s, c.insert(read("{\"n\":\"x\"}")))), "1");
    assert_eq!(nosql::key_in(&ask(&mut s, c.insert(Json::unsigned(5)))), "2");
    assert_eq!(
        shown(&ask(&mut s, c.read("1"))),
        "{\"_key\":\"1\",\"collection\":\"orders\",\"n\":\"x\"}"
    );
    assert_eq!(
        shown(&ask(&mut s, c.read("2"))),
        "{\"_key\":\"2\",\"collection\":\"orders\",\"data\":5}"
    );
    assert_eq!(ask(&mut s, c.read("3")), None);
    assert_eq!(nosql::collection("none").read("1").method, "GET");
    assert_eq!(ask(&mut s, nosql::collection("none").read("1")), None);
}

#[test]
fn a_key_of_the_documents_own_is_overridden() {
    let mut s = LocalStore::new();
    let c = nosql::collection("c");
    ask(&mut s, c.insert(read("{\"_key\":\"mine\"}")));
    assert_eq!(shown(&ask(&mut s, c.read("1"))), "{\"_key\":\"1\",\"collection\":\"c\"}");
    assert_eq!(ask(&mut s, c.read("mine")), None);
}

#[test]
fn collections_are_listed_in_order_and_dropped() {
    let mut s = LocalStore::new();
    let c = nosql::collection("c");
    assert_eq!(nosql::all_in(ask(&mut s, c.list(None))), vec![]);
    for i in 0..12 {
        ask(&mut s, c.insert(Json::unsigned(i)));
    }
    let all = nosql::all_in(ask(&mut s, c.list(None)));
    assert_eq!(all.len(), 12);
    assert_eq!(all[11].text_field("_key").unwrap(), "12");
    assert_eq!(
        nosql::first_in(ask(&mut s, c.get("whatever"))).unwrap().text_field("_key").unwrap(),
        "1"
    );
    ask(&mut s, c.delete("1"));
    assert_eq!(nosql::all_in(ask(&mut s, c.list(None))).len(), 12);
    ask(&mut s, c.drop());
    assert_eq!(nosql::all_in(ask(&mut s, c.list(None))), vec![]);
    assert_eq!(nosql::key_in(&ask(&mut s, c.insert(Json::Null))), "1");
}

#[test]
fn messages_leave_in_the_order_they_came() {
    let mut s = LocalStore::new();
    let q = backbone::queue("a b");
    let other = backbone::queue("other");
    assert_eq!(ask(&mut s, q.pop()), None);
    for i in 0..3 {
        ask(&mut s, q.push(Json::unsigned(i)));
    }
    ask(&mut s, other.push(Json::text("o")));
    assert_eq!(ask(&mut s, q.pop()), Some(Json::unsigned(0)));
    ask(&mut s, q.push(Json::unsigned(3)));
    for i in 1..4 {
        assert_eq!(ask(&mut s, q.pop()), Some(Json::unsigned(i)));
    }
    assert_eq!(ask(&mut s, q.pop()), None);
    assert_eq!(ask(&mut s, other.pop()), Some(Json::text("o")));
}

#[test]
fn a_lock_is_held_by_one() {
    let mut s = LocalStore::new();
    assert_eq!(lock::token_in(&ask(&mut s, lock::acquire("r", 30))), "local-0");
    assert_eq!(lock::token_in(&ask(&mut s, lock::acquire("r", 30))), "");
    assert_eq!(lock::token_in(&ask(&mut s, lock::acquire("t", 30))), "local-1");
    ask(&mut s, lock::release("r", "not the token"));
    assert_eq!(lock::token_in(&ask(&mut s, lock::acquire("r", 1))), "local-1");
}

#[test]
fn blobs_of_the_store_are_put_and_got() {
    let mut s = LocalStore::new();
    s.call_local("blob/put", Some(read("{\"name\":\"n\",\"data\":[1]}")));
    assert_eq!(s.call_local("blob/get?name=n", None), Local::Answer(Some(read("[1]"))));
    assert_eq!(s.call_local("blob/get?name=m", None), Local::Answer(None));
    assert_eq!(s.call_local("blob/get", None), Local::Answer(None));
}

#[test]
fn requests_without_what_they_need_do_nothing() {
    for path in [
        "secret/set", "cache/set", "write", "queue/push", "queue/pop", "blob/put", "lock/acquire",
        "lock/release",
    ] {
        for body in ["{}", "5", "{\"name\":1,\"key\":1,\"queue\":1,\"collection\":1}"] {
            let mut s = LocalStore::new();
            assert_eq!(s.call_local(path, Some(read(body))), Local::Answer(None));
            assert_eq!(s, LocalStore::new());
        }
        let mut s = LocalStore::new();
        assert_eq!(s.call_local(path, None), Local::Answer(None));
        assert_eq!(s, LocalStore::new());
    }
    for path in [
        "secret/get", "secret/delete", "cache/get", "cache/del", "read", "nosql/list", "nosql/drop",
        "read?collection=c", "read?key=1", "unknown", "", "jwt/sign", "nosql/delete?collection=c&key=1",
    ] {
        let mut s = LocalStore::new();
        assert_eq!(s.call_local(path, None), Local::Answer(None));
        assert_eq!(s, LocalStore::new());
    }
}

#[test]
fn what_the_store_does_not_serve_is_not_answered() {
    let mut s = LocalStore::new();
    let c = realtime::channel("c");
    assert_eq!(realtime::recipients_in(&ask(&mut s, c.publish(Json::Null))), 0);
    assert_eq!(realtime::present_in(&ask(&mut s, c.presence())), 0);
    let db = backbone::sql("d");
    assert_eq!(backbone::sql_rows(ask(&mut s, db.query("q", &[]))).len(), 0);
    let begun = ask(&mut s, db.begin());
    assert!(db.begun(begun).is_none());
}

#[test]
fn raw_replies_are_read() {
    assert_eq!(wire::read_raw_reply(RawReply::Accepted(vec![0, 255])), Some(vec![0, 255]));
    assert_eq!(wire::read_raw_reply(RawReply::Accepted(vec![])), Some(vec![]));
    assert_eq!(wire::read_raw_reply(RawReply::Refused(404)), None);
    assert_eq!(wire::read_raw_reply(RawReply::Failed("refused".to_string())), None);
}
