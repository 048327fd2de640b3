use drift_sdk::backbone;
use drift_sdk::deed::{self, jwt, keyauth, link, pocket, vault, DeedError, DeedRequest};
use drift_sdk::document;
use drift_sdk::json::Json;
use drift_sdk::local::LocalStore;
use drift_sdk::transport::{self, Step};
use drift_sdk::wire::{HttpRequest, Payload, Reply};

fn read(s: &str) -> Json {
    document::parse(s).unwrap()
}

fn planned(d: DeedRequest) -> (Option<String>, String, String, String) {
    let body = match d.request.body {
        Some(b) => document::render(b),
        None => "none".to_string(),
    };
    (d.token, d.request.method, d.request.path, body)
}

fn plan(token: Option<&str>, method: &str, path: &str, body: &str) -> (Option<String>, String, String, String) {
    (token.map(|t| t.to_string()), method.to_string(), path.to_string(), body.to_string())
}

fn message<T>(r: Result<T, DeedError>) -> String {
    match r {
        Ok(_) => "ok".to_string(),
        Err(e) => e.text(),
    }
}

#[test]
fn deed_needs_a_running_slice() {
    assert_eq!(
        message(deed::request("", keyauth::challenge("p"))),
        "drift deed: requires a running slice (DEED_URL) — not available in local dev"
    );
}

#[test]
fn deed_requests_are_built() {
    assert_eq!(
        deed::request("http://d", keyauth::challenge("p")).unwrap(),
        HttpRequest {
            method: "POST".to_string(),
            url: "http://d/keyauth/challenge".to_string(),
            headers: vec![("Content-Type".to_string(), "application/json".to_string())],
            payload: Payload::Text("{\"pubkey\":\"p\"}".to_string()),
            timeout: None,
        }
    );
}

#[test]
fn a_token_is_sent_where_one_is_given() {
    let r = deed::request("http://d", pocket::set("tok", "k", Json::unsigned(1))).unwrap();
    assert_eq!(r.headers, vec![
        ("Authorization".to_string(), "Bearer tok".to_string()),
        ("Content-Type".to_string(), "application/json".to_string()),
    ]);
    let r = deed::request("http://d", pocket::list("tok")).unwrap();
    assert_eq!(r.headers, vec![("Authorization".to_string(), "Bearer tok".to_string())]);
    assert_eq!(r.payload, Payload::Nothing);
}

#[test]
fn outcomes_are_read() {
    let ok = |status: u16, s: &str| deed::outcome("p", Reply::Accepted(status, s.to_string()));
    assert_eq!(ok(200, "{\"a\":1}").unwrap(), read("{\"a\":1}"));
    assert_eq!(ok(204, "ignored").unwrap(), Json::Null);
    assert_eq!(ok(200, "").unwrap(), Json::Null);
    assert_eq!(
        message(ok(200, "nope")),
        "drift deed: parse p response: expected ident at line 1 column 2"
    );
    assert_eq!(message(ok(307, " moved ")), "drift deed: p HTTP 307: moved");
    assert_eq!(message(ok(199, "")), "drift deed: p HTTP 199");
}

#[test]
fn refusals_and_failures_are_errors() {
    let bad = |status: u16, s: &str| deed::outcome("deed/x", Reply::Refused(status, s.to_string()));
    assert_eq!(message(bad(404, " not found\n")), "drift deed: deed/x HTTP 404: not found");
    assert_eq!(message(bad(500, " \n")), "drift deed: deed/x HTTP 500");
    assert_eq!(
        message(deed::outcome("deed/x", Reply::Failed("refused".to_string()))),
        "drift deed: deed/x request failed: refused"
    );
}

#[test]
fn parsed_bodies_are_taken() {
    assert_eq!(deed::read_parsed("p", Ok(Json::Null)).unwrap(), Json::Null);
    assert_eq!(
        message(deed::read_parsed("p", Err("why".to_string()))),
        "drift deed: parse p response: why"
    );
}

#[test]
fn login_is_planned_and_read() {
    assert_eq!(
        planned(keyauth::verify("p", "s", "d")),
        plan(None, "POST", "keyauth/verify", "{\"domain\":\"d\",\"pubkey\":\"p\",\"sig\":\"s\"}")
    );
    assert_eq!(keyauth::nonce_in(Ok(read("{\"nonce\":\"n\"}"))).unwrap(), "n");
    assert_eq!(
        message(keyauth::nonce_in(Ok(read("{\"nonce\":1}")))),
        "drift deed: malformed keyauth/challenge response"
    );
    assert_eq!(keyauth::token_in(Ok(read("{\"token\":\"t\"}"))).unwrap(), "t");
    assert_eq!(
        message(keyauth::token_in(Ok(Json::Null))),
        "drift deed: malformed keyauth/verify response"
    );
    let e = DeedError { message: "before".to_string() };
    assert_eq!(message(keyauth::token_in(Err(e))), "before");
}

#[test]
fn backups_are_planned_and_read() {
    assert_eq!(
        planned(vault::put("u", read("[1]"))),
        plan(None, "POST", "deed/vault/put", "{\"blob\":[1],\"uid\":\"u\"}")
    );
    assert_eq!(
        planned(vault::get("u v")),
        plan(None, "GET", "deed/vault/get?uid=u%20v", "none")
    );
    assert_eq!(vault::blob_in(Ok(read("{\"blob\":null}"))).unwrap(), Json::Null);
    assert_eq!(
        message(vault::blob_in(Ok(read("{}")))),
        "drift deed: malformed deed/vault/get response"
    );
    assert!(deed::done(Ok(Json::Null)).is_ok());
    assert_eq!(message(deed::done(Err(DeedError { message: "m".to_string() }))), "m");
}

#[test]
fn devices_are_linked() {
    assert_eq!(
        planned(link::begin("p")),
        plan(None, "POST", "deed/link/begin", "{\"pubkey\":\"p\"}")
    );
    assert_eq!(
        planned(link::begin_with_metadata("p", "m")),
        plan(None, "POST", "deed/link/begin", "{\"metadata\":\"m\",\"pubkey\":\"p\"}")
    );
    assert_eq!(link::session_in(Ok(read("{\"session_id\":\"s\"}"))).unwrap(), "s");
    assert_eq!(
        message(link::session_in(Ok(read("{}")))),
        "drift deed: malformed deed/link/begin response"
    );
    assert_eq!(
        planned(link::session_info("s")),
        plan(None, "POST", "deed/link/session", "{\"session_id\":\"s\"}")
    );
    let info = link::info_in(Ok(read("{\"new_pubkey\":\"n\",\"metadata\":\"m\"}"))).unwrap();
    assert_eq!(info.new_pubkey, "n");
    assert_eq!(info.metadata, Some("m".to_string()));
    let info = link::info_in(Ok(read("{\"new_pubkey\":\"n\",\"metadata\":1}"))).unwrap();
    assert_eq!(info.metadata, None);
    for body in [Json::Null, read("{}"), read("{\"new_pubkey\":1}"), read("[]")] {
        assert_eq!(
            message(link::info_in(Ok(body))),
            "drift deed: malformed deed/link/session response"
        );
    }
    assert_eq!(message(link::info_in(Err(DeedError { message: "m".to_string() }))), "m");
    assert_eq!(link::LinkSessionInfo::default().new_pubkey, "");
    assert_eq!(planned(link::qr("t")), plan(None, "POST", "deed/link/qr", "{\"text\":\"t\"}"));
    assert_eq!(link::svg_in(Ok(read("{\"svg\":\"<svg/>\"}"))).unwrap(), "<svg/>");
    assert_eq!(
        message(link::svg_in(Ok(Json::Null))),
        "drift deed: malformed deed/link/qr response"
    );
}

#[test]
fn devices_are_attested_and_revoked() {
    assert_eq!(
        planned(link::attest("i", "s", "a", "g")),
        plan(
            None,
            "POST",
            "deed/link/attest",
            "{\"attesting_pubkey\":\"a\",\"identity\":\"i\",\"session_id\":\"s\",\"sig\":\"g\"}"
        )
    );
    assert_eq!(
        planned(link::attest_with_seal("i", "s", "a", "g", "e")).3,
        "{\"attesting_pubkey\":\"a\",\"identity\":\"i\",\"sealed\":\"e\",\"session_id\":\"s\",\"sig\":\"g\"}"
    );
    assert_eq!(
        planned(link::complete("s")),
        plan(None, "POST", "deed/link/complete", "{\"session_id\":\"s\"}")
    );
    let s = link::status_in(Ok(read("{\"status\":\"attested\",\"identity\":\"i\",\"sealed\":\"e\"}"))).unwrap();
    assert_eq!(
        s,
        link::LinkStatus {
            status: "attested".to_string(),
            identity: Some("i".to_string()),
            sealed: Some("e".to_string()),
        }
    );
    for body in [Json::Null, read("{}"), read("{\"status\":1,\"identity\":\"i\"}")] {
        assert_eq!(
            message(link::status_in(Ok(body))),
            "drift deed: malformed deed/link/complete response"
        );
    }
    assert_eq!(link::LinkStatus::default().status, "");
    assert!(link::status_in(Err(DeedError { message: "m".to_string() })).is_err());
    assert_eq!(
        planned(link::revoke("i", "t", "r", "g")),
        plan(
            None,
            "POST",
            "deed/link/revoke",
            "{\"identity\":\"i\",\"revoking_pubkey\":\"r\",\"sig\":\"g\",\"target_pubkey\":\"t\"}"
        )
    );
}

#[test]
fn pocket_calls_carry_their_token() {
    assert_eq!(
        planned(pocket::set("t", "k", Json::text("b"))),
        plan(Some("t"), "POST", "deed/pocket/set", "{\"blob\":\"b\",\"key\":\"k\"}")
    );
    assert_eq!(
        planned(pocket::get("t", "k/l")),
        plan(Some("t"), "GET", "deed/pocket/get?key=k%2Fl", "none")
    );
    assert_eq!(
        planned(pocket::delete("t", "k")),
        plan(Some("t"), "POST", "deed/pocket/delete", "{\"key\":\"k\"}")
    );
    assert_eq!(planned(pocket::list("t")), plan(Some("t"), "GET", "deed/pocket/list", "none"));
    assert_eq!(pocket::blob_in(Ok(read("{\"blob\":1}"))).unwrap(), Json::unsigned(1));
    assert_eq!(
        message(pocket::blob_in(Ok(read("[]")))),
        "drift deed: malformed deed/pocket/get response"
    );
    assert_eq!(pocket::keys_in(Ok(read("[\"a\",1,\"b\"]"))).unwrap(), vec!["a", "b"]);
    assert_eq!(
        message(pocket::keys_in(Ok(read("{}")))),
        "drift deed: malformed deed/pocket/list response"
    );
}

#[test]
fn tokens_are_planned() {
    let mut claims = jwt::Claims::default();
    assert_eq!(document::render(jwt::issue(claims).body.unwrap()), "{}");
    claims = jwt::Claims::default();
    claims.sub = Some("alice".to_string());
    claims.exp = Some(-5);
    claims.iat = Some(7);
    claims.aud = Some(vec!["a".to_string(), "b".to_string()]);
    claims.custom = Some(read("{\"r\":1}"));
    let r = jwt::issue(claims);
    assert_eq!(r.method, "POST");
    assert_eq!(r.path, "jwt/sign");
    assert_eq!(
        document::render(r.body.unwrap()),
        "{\"aud\":[\"a\",\"b\"],\"custom\":{\"r\":1},\"exp\":-5,\"iat\":7,\"sub\":\"alice\"}"
    );
    let mut rest = jwt::Claims::default();
    rest.nbf = Some(1);
    rest.iss = Some("i".to_string());
    rest.jti = Some("j".to_string());
    assert_eq!(
        document::render(jwt::issue(rest).body.unwrap()),
        "{\"iss\":\"i\",\"jti\":\"j\",\"nbf\":1}"
    );
    let r = jwt::verify("t", Some("a"), None);
    assert_eq!(r.path, "jwt/verify");
    assert_eq!(document::render(r.body.unwrap()), "{\"audience\":\"a\",\"token\":\"t\"}");
    let r = jwt::verify("t", None, Some("i"));
    assert_eq!(document::render(r.body.unwrap()), "{\"allowed_issuer\":\"i\",\"token\":\"t\"}");
    let r = jwt::slice_id();
    assert_eq!((r.method.as_str(), r.path.as_str()), ("GET", "jwt/slice-id"));
}

#[test]
fn claims_are_read_out_of_answers() {
    assert_eq!(
        jwt::claims_in(Some(read("{\"valid\":true,\"claims\":{\"sub\":\"a\"}}"))).unwrap(),
        read("{\"sub\":\"a\"}")
    );
    assert_eq!(jwt::claims_in(Some(read("{\"valid\":true}"))).unwrap(), Json::Null);
    let reason = |s: &str| jwt::claims_in(Some(read(s))).unwrap_err().reason;
    assert_eq!(reason("{\"valid\":false,\"reason\":\"expired\"}"), "expired");
    assert_eq!(reason("{\"valid\":\"true\",\"reason\":3}"), "internal_error");
    assert_eq!(reason("{}"), "internal_error");
    assert_eq!(reason("{\"valid\":false,\"reason\":\"Expired\"}"), "internal_error");
    assert_eq!(reason("{\"valid\":false,\"reason\":\"\"}"), "internal_error");
    assert_eq!(reason("[true]"), "internal_error");
    assert_eq!(
        jwt::claims_in(None).unwrap_err().text(),
        "jwt verify: internal_error"
    );
    assert_eq!(jwt::token_in(&Some(read("{\"token\":\"t\"}"))), "t");
    assert_eq!(jwt::slice_id_in(&Some(read("{\"slice_id\":\"s\"}"))), "s");
    assert_eq!(jwt::slice_id_in(&Some(read("\"s\""))), "");
}

#[test]
fn tokens_are_not_issued_locally() {
    let mut s = LocalStore::new();
    assert_eq!(
        transport::call("", &mut s, jwt::issue(jwt::Claims::default())),
        Step::Answer(None)
    );
    assert_eq!(transport::call("", &mut s, jwt::slice_id()), Step::Answer(None));
}

#[test]
fn identity_is_reached_through_the_backbone_too() {
    assert_eq!(backbone::jwt::slice_id().path, "jwt/slice-id");
    assert_eq!(backbone::keyauth::challenge("p").request.path, "keyauth/challenge");
    assert_eq!(backbone::vault::get("u").request.path, "deed/vault/get?uid=u");
}

#[test]
fn only_an_attested_session_tells_its_identity() {
    let s = link::status_in(Ok(read("{\"status\":\"pending\",\"identity\":\"i\",\"sealed\":\"e\"}"))).unwrap();
    assert_eq!(
        s,
        link::LinkStatus { status: "pending".to_string(), identity: None, sealed: None }
    );
    let s = link::status_in(Ok(read("{\"status\":\"attested\",\"identity\":\"i\"}"))).unwrap();
    assert_eq!(s.identity, Some("i".to_string()));
    assert_eq!(s.sealed, None);
}

#[test]
fn every_reason_of_the_protocol_is_passed_on() {
    for word in [
        "malformed", "bad_signature", "expired", "not_yet_valid", "wrong_algorithm", "wrong_issuer",
        "wrong_audience", "invalid_claims", "missing_exp", "internal_error",
    ] {
        assert!(jwt::is_known_reason(word));
        let answer = read(&format!("{{\"valid\":false,\"reason\":\"{}\"}}", word));
        assert_eq!(jwt::claims_in(Some(answer)).unwrap_err().reason, word);
    }
    assert!(!jwt::is_known_reason("other"));
}

#[test]
fn claims_are_copied() {
    let mut claims = jwt::Claims::default();
    claims.custom = Some(read("[1.5]"));
    assert_eq!(document::render(jwt::issue(claims.clone()).body.unwrap()), "{\"custom\":[1.5]}");
}
