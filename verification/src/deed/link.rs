//! Further devices for an identity.
//!
//! A device that is already active vouches for a new one by a signature. The
//! signatures are made by the client and only forwarded here.
use vstd::prelude::*;
use vstd::string::*;

use crate::deed;
use crate::deed::{DeedError, DeedRequest};
use crate::json;
use crate::json::{Json, Object, Tree};
use crate::table::Table;
use crate::text;
use crate::wire;

verus! {

/// How far a session has come. `identity` and `sealed` are set only with the
/// status `attested`.
#[derive(Debug, Clone, PartialEq, Eq)]
pub struct LinkStatus {
    pub status: String,
    pub identity: Option<String>,
    pub sealed: Option<String>,
}

/// How far a session has come.
#[verifier::ext_equal]
pub struct Progress {
    pub status: Seq<char>,
    pub identity: Option<Seq<char>>,
    pub sealed: Option<Seq<char>>,
}

impl View for LinkStatus {
    type V = Progress;

    open spec fn view(&self) -> Progress {
        Progress {
            status: self.status@,
            identity: json::text_opt(self.identity),
            sealed: json::text_opt(self.sealed),
        }
    }
}

impl Default for LinkStatus {
    /// Nothing is known.
    fn default() -> (r: LinkStatus)
        ensures
            r@ == (Progress { status: Seq::empty(), identity: None, sealed: None }),
    {
        LinkStatus { status: String::new(), identity: None, sealed: None }
    }
}

/// What a session is about.
#[derive(Debug, Clone, PartialEq, Eq)]
pub struct LinkSessionInfo {
    pub new_pubkey: String,
    pub metadata: Option<String>,
}

/// What a session is about.
#[verifier::ext_equal]
pub struct Session {
    pub new_pubkey: Seq<char>,
    pub metadata: Option<Seq<char>>,
}

impl View for LinkSessionInfo {
    type V = Session;

    open spec fn view(&self) -> Session {
        Session { new_pubkey: self.new_pubkey@, metadata: json::text_opt(self.metadata) }
    }
}

impl Default for LinkSessionInfo {
    /// Nothing is known.
    fn default() -> (r: LinkSessionInfo)
        ensures
            r@ == (Session { new_pubkey: Seq::empty(), metadata: None }),
    {
        LinkSessionInfo { new_pubkey: String::new(), metadata: None }
    }
}

/// Starts a session for the public key of a new device. `session_in` reads its
/// name out of the outcome.
pub fn begin(pubkey: &str) -> (r: DeedRequest)
    ensures
        r@ == deed::open_call(
            wire::post("deed/link/begin"@, map!["pubkey"@ => Tree::Text(pubkey@)]),
        ),
{
    let mut body: Object = Table::empty();
    body.set("pubkey", Json::text(pubkey));
    deed::post("deed/link/begin", body)
}

/// Starts a session as `begin` does, with a text for the attesting device to
/// read.
pub fn begin_with_metadata(pubkey: &str, metadata: &str) -> (r: DeedRequest)
    ensures
        r@ == deed::open_call(
            wire::post(
                "deed/link/begin"@,
                map!["pubkey"@ => Tree::Text(pubkey@), "metadata"@ => Tree::Text(metadata@)],
            ),
        ),
{
    let mut body: Object = Table::empty();
    body.set("pubkey", Json::text(pubkey));
    body.set("metadata", Json::text(metadata));
    deed::post("deed/link/begin", body)
}

/// Reads the name of the session out of the outcome.
pub fn session_in(outcome: Result<Json, DeedError>) -> (r: Result<String, DeedError>)
    ensures
        deed::text_result(r) == deed::text_of(
            deed::tree_result(outcome),
            "session_id"@,
            "deed/link/begin"@,
        ),
{
    deed::take_text(outcome, "session_id", "deed/link/begin")
}

/// Asks what a session is about. `info_in` reads it out of the outcome.
pub fn session_info(session_id: &str) -> (r: DeedRequest)
    ensures
        r@ == deed::open_call(
            wire::post("deed/link/session"@, map!["session_id"@ => Tree::Text(session_id@)]),
        ),
{
    let mut body: Object = Table::empty();
    body.set("session_id", Json::text(session_id));
    deed::post("deed/link/session", body)
}

/// What an outcome says of a session; an error where it does not name the public
/// key.
pub open spec fn info_of(outcome: Result<Tree, Seq<char>>) -> Result<Session, Seq<char>> {
    match outcome {
        Ok(v) => match v.text_field("new_pubkey"@) {
            Some(k) => Ok(Session { new_pubkey: k, metadata: v.text_field("metadata"@) }),
            None => Err(deed::malformed_message("deed/link/session"@)),
        },
        Err(e) => Err(e),
    }
}

/// What a session, or an error in its place, is.
pub open spec fn info_result(r: Result<LinkSessionInfo, DeedError>) -> Result<Session, Seq<char>> {
    match r {
        Ok(i) => Ok(i@),
        Err(e) => Err(e@),
    }
}

/// Reads what a session is about out of the outcome.
pub fn info_in(outcome: Result<Json, DeedError>) -> (r: Result<LinkSessionInfo, DeedError>)
    ensures
        info_result(r) == info_of(deed::tree_result(outcome)),
{
    match outcome {
        Ok(v) => match v.text_field("new_pubkey") {
            Some(new_pubkey) => Ok(
                LinkSessionInfo { new_pubkey, metadata: v.text_field("metadata") },
            ),
            None => Err(deed::malformed("deed/link/session")),
        },
        Err(e) => Err(e),
    }
}

/// Has a text drawn as a QR code. `svg_in` reads the drawing out of the outcome.
pub fn qr(text: &str) -> (r: DeedRequest)
    ensures
        r@ == deed::open_call(wire::post("deed/link/qr"@, map!["text"@ => Tree::Text(text@)])),
{
    let mut body: Object = Table::empty();
    body.set("text", Json::text(text));
    deed::post("deed/link/qr", body)
}

/// Reads the drawing out of the outcome.
pub fn svg_in(outcome: Result<Json, DeedError>) -> (r: Result<String, DeedError>)
    ensures
        deed::text_result(r) == deed::text_of(
            deed::tree_result(outcome),
            "svg"@,
            "deed/link/qr"@,
        ),
{
    deed::take_text(outcome, "svg", "deed/link/qr")
}

/// The fields by which an active device vouches for the device of a session.
pub open spec fn attestation(
    identity: Seq<char>,
    session_id: Seq<char>,
    attesting_pubkey: Seq<char>,
    sig: Seq<char>,
) -> Map<Seq<char>, Tree> {
    map![
        "identity"@ => Tree::Text(identity),
        "session_id"@ => Tree::Text(session_id),
        "attesting_pubkey"@ => Tree::Text(attesting_pubkey),
        "sig"@ => Tree::Text(sig)
    ]
}

fn attestation_body(identity: &str, session_id: &str, attesting_pubkey: &str, sig: &str) -> (r:
    Object)
    ensures
        r.fields() == attestation(identity@, session_id@, attesting_pubkey@, sig@),
{
    let mut body: Object = Table::empty();
    body.set("identity", Json::text(identity));
    body.set("session_id", Json::text(session_id));
    body.set("attesting_pubkey", Json::text(attesting_pubkey));
    body.set("sig", Json::text(sig));
    body
}

/// Has an active device vouch for the device of a session. `deed::done` checks
/// the outcome.
pub fn attest(identity: &str, session_id: &str, attesting_pubkey: &str, sig: &str) -> (r:
    DeedRequest)
    ensures
        r@ == deed::open_call(
            wire::post(
                "deed/link/attest"@,
                attestation(identity@, session_id@, attesting_pubkey@, sig@),
            ),
        ),
{
    deed::post("deed/link/attest", attestation_body(identity, session_id, attesting_pubkey, sig))
}

/// Vouches as `attest` does, with a sealed text for the new device.
pub fn attest_with_seal(
    identity: &str,
    session_id: &str,
    attesting_pubkey: &str,
    sig: &str,
    sealed: &str,
) -> (r: DeedRequest)
    ensures
        r@ == deed::open_call(
            wire::post(
                "deed/link/attest"@,
                attestation(identity@, session_id@, attesting_pubkey@, sig@).insert(
                    "sealed"@,
                    Tree::Text(sealed@),
                ),
            ),
        ),
{
    let mut body = attestation_body(identity, session_id, attesting_pubkey, sig);
    body.set("sealed", Json::text(sealed));
    deed::post("deed/link/attest", body)
}

/// Asks how far a session has come. `status_in` reads it out of the outcome.
pub fn complete(session_id: &str) -> (r: DeedRequest)
    ensures
        r@ == deed::open_call(
            wire::post("deed/link/complete"@, map!["session_id"@ => Tree::Text(session_id@)]),
        ),
{
    let mut body: Object = Table::empty();
    body.set("session_id", Json::text(session_id));
    deed::post("deed/link/complete", body)
}

/// How far a session with that status has come. The identity and the sealed text
/// are there only once it is `attested`.
pub open spec fn progress_of(v: Tree, status: Seq<char>) -> Progress {
    if status == "attested"@ {
        Progress {
            status,
            identity: v.text_field("identity"@),
            sealed: v.text_field("sealed"@),
        }
    } else {
        Progress { status, identity: None, sealed: None }
    }
}

/// What an outcome says of how far a session has come; an error where it gives no
/// status.
pub open spec fn status_of(outcome: Result<Tree, Seq<char>>) -> Result<Progress, Seq<char>> {
    match outcome {
        Ok(v) => match v.text_field("status"@) {
            Some(status) => Ok(progress_of(v, status)),
            None => Err(deed::malformed_message("deed/link/complete"@)),
        },
        Err(e) => Err(e),
    }
}

/// How far a session has come, or an error in its place.
pub open spec fn status_result(r: Result<LinkStatus, DeedError>) -> Result<Progress, Seq<char>> {
    match r {
        Ok(s) => Ok(s@),
        Err(e) => Err(e@),
    }
}

/// Reads how far a session has come out of the outcome.
pub fn status_in(outcome: Result<Json, DeedError>) -> (r: Result<LinkStatus, DeedError>)
    ensures
        status_result(r) == status_of(deed::tree_result(outcome)),
{
    match outcome {
        Ok(v) => match v.text_field("status") {
            Some(status) => {
                if text::same(status.as_str(), "attested") {
                    Ok(
                        LinkStatus {
                            status,
                            identity: v.text_field("identity"),
                            sealed: v.text_field("sealed"),
                        },
                    )
                } else {
                    Ok(LinkStatus { status, identity: None, sealed: None })
                }
            },
            None => Err(deed::malformed("deed/link/complete")),
        },
        Err(e) => Err(e),
    }
}

/// Has an active device deactivate a device. `deed::done` checks the outcome.
pub fn revoke(identity: &str, target_pubkey: &str, revoking_pubkey: &str, sig: &str) -> (r:
    DeedRequest)
    ensures
        r@ == deed::open_call(
            wire::post(
                "deed/link/revoke"@,
                map![
                    "identity"@ => Tree::Text(identity@),
                    "target_pubkey"@ => Tree::Text(target_pubkey@),
                    "revoking_pubkey"@ => Tree::Text(revoking_pubkey@),
                    "sig"@ => Tree::Text(sig@)
                ],
            ),
        ),
{
    let mut body: Object = Table::empty();
    body.set("identity", Json::text(identity));
    body.set("target_pubkey", Json::text(target_pubkey));
    body.set("revoking_pubkey", Json::text(revoking_pubkey));
    body.set("sig", Json::text(sig));
    deed::post("deed/link/revoke", body)
}

// ---------------------------------------------------------------------------
// Laws
// ---------------------------------------------------------------------------

/// The identity and the sealed text are given only once the session is attested.
pub proof fn only_attested_sessions_tell_more(outcome: Result<Tree, Seq<char>>)
    ensures
        status_of(outcome) matches Ok(p) ==> (p.identity is Some || p.sealed is Some ==> p.status
            == "attested"@),
{
}

/// What an answer says of a session is read as it is.
pub proof fn sessions_are_read_as_they_are(
    m: Map<Seq<char>, Tree>,
    key: Seq<char>,
    data: Seq<char>,
    e: Seq<char>,
)
    requires
        m.contains_key("new_pubkey"@),
        m["new_pubkey"@] == Tree::Text(key),
    ensures
        ({
            let read = info_of(Ok(Tree::Fields(m)));
            &&& read is Ok
            &&& read->Ok_0.new_pubkey == key
            &&& m.contains_key("metadata"@) && m["metadata"@] == Tree::Text(data)
                ==> read->Ok_0.metadata == Some(data)
            &&& !m.contains_key("metadata"@) || !(m["metadata"@] is Text)
                ==> read->Ok_0.metadata is None
        }),
        info_of(Err(e)) == Err::<Session, Seq<char>>(e),
{
}

/// What an answer says of how far a session has come is read as it is: its status,
/// and once that is `attested`, the identity and the sealed text.
pub proof fn progress_is_read_as_it_is(
    m: Map<Seq<char>, Tree>,
    status: Seq<char>,
    s: Seq<char>,
    e: Seq<char>,
)
    requires
        m.contains_key("status"@),
        m["status"@] == Tree::Text(status),
    ensures
        ({
            let read = status_of(Ok(Tree::Fields(m)));
            &&& read is Ok
            &&& read->Ok_0.status == status
            &&& status == "attested"@ && m.contains_key("identity"@) && m["identity"@] == Tree::Text(
                s,
            ) ==> read->Ok_0.identity == Some(s)
            &&& !m.contains_key("identity"@) || !(m["identity"@] is Text)
                ==> read->Ok_0.identity is None
            &&& status == "attested"@ && m.contains_key("sealed"@) && m["sealed"@] == Tree::Text(s)
                ==> read->Ok_0.sealed == Some(s)
            &&& !m.contains_key("sealed"@) || !(m["sealed"@] is Text) ==> read->Ok_0.sealed is None
        }),
        status_of(Err(e)) == Err::<Progress, Seq<char>>(e),
{
}

/// An attestation is sent with what it is given, and nothing else.
pub proof fn attestations_are_sent_whole(
    identity: Seq<char>,
    session_id: Seq<char>,
    attesting_pubkey: Seq<char>,
    sig: Seq<char>,
    k: Seq<char>,
)
    ensures
        ({
            let m = attestation(identity, session_id, attesting_pubkey, sig);
            &&& m.contains_key("identity"@) && m["identity"@] == Tree::Text(identity)
            &&& m.contains_key("session_id"@) && m["session_id"@] == Tree::Text(session_id)
            &&& m.contains_key("attesting_pubkey"@) && m["attesting_pubkey"@] == Tree::Text(
                attesting_pubkey,
            )
            &&& m.contains_key("sig"@) && m["sig"@] == Tree::Text(sig)
            &&& m.contains_key(k) ==> k == "identity"@ || k == "session_id"@ || k
                == "attesting_pubkey"@ || k == "sig"@
        }),
{
    reveal_strlit("identity");
    reveal_strlit("session_id");
    reveal_strlit("attesting_pubkey");
    reveal_strlit("sig");
    assert("identity"@.len() == 8 && "session_id"@.len() == 10 && "attesting_pubkey"@.len() == 16
        && "sig"@.len() == 3);
}

/// What stands for what was read is what was read.
pub proof fn results_mean_what_they_hold(s: LinkStatus, i: LinkSessionInfo, e: DeedError)
    ensures
        s@.status == s.status@,
        s@.identity is Some <==> s.identity is Some,
        s.identity is Some ==> s@.identity->0 == s.identity->0@,
        s@.sealed is Some <==> s.sealed is Some,
        s.sealed is Some ==> s@.sealed->0 == s.sealed->0@,
        i@.new_pubkey == i.new_pubkey@,
        i@.metadata is Some <==> i.metadata is Some,
        i.metadata is Some ==> i@.metadata->0 == i.metadata->0@,
        status_result(Ok(s)) == Ok::<Progress, Seq<char>>(s@),
        status_result(Err(e)) == Err::<Progress, Seq<char>>(e@),
        info_result(Ok(i)) == Ok::<Session, Seq<char>>(i@),
        info_result(Err(e)) == Err::<Session, Seq<char>>(e@),
{
}

/// What is missing is named by the call that it is missing from.
pub proof fn missing_results_are_named(m: Map<Seq<char>, Tree>, v: Tree)
    ensures
        !m.contains_key("new_pubkey"@) || !(m["new_pubkey"@] is Text) ==> info_of(
            Ok(Tree::Fields(m)),
        ) == Err::<Session, Seq<char>>(deed::malformed_message("deed/link/session"@)),
        !m.contains_key("status"@) || !(m["status"@] is Text) ==> status_of(Ok(Tree::Fields(m)))
            == Err::<Progress, Seq<char>>(deed::malformed_message("deed/link/complete"@)),
        !(v is Fields) ==> info_of(Ok(v)) == Err::<Session, Seq<char>>(
            deed::malformed_message("deed/link/session"@),
        ),
        !(v is Fields) ==> status_of(Ok(v)) == Err::<Progress, Seq<char>>(
            deed::malformed_message("deed/link/complete"@),
        ),
{
}

}
