//! Tokens that the slice signs.
//!
//! These are plain calls, which go through `transport::call` with the base URL of
//! Deed. A call that is not answered gives nothing, not an error.
use vstd::prelude::*;
use vstd::string::*;

use crate::json;
use crate::json::{Json, Object, Tree};
use crate::table::Table;
use crate::text;
use crate::wire;
use crate::wire::Request;

verus! {

/// Why a token was not accepted. The reason is a word of the wire protocol, such
/// as `expired` or `bad_signature`: `known_reason` lists them.
#[derive(Debug, Clone, PartialEq, Eq)]
pub struct JWTError {
    pub reason: String,
}

impl View for JWTError {
    type V = Seq<char>;

    open spec fn view(&self) -> Seq<char> {
        self.reason@
    }
}

impl JWTError {
    /// The error in words.
    pub fn text(&self) -> (r: String)
        ensures
            r@ == "jwt verify: "@ + self@,
    {
        text::join("jwt verify: ", self.reason.as_str())
    }
}

/// What a token claims: the standard claims, and others under `custom`.
#[derive(Debug, Clone)]
pub struct Claims {
    pub sub: Option<String>,
    pub iat: Option<i64>,
    pub exp: Option<i64>,
    pub nbf: Option<i64>,
    pub iss: Option<String>,
    pub aud: Option<Vec<String>>,
    pub jti: Option<String>,
    pub custom: Option<Json>,
}

impl Default for Claims {
    /// Nothing is claimed.
    fn default() -> (r: Claims)
        ensures
            claimed(r) == Map::<Seq<char>, Tree>::empty(),
    {
        Claims {
            sub: None,
            iat: None,
            exp: None,
            nbf: None,
            iss: None,
            aud: None,
            jti: None,
            custom: None,
        }
    }
}

/// The fields, with one more where its value is given.
pub open spec fn with(m: Map<Seq<char>, Tree>, k: Seq<char>, v: Option<Tree>) -> Map<
    Seq<char>,
    Tree,
> {
    match v {
        Some(t) => m.insert(k, t),
        None => m,
    }
}

/// An optional text as a value.
pub open spec fn text_claim(o: Option<String>) -> Option<Tree> {
    match o {
        Some(s) => Some(Tree::Text(s@)),
        None => None,
    }
}

/// An optional number as a value.
pub open spec fn number_claim(o: Option<i64>) -> Option<Tree> {
    match o {
        Some(n) => Some(json::int_tree(n as int)),
        None => None,
    }
}

/// An optional list of texts as a value.
pub open spec fn list_claim(o: Option<Vec<String>>) -> Option<Tree> {
    match o {
        Some(v) => Some(Tree::List(Seq::new(v@.len(), |i: int| Tree::Text(v@[i]@)))),
        None => None,
    }
}

/// The fields of what a token claims: those that are given, each under its name.
pub open spec fn claimed(c: Claims) -> Map<Seq<char>, Tree> {
    let m = with(Map::empty(), "sub"@, text_claim(c.sub));
    let m = with(m, "iat"@, number_claim(c.iat));
    let m = with(m, "exp"@, number_claim(c.exp));
    let m = with(m, "nbf"@, number_claim(c.nbf));
    let m = with(m, "iss"@, text_claim(c.iss));
    let m = with(m, "aud"@, list_claim(c.aud));
    let m = with(m, "jti"@, text_claim(c.jti));
    with(m, "custom"@, json::tree_opt(c.custom))
}

fn set_text(body: &mut Object, key: &str, value: Option<String>)
    ensures
        final(body).fields() == with(old(body).fields(), key@, text_claim(value)),
{
    match value {
        Some(s) => body.set(key, Json::String(s)),
        None => {},
    }
}

fn set_number(body: &mut Object, key: &str, value: Option<i64>)
    ensures
        final(body).fields() == with(old(body).fields(), key@, number_claim(value)),
{
    match value {
        Some(n) => body.set(key, Json::signed(n)),
        None => {},
    }
}

fn set_list(body: &mut Object, key: &str, value: Option<Vec<String>>)
    ensures
        final(body).fields() == with(old(body).fields(), key@, list_claim(value)),
{
    broadcast use json::lemma_array;

    match value {
        Some(v) => {
            let mut items: Vec<Json> = Vec::new();
            let mut i: usize = 0;
            while i < v.len()
                invariant
                    0 <= i <= v@.len(),
                    items@.len() == i,
                    forall|j: int| 0 <= j < i ==> #[trigger] items@[j]@ == Tree::Text(v@[j]@),
                decreases v@.len() - i,
            {
                items.push(Json::text(v[i].as_str()));
                i += 1;
            }
            assert(json::trees(items@) =~= Seq::new(v@.len(), |i: int| Tree::Text(v@[i]@)));
            body.set(key, Json::Array(items));
        },
        None => {},
    }
}

/// Has a token signed. `token_in` reads it out of the answer.
pub fn issue(claims: Claims) -> (r: Request)
    ensures
        r@ == wire::post("jwt/sign"@, claimed(claims)),
{
    let mut body: Object = Table::empty();
    set_text(&mut body, "sub", claims.sub);
    set_number(&mut body, "iat", claims.iat);
    set_number(&mut body, "exp", claims.exp);
    set_number(&mut body, "nbf", claims.nbf);
    set_text(&mut body, "iss", claims.iss);
    set_list(&mut body, "aud", claims.aud);
    set_text(&mut body, "jti", claims.jti);
    match claims.custom {
        Some(v) => body.set("custom", v),
        None => {},
    }
    wire::post_request("jwt/sign", body)
}

/// Reads the token out of the answer: empty where it has none.
pub fn token_in(answer: &Option<Json>) -> (r: String)
    ensures
        r@ == json::text_in(json::tree_opt(*answer), "token"@),
{
    json::take_text(answer, "token")
}

/// The characters of an optional text.
pub open spec fn given(o: Option<&str>) -> Option<Tree> {
    match o {
        Some(s) => Some(Tree::Text(s@)),
        None => None,
    }
}

/// The fields of the call that has a token checked.
pub open spec fn checking(token: Seq<char>, audience: Option<Tree>, allowed_issuer: Option<Tree>) -> Map<
    Seq<char>,
    Tree,
> {
    with(
        with(map!["token"@ => Tree::Text(token)], "audience"@, audience),
        "allowed_issuer"@,
        allowed_issuer,
    )
}

/// Has a token checked. `claims_in` reads the claims out of the answer.
pub fn verify(token: &str, audience: Option<&str>, allowed_issuer: Option<&str>) -> (r: Request)
    ensures
        r@ == wire::post("jwt/verify"@, checking(token@, given(audience), given(allowed_issuer))),
{
    let mut body: Object = Table::empty();
    body.set("token", Json::text(token));
    match audience {
        Some(a) => body.set("audience", Json::text(a)),
        None => {},
    }
    match allowed_issuer {
        Some(i) => body.set("allowed_issuer", Json::text(i)),
        None => {},
    }
    wire::post_request("jwt/verify", body)
}

/// The words of the wire protocol for why a token was not accepted.
pub open spec fn known_reason(s: Seq<char>) -> bool {
    ||| s == "malformed"@
    ||| s == "bad_signature"@
    ||| s == "expired"@
    ||| s == "not_yet_valid"@
    ||| s == "wrong_algorithm"@
    ||| s == "wrong_issuer"@
    ||| s == "wrong_audience"@
    ||| s == "invalid_claims"@
    ||| s == "missing_exp"@
    ||| s == "internal_error"@
}

/// Whether a text is one of the words for why a token was not accepted.
pub fn is_known_reason(s: &str) -> (r: bool)
    ensures
        r == known_reason(s@),
{
    text::same(s, "malformed") || text::same(s, "bad_signature") || text::same(s, "expired")
        || text::same(s, "not_yet_valid") || text::same(s, "wrong_algorithm") || text::same(
        s,
        "wrong_issuer",
    ) || text::same(s, "wrong_audience") || text::same(s, "invalid_claims") || text::same(
        s,
        "missing_exp",
    ) || text::same(s, "internal_error")
}

/// The reason that an answer gives: `internal_error` where it gives none of the
/// known ones.
pub open spec fn reason_in(v: Tree) -> Seq<char> {
    match v.text_field("reason"@) {
        Some(s) => if known_reason(s) {
            s
        } else {
            "internal_error"@
        },
        None => "internal_error"@,
    }
}

/// The claims that an answer grants: only where it is an object whose `valid` is
/// true. Else the reason that it gives, or `internal_error`.
pub open spec fn granted(answer: Option<Tree>) -> Result<Tree, Seq<char>> {
    match answer {
        Some(v) => if v.field("valid"@) == Some(Tree::Bool(true)) {
            Ok(json::or_else(v.field("claims"@), Tree::Null))
        } else {
            Err(reason_in(v))
        },
        None => Err("internal_error"@),
    }
}

/// What claims, or an error in their place, are.
pub open spec fn claims_result(r: Result<Json, JWTError>) -> Result<Tree, Seq<char>> {
    match r {
        Ok(v) => Ok(v@),
        Err(e) => Err(e@),
    }
}

/// Reads the claims out of the answer.
pub fn claims_in(answer: Option<Json>) -> (r: Result<Json, JWTError>)
    ensures
        claims_result(r) == granted(json::tree_opt(answer)),
{
    let v = match answer {
        Some(v) => v,
        None => return Err(JWTError { reason: "internal_error".to_owned() }),
    };
    let valid: bool = match v.get("valid") {
        Some(b) => match b.as_bool() {
            Some(b) => b,
            None => false,
        },
        None => false,
    };
    if valid {
        match v.get("claims") {
            Some(c) => Ok(c.clone()),
            None => Ok(Json::Null),
        }
    } else {
        match v.text_field("reason") {
            Some(reason) => if is_known_reason(reason.as_str()) {
                Err(JWTError { reason })
            } else {
                Err(JWTError { reason: "internal_error".to_owned() })
            },
            None => Err(JWTError { reason: "internal_error".to_owned() }),
        }
    }
}

/// Asks for the issuer that the slice puts into its tokens. `slice_id_in` reads
/// it out of the answer.
pub fn slice_id() -> (r: Request)
    ensures
        r@ == wire::bare("GET"@, "jwt/slice-id"@),
{
    wire::bare_request("GET", "jwt/slice-id".to_owned())
}

/// Reads the issuer out of the answer: empty where it has none.
pub fn slice_id_in(answer: &Option<Json>) -> (r: String)
    ensures
        r@ == json::text_in(json::tree_opt(*answer), "slice_id"@),
{
    json::take_text(answer, "slice_id")
}

// ---------------------------------------------------------------------------
// Laws
// ---------------------------------------------------------------------------

/// A claim is sent if and only if it is given.
pub proof fn given_claims_are_sent(c: Claims)
    ensures
        claimed(c).contains_key("sub"@) <==> c.sub is Some,
        claimed(c).contains_key("iat"@) <==> c.iat is Some,
        claimed(c).contains_key("exp"@) <==> c.exp is Some,
        claimed(c).contains_key("nbf"@) <==> c.nbf is Some,
        claimed(c).contains_key("iss"@) <==> c.iss is Some,
        claimed(c).contains_key("aud"@) <==> c.aud is Some,
        claimed(c).contains_key("jti"@) <==> c.jti is Some,
        claimed(c).contains_key("custom"@) <==> c.custom is Some,
{
    lemma_names();
}

/// What tells the names of the claims apart.
spec fn mark(s: Seq<char>) -> (nat, char, char) {
    (s.len(), s[0], s[1])
}

proof fn lemma_names()
    ensures
        mark("sub"@) == (3nat, 's', 'u'),
        mark("iat"@) == (3nat, 'i', 'a'),
        mark("exp"@) == (3nat, 'e', 'x'),
        mark("nbf"@) == (3nat, 'n', 'b'),
        mark("iss"@) == (3nat, 'i', 's'),
        mark("aud"@) == (3nat, 'a', 'u'),
        mark("jti"@) == (3nat, 'j', 't'),
        mark("custom"@) == (6nat, 'c', 'u'),
{
    reveal_strlit("sub");
    reveal_strlit("iat");
    reveal_strlit("exp");
    reveal_strlit("nbf");
    reveal_strlit("iss");
    reveal_strlit("aud");
    reveal_strlit("jti");
    reveal_strlit("custom");
}

/// Claims are granted only by an answer that says that the token is valid.
pub proof fn claims_are_granted_to_valid_tokens(answer: Option<Tree>)
    ensures
        granted(answer) is Ok <==> answer is Some && answer->0.field("valid"@) == Some(
            Tree::Bool(true),
        ),
{
}

/// Whatever an answer says, the reason for a refusal is one of the known ones.
pub proof fn reasons_are_known(answer: Option<Tree>)
    ensures
        granted(answer) matches Err(reason) ==> known_reason(reason),
{
}

/// Every claim that is given is sent as it is: the texts, the integers, the list of
/// the audience in its order, and the value of the caller's own. Nothing else is
/// sent.
pub proof fn claims_are_sent_as_they_are(c: Claims, i: int, k: Seq<char>)
    ensures
        c.sub is Some ==> claimed(c)["sub"@] == Tree::Text(c.sub->0@),
        c.iat is Some ==> claimed(c)["iat"@] == Tree::Number(json::Numeral::Int(c.iat->0 as int)),
        c.exp is Some ==> claimed(c)["exp"@] == Tree::Number(json::Numeral::Int(c.exp->0 as int)),
        c.nbf is Some ==> claimed(c)["nbf"@] == Tree::Number(json::Numeral::Int(c.nbf->0 as int)),
        c.iss is Some ==> claimed(c)["iss"@] == Tree::Text(c.iss->0@),
        c.aud is Some ==> claimed(c)["aud"@] is List && claimed(c)["aud"@]->List_0.len()
            == c.aud->0@.len(),
        c.aud is Some && 0 <= i < c.aud->0@.len() ==> claimed(c)["aud"@]->List_0[i] == Tree::Text(
            c.aud->0@[i]@,
        ),
        c.jti is Some ==> claimed(c)["jti"@] == Tree::Text(c.jti->0@),
        c.custom is Some ==> claimed(c)["custom"@] == c.custom->0@,
        claimed(c).contains_key(k) ==> k == "sub"@ || k == "iat"@ || k == "exp"@ || k == "nbf"@ || k
            == "iss"@ || k == "aud"@ || k == "jti"@ || k == "custom"@,
{
    lemma_names();
}

/// A token is sent to be checked as it is, with the audience and the issuer where
/// they are given, each as it is, and nothing else.
pub proof fn tokens_are_sent_whole(token: Seq<char>, audience: &str, issuer: &str, k: Seq<char>)
    ensures
        ({
            let m = checking(token, given(Some(audience)), given(Some(issuer)));
            &&& m.contains_key("token"@) && m["token"@] == Tree::Text(token)
            &&& m.contains_key("audience"@) && m["audience"@] == Tree::Text(audience@)
            &&& m.contains_key("allowed_issuer"@) && m["allowed_issuer"@] == Tree::Text(issuer@)
            &&& m.contains_key(k) ==> k == "token"@ || k == "audience"@ || k == "allowed_issuer"@
        }),
        ({
            let m = checking(token, given(None), given(Some(issuer)));
            &&& m.contains_key("token"@) && m["token"@] == Tree::Text(token)
            &&& m.contains_key("allowed_issuer"@) && m["allowed_issuer"@] == Tree::Text(issuer@)
            &&& m.contains_key(k) ==> k == "token"@ || k == "allowed_issuer"@
        }),
        ({
            let m = checking(token, given(Some(audience)), given(None));
            &&& m.contains_key("token"@) && m["token"@] == Tree::Text(token)
            &&& m.contains_key("audience"@) && m["audience"@] == Tree::Text(audience@)
            &&& m.contains_key(k) ==> k == "token"@ || k == "audience"@
        }),
        ({
            let m = checking(token, given(None), given(None));
            &&& m.contains_key("token"@) && m["token"@] == Tree::Text(token)
            &&& m.contains_key(k) ==> k == "token"@
        }),
{
    reveal_strlit("token");
    reveal_strlit("audience");
    reveal_strlit("allowed_issuer");
    assert("token"@.len() == 5 && "audience"@.len() == 8 && "allowed_issuer"@.len() == 14);
}

/// The claims of a valid token are read as they are, and null where there are none.
/// A known reason for a refusal is read as it is.
pub proof fn claims_are_read_as_they_are(m: Map<Seq<char>, Tree>, reason: Seq<char>)
    ensures
        m.contains_key("valid"@) && m["valid"@] == Tree::Bool(true) && m.contains_key("claims"@)
            ==> granted(Some(Tree::Fields(m))) == Ok::<Tree, Seq<char>>(m["claims"@]),
        m.contains_key("valid"@) && m["valid"@] == Tree::Bool(true) && !m.contains_key("claims"@)
            ==> granted(Some(Tree::Fields(m))) == Ok::<Tree, Seq<char>>(Tree::Null),
        !(m.contains_key("valid"@) && m["valid"@] == Tree::Bool(true)) && m.contains_key("reason"@)
            && m["reason"@] == Tree::Text(reason) && known_reason(reason) ==> granted(
            Some(Tree::Fields(m)),
        ) == Err::<Tree, Seq<char>>(reason),
        !(m.contains_key("valid"@) && m["valid"@] == Tree::Bool(true)) && (!m.contains_key(
            "reason"@,
        ) || !(m["reason"@] is Text) || !known_reason(m["reason"@]->Text_0)) ==> granted(
            Some(Tree::Fields(m)),
        ) == Err::<Tree, Seq<char>>("internal_error"@),
{
}

/// An answer that is no object grants nothing, and says nothing of why.
pub proof fn other_answers_grant_nothing(v: Tree)
    requires
        !(v is Fields),
    ensures
        granted(Some(v)) == Err::<Tree, Seq<char>>("internal_error"@),
        granted(None) == Err::<Tree, Seq<char>>("internal_error"@),
{
}

/// The reasons that are passed on are those of the protocol.
pub proof fn known_reasons_are_the_protocols(s: Seq<char>)
    ensures
        known_reason(s) <==> seq![
            "malformed"@,
            "bad_signature"@,
            "expired"@,
            "not_yet_valid"@,
            "wrong_algorithm"@,
            "wrong_issuer"@,
            "wrong_audience"@,
            "invalid_claims"@,
            "missing_exp"@,
            "internal_error"@,
        ].contains(s),
{
    let all = seq![
        "malformed"@,
        "bad_signature"@,
        "expired"@,
        "not_yet_valid"@,
        "wrong_algorithm"@,
        "wrong_issuer"@,
        "wrong_audience"@,
        "invalid_claims"@,
        "missing_exp"@,
        "internal_error"@,
    ];
    if known_reason(s) {
        assert(all[0] == s || all[1] == s || all[2] == s || all[3] == s || all[4] == s || all[5]
            == s || all[6] == s || all[7] == s || all[8] == s || all[9] == s);
    }
}

/// What stands for claims is the claims.
pub proof fn results_mean_what_they_hold(v: Json, e: JWTError)
    ensures
        e@ == e.reason@,
        claims_result(Ok(v)) == Ok::<Tree, Seq<char>>(v@),
        claims_result(Err(e)) == Err::<Tree, Seq<char>>(e@),
{
}

}
