//! Calls from slice to slice.
use vstd::prelude::*;
use vstd::string::*;

use crate::http;
use crate::http::Outgoing;
use crate::json;
use crate::json::{Json, Object, Tree};
use crate::query;
use crate::table;
use crate::table::Table;
use crate::text;
use crate::wire;

verus! {

// ---------------------------------------------------------------------------
// Where a linked slice is
// ---------------------------------------------------------------------------

/// Whether a character is an ASCII letter or digit.
pub open spec fn alphanumeric(c: char) -> bool {
    ||| 'A' <= c <= 'Z'
    ||| 'a' <= c <= 'z'
    ||| '0' <= c <= '9'
}

/// A text with `_` in place of all but ASCII letters and digits.
pub open spec fn mangled(s: Seq<char>) -> Seq<char> {
    s.map_values(
        |c: char|
            if alphanumeric(c) {
                c
            } else {
                '_'
            },
    )
}

/// The environment variable that holds the URL of a linked slice.
pub open spec fn link_variable(name: Seq<char>) -> Seq<char> {
    "DRIFT_LINK_"@ + mangled(text::uppercase(name)) + "_URL"@
}

fn mangle(s: &str) -> (r: String)
    ensures
        r@ == mangled(s@),
{
    let chars = text::chars_of(s);
    let mut out = String::new();
    let mut i: usize = 0;
    while i < chars.len()
        invariant
            0 <= i <= chars@.len(),
            out@ == mangled(chars@.take(i as int)),
        decreases chars@.len() - i,
    {
        let c = chars[i];
        let kept = if ('A' <= c && c <= 'Z') || ('a' <= c && c <= 'z') || ('0' <= c && c <= '9') {
            c
        } else {
            '_'
        };
        out.push(kept);
        assert(out@ =~= mangled(chars@.take(i as int + 1)));
        i += 1;
    }
    assert(chars@.take(i as int) =~= chars@);
    out
}

/// The name of the environment variable that holds the URL of a linked slice.
pub fn link_env_name(name: &str) -> (r: String)
    ensures
        r@ == link_variable(name@),
{
    let upper = text::to_uppercase(name);
    let middle = mangle(upper.as_str());
    let start = text::join("DRIFT_LINK_", middle.as_str());
    text::join(start.as_str(), "_URL")
}

// ---------------------------------------------------------------------------
// Calling a linked slice
// ---------------------------------------------------------------------------

/// A client for another slice that this one is linked to.
#[derive(Debug)]
pub struct SliceClient {
    name: String,
}

impl View for SliceClient {
    type V = Seq<char>;

    closed spec fn view(&self) -> Seq<char> {
        self.name@
    }
}

/// The client for the slice of that name.
pub fn slice(name: &str) -> (r: SliceClient)
    ensures
        r@ == name@,
{
    SliceClient { name: name.to_owned() }
}

/// What a call needs of the environment: the URL of the linked slice, empty where
/// there is no link; the name of this slice; and whether TLS is there.
#[derive(Debug, Clone, PartialEq, Eq)]
pub struct Surroundings {
    pub link_url: String,
    pub own_name: String,
    pub tls: bool,
}

/// What is said where there is no link to a slice.
pub open spec fn unlinked_message(name: Seq<char>) -> Seq<char> {
    "drift: not linked to slice \""@ + name + "\" — run `drift slice link add "@ + name + "`"@
}

/// The URL of a path at a linked slice, with one slash between the two.
pub open spec fn joined(base: Seq<char>, path: Seq<char>) -> Seq<char> {
    text::strip_end(base, |c: char| c == '/') + "/"@ + text::strip_start(path, |c: char| c == '/')
}

/// What a text, or a text that says what is wrong, is.
pub open spec fn url_result(r: Result<String, String>) -> Result<Seq<char>, Seq<char>> {
    match r {
        Ok(s) => Ok(s@),
        Err(e) => Err(e@),
    }
}

/// The URL of a path at a slice that is linked at a base URL.
pub open spec fn url_of(name: Seq<char>, base: Seq<char>, path: Seq<char>) -> Result<
    Seq<char>,
    Seq<char>,
> {
    if base.len() == 0 {
        Err(unlinked_message(name))
    } else {
        Ok(joined(base, path))
    }
}

/// The header fields of a call, with the name of the calling slice among them.
pub open spec fn signed(headers: Option<Table<String>>, own_name: Seq<char>) -> Map<
    Seq<char>,
    Seq<char>,
> {
    match headers {
        Some(t) => query::strings(t@),
        None => Map::empty(),
    }.insert("X-Drift-Slice"@, own_name)
}

/// Whether a plan is what a call of a linked slice comes to: what is said where
/// there is no link, and else the request with the given header fields, each once
/// and in the order of their names.
pub open spec fn calls(
    p: http::Plan,
    url: Result<Seq<char>, Seq<char>>,
    method: Seq<char>,
    headers: Map<Seq<char>, Seq<char>>,
    body: wire::Content,
    tls: bool,
) -> bool {
    match url {
        Err(e) => p == http::Plan::Done(0, e),
        Ok(u) => exists|fields: Seq<(Seq<char>, Seq<char>)>|
            {
                &&& wire::ordered(fields)
                &&& wire::field_map(fields) == headers
                &&& p == #[trigger] http::plan(
                    wire::Http {
                        method,
                        url: u,
                        headers: fields,
                        payload: body,
                        timeout: Some(http::default_timeout()),
                    },
                    tls,
                )
            },
    }
}

impl SliceClient {
    /// The URL of a path, given the URL of the linked slice.
    pub fn url(&self, base: &str, path: &str) -> (r: Result<String, String>)
        ensures
            url_result(r) == url_of(self@, base@, path@),
    {
        if base.is_empty() {
            let m = text::join("drift: not linked to slice \"", self.name.as_str());
            let m = text::join(m.as_str(), "\" — run `drift slice link add ");
            let m = text::join(m.as_str(), self.name.as_str());
            return Err(text::join(m.as_str(), "`"));
        }
        let b = text::trim_end_of(base, '/');
        let p = text::trim_start_of(path, '/');
        let start = text::join(b.as_str(), "/");
        Ok(text::join(start.as_str(), p.as_str()))
    }

    /// Plans a request to the linked slice, which carries the name of this one.
    /// Where there is no link, status 0 and what is wrong are the result.
    pub fn request(
        &self,
        around: &Surroundings,
        method: &str,
        path: &str,
        headers: Option<Table<String>>,
        body: Option<&str>,
    ) -> (r: Outgoing)
        ensures
            calls(
                r@,
                url_of(self@, around.link_url@, path@),
                method@,
                signed(headers, around.own_name@),
                http::content(body),
                around.tls,
            ),
    {
        let url = match self.url(around.link_url.as_str(), path) {
            Ok(u) => u,
            Err(e) => return Outgoing::Done(0, e),
        };
        let ghost given = signed(headers, around.own_name@);
        let mut fields: Table<String> = match headers {
            Some(t) => t,
            None => Table::new(),
        };
        let ghost held = fields@;
        let own = around.own_name.clone();
        fields.insert("X-Drift-Slice".to_owned(), own);
        proof {
            assert(query::strings(fields@) =~= query::strings(held).insert("X-Drift-Slice"@, own@));
            assert(query::strings(Map::<Seq<char>, String>::empty()) =~= Map::empty());
            wire::lemma_fields(fields.entries());
            assert(wire::field_map(http::fields(Some(fields))) == given);
        }
        http::http_request(method, url.as_str(), Some(fields), body, around.tls)
    }

    /// Plans a GET request to the linked slice.
    pub fn get(&self, around: &Surroundings, path: &str) -> (r: Outgoing)
        ensures
            calls(
                r@,
                url_of(self@, around.link_url@, path@),
                "GET"@,
                map!["X-Drift-Slice"@ => around.own_name@],
                wire::Content::Nothing,
                around.tls,
            ),
    {
        self.request(around, "GET", path, None, None)
    }

    /// Plans a POST request of JSON to the linked slice.
    pub fn post(&self, around: &Surroundings, path: &str, body: Option<&str>) -> (r: Outgoing)
        ensures
            calls(
                r@,
                url_of(self@, around.link_url@, path@),
                "POST"@,
                map![
                    "Content-Type"@ => "application/json"@,
                    "X-Drift-Slice"@ => around.own_name@
                ],
                http::content(body),
                around.tls,
            ),
    {
        let mut headers: Table<String> = Table::new();
        headers.insert("Content-Type".to_owned(), "application/json".to_owned());
        proof {
            assert(query::strings(headers@) =~= map!["Content-Type"@ => "application/json"@]);
        }
        self.request(around, "POST", path, Some(headers), body)
    }
}

// ---------------------------------------------------------------------------
// Who is calling
// ---------------------------------------------------------------------------

/// Whether a header field names the calling slice.
pub open spec fn names_caller(key: Seq<char>) -> bool {
    text::lowered(key) == text::lowered("x-drift-slice"@)
}

/// Whether `k` is the first of the header fields that name the calling slice.
pub open spec fn first_naming(headers: Map<Seq<char>, Tree>, k: Seq<char>) -> bool {
    &&& headers.contains_key(k)
    &&& names_caller(k)
    &&& forall|other: Seq<char>|
        #[trigger] headers.contains_key(other) && names_caller(other) && other != k
            ==> text::before(k, other)
}

/// The slice that the header fields name: that of the first field that does so,
/// empty where none does or the field is not a text.
pub open spec fn caller_in(headers: Map<Seq<char>, Tree>) -> Seq<char> {
    if exists|k: Seq<char>| first_naming(headers, k) {
        json::or_else(
            headers[choose|k: Seq<char>| first_naming(headers, k)].text(),
            Seq::empty(),
        )
    } else {
        Seq::empty()
    }
}

/// The slice that a request says it comes from.
pub open spec fn caller_of(req: Tree) -> Seq<char> {
    match req.field("headers"@) {
        Some(Tree::Fields(m)) => caller_in(m),
        _ => Seq::empty(),
    }
}

fn caller_among(headers: &Object) -> (r: String)
    ensures
        r@ == caller_in(headers.fields()),
{
    let n = headers.len();
    let ghost all = headers.entries();
    let ghost m = headers.fields();
    proof {
        json::lemma_fields(all);
    }
    let mut i: usize = 0;
    while i < n
        invariant
            0 <= i <= n,
            n == all.len(),
            all == headers.entries(),
            m == headers.fields(),
            m == table::map_of(all).map_values(|v: Json| v@),
            table::ascending(all),
            forall|j: int| 0 <= j < i ==> !names_caller(#[trigger] all[j].0@),
        decreases n - i,
    {
        let key = headers.key_at(i);
        if text::same_but_for_case(key.as_str(), "x-drift-slice") {
            proof {
                let k = all[i as int].0@;
                table::lemma_map_of_entry(all, i as int);
                assert(m.contains_key(k) && m[k] == all[i as int].1@);
                assert forall|other: Seq<char>| #[trigger]
                    m.contains_key(other) && names_caller(other) && other
                        != k implies text::before(k, other) by {
                    table::lemma_map_of_keys(all, other);
                    let j = choose|j: int| 0 <= j < all.len() && #[trigger] all[j].0@ == other;
                    assert(text::before(all[i as int].0@, all[j].0@));
                }
                assert(first_naming(m, k));
                let c = choose|c: Seq<char>| first_naming(m, c);
                if c != k {
                    assert(text::before(k, c));
                    assert(text::before(c, k));
                    text::lemma_before_asymmetric(k, c);
                }
            }
            return match headers.value_at(i).as_str() {
                Some(s) => s.to_owned(),
                None => String::new(),
            };
        }
        i += 1;
    }
    proof {
        if exists|k: Seq<char>| first_naming(m, k) {
            let k = choose|k: Seq<char>| first_naming(m, k);
            table::lemma_map_of_keys(all, k);
            let j = choose|j: int| 0 <= j < all.len() && #[trigger] all[j].0@ == k;
            assert(names_caller(all[j].0@));
        }
    }
    String::new()
}

/// The linked slice that a request comes from: empty where it came by no link.
pub fn caller_slice(req: &Json) -> (r: String)
    ensures
        r@ == caller_of(req@),
{
    match req.get("headers") {
        Some(v) => match v {
            Json::Object(t) => caller_among(t),
            _ => String::new(),
        },
        None => String::new(),
    }
}

// ---------------------------------------------------------------------------
// Laws
// ---------------------------------------------------------------------------

/// The URL of a path at a linked slice has one slash where the two meet.
pub proof fn url_has_one_slash_between(base: Seq<char>, path: Seq<char>)
    ensures
        ({
            let b = text::strip_end(base, |c: char| c == '/');
            let p = text::strip_start(path, |c: char| c == '/');
            &&& joined(base, path) == b + "/"@ + p
            &&& b.len() > 0 ==> b.last() != '/'
            &&& p.len() > 0 ==> p[0] != '/'
        }),
{
    lemma_stripped_end(base);
    lemma_stripped_start(path);
}

proof fn lemma_stripped_end(s: Seq<char>)
    ensures
        ({
            let t = text::strip_end(s, |c: char| c == '/');
            t.len() > 0 ==> t.last() != '/'
        }),
    decreases s.len(),
{
    if s.len() > 0 && s.last() == '/' {
        lemma_stripped_end(s.drop_last());
    }
}

proof fn lemma_stripped_start(s: Seq<char>)
    ensures
        ({
            let t = text::strip_start(s, |c: char| c == '/');
            t.len() > 0 ==> t[0] != '/'
        }),
    decreases s.len(),
{
    if s.len() > 0 && s[0] == '/' {
        lemma_stripped_start(s.skip(1));
    }
}

/// Every request to a linked slice carries the name of this one.
pub proof fn calls_carry_the_name(
    p: http::Plan,
    url: Result<Seq<char>, Seq<char>>,
    method: Seq<char>,
    headers: Option<Table<String>>,
    own_name: Seq<char>,
    body: wire::Content,
    tls: bool,
)
    requires
        calls(p, url, method, signed(headers, own_name), body, tls),
        p is Send,
    ensures
        wire::field_map(p->Send_0.headers).contains_key("X-Drift-Slice"@),
        wire::field_map(p->Send_0.headers)["X-Drift-Slice"@] == own_name,
{
}

/// A header field that names the calling slice is found however its name is
/// written.
pub proof fn caller_is_found_in_any_case(k: Seq<char>, name: Seq<char>)
    requires
        names_caller(k),
    ensures
        caller_in(map![k => Tree::Text(name)]) == name,
{
    let m = map![k => Tree::Text(name)];
    assert(first_naming(m, k));
    let c = choose|c: Seq<char>| first_naming(m, c);
    assert(m.contains_key(c));
}

/// The variable of a linked slice is made of ASCII letters, digits and `_`.
pub proof fn variable_is_plain(name: Seq<char>)
    ensures
        forall|i: int|
            0 <= i < link_variable(name).len() ==> alphanumeric(#[trigger] link_variable(name)[i])
                || link_variable(name)[i] == '_',
{
    reveal_strlit("DRIFT_LINK_");
    reveal_strlit("_URL");
}

/// The variable of a linked slice holds the capitals of its name: ASCII letters and
/// digits as they are, and `_` in place of everything else.
pub proof fn variable_holds_the_name(name: Seq<char>, i: int)
    ensures
        ({
            let upper = text::uppercase(name);
            let middle = mangled(upper);
            &&& link_variable(name) == "DRIFT_LINK_"@ + middle + "_URL"@
            &&& middle.len() == upper.len()
            &&& 0 <= i < upper.len() ==> middle[i] == (if ('A' <= upper[i] <= 'Z') || ('a'
                <= upper[i] <= 'z') || ('0' <= upper[i] <= '9') {
                upper[i]
            } else {
                '_'
            })
        }),
{
}

/// The URL of a linked slice is its base without the slashes at its end, a slash,
/// and the path without the slashes at its start; all else of the two is kept.
pub proof fn url_keeps_base_and_path(
    name: Seq<char>,
    base: Seq<char>,
    m: nat,
    n: nat,
    path: Seq<char>,
)
    requires
        base.len() + m > 0,
        base.len() > 0 ==> base.last() != '/',
        path.len() > 0 ==> path[0] != '/',
    ensures
        url_of(name, base + Seq::new(m, |i: int| '/'), Seq::new(n, |i: int| '/') + path) == Ok::<
            Seq<char>,
            Seq<char>,
        >(base + seq!['/'] + path),
{
    let b = base + Seq::new(m, |i: int| '/');
    let p = Seq::new(n, |i: int| '/') + path;
    text::laws::stripping_takes_the_character_alone(m, '/', base);
    text::laws::stripping_takes_the_character_alone(n, '/', path);
    reveal_strlit("/");
    assert("/"@ =~= seq!['/']);
    assert(text::strip_end(b, |c: char| c == '/') == base);
    assert(text::strip_start(p, |c: char| c == '/') == path);
}

/// Without a link, the slice that it is missing to is named.
pub proof fn missing_links_are_named(name: Seq<char>, path: Seq<char>)
    ensures
        url_of(name, Seq::empty(), path) == Err::<Seq<char>, Seq<char>>(
            "drift: not linked to slice \""@ + name + "\" — run `drift slice link add "@ + name
                + "`"@,
        ),
{
}

/// A request to a linked slice carries every header field that it is given, as it
/// is, but for the one that names this slice, and no others.
pub proof fn given_fields_are_carried(t: Table<String>, own_name: Seq<char>, k: Seq<char>)
    ensures
        signed(Some(t), own_name).contains_key("X-Drift-Slice"@),
        signed(Some(t), own_name)["X-Drift-Slice"@] == own_name,
        k != "X-Drift-Slice"@ ==> (signed(Some(t), own_name).contains_key(k) <==> t@.contains_key(
            k,
        )),
        k != "X-Drift-Slice"@ && t@.contains_key(k) ==> signed(Some(t), own_name)[k] == t@[k]@,
        signed(None, own_name).contains_key(k) <==> k == "X-Drift-Slice"@,
        signed(None, own_name)["X-Drift-Slice"@] == own_name,
{
}

/// A call of a linked slice is sent as it is planned: its method, its URL, its body,
/// its header fields, and thirty seconds.
pub proof fn calls_are_sent_whole(
    p: http::Plan,
    url: Seq<char>,
    method: Seq<char>,
    headers: Map<Seq<char>, Seq<char>>,
    body: wire::Content,
    tls: bool,
)
    requires
        calls(p, Ok(url), method, headers, body, tls),
    ensures
        p is Send <==> tls || !text::begins_with(url, "https://"@),
        p is Send ==> p->Send_0.method == method && p->Send_0.url == url && p->Send_0.payload == body
            && wire::field_map(p->Send_0.headers) == headers && wire::ordered(p->Send_0.headers),
        p is Send ==> p->Send_0.timeout == Some(wire::Timeout { secs: 30, nanos: 0 }),
{
}

/// A call without a link is not sent, and what is wrong is its result, with status
/// zero.
pub proof fn calls_without_a_link_are_not_sent(
    p: http::Plan,
    why: Seq<char>,
    method: Seq<char>,
    headers: Map<Seq<char>, Seq<char>>,
    body: wire::Content,
    tls: bool,
)
    requires
        calls(p, Err(why), method, headers, body, tls),
    ensures
        p == http::Plan::Done(0, why),
{
}

/// The calling slice is the text of the first of the header fields that name it, as
/// it is, whatever other fields there are; a request in which none names it comes
/// from nobody.
pub proof fn caller_is_the_one_named(
    m: Map<Seq<char>, Tree>,
    headers: Map<Seq<char>, Tree>,
    k: Seq<char>,
    name: Seq<char>,
)
    requires
        m.contains_key("headers"@),
        m["headers"@] == Tree::Fields(headers),
    ensures
        headers.contains_key(k) && text::lowered(k) == "x-drift-slice"@ && headers[k] == Tree::Text(
            name,
        ) && (forall|other: Seq<char>|
            #[trigger] headers.contains_key(other) && text::lowered(other) == "x-drift-slice"@
                ==> other == k || text::before(k, other)) ==> caller_of(Tree::Fields(m)) == name,
        (forall|other: Seq<char>| #[trigger]
            headers.contains_key(other) ==> text::lowered(other) != "x-drift-slice"@) ==> caller_of(
            Tree::Fields(m),
        ) == Seq::<char>::empty(),
        first_naming(headers, k) && !(headers[k] is Text) ==> caller_of(Tree::Fields(m)) == Seq::<
            char,
        >::empty(),
{
    reveal_strlit("x-drift-slice");
    assert(text::lowered("x-drift-slice"@) =~= "x-drift-slice"@);
    if headers.contains_key(k) && text::lowered(k) == "x-drift-slice"@ && (forall|other: Seq<char>|
        #[trigger] headers.contains_key(other) && text::lowered(other) == "x-drift-slice"@ ==> other
            == k || text::before(k, other)) {
        assert(first_naming(headers, k));
        let c = choose|c: Seq<char>| first_naming(headers, c);
        assert(headers.contains_key(c));
        if c != k {
            assert(text::before(k, c));
            assert(text::before(c, k));
            text::lemma_before_asymmetric(k, c);
        }
    }
}

/// A request without header fields comes from nobody.
pub proof fn requests_without_fields_come_from_nobody(m: Map<Seq<char>, Tree>, v: Tree)
    ensures
        !m.contains_key("headers"@) || !(m["headers"@] is Fields) ==> caller_of(Tree::Fields(m))
            == Seq::<char>::empty(),
        !(v is Fields) ==> caller_of(v) == Seq::<char>::empty(),
{
}

/// What stands for a URL is the URL.
pub proof fn results_mean_what_they_hold(s: String)
    ensures
        url_result(Ok(s)) == Ok::<Seq<char>, Seq<char>>(s@),
        url_result(Err(s)) == Err::<Seq<char>, Seq<char>>(s@),
{
}

}
