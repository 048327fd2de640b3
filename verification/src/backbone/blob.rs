//! Blobs.
use vstd::prelude::*;
use vstd::string::*;

use crate::percent;
use crate::text;
use crate::transport;
use crate::wire;
use crate::wire::{HttpRequest, Payload};

verus! {

/// The bucket and the key that a name stands for: the two sides of its first `/`,
/// or the bucket `default`.
pub open spec fn bucket_and_key(name: Seq<char>) -> (Seq<char>, Seq<char>) {
    match text::sides(name, '/') {
        Some(p) => p,
        None => ("default"@, name),
    }
}

/// Splits a name into bucket and key.
pub fn split_bucket_key(name: &str) -> (r: (String, String))
    ensures
        text::pair_view(r) == bucket_and_key(name@),
{
    match text::split_once(name, '/') {
        Some(p) => p,
        None => ("default".to_owned(), name.to_owned()),
    }
}

/// The path of a blob behind a route that ends in `?bucket=`.
pub open spec fn place(route: Seq<char>, name: Seq<char>) -> Seq<char> {
    let (bucket, key) = bucket_and_key(name);
    route + percent::percent_encoded(bucket) + "&key="@ + percent::percent_encoded(key)
}

fn path_of(route: &str, name: &str) -> (r: String)
    ensures
        r@ == place(route@, name@),
{
    let (bucket, key) = split_bucket_key(name);
    wire::path_with_two(route, bucket.as_str(), "&key=", key.as_str())
}

/// The content type of a blob: that of any bytes where none is given.
pub open spec fn content_type_of(given: Option<&str>) -> Seq<char> {
    match given {
        Some(t) => t@,
        None => "application/octet-stream"@,
    }
}

/// Stores bytes under a name. Where there is no base URL, nothing is sent.
pub fn put(base: &str, name: &str, data: &[u8], content_type: Option<&str>) -> (r: Option<
    HttpRequest,
>)
    ensures
        transport::http_opt(r) == transport::raw_http(
            base@,
            "POST"@,
            place("blob/put?bucket="@, name@),
            data@,
            content_type_of(content_type),
        ),
{
    let path = path_of("blob/put?bucket=", name);
    let t = match content_type {
        Some(t) => t,
        None => "application/octet-stream",
    };
    transport::call_raw(base, "POST", path.as_str(), vstd::slice::slice_to_vec(data), t)
}

/// The HTTP request that fetches a blob, where there is a base URL.
pub open spec fn fetch(base: Seq<char>, name: Seq<char>) -> Option<wire::Http> {
    if base.len() == 0 {
        None
    } else {
        Some(
            wire::Http {
                method: "GET"@,
                url: wire::url_at(base, place("blob/get?bucket="@, name)),
                headers: Seq::empty(),
                payload: wire::Content::Nothing,
                timeout: None,
            },
        )
    }
}

/// Fetches the bytes under a name. `wire::read_raw_reply` reads them out of the
/// reply. Where there is no base URL, nothing is sent.
pub fn get(base: &str, name: &str) -> (r: Option<HttpRequest>)
    ensures
        transport::http_opt(r) == fetch(base@, name@),
{
    if base.is_empty() {
        return None;
    }
    let path = path_of("blob/get?bucket=", name);
    let headers: Vec<(String, String)> = Vec::new();
    assert(wire::pairs(headers@) =~= Seq::empty());
    Some(
        HttpRequest {
            method: "GET".to_owned(),
            url: wire::url_of(base, path.as_str()),
            headers,
            payload: Payload::Nothing,
            timeout: None,
        },
    )
}

// ---------------------------------------------------------------------------
// Laws
// ---------------------------------------------------------------------------

/// A bucket without a slash and any key are found again in the name that joins
/// them; a name without a slash is a key of the bucket `default`.
pub proof fn name_keeps_bucket_and_key(bucket: Seq<char>, key: Seq<char>)
    requires
        !bucket.contains('/'),
    ensures
        bucket_and_key(bucket + seq!['/'] + key) == (bucket, key),
        bucket_and_key(bucket) == ("default"@, bucket),
{
    text::lemma_split_at(bucket, '/', key);
    text::lemma_unsplit(bucket, '/');
}

/// Without a running slice no blob is stored or fetched.
pub proof fn blobs_need_a_slice(name: Seq<char>, data: Seq<u8>, content_type: Seq<char>)
    ensures
        transport::raw_http(
            Seq::empty(),
            "POST"@,
            place("blob/put?bucket="@, name),
            data,
            content_type,
        ) is None,
        fetch(Seq::empty(), name) is None,
{
}

/// A blob is put and fetched under its bucket and its key, both encoded. Its bytes
/// are sent as they are, with the content type that is given, and that of any bytes
/// where none is.
pub proof fn blobs_are_sent_whole(base: Seq<char>, name: Seq<char>, route: Seq<char>, t: &str)
    requires
        base.len() > 0,
    ensures
        place(route, name) == route + percent::percent_encoded(bucket_and_key(name).0) + "&key="@
            + percent::percent_encoded(bucket_and_key(name).1),
        content_type_of(Some(t)) == t@,
        content_type_of(None) == "application/octet-stream"@,
        ({
            let sent = fetch(base, name);
            &&& sent is Some
            &&& sent->0.method == "GET"@
            &&& sent->0.url == base + seq!['/'] + place("blob/get?bucket="@, name)
            &&& sent->0.headers.len() == 0
            &&& sent->0.payload is Nothing
            &&& sent->0.timeout is None
        }),
{
    reveal_strlit("/");
    assert("/"@ =~= seq!['/']);
}

}
