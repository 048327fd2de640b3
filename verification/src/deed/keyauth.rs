//! Login by a device key, without a password.
//!
//! The public key is the identity. `challenge` asks for a nonce, the client signs
//! it together with the key and the domain, and `verify` exchanges the signature
//! for a session token.
use vstd::prelude::*;
use vstd::string::*;

use crate::deed;
use crate::deed::{DeedError, DeedRequest};
use crate::json::{Json, Object, Tree};
use crate::table::Table;
use crate::wire;

verus! {

/// Asks for a nonce to log in with the public key. `nonce_in` reads it out of the
/// outcome.
pub fn challenge(pubkey: &str) -> (r: DeedRequest)
    ensures
        r@ == deed::open_call(
            wire::post("keyauth/challenge"@, map!["pubkey"@ => Tree::Text(pubkey@)]),
        ),
{
    let mut body: Object = Table::empty();
    body.set("pubkey", Json::text(pubkey));
    deed::post("keyauth/challenge", body)
}

/// Reads the nonce out of the outcome of a challenge.
pub fn nonce_in(outcome: Result<Json, DeedError>) -> (r: Result<String, DeedError>)
    ensures
        deed::text_result(r) == deed::text_of(
            deed::tree_result(outcome),
            "nonce"@,
            "keyauth/challenge"@,
        ),
{
    deed::take_text(outcome, "nonce", "keyauth/challenge")
}

/// Hands over the client's signature for a domain. `token_in` reads the session
/// token out of the outcome.
pub fn verify(pubkey: &str, sig: &str, domain: &str) -> (r: DeedRequest)
    ensures
        r@ == deed::open_call(
            wire::post(
                "keyauth/verify"@,
                map![
                    "pubkey"@ => Tree::Text(pubkey@),
                    "sig"@ => Tree::Text(sig@),
                    "domain"@ => Tree::Text(domain@)
                ],
            ),
        ),
{
    let mut body: Object = Table::empty();
    body.set("pubkey", Json::text(pubkey));
    body.set("sig", Json::text(sig));
    body.set("domain", Json::text(domain));
    deed::post("keyauth/verify", body)
}

/// Reads the session token out of the outcome of a verification.
pub fn token_in(outcome: Result<Json, DeedError>) -> (r: Result<String, DeedError>)
    ensures
        deed::text_result(r) == deed::text_of(
            deed::tree_result(outcome),
            "token"@,
            "keyauth/verify"@,
        ),
{
    deed::take_text(outcome, "token", "keyauth/verify")
}

}
