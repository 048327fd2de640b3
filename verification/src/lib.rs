//! Drift SDK for Rust Atomic functions.
//!
//! This crate holds the logic of the SDK: what is asked of a slice, what its
//! replies mean, how a request reaches a handler, and the store that stands in for
//! a slice during local development. It sends and reads nothing itself. A function
//! plans a request as a value; whoever calls it does the sending, and hands back
//! the reply as a value.
//!
//! - `backbone`: the sole entry to state. Secrets, cached values, documents,
//!   queues, blobs, locks, SQL and realtime channels.
//! - `deed`: identity, verified. Login by a device key, tokens, backups, further
//!   devices, and data that follows an identity.
//! - `transport`: where a call goes, to a running slice or to the local store.
//! - `http`: requests to anywhere.
//! - `slices`: calls from slice to slice.
//! - `serve`: what a handler is given, and what becomes of its result.
//!
//! The rest is what these are made of: `local` is the store, `wire` what goes over
//! the wire, `query` and `percent` the encoding of paths, `json` the values,
//! `document` their border with `serde_json`, `table` maps by name, and `text` the
//! handling of characters.

pub mod backbone;
pub mod deed;
pub mod document;
pub mod http;
pub mod json;
pub mod local;
pub mod percent;
pub mod query;
pub mod serve;
pub mod slices;
pub mod table;
pub mod text;
pub mod transport;
pub mod wire;

pub use http::{http_request, http_request_with_timeout};
pub use serve::WsConn;
pub use slices::{caller_slice, slice, SliceClient};
