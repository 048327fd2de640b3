//! Channels that fan a message out to the subscribers of a slice.
use vstd::prelude::*;
use vstd::string::*;

use crate::json;
use crate::json::{Json, Object, Tree};
use crate::percent;
use crate::table::Table;
use crate::wire;
use crate::wire::Request;

verus! {

/// A channel.
#[derive(Debug)]
pub struct Channel {
    name: String,
}

impl View for Channel {
    type V = Seq<char>;

    closed spec fn view(&self) -> Seq<char> {
        self.name@
    }
}

/// The channel of that name.
pub fn channel(name: &str) -> (r: Channel)
    ensures
        r@ == name@,
{
    Channel { name: name.to_owned() }
}

/// The call that publishes a message.
pub open spec fn publishing(name: Seq<char>, message: Tree) -> wire::Call {
    wire::post(
        "realtime/publish"@,
        map!["channel"@ => Tree::Text(name), "message"@ => message],
    )
}

/// The call that asks for the number of subscribers.
pub open spec fn counting(name: Seq<char>) -> wire::Call {
    wire::bare("GET"@, "realtime/presence?channel="@ + percent::percent_encoded(name))
}

impl Channel {
    /// Publishes a message to every subscriber. `recipients_in` reads the number
    /// of recipients out of the answer.
    pub fn publish(&self, message: Json) -> (r: Request)
        ensures
            r@ == publishing(self@, message@),
    {
        let mut body: Object = Table::empty();
        body.set("channel", Json::text(self.name.as_str()));
        body.set("message", message);
        wire::post_request("realtime/publish", body)
    }

    /// Asks for the number of subscribers that are connected. `present_in` reads
    /// it out of the answer.
    pub fn presence(&self) -> (r: Request)
        ensures
            r@ == counting(self@),
    {
        wire::bare_request(
            "GET",
            wire::path_with("realtime/presence?channel=", self.name.as_str()),
        )
    }
}

/// Reads the number of recipients out of the answer: zero where it has none.
pub fn recipients_in(answer: &Option<Json>) -> (r: u64)
    ensures
        r == json::count_in(json::tree_opt(*answer), "recipients"@),
{
    json::take_count(answer, "recipients")
}

/// Reads the number of subscribers out of the answer: zero where it has none.
pub fn present_in(answer: &Option<Json>) -> (r: u64)
    ensures
        r == json::count_in(json::tree_opt(*answer), "present"@),
{
    json::take_count(answer, "present")
}

// ---------------------------------------------------------------------------
// Laws
// ---------------------------------------------------------------------------

/// A message is published as it is, whatever it is, on the channel of that name, and
/// subscribers are counted on the channel of that name.
pub proof fn messages_are_published_whole(name: Seq<char>, message: Tree, k: Seq<char>)
    ensures
        ({
            let call = publishing(name, message);
            let m = call.body->0->Fields_0;
            &&& call.method == "POST"@
            &&& call.path == "realtime/publish"@
            &&& call.body is Some && call.body->0 is Fields
            &&& m.contains_key("channel"@) && m["channel"@] == Tree::Text(name)
            &&& m.contains_key("message"@) && m["message"@] == message
            &&& m.contains_key(k) ==> k == "channel"@ || k == "message"@
        }),
        counting(name).method == "GET"@,
        counting(name).path == "realtime/presence?channel="@ + percent::percent_encoded(name),
        counting(name).body is None,
{
    reveal_strlit("channel");
    reveal_strlit("message");
    assert("channel"@[0] != "message"@[0]);
}

}
