//! The notice that a session has arrived.

use vstd::prelude::*;
use vstd::string::*;
use crate::payload::{json_quote, json_string, MessageType, Payload};
use crate::text::{decimal_chars, decimal_string};

verus! {

/// The arrival of one session at one time.
#[derive(Debug)]
pub struct Presence {
    pub user_id: String,
    pub timestamp: u64,
}

/// The indented form of a notice: one object with the two fields `user_id` and
/// `timestamp`, in this order, one to a line.
pub open spec fn pretty_presence(user_id: Seq<char>, timestamp: u64) -> Seq<char> {
    "{\n  \"user_id\": "@ + json_string(user_id) + ",\n  \"timestamp\": "@ + decimal_chars(
        timestamp as nat,
    ) + "\n}"@
}

/// The text that announces a session.
pub open spec fn arrival_text(name: Seq<char>) -> Seq<char> {
    name + " has connected."@
}

impl Presence {
    /// The message that announces the arrival to the peer: it comes from the
    /// session itself, is of the system's kind and carries the time of arrival.
    pub fn announcement(&self) -> (r: Payload)
        ensures
            r.from@ == self.user_id@,
            r.kind == MessageType::System,
            r.text@ == arrival_text(self.user_id@),
            r.timestamp == self.timestamp,
    {
        let mut text = self.user_id.clone();
        text.append(" has connected.");
        Payload {
            from: self.user_id.clone(),
            kind: MessageType::System,
            text,
            timestamp: self.timestamp,
        }
    }

    /// The text that this notice denotes on the wire.
    pub open spec fn wire_text(&self) -> Seq<char> {
        pretty_presence(self.user_id@, self.timestamp)
    }

    /// Encodes the notice as the text of one message, in the indented form.
    pub fn to_message(&self) -> (r: String)
        ensures
            r@ == self.wire_text(),
    {
        let user_id = json_quote(self.user_id.as_str());
        let stamp = decimal_string(self.timestamp);
        let mut out = String::new();
        out.append("{\n  \"user_id\": ");
        out.append(user_id.as_str());
        out.append(",\n  \"timestamp\": ");
        out.append(stamp.as_str());
        out.append("\n}");
        assert(Seq::<char>::empty() + "{\n  \"user_id\": "@ =~= "{\n  \"user_id\": "@);
        out
    }
}

} // verus!
