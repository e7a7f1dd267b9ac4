//! The message envelope and its text form on the wire.

use vstd::prelude::*;
use vstd::string::*;
use crate::text::{decimal_chars, decimal_string};

verus! {

/// Where a message comes from: a person, the system itself, or the peer's echo.
#[derive(Debug, Clone, Copy, PartialEq, Eq, Structural)]
pub enum MessageType {
    User,
    System,
    Echo,
}

/// One message as it travels over a connection.
#[derive(Debug)]
pub struct Payload {
    pub from: String,
    pub kind: MessageType,
    pub text: String,
    pub timestamp: u64,
}

/// The JSON string literal that stands for a text: the text between double
/// quotes, with quotes, backslashes and control characters escaped.
pub uninterp spec fn json_string(s: Seq<char>) -> Seq<char>;

/// Calls `serde_json::to_string` on a string slice. Trusted: the result is the
/// JSON string literal for `s`. The call writes into a buffer in memory, and
/// the only error it can report for a string slice is a failed write, which
/// such a buffer never gives.
#[verifier::external_body]
pub(crate) fn json_quote(s: &str) -> (r: String)
    ensures
        r@ == json_string(s@),
{
    serde_json::to_string(s).unwrap_or_default()
}

/// The tag by which a kind is written on the wire.
pub open spec fn kind_tag(kind: MessageType) -> Seq<char> {
    match kind {
        MessageType::User => "User"@,
        MessageType::System => "System"@,
        MessageType::Echo => "Echo"@,
    }
}

/// The kind that a tag on the wire stands for. Only the three tags are known.
pub open spec fn kind_of_tag(tag: Seq<char>) -> Option<MessageType> {
    if tag == "User"@ {
        Some(MessageType::User)
    } else if tag == "System"@ {
        Some(MessageType::System)
    } else if tag == "Echo"@ {
        Some(MessageType::Echo)
    } else {
        None
    }
}

/// The indented form of an envelope: one object with the four fields `from`,
/// `kind`, `text` and `timestamp`, in this order, one to a line.
pub open spec fn pretty_payload(
    from: Seq<char>,
    kind: MessageType,
    text: Seq<char>,
    timestamp: u64,
) -> Seq<char> {
    "{\n  \"from\": "@ + json_string(from) + ",\n  \"kind\": \""@ + kind_tag(kind)
        + "\",\n  \"text\": "@ + json_string(text) + ",\n  \"timestamp\": "@ + decimal_chars(
        timestamp as nat,
    ) + "\n}"@
}

impl MessageType {
    /// The tag by which this kind is written on the wire.
    pub fn tag(&self) -> (r: &'static str)
        ensures
            r@ == kind_tag(*self),
    {
        match self {
            MessageType::User => "User",
            MessageType::System => "System",
            MessageType::Echo => "Echo",
        }
    }

    /// Reads a tag from the wire. A tag that names no kind is refused.
    pub fn from_tag(tag: &str) -> (r: Option<MessageType>)
        ensures
            r == kind_of_tag(tag@),
    {
        let given: String = tag.to_owned();
        if given == "User".to_owned() {
            Some(MessageType::User)
        } else if given == "System".to_owned() {
            Some(MessageType::System)
        } else if given == "Echo".to_owned() {
            Some(MessageType::Echo)
        } else {
            None
        }
    }
}

/// A kind that is written as its tag and read back is the same kind, and a tag
/// that is read as a kind is that kind's tag.
pub proof fn tag_round_trip(kind: MessageType, tag: Seq<char>)
    ensures
        kind_of_tag(kind_tag(kind)) == Some(kind),
        kind_of_tag(tag) == Some(kind) ==> tag == kind_tag(kind),
{
    reveal_strlit("User");
    reveal_strlit("System");
    reveal_strlit("Echo");
    assert("User"@[0] == 'U');
    assert("Echo"@[0] == 'E');
    assert("User"@.len() != "System"@.len());
    assert("Echo"@.len() != "System"@.len());
}

impl Payload {
    /// The text that this envelope denotes on the wire.
    pub open spec fn wire_text(&self) -> Seq<char> {
        pretty_payload(self.from@, self.kind, self.text@, self.timestamp)
    }

    /// Encodes the envelope as the text of one message, in the indented form.
    pub fn to_message(&self) -> (r: String)
        ensures
            r@ == self.wire_text(),
    {
        let from = json_quote(self.from.as_str());
        let text = json_quote(self.text.as_str());
        let stamp = decimal_string(self.timestamp);
        let mut out = String::new();
        out.append("{\n  \"from\": ");
        out.append(from.as_str());
        out.append(",\n  \"kind\": \"");
        out.append(self.kind.tag());
        out.append("\",\n  \"text\": ");
        out.append(text.as_str());
        out.append(",\n  \"timestamp\": ");
        out.append(stamp.as_str());
        out.append("\n}");
        assert(Seq::<char>::empty() + "{\n  \"from\": "@ =~= "{\n  \"from\": "@);
        out
    }
}

} // verus!
