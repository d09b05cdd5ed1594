//! Rendering of team messages injected into a recipient agent's conversation.

use vstd::prelude::*;
use vstd::string::*;

verus! {

/// The kind of team message, reflected in the `type` attribute.
#[derive(Debug, Clone, Copy, PartialEq, Eq, Structural)]
pub enum MessageKind {
    /// A message sent to one specific member via `send`.
    Direct,
    /// A message sent to all other members via `broadcast`.
    Broadcast,
}

/// The text of the `type` attribute for a message kind.
pub open spec fn kind_text(kind: MessageKind) -> Seq<char> {
    match kind {
        MessageKind::Direct => "direct"@,
        MessageKind::Broadcast => "broadcast"@,
    }
}

impl MessageKind {
    pub fn as_str(self) -> (s: &'static str)
        ensures
            s@ == kind_text(self),
    {
        match self {
            MessageKind::Direct => "direct",
            MessageKind::Broadcast => "broadcast",
        }
    }
}

/// The rendered form of a team message.
pub open spec fn team_message_text(from: Seq<char>, kind: MessageKind, body: Seq<char>) -> Seq<char> {
    "<team-message from=\""@ + from + "\" type=\""@ + kind_text(kind) + "\">\n"@ + body
        + "\n</team-message>"@
}

/// Render a team message as it appears to the recipient agent:
/// `<team-message from="FROM" type="KIND">\nBODY\n</team-message>`.
pub fn team_message(from: &str, kind: MessageKind, body: &str) -> (msg: String)
    ensures
        msg@ == team_message_text(from@, kind, body@),
{
    let mut out = String::from_str("<team-message from=\"");
    out.append(from);
    out.append("\" type=\"");
    out.append(kind.as_str());
    out.append("\">\n");
    out.append(body);
    out.append("\n</team-message>");
    out
}

} // verus!
