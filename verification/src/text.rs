//! Plain-text extraction from an event: the literal text of a chat
//! message's segments, with line breaks rendered as their own text
//! or a newline, and links contributing nothing.  Any other event
//! kind has no plain text; that is not an error.

use vstd::prelude::*;
use vstd::string::StringExecFns;
use crate::raw::{ChatSegment, Event, EventData};

verus! {

/// What one segment contributes to the plain text.
pub open spec fn seg_text(s: ChatSegment) -> Seq<char> {
    match s {
        ChatSegment::Text { text, .. } => text@,
        ChatSegment::Link { .. } => Seq::empty(),
        ChatSegment::LineBreak { text } => match text {
            Some(t) => t@,
            None => seq!['\n'],
        },
    }
}

/// The plain text of a segment sequence: each segment's contribution
/// in order.
pub open spec fn plain_text(segs: Seq<ChatSegment>) -> Seq<char>
    decreases segs.len(),
{
    if segs.len() == 0 {
        Seq::empty()
    } else {
        plain_text(segs.drop_last()) + seg_text(segs.last())
    }
}

impl Event {
    /// The plain-text rendering of a chat message's content; absent
    /// for every other event kind.
    #[verifier::loop_isolation(false)]
    pub fn text_only(&self) -> (r: Option<String>)
        ensures
            r is Some <==> self.data is ChatMessage,
            r matches Some(t) ==> (self.data matches EventData::ChatMessage {
                message_content,
                ..
            } && t@ == plain_text(message_content.segments@)),
    {
        let msg = match &self.data {
            EventData::ChatMessage { message_content, .. } => message_content,
            _ => {
                return None;
            },
        };
        let mut combined = String::new();
        let n = msg.segments.len();
        let mut i: usize = 0;
        while i < n
            invariant
                i <= n == msg.segments@.len(),
                combined@ == plain_text(msg.segments@.subrange(0, i as int)),
            decreases n - i,
        {
            match &msg.segments[i] {
                ChatSegment::Text { text, .. } => {
                    combined.append(text.as_str());
                },
                ChatSegment::LineBreak { text } => {
                    match text {
                        Some(t) => combined.append(t.as_str()),
                        None => combined.append("\n"),
                    }
                },
                ChatSegment::Link { .. } => {},
            }
            proof {
                let pre = msg.segments@.subrange(0, i as int);
                let cur = msg.segments@.subrange(0, i + 1);
                assert(cur.drop_last() =~= pre);
                assert(cur.last() == msg.segments@[i as int]);
                reveal_strlit("\n");
                assert("\n"@ =~= seq!['\n']);
            }
            i += 1;
        }
        proof {
            assert(msg.segments@.subrange(0, n as int) =~= msg.segments@);
        }
        Some(combined)
    }
}

} // verus!
