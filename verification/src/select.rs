//! Conversation lookup by participant display name: the first
//! conversation whose participant list holds a profile with exactly
//! that display name, compared case-sensitively.

use vstd::prelude::*;
use crate::raw::{Conversation, Hangouts};
use crate::strutil::str_eq;

verus! {

/// Whether some profile of the conversation carries exactly this
/// display name.  An absent name matches nothing.
pub open spec fn conv_has_name(c: Conversation, name: Seq<char>) -> bool {
    exists|i: int|
        0 <= i < c.header.details.participant_data@.len() && ((#[trigger] c.header.details
            .participant_data@[i]).fallback_name matches Some(f) && f@ == name)
}

/// Whether one profile matches.
fn profile_matches(c: &Conversation, i: usize, name: &str) -> (r: bool)
    requires
        i < c.header.details.participant_data@.len(),
    ensures
        r == ((#[trigger] c.header.details.participant_data@[i as int]).fallback_name matches Some(
            f,
        ) && f@ == name@),
{
    match &c.header.details.participant_data[i].fallback_name {
        Some(f) => str_eq(f.as_str(), name),
        None => false,
    }
}

impl Hangouts {
    /// Finds the first conversation with a participant whose display
    /// name equals `name` exactly, as an index into
    /// `conversations`; `None` when no conversation matches.
    #[verifier::loop_isolation(false)]
    pub fn find_conversation_by_participant_name(&self, name: &str) -> (r: Option<usize>)
        ensures
            match r {
                Some(i) => i < self.conversations@.len() && conv_has_name(
                    self.conversations@[i as int],
                    name@,
                ) && (forall|j: int|
                    0 <= j < i ==> !conv_has_name(#[trigger] self.conversations@[j], name@)),
                None => forall|j: int|
                    0 <= j < self.conversations@.len() ==> !conv_has_name(
                        #[trigger] self.conversations@[j],
                        name@,
                    ),
            },
    {
        let nc = self.conversations.len();
        let mut ci: usize = 0;
        while ci < nc
            invariant
                ci <= nc == self.conversations@.len(),
                forall|j: int|
                    0 <= j < ci ==> !conv_has_name(#[trigger] self.conversations@[j], name@),
            decreases nc - ci,
        {
            let convo = &self.conversations[ci];
            let np = convo.header.details.participant_data.len();
            let mut pi: usize = 0;
            while pi < np
                invariant
                    ci < nc,
                    pi <= np == self.conversations@[ci as int].header.details
                        .participant_data@.len(),
                    forall|j: int|
                        0 <= j < pi ==> !((#[trigger] self.conversations@[ci as int].header.details
                            .participant_data@[j]).fallback_name matches Some(f) && f@ == name@),
                decreases np - pi,
            {
                if profile_matches(convo, pi, name) {
                    return Some(ci);
                }
                pi += 1;
            }
            ci += 1;
        }
        None
    }
}

} // verus!
