//! The participant index: a deduplicated identifier-to-profile
//! mapping over the whole document.  Conversations are walked in
//! document order and each participant list in list order; the first
//! profile seen for an identifier wins, later duplicates are
//! discarded.

use vstd::prelude::*;
use crate::json::JsonV;
use crate::raw::{Conversation, Hangouts, ParticipantData, ParticipantId};
use crate::strutil::str_eq;

verus! {

/// The mathematical value of a participant identifier: the views of
/// its two components.
pub open spec fn pid_view(p: ParticipantId) -> (Seq<char>, Seq<char>) {
    (p.gaia_id@, p.chat_id@)
}

/// The mathematical value of a profile.
pub struct ProfileView {
    pub id: (Seq<char>, Seq<char>),
    pub fallback_name: Option<Seq<char>>,
    pub invitation_status: Option<Seq<char>>,
    pub participant_type: Option<Seq<char>>,
    pub new_invitation_status: Option<Seq<char>>,
    pub in_different_customer_as_requester: Option<bool>,
    pub domain_id: Option<Seq<char>>,
    pub phone_number: Option<JsonV>,
}

pub open spec fn opt_view(o: Option<String>) -> Option<Seq<char>> {
    match o {
        Some(s) => Some(s@),
        None => None,
    }
}

pub open spec fn profile_view(p: ParticipantData) -> ProfileView {
    ProfileView {
        id: pid_view(p.id),
        fallback_name: opt_view(p.fallback_name),
        invitation_status: opt_view(p.invitation_status),
        participant_type: opt_view(p.participant_type),
        new_invitation_status: opt_view(p.new_invitation_status),
        in_different_customer_as_requester: p.in_different_customer_as_requester,
        domain_id: opt_view(p.domain_id),
        phone_number: match p.phone_number {
            Some(v) => Some(v@),
            None => None,
        },
    }
}

pub open spec fn profiles_view(s: Seq<ParticipantData>) -> Seq<ProfileView> {
    s.map_values(|p: ParticipantData| profile_view(p))
}

/// All profiles of the document: conversations in document order,
/// each conversation's participant list in list order.
pub open spec fn all_profiles(cs: Seq<Conversation>) -> Seq<ParticipantData>
    decreases cs.len(),
{
    if cs.len() == 0 {
        Seq::empty()
    } else {
        all_profiles(cs.drop_last()) + cs.last().header.details.participant_data@
    }
}

pub open spec fn has_id_v(s: Seq<ProfileView>, id: (Seq<char>, Seq<char>)) -> bool {
    exists|i: int| 0 <= i < s.len() && (#[trigger] s[i]).id == id
}

/// First occurrence wins: a profile stays only when no earlier
/// profile carries its identifier.
pub open spec fn dedup_first(s: Seq<ProfileView>) -> Seq<ProfileView>
    decreases s.len(),
{
    if s.len() == 0 {
        s
    } else {
        let front = dedup_first(s.drop_last());
        if has_id_v(s.drop_last(), s.last().id) {
            front
        } else {
            front.push(s.last())
        }
    }
}

/// The first profile with the given identifier.
pub open spec fn first_with_id(s: Seq<ProfileView>, id: (Seq<char>, Seq<char>)) -> ProfileView
    recommends
        has_id_v(s, id),
    decreases s.len(),
{
    if s.len() == 0 {
        arbitrary()
    } else if s[0].id == id {
        s[0]
    } else {
        first_with_id(s.drop_first(), id)
    }
}

proof fn lemma_has_id_push(s: Seq<ProfileView>, x: ProfileView, id: (Seq<char>, Seq<char>))
    ensures
        has_id_v(s.push(x), id) <==> (has_id_v(s, id) || x.id == id),
{
    if has_id_v(s, id) {
        let i = choose|i: int| 0 <= i < s.len() && (#[trigger] s[i]).id == id;
        assert(s.push(x)[i].id == id);
    }
    if x.id == id {
        assert(s.push(x)[s.len() as int].id == id);
    }
    if has_id_v(s.push(x), id) && x.id != id {
        let i = choose|i: int| 0 <= i < s.push(x).len() && (#[trigger] s.push(x)[i]).id == id;
        assert(i < s.len());
        assert(s[i].id == id);
    }
}

proof fn lemma_first_push(s: Seq<ProfileView>, x: ProfileView, id: (Seq<char>, Seq<char>))
    ensures
        has_id_v(s, id) ==> first_with_id(s.push(x), id) == first_with_id(s, id),
        !has_id_v(s, id) && x.id == id ==> first_with_id(s.push(x), id) == x,
    decreases s.len(),
{
    if s.len() == 0 {
        if x.id == id {
            assert(s.push(x)[0] == x);
        }
    } else {
        assert(s.push(x)[0] == s[0]);
        assert(s.push(x).drop_first() =~= s.drop_first().push(x));
        if s[0].id == id {
        } else {
            lemma_first_push(s.drop_first(), x, id);
            assert(has_id_v(s, id) ==> has_id_v(s.drop_first(), id)) by {
                if has_id_v(s, id) {
                    let i = choose|i: int|
                        0 <= i < s.len() && (#[trigger] s[i]).id == id;
                    assert(i > 0);
                    assert(s.drop_first()[i - 1].id == id);
                }
            }
            assert(has_id_v(s.drop_first(), id) ==> has_id_v(s, id)) by {
                if has_id_v(s.drop_first(), id) {
                    let i = choose|i: int|
                        0 <= i < s.drop_first().len() && (#[trigger] s.drop_first()[i]).id == id;
                    assert(s[i + 1].id == id);
                }
            }
        }
    }
}

proof fn lemma_dedup_has_id(s: Seq<ProfileView>, id: (Seq<char>, Seq<char>))
    ensures
        has_id_v(dedup_first(s), id) <==> has_id_v(s, id),
    decreases s.len(),
{
    if s.len() > 0 {
        let t = s.drop_last();
        let x = s.last();
        lemma_dedup_has_id(t, id);
        assert(s =~= t.push(x));
        lemma_has_id_push(t, x, id);
        if !has_id_v(t, x.id) {
            lemma_has_id_push(dedup_first(t), x, id);
        }
    }
}

/// The law behind the index: for every identifier that occurs at
/// all, the deduplicated sequence holds it, and its profile there is
/// the first profile with that identifier in the original order.
pub proof fn lemma_index_first_wins(s: Seq<ProfileView>, id: (Seq<char>, Seq<char>))
    requires
        has_id_v(s, id),
    ensures
        has_id_v(dedup_first(s), id),
        first_with_id(dedup_first(s), id) == first_with_id(s, id),
    decreases s.len(),
{
    lemma_dedup_has_id(s, id);
    let t = s.drop_last();
    let x = s.last();
    assert(s =~= t.push(x));
    lemma_has_id_push(t, x, id);
    lemma_first_push(t, x, id);
    if has_id_v(t, id) {
        lemma_index_first_wins(t, id);
        if has_id_v(t, x.id) {
        } else {
            lemma_dedup_has_id(t, id);
            lemma_first_push(dedup_first(t), x, id);
        }
    } else {
        lemma_dedup_has_id(t, id);
        lemma_first_push(dedup_first(t), x, id);
    }
}

/// The deduplicated identifier-to-profile mapping of one document.
/// Entries keep first-seen order and carry distinct identifiers.
pub struct ParticipantIndex {
    pub entries: Vec<ParticipantData>,
}

impl View for ParticipantIndex {
    type V = Seq<ProfileView>;

    open spec fn view(&self) -> Seq<ProfileView> {
        profiles_view(self.entries@)
    }
}

/// Whether the index's entries carry a profile with this identifier.
fn contains_id(entries: &Vec<ParticipantData>, id: &ParticipantId) -> (r: bool)
    ensures
        r == has_id_v(profiles_view(entries@), pid_view(*id)),
{
    let n = entries.len();
    let mut i: usize = 0;
    while i < n
        invariant
            n == entries@.len(),
            i <= n,
            forall|j: int|
                0 <= j < i ==> (#[trigger] profiles_view(entries@)[j]).id != pid_view(*id),
        decreases n - i,
    {
        let e = &entries[i];
        if str_eq(e.id.gaia_id.as_str(), id.gaia_id.as_str()) && str_eq(
            e.id.chat_id.as_str(),
            id.chat_id.as_str(),
        ) {
            proof {
                assert(profiles_view(entries@)[i as int].id == pid_view(*id));
            }
            return true;
        }
        proof {
            assert(profiles_view(entries@)[i as int] == profile_view(entries@[i as int]));
        }
        i += 1;
    }
    false
}

impl ParticipantIndex {
    /// How many distinct participants the index holds.
    pub fn len(&self) -> (r: usize)
        ensures
            r == self@.len(),
    {
        self.entries.len()
    }

    /// Looks an identifier up: the first profile with it, in the
    /// walk order the index was built with, or nothing when the
    /// identifier never occurs.
    pub fn get<'a>(&'a self, id: &ParticipantId) -> (r: Option<&'a ParticipantData>)
        ensures
            match r {
                Some(p) => has_id_v(self@, pid_view(*id)) && profile_view(*p) == first_with_id(
                    self@,
                    pid_view(*id),
                ),
                None => !has_id_v(self@, pid_view(*id)),
            },
    {
        let n = self.entries.len();
        let mut i: usize = 0;
        while i < n
            invariant
                n == self.entries@.len(),
                i <= n,
                forall|j: int| 0 <= j < i ==> (#[trigger] self@[j]).id != pid_view(*id),
            decreases n - i,
        {
            let e = &self.entries[i];
            if str_eq(e.id.gaia_id.as_str(), id.gaia_id.as_str()) && str_eq(
                e.id.chat_id.as_str(),
                id.chat_id.as_str(),
            ) {
                proof {
                    assert(self@[i as int].id == pid_view(*id));
                    lemma_first_at(self@, pid_view(*id), i as int);
                }
                return Some(e);
            }
            proof {
                assert(self@[i as int] == profile_view(self.entries@[i as int]));
            }
            i += 1;
        }
        None
    }
}

proof fn lemma_first_at(s: Seq<ProfileView>, id: (Seq<char>, Seq<char>), i: int)
    requires
        0 <= i < s.len(),
        s[i].id == id,
        forall|j: int| 0 <= j < i ==> (#[trigger] s[j]).id != id,
    ensures
        has_id_v(s, id),
        first_with_id(s, id) == s[i],
    decreases i,
{
    if i > 0 {
        lemma_first_at(s.drop_first(), id, i - 1);
    }
}

impl Hangouts {
    /// Builds the participant index: conversations in document
    /// order, each participant list in list order, first profile per
    /// identifier wins.
    #[verifier::loop_isolation(false)]
    pub fn participants(&self) -> (r: ParticipantIndex)
        ensures
            r@ == dedup_first(profiles_view(all_profiles(self.conversations@))),
    {
        let mut entries: Vec<ParticipantData> = Vec::new();
        let nc = self.conversations.len();
        let mut ci: usize = 0;
        proof {
            assert(self.conversations@.subrange(0, 0) =~= Seq::<Conversation>::empty());
            assert(profiles_view(Seq::<ParticipantData>::empty())
                =~= Seq::<ProfileView>::empty());
        }
        while ci < nc
            invariant
                ci <= nc == self.conversations@.len(),
                profiles_view(entries@) == dedup_first(
                    profiles_view(all_profiles(self.conversations@.subrange(0, ci as int))),
                ),
            decreases nc - ci,
        {
            let convo = &self.conversations[ci];
            let pd = &convo.header.details.participant_data;
            let np = pd.len();
            let mut pi: usize = 0;
            let ghost base = all_profiles(self.conversations@.subrange(0, ci as int));
            proof {
                assert(base + pd@.subrange(0, 0) =~= base);
            }
            while pi < np
                invariant
                    pi <= np == pd@.len(),
                    profiles_view(entries@) == dedup_first(
                        profiles_view(base + pd@.subrange(0, pi as int)),
                    ),
                decreases np - pi,
            {
                let ghost sofar = base + pd@.subrange(0, pi as int);
                let p = &pd[pi];
                let present = contains_id(&entries, &p.id);
                proof {
                    lemma_profiles_concat(base, pd@.subrange(0, pi as int));
                    assert(sofar.push(pd@[pi as int]) =~= base + pd@.subrange(0, pi + 1));
                    assert(profiles_view(sofar.push(pd@[pi as int])) =~= profiles_view(
                        sofar,
                    ).push(profile_view(pd@[pi as int])));
                    lemma_dedup_has_id(profiles_view(sofar), profile_view(pd@[pi as int]).id);
                    let vx = profile_view(pd@[pi as int]);
                    let sv = profiles_view(sofar).push(vx);
                    assert(sv.drop_last() =~= profiles_view(sofar));
                    assert(sv.last() == vx);
                    assert(dedup_first(sv) == if has_id_v(profiles_view(sofar), vx.id) {
                        dedup_first(profiles_view(sofar))
                    } else {
                        dedup_first(profiles_view(sofar)).push(vx)
                    });
                }
                if !present {
                    entries.push(p.clone());
                    proof {
                        assert(profiles_view(entries@) =~= dedup_first(profiles_view(sofar)).push(
                            profile_view(pd@[pi as int]),
                        ));
                    }
                } else {
                    proof {
                        assert(profiles_view(entries@) == dedup_first(
                            profiles_view(base + pd@.subrange(0, pi + 1)),
                        ));
                    }
                }
                pi += 1;
            }
            proof {
                assert(all_profiles(self.conversations@.subrange(0, ci + 1)) =~= base + pd@) by {
                    assert(self.conversations@.subrange(0, ci + 1).drop_last()
                        =~= self.conversations@.subrange(0, ci as int));
                    assert(self.conversations@.subrange(0, ci + 1).last()
                        == self.conversations@[ci as int]);
                }
                assert(pd@.subrange(0, np as int) =~= pd@);
            }
            ci += 1;
        }
        proof {
            assert(self.conversations@.subrange(0, nc as int) =~= self.conversations@);
        }
        ParticipantIndex { entries }
    }
}

/// Profile views distribute over concatenation.
proof fn lemma_profiles_concat(a: Seq<ParticipantData>, b: Seq<ParticipantData>)
    ensures
        profiles_view(a + b) =~= profiles_view(a) + profiles_view(b),
{
}

} // verus!
