//! The normalization sort: each conversation's events are put in
//! order of their raw timestamp strings, compared byte for byte.
//! The sort is stable in implementation (insertion sort, moving an
//! element only past strictly greater keys); what is proved is that
//! the result is sorted and a permutation of the input.

use vstd::prelude::*;
use vstd::utf8::encode_utf8;
use crate::raw::{Conversation, Event};
use crate::timestamp::lex_lt;

verus! {

/// An event's sort key: the bytes of its raw timestamp.
pub open spec fn ev_key(e: Event) -> Seq<u8> {
    encode_utf8(e.header.timestamp@)
}

/// No later event's key is below an earlier one's.
pub open spec fn sorted_by_ts(s: Seq<Event>) -> bool {
    forall|i: int, j: int| 0 <= i < j < s.len() ==> !lex_lt(ev_key(s[j]), ev_key(s[i]))
}

proof fn lemma_lex_asym(a: Seq<u8>, b: Seq<u8>)
    ensures
        !(lex_lt(a, b) && lex_lt(b, a)),
    decreases a.len(),
{
    if a.len() > 0 && b.len() > 0 && a[0] == b[0] {
        lemma_lex_asym(a.drop_first(), b.drop_first());
    }
}

proof fn lemma_lex_total(a: Seq<u8>, b: Seq<u8>)
    ensures
        lex_lt(a, b) || lex_lt(b, a) || a == b,
    decreases a.len(),
{
    if a.len() > 0 && b.len() > 0 && a[0] == b[0] {
        lemma_lex_total(a.drop_first(), b.drop_first());
        if a.drop_first() == b.drop_first() {
            assert(a =~= seq![a[0]] + a.drop_first());
            assert(b =~= seq![b[0]] + b.drop_first());
        }
    }
}

proof fn lemma_lex_trans(a: Seq<u8>, b: Seq<u8>, c: Seq<u8>)
    requires
        lex_lt(a, b),
        lex_lt(b, c),
    ensures
        lex_lt(a, c),
    decreases a.len(),
{
    if a.len() > 0 && b.len() > 0 && c.len() > 0 {
        if a[0] == b[0] && b[0] == c[0] {
            lemma_lex_trans(a.drop_first(), b.drop_first(), c.drop_first());
        }
    }
}

/// Not-below is transitive.
proof fn lemma_le_trans(a: Seq<u8>, b: Seq<u8>, c: Seq<u8>)
    requires
        !lex_lt(b, a),
        !lex_lt(c, b),
    ensures
        !lex_lt(c, a),
{
    if lex_lt(c, a) {
        lemma_lex_total(a, b);
        if lex_lt(a, b) {
            lemma_lex_trans(c, a, b);
        }
    }
}

/// Compares two byte strings lexicographically.
#[verifier::loop_isolation(false)]
fn lex_lt_bytes(a: &[u8], b: &[u8]) -> (r: bool)
    ensures
        r == lex_lt(a@, b@),
{
    let mut i: usize = 0;
    proof {
        assert(a@.skip(0) =~= a@);
        assert(b@.skip(0) =~= b@);
    }
    while i < a.len() && i < b.len() && a[i] == b[i]
        invariant
            i <= a@.len(),
            i <= b@.len(),
            lex_lt(a@, b@) == lex_lt(a@.skip(i as int), b@.skip(i as int)),
        decreases a@.len() - i,
    {
        proof {
            let sa = a@.skip(i as int);
            let sb = b@.skip(i as int);
            assert(sa[0] == a@[i as int]);
            assert(sb[0] == b@[i as int]);
            assert(sa.drop_first() =~= a@.skip(i + 1));
            assert(sb.drop_first() =~= b@.skip(i + 1));
        }
        i += 1;
    }
    proof {
        let sa = a@.skip(i as int);
        let sb = b@.skip(i as int);
        if i < a.len() {
            assert(sa[0] == a@[i as int]);
        }
        if i < b.len() {
            assert(sb[0] == b@[i as int]);
        }
    }
    if i >= b.len() {
        false
    } else if i >= a.len() {
        true
    } else {
        a[i] < b[i]
    }
}

/// Whether the first event's key is strictly below the second's.
fn ev_lt(a: &Event, b: &Event) -> (r: bool)
    ensures
        r == lex_lt(ev_key(*a), ev_key(*b)),
{
    lex_lt_bytes(a.header.timestamp.as_str().as_bytes(), b.header.timestamp.as_str().as_bytes())
}

/// Inserting an element adds it to the contents.
proof fn lemma_insert_to_multiset(s: Seq<Event>, j: int, x: Event)
    requires
        0 <= j <= s.len(),
    ensures
        s.insert(j, x).to_multiset() == s.to_multiset().insert(x),
{
    broadcast use vstd::seq_lib::group_to_multiset_ensures;

    let t = s.insert(j, x);
    s.insert_ensures(j, x);
    assert(t.remove(j) =~= s);
    assert(t[j] == x);
    assert(t.remove(j).to_multiset() =~= t.to_multiset().remove(t[j]));
    assert(t.contains(x));
    assert(t.to_multiset().count(x) > 0);
    assert(t.to_multiset() =~= s.to_multiset().insert(x));
}

/// Sorts events in place by their raw timestamp strings, compared
/// byte for byte: the result is ordered and holds exactly the same
/// events.
#[verifier::loop_isolation(false)]
pub fn sort_events(events: &mut Vec<Event>)
    ensures
        sorted_by_ts(final(events)@),
        final(events)@.to_multiset() == old(events)@.to_multiset(),
        final(events)@.len() == old(events)@.len(),
{
    broadcast use vstd::seq_lib::group_to_multiset_ensures;

    let n = events.len();
    if n == 0 {
        return ;
    }
    let mut i: usize = 1;
    while i < n
        invariant
            1 <= i <= n,
            events@.len() == n == old(events)@.len(),
            events@.to_multiset() == old(events)@.to_multiset(),
            sorted_by_ts(events@.subrange(0, i as int)),
        decreases n - i,
    {
        let ghost before = events@;
        let x = events.remove(i);
        let ghost removed = events@;
        proof {
            assert(removed =~= before.remove(i as int));
            assert(forall|q: int| 0 <= q < i ==> removed[q] == before[q]);
        }
        let mut j: usize = i;
        while j > 0 && ev_lt(&x, &events[j - 1])
            invariant
                j <= i,
                events@ == removed,
                forall|q: int| j <= q < i ==> lex_lt(ev_key(x), ev_key(#[trigger] removed[q])),
            decreases j,
        {
            j -= 1;
        }
        proof {
            broadcast use vstd::seq_lib::group_to_multiset_ensures;
        }
        events.insert(j, x);
        proof {
            let after = events@;
            assert(after == removed.insert(j as int, x));
            removed.insert_ensures(j as int, x);
            lemma_insert_to_multiset(removed, j as int, x);
            assert(before[i as int] == x);
            assert(removed.to_multiset() =~= before.to_multiset().remove(x));
            assert(before.contains(x)) by {
                assert(before[i as int] == x);
            }
            assert(before.to_multiset().count(x) > 0);
            assert(after.to_multiset() =~= before.to_multiset());

            // The freshly placed element sits between its neighbours.
            assert forall|p: int, q: int| 0 <= p < q < i + 1 implies !lex_lt(
                ev_key(#[trigger] after[q]),
                ev_key(#[trigger] after[p]),
            ) by {
                let sp = before.subrange(0, i as int);
                assert(forall|t: int| 0 <= t < j ==> after[t] == removed[t] && removed[t] == sp[t]);
                assert(after[j as int] == x);
                assert(forall|t: int| j < t <= i ==> after[t] == removed[t - 1] && removed[t - 1]
                    == sp[t - 1]);
                if q < j || (p != j && q > j) {
                    let p0 = if p > j {
                        p - 1
                    } else {
                        p
                    };
                    let q0 = if q > j {
                        q - 1
                    } else {
                        q
                    };
                    assert(!lex_lt(ev_key(sp[q0]), ev_key(sp[p0])));
                } else if q == j {
                    // x is not below its left neighbours.
                    assert(j > 0 && !lex_lt(ev_key(x), ev_key(removed[j - 1])));
                    if p < j - 1 {
                        assert(!lex_lt(ev_key(sp[j - 1]), ev_key(sp[p])));
                    } else {
                        lemma_lex_asym(ev_key(sp[p]), ev_key(sp[p]));
                    }
                    lemma_lex_total(ev_key(x), ev_key(sp[j - 1]));
                    lemma_le_trans(ev_key(sp[p]), ev_key(sp[j - 1]), ev_key(x));
                } else {
                    // p == j: left neighbours of x stay; q is right of x.
                    assert(lex_lt(ev_key(x), ev_key(removed[q - 1])));
                    lemma_lex_asym(ev_key(x), ev_key(removed[q - 1]));
                }
            }
            assert forall|p: int, q: int|
                0 <= p < q < after.subrange(0, i + 1).len() implies !lex_lt(
                ev_key(#[trigger] after.subrange(0, i + 1)[q]),
                ev_key(#[trigger] after.subrange(0, i + 1)[p]),
            ) by {
                assert(after.subrange(0, i + 1)[q] == after[q]);
                assert(after.subrange(0, i + 1)[p] == after[p]);
            }
            assert(sorted_by_ts(after.subrange(0, i + 1)));
        }
        i += 1;
    }
    proof {
        assert(events@.subrange(0, n as int) =~= events@);
    }
}

impl Conversation {
    /// Puts this conversation's events in timestamp order, the
    /// normalization step after ingestion.
    pub fn sort_events(&mut self)
        ensures
            sorted_by_ts(final(self).events@),
            final(self).events@.to_multiset() == old(self).events@.to_multiset(),
            final(self).header == old(self).header,
    {
        sort_events(&mut self.events);
    }
}

} // verus!
