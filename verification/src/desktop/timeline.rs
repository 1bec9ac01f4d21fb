use vstd::prelude::*;

use vstd::string::StringExecFns;

verus! {

/// A file-system event: which file, when (Unix seconds), and what happened
/// (`MODIFIED`, `ACCESSED` or `CREATED`).
#[derive(Debug)]
pub struct TimelineEvent {
    pub file_path: String,
    pub timestamp: u64,
    pub event_type: String,
}

/// The deepest directory level that the walk enters.
pub const MAX_WALK_DEPTH: u32 = 10;

/// Once more events than this are collected, no further directory is read.
pub const MAX_EVENTS: usize = 1000;

/// The position at which an event stamped `t` goes into the sorted `s`: after every
/// event stamped no later than `t`.
pub open spec fn insertion_point(s: Seq<TimelineEvent>, t: u64) -> int
    decreases s.len(),
{
    if s.len() == 0 {
        0
    } else if s.last().timestamp <= t {
        s.len() as int
    } else {
        insertion_point(s.drop_last(), t)
    }
}

/// `events` in chronological order, oldest first; events with equal timestamps keep
/// the order they were collected in.
pub open spec fn chronological(events: Seq<TimelineEvent>) -> Seq<TimelineEvent>
    decreases events.len(),
{
    if events.len() == 0 {
        Seq::empty()
    } else {
        let sorted = chronological(events.drop_last());
        sorted.insert(insertion_point(sorted, events.last().timestamp), events.last())
    }
}

/// Timestamps never decrease along `s`.
pub open spec fn is_chronological(s: Seq<TimelineEvent>) -> bool {
    forall|i: int, j: int| 0 <= i <= j < s.len() ==> s[i].timestamp <= s[j].timestamp
}

/// Builds the time line of a mounted file system.
pub struct TimelineEngine;

impl TimelineEngine {
    /// Whether the walk reads a directory at `depth` when `collected` events are in hand.
    pub fn should_walk(depth: u32, collected: usize) -> (r: bool)
        ensures
            r == (depth <= MAX_WALK_DEPTH && collected <= MAX_EVENTS),
    {
        depth <= MAX_WALK_DEPTH && collected <= MAX_EVENTS
    }

    /// The events of one directory entry, from the times its metadata offers, in the
    /// order modified, accessed, created.
    pub fn entry_events(file_path: &str, modified: Option<u64>, accessed: Option<u64>, created: Option<u64>) -> (r:
        Vec<TimelineEvent>)
        ensures
            r@.len() == (if modified is Some { 1int } else { 0 }) + (if accessed is Some { 1int } else { 0 }) + (
            if created is Some { 1int } else { 0 }),
            forall|k: int| 0 <= k < r@.len() ==> (#[trigger] r@[k]).file_path@ == file_path@,
            modified matches Some(t) ==> r@[0].timestamp == t && r@[0].event_type@ == "MODIFIED"@,
            accessed matches Some(t) ==> ({
                let k = if modified is Some { 1int } else { 0 };
                r@[k].timestamp == t && r@[k].event_type@ == "ACCESSED"@
            }),
            created matches Some(t) ==> ({
                let k = r@.len() - 1;
                r@[k].timestamp == t && r@[k].event_type@ == "CREATED"@
            }),
    {
        let mut r: Vec<TimelineEvent> = Vec::new();
        match modified {
            Some(t) => r.push(
                TimelineEvent {
                    file_path: String::from_str(file_path),
                    timestamp: t,
                    event_type: String::from_str("MODIFIED"),
                },
            ),
            None => {},
        }
        match accessed {
            Some(t) => r.push(
                TimelineEvent {
                    file_path: String::from_str(file_path),
                    timestamp: t,
                    event_type: String::from_str("ACCESSED"),
                },
            ),
            None => {},
        }
        match created {
            Some(t) => r.push(
                TimelineEvent {
                    file_path: String::from_str(file_path),
                    timestamp: t,
                    event_type: String::from_str("CREATED"),
                },
            ),
            None => {},
        }
        r
    }

    /// Orders the collected events chronologically, oldest first, keeping the collection
    /// order among events with equal timestamps.
    pub fn generate_timeline(events: Vec<TimelineEvent>) -> (r: Vec<TimelineEvent>)
        ensures
            r@ == chronological(events@),
    {
        let ghost input = events@;
        let n = events.len();
        assert(input.len() == n);
        let mut rest = events;
        let mut sorted: Vec<TimelineEvent> = Vec::new();
        let mut k: usize = 0;
        assert(input.subrange(0, input.len() as int) =~= input);
        while rest.len() > 0
            invariant
                k + rest@.len() == input.len(),
                input.len() <= usize::MAX,
                rest@ == input.subrange(k as int, input.len() as int),
                sorted@ == chronological(input.take(k as int)),
            decreases rest@.len(),
        {
            let e = rest.remove(0);
            let pos = Self::insertion_index(&sorted, e.timestamp);
            proof {
                assert(input.take(k + 1).drop_last() =~= input.take(k as int));
                assert(input.take(k + 1).last() == e);
            }
            sorted.insert(pos, e);
            k = k + 1;
            assert(rest@ =~= input.subrange(k as int, input.len() as int));
        }
        assert(input.take(k as int) =~= input);
        sorted
    }

    fn insertion_index(sorted: &Vec<TimelineEvent>, t: u64) -> (pos: usize)
        ensures
            pos == insertion_point(sorted@, t),
            pos <= sorted@.len(),
    {
        let mut j: usize = sorted.len();
        assert(sorted@.take(j as int) =~= sorted@);
        while j > 0 && sorted[j - 1].timestamp > t
            invariant
                j <= sorted@.len(),
                insertion_point(sorted@, t) == insertion_point(sorted@.take(j as int), t),
            decreases j,
        {
            assert(sorted@.take(j as int).drop_last() =~= sorted@.take(j - 1));
            j = j - 1;
        }
        proof {
            if j > 0 {
                assert(sorted@.take(j as int).last() == sorted@[j - 1]);
            }
            lemma_insertion_point_bounds(sorted@.take(j as int), t);
        }
        j
    }
}

proof fn lemma_insertion_point_bounds(s: Seq<TimelineEvent>, t: u64)
    ensures
        0 <= insertion_point(s, t) <= s.len(),
        forall|i: int| 0 <= i < s.len() && is_chronological(s) ==> (i < insertion_point(s, t) <==> s[i].timestamp
            <= t),
    decreases s.len(),
{
    if s.len() > 0 {
        lemma_insertion_point_bounds(s.drop_last(), t);
        assert forall|i: int| 0 <= i < s.len() && is_chronological(s) implies (i < insertion_point(s, t)
            <==> s[i].timestamp <= t) by {
            let d = s.drop_last();
            assert(is_chronological(d));
            if s.last().timestamp <= t {
                assert(s[i].timestamp <= s[s.len() - 1].timestamp);
            } else {
                if i < s.len() - 1 {
                    assert(d[i] == s[i]);
                }
            }
        }
    }
}

/// The time line is in chronological order and holds exactly the collected events.
pub proof fn law_timeline_sorted_permutation(events: Seq<TimelineEvent>)
    ensures
        is_chronological(chronological(events)),
        chronological(events).to_multiset() == events.to_multiset(),
        chronological(events).len() == events.len(),
    decreases events.len(),
{
    broadcast use vstd::seq_lib::group_to_multiset_ensures;

    if events.len() > 0 {
        let d = events.drop_last();
        let e = events.last();
        law_timeline_sorted_permutation(d);
        let sorted = chronological(d);
        let p = insertion_point(sorted, e.timestamp);
        lemma_insertion_point_bounds(sorted, e.timestamp);
        let r = sorted.insert(p, e);
        assert(r == chronological(events));
        assert forall|i: int, j: int| 0 <= i <= j < r.len() implies r[i].timestamp <= r[j].timestamp by {
            if i < p && j < p {
                assert(r[i] == sorted[i] && r[j] == sorted[j]);
            } else if i < p && j == p {
                assert(r[i] == sorted[i]);
            } else if i < p && j > p {
                assert(r[i] == sorted[i] && r[j] == sorted[j - 1]);
            } else if i == p && j > p {
                assert(r[j] == sorted[j - 1]);
                assert(!(j - 1 < p));
            } else if i > p {
                assert(r[i] == sorted[i - 1] && r[j] == sorted[j - 1]);
            }
        }
        assert(events =~= d.push(e));
        assert(r.to_multiset() =~= sorted.to_multiset().insert(e)) by {
            vstd::seq_lib::lemma_multiset_commutative(sorted.take(p), sorted.skip(p));
            assert(sorted =~= sorted.take(p) + sorted.skip(p));
            assert(r =~= sorted.take(p).push(e) + sorted.skip(p));
            vstd::seq_lib::lemma_multiset_commutative(sorted.take(p).push(e), sorted.skip(p));
        }
    }
}

} // verus!
