//! Recorded plant and claim events.

use vstd::prelude::*;
use vstd::multiset::lemma_multiset_empty_len;
use vstd::multiset::Multiset;
use vstd::seq_lib::to_multiset_build;
use vstd::seq_lib::to_multiset_insert;
use vstd::seq_lib::to_multiset_len;

verus! {

/// What a recorded request asked for.
#[derive(Clone, Copy, Debug, PartialEq, Eq, Structural, Hash)]
pub enum EventKind {
    /// The first registration of a treasure.
    Plant,
    /// The transfer of a planted treasure to the claiming account.
    Claim,
}

/// One record of the event store: the kind of request, the treasure it is
/// about, and the time at which it was recorded.
#[derive(Debug)]
pub struct TreasureEvent {
    pub kind: EventKind,
    /// The treasure's public key in its canonical encoding.
    pub public_key: String,
    /// The record time, in any unit that grows with time.
    pub timestamp: u64,
}

/// A `TreasureEvent` as a mathematical value.
pub struct EventView {
    pub kind: EventKind,
    pub public_key: Seq<char>,
    pub timestamp: nat,
}

impl View for TreasureEvent {
    type V = EventView;

    open spec fn view(&self) -> EventView {
        EventView {
            kind: self.kind,
            public_key: self.public_key@,
            timestamp: self.timestamp as nat,
        }
    }
}

/// The events of `events` as mathematical values, in the same order.
pub open spec fn events_view(events: Seq<TreasureEvent>) -> Seq<EventView> {
    events.map_values(|event: TreasureEvent| event@)
}

impl TreasureEvent {
    pub fn new(kind: EventKind, public_key: String, timestamp: u64) -> (event: TreasureEvent)
        ensures
            event@ == (EventView { kind, public_key: public_key@, timestamp: timestamp as nat }),
    {
        TreasureEvent { kind, public_key, timestamp }
    }
}

/// The order of byte strings by their first difference; a proper prefix
/// comes before what it is a prefix of.
pub open spec fn lex_le(a: Seq<u8>, b: Seq<u8>) -> bool
    decreases a.len(),
{
    if a.len() == 0 {
        true
    } else if b.len() == 0 {
        false
    } else if a[0] != b[0] {
        a[0] < b[0]
    } else {
        lex_le(a.drop_first(), b.drop_first())
    }
}

/// Of two byte strings one comes before the other, or both do.
pub proof fn lemma_lex_le_total(a: Seq<u8>, b: Seq<u8>)
    ensures
        lex_le(a, b) || lex_le(b, a),
    decreases a.len(),
{
    if a.len() > 0 && b.len() > 0 && a[0] == b[0] {
        lemma_lex_le_total(a.drop_first(), b.drop_first());
    }
}

/// The order of byte strings is transitive.
pub proof fn lemma_lex_le_transitive(a: Seq<u8>, b: Seq<u8>, c: Seq<u8>)
    requires
        lex_le(a, b),
        lex_le(b, c),
    ensures
        lex_le(a, c),
    decreases a.len(),
{
    if a.len() > 0 && a[0] == b[0] && b[0] == c[0] {
        lemma_lex_le_transitive(a.drop_first(), b.drop_first(), c.drop_first());
    }
}

/// Whether `a` comes before `b` in the order of byte strings, or equals it.
pub fn bytes_le(a: &[u8], b: &[u8]) -> (le: bool)
    ensures
        le == lex_le(a@, b@),
{
    let mut i: usize = 0;
    assert(a@.skip(0) =~= a@ && b@.skip(0) =~= b@);
    while i < a.len() && i < b.len()
        invariant
            i <= a.len(),
            i <= b.len(),
            lex_le(a@, b@) == lex_le(a@.skip(i as int), b@.skip(i as int)),
        decreases a.len() - i,
    {
        if a[i] != b[i] {
            return a[i] < b[i];
        }
        proof {
            assert(a@.skip(i as int).drop_first() =~= a@.skip(i + 1));
            assert(b@.skip(i as int).drop_first() =~= b@.skip(i + 1));
        }
        i += 1;
    }
    i == a.len()
}

/// The place of a kind among events of one time and one treasure: the
/// plant comes before the claim.
pub open spec fn kind_order(kind: EventKind) -> nat {
    match kind {
        EventKind::Plant => 0,
        EventKind::Claim => 1,
    }
}

/// The bytes by which the keys of events are compared: the UTF-8 bytes of
/// the encoded key.
pub open spec fn key_bytes(public_key: Seq<char>) -> Seq<u8> {
    vstd::utf8::encode_utf8(public_key)
}

/// The order in which events are taken: by record time; at equal times by
/// the bytes of the treasure's key; and for the same time and key bytes the
/// plant before the claim.
pub open spec fn event_le(a: EventView, b: EventView) -> bool {
    ||| a.timestamp < b.timestamp
    ||| {
        &&& a.timestamp == b.timestamp
        &&& lex_le(key_bytes(a.public_key), key_bytes(b.public_key))
        &&& lex_le(key_bytes(b.public_key), key_bytes(a.public_key)) ==> kind_order(a.kind)
            <= kind_order(b.kind)
    }
}

/// Of two events one comes before the other, or both do.
pub proof fn lemma_event_le_total(a: EventView, b: EventView)
    ensures
        event_le(a, b) || event_le(b, a),
{
    lemma_lex_le_total(key_bytes(a.public_key), key_bytes(b.public_key));
}

/// The order of events is transitive.
pub proof fn lemma_event_le_transitive(a: EventView, b: EventView, c: EventView)
    requires
        event_le(a, b),
        event_le(b, c),
    ensures
        event_le(a, c),
{
    if a.timestamp == b.timestamp && b.timestamp == c.timestamp {
        let ka = key_bytes(a.public_key);
        let kb = key_bytes(b.public_key);
        let kc = key_bytes(c.public_key);
        lemma_lex_le_transitive(ka, kb, kc);
        if lex_le(kc, ka) {
            lemma_lex_le_transitive(kc, ka, kb);
            lemma_lex_le_transitive(kb, kc, ka);
        }
    }
}

/// Every event comes before every later one in the order of events.
pub open spec fn time_sorted(events: Seq<EventView>) -> bool {
    forall|i: int, j: int| 0 <= i < j < events.len() ==> event_le(events[i], events[j])
}

impl TreasureEvent {
    /// Whether `self` comes before `other` in the order of events, or is
    /// its equal there.
    pub fn precedes(&self, other: &TreasureEvent) -> (le: bool)
        ensures
            le == event_le(self@, other@),
    {
        if self.timestamp != other.timestamp {
            return self.timestamp < other.timestamp;
        }
        let mine = self.public_key.as_str().as_bytes();
        let theirs = other.public_key.as_str().as_bytes();
        if !bytes_le(mine, theirs) {
            false
        } else if !bytes_le(theirs, mine) {
            true
        } else {
            match (self.kind, other.kind) {
                (EventKind::Claim, EventKind::Plant) => false,
                _ => true,
            }
        }
    }
}

proof fn lemma_no_events(events: Seq<EventView>)
    requires
        events.len() == 0,
    ensures
        events.to_multiset() == Multiset::<EventView>::empty(),
{
    to_multiset_len(events);
    lemma_multiset_empty_len(events.to_multiset());
}

fn insertion_point(sorted: &Vec<TreasureEvent>, event: &TreasureEvent) -> (position: usize)
    requires
        time_sorted(events_view(sorted@)),
    ensures
        position <= sorted.len(),
        time_sorted(events_view(sorted@).insert(position as int, event@)),
{
    let ghost views = events_view(sorted@);
    let mut position: usize = 0;
    while position < sorted.len() && sorted[position].precedes(event)
        invariant
            position <= sorted.len(),
            views == events_view(sorted@),
            forall|i: int| 0 <= i < position ==> event_le(#[trigger] views[i], event@),
        decreases sorted.len() - position,
    {
        position += 1;
    }
    proof {
        let after = views.insert(position as int, event@);
        assert forall|i: int, j: int| 0 <= i < j < after.len() implies event_le(
            after[i],
            after[j],
        ) by {
            if j < position {
                assert(after[i] == views[i] && after[j] == views[j]);
            } else if j == position {
                assert(after[i] == views[i]);
            } else if i == position {
                let first = views[position as int];
                assert(after[j] == views[j - 1]);
                lemma_event_le_total(first, event@);
                if j - 1 > position {
                    lemma_event_le_transitive(event@, first, views[j - 1]);
                }
            } else if i < position {
                assert(after[i] == views[i] && after[j] == views[j - 1]);
            } else {
                assert(after[i] == views[i - 1] && after[j] == views[j - 1]);
            }
        }
    }
    position
}

/// Puts events into the order in which they are taken: ascending by record
/// time, events of one time by the bytes of the treasure's key, and for one
/// time and key the plant before the claim. The result holds the events
/// that were given, each as often as it was given.
pub fn sort_events(events: Vec<TreasureEvent>) -> (sorted: Vec<TreasureEvent>)
    ensures
        time_sorted(events_view(sorted@)),
        events_view(sorted@).to_multiset() == events_view(events@).to_multiset(),
{
    let ghost all = events_view(events@);
    let mut rest = events;
    let mut sorted: Vec<TreasureEvent> = Vec::new();
    proof {
        lemma_no_events(events_view(sorted@));
        assert(events_view(sorted@).to_multiset().add(all.to_multiset()) =~= all.to_multiset());
    }
    while rest.len() > 0
        invariant
            time_sorted(events_view(sorted@)),
            events_view(sorted@).to_multiset().add(events_view(rest@).to_multiset())
                == all.to_multiset(),
        decreases rest.len(),
    {
        let ghost rest_before = events_view(rest@);
        let ghost sorted_before = events_view(sorted@);
        let event = rest.pop().unwrap();
        let position = insertion_point(&sorted, &event);
        sorted.insert(position, event);
        proof {
            assert(events_view(sorted@) =~= sorted_before.insert(position as int, event@));
            assert(rest_before =~= events_view(rest@).push(event@));
            to_multiset_insert(sorted_before, position as int, event@);
            to_multiset_build(events_view(rest@), event@);
            assert(events_view(sorted@).to_multiset().add(events_view(rest@).to_multiset())
                =~= sorted_before.to_multiset().add(rest_before.to_multiset()));
        }
    }
    proof {
        lemma_no_events(events_view(rest@));
        assert(events_view(sorted@).to_multiset().add(events_view(rest@).to_multiset())
            =~= events_view(sorted@).to_multiset());
    }
    sorted
}

} // verus!
