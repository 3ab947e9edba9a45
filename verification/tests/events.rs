use geonft::event::{bytes_le, sort_events, EventKind, TreasureEvent};

fn event(kind: EventKind, public_key: &str, timestamp: u64) -> TreasureEvent {
    TreasureEvent::new(kind, public_key.to_string(), timestamp)
}

fn listed(events: &[TreasureEvent]) -> Vec<(EventKind, String, u64)> {
    events.iter().map(|e| (e.kind, e.public_key.clone(), e.timestamp)).collect()
}

#[test]
fn byte_strings_are_ordered_by_first_difference() {
    assert!(bytes_le(b"", b""));
    assert!(bytes_le(b"", b"a"));
    assert!(!bytes_le(b"a", b""));
    assert!(bytes_le(b"abc", b"abc"));
    assert!(bytes_le(b"abc", b"abd"));
    assert!(!bytes_le(b"abd", b"abc"));
    assert!(bytes_le(b"ab", b"abc"));
    assert!(!bytes_le(b"abc", b"ab"));
    assert!(bytes_le(b"a\x7f", b"a\x80"));
    assert!(bytes_le(b"az", b"b"));
}

#[test]
fn events_compare_by_time_then_key_then_kind() {
    let early = event(EventKind::Claim, "gtp1z", 1);
    let late = event(EventKind::Plant, "gtp1a", 2);
    assert!(early.precedes(&late));
    assert!(!late.precedes(&early));

    let first_key = event(EventKind::Claim, "gtp1a", 5);
    let second_key = event(EventKind::Plant, "gtp1b", 5);
    assert!(first_key.precedes(&second_key));
    assert!(!second_key.precedes(&first_key));

    let plant = event(EventKind::Plant, "gtp1a", 5);
    let claim = event(EventKind::Claim, "gtp1a", 5);
    assert!(plant.precedes(&claim));
    assert!(!claim.precedes(&plant));
    assert!(plant.precedes(&plant));
    assert!(claim.precedes(&claim));
}

#[test]
fn events_are_sorted_by_time() {
    let sorted = sort_events(vec![
        event(EventKind::Claim, "gtp1a", 30),
        event(EventKind::Plant, "gtp1b", 20),
        event(EventKind::Plant, "gtp1a", 10),
    ]);
    assert_eq!(
        listed(&sorted),
        vec![
            (EventKind::Plant, "gtp1a".to_string(), 10),
            (EventKind::Plant, "gtp1b".to_string(), 20),
            (EventKind::Claim, "gtp1a".to_string(), 30),
        ]
    );
}

#[test]
fn events_of_one_time_are_sorted_by_key_and_kind() {
    let sorted = sort_events(vec![
        event(EventKind::Claim, "gtp1b", 7),
        event(EventKind::Claim, "gtp1a", 7),
        event(EventKind::Plant, "gtp1b", 7),
        event(EventKind::Plant, "gtp1a", 7),
        event(EventKind::Plant, "gtp1c", 6),
    ]);
    assert_eq!(
        listed(&sorted),
        vec![
            (EventKind::Plant, "gtp1c".to_string(), 6),
            (EventKind::Plant, "gtp1a".to_string(), 7),
            (EventKind::Claim, "gtp1a".to_string(), 7),
            (EventKind::Plant, "gtp1b".to_string(), 7),
            (EventKind::Claim, "gtp1b".to_string(), 7),
        ]
    );
}

#[test]
fn sorting_keeps_every_event() {
    let sorted = sort_events(vec![
        event(EventKind::Plant, "gtp1a", 3),
        event(EventKind::Plant, "gtp1a", 3),
        event(EventKind::Claim, "gtp1a", 1),
    ]);
    assert_eq!(
        listed(&sorted),
        vec![
            (EventKind::Claim, "gtp1a".to_string(), 1),
            (EventKind::Plant, "gtp1a".to_string(), 3),
            (EventKind::Plant, "gtp1a".to_string(), 3),
        ]
    );
    assert!(sort_events(Vec::new()).is_empty());
}
