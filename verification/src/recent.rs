//! The list of treasures that the page of recent plants shows.

use crate::event::{events_view, EventView, TreasureEvent};
use vstd::prelude::*;

verus! {

/// The number of treasures that the page shows at most.
pub const RECENT_LIMIT: usize = 10;

/// The path under which a treasure's image is served, before its key.
pub const IMAGE_PATH: &'static str = "treasure-images/";

/// One line of the page.
#[derive(Debug, PartialEq, Eq)]
pub struct RecentTreasure {
    /// The treasure's public key in its canonical encoding.
    pub public_key: String,
    /// The address of the treasure's image, relative to the site.
    pub image_url: String,
    /// The time at which the plant was recorded.
    pub timestamp: u64,
}

/// A `RecentTreasure` as a mathematical value.
pub struct RecentTreasureView {
    pub public_key: Seq<char>,
    pub image_url: Seq<char>,
    pub timestamp: nat,
}

impl View for RecentTreasure {
    type V = RecentTreasureView;

    open spec fn view(&self) -> RecentTreasureView {
        RecentTreasureView {
            public_key: self.public_key@,
            image_url: self.image_url@,
            timestamp: self.timestamp as nat,
        }
    }
}

/// The line that the page shows for an event.
pub open spec fn line_of(event: EventView) -> RecentTreasureView {
    RecentTreasureView {
        public_key: event.public_key,
        image_url: IMAGE_PATH@ + event.public_key,
        timestamp: event.timestamp,
    }
}

/// The lines of the page for `events`: one for each of the first
/// `RECENT_LIMIT` events, in their order.
pub open spec fn recent_lines(events: Seq<EventView>) -> Seq<RecentTreasureView> {
    Seq::new(
        if events.len() <= RECENT_LIMIT {
            events.len()
        } else {
            RECENT_LIMIT as nat
        },
        |i: int| line_of(events[i]),
    )
}

/// The lines of the page of recent plants, from the plant events in the
/// order in which the page lists them.
pub fn recent_treasures(events: &Vec<TreasureEvent>) -> (lines: Vec<RecentTreasure>)
    ensures
        lines@.map_values(|line: RecentTreasure| line@) == recent_lines(events_view(events@)),
{
    let mut lines: Vec<RecentTreasure> = Vec::new();
    let mut i: usize = 0;
    while i < events.len() && i < RECENT_LIMIT
        invariant
            i <= events.len(),
            i <= RECENT_LIMIT,
            lines.len() == i,
            forall|j: int| 0 <= j < i ==> (#[trigger] lines[j])@ == line_of(events[j]@),
        decreases events.len() - i,
    {
        let event = &events[i];
        let image_url = IMAGE_PATH.to_owned().concat(event.public_key.as_str());
        lines.push(
            RecentTreasure {
                public_key: event.public_key.clone(),
                image_url,
                timestamp: event.timestamp,
            },
        );
        i += 1;
    }
    assert(lines@.map_values(|line: RecentTreasure| line@) =~= recent_lines(events_view(events@)));
    lines
}

} // verus!
