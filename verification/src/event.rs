//! The events that a recogniser of escape sequences hands to a pane.

use vstd::prelude::*;
use crate::grid::EventView;

verus! {

/// One event of the byte stream.
#[derive(Debug, PartialEq, Eq)]
pub enum Event {
    /// A character to show at the cursor.
    Print(char),
    /// A control byte.
    Execute(u8),
    /// A control sequence: its numeric parameters, in order, and its final character.
    Csi(Vec<u16>, char),
}

impl View for Event {
    type V = EventView;

    open spec fn view(&self) -> EventView {
        match self {
            Event::Print(ch) => EventView::Print(*ch),
            Event::Execute(byte) => EventView::Execute(*byte),
            Event::Csi(params, action) => EventView::Csi(params@, *action),
        }
    }
}

/// The model's events that stand for a sequence of events.
pub open spec fn views_of(events: Seq<Event>) -> Seq<EventView> {
    Seq::new(events.len(), |i: int| events[i]@)
}

} // verus!
