//! Recording events: what the terminal showed, and when.
use vstd::prelude::*;

use crate::text::owned;

verus! {

/// What an event records.
#[derive(Debug, Clone, Copy, PartialEq, Eq, Structural)]
pub enum EventType {
    /// Bytes sent to the session.
    Input,
    /// Bytes the session printed, typed characters included.
    Output,
    /// A named instant.
    Marker,
}

/// One recorded event. `time` is the delay, in microseconds, since the event
/// before it; it is never an absolute time.
#[derive(Debug)]
pub struct Event {
    pub time: u64,
    pub event_type: EventType,
    pub data: String,
}

/// An event as a mathematical value.
pub struct EventView {
    pub time: u64,
    pub event_type: EventType,
    pub data: Seq<char>,
}

impl View for Event {
    type V = EventView;

    open spec fn view(&self) -> EventView {
        EventView { time: self.time, event_type: self.event_type, data: self.data@ }
    }
}

pub open spec fn event_view(time: u64, event_type: EventType, data: Seq<char>) -> EventView {
    EventView { time, event_type, data }
}

/// The views of a sequence of events.
pub open spec fn events_view(v: Seq<Event>) -> Seq<EventView> {
    v.map_values(|e: Event| e@)
}

/// The line terminator a typed line ends with.
pub open spec fn crlf() -> Seq<char> {
    seq!['\r', '\n']
}

impl Clone for Event {
    fn clone(&self) -> (r: Event)
        ensures
            r@ == self@,
    {
        Event { time: self.time, event_type: self.event_type, data: owned(self.data.as_str()) }
    }
}

impl PartialEq for Event {
    fn eq(&self, other: &Event) -> (r: bool)
        ensures
            r == (self@ == other@),
    {
        self.time == other.time && self.event_type == other.event_type && self.data == other.data
    }
}

impl vstd::std_specs::cmp::PartialEqSpecImpl for Event {
    open spec fn obeys_eq_spec() -> bool {
        true
    }

    open spec fn eq_spec(&self, other: &Event) -> bool {
        self@ == other@
    }
}

impl Event {
    pub fn input(time: u64, data: String) -> (r: Self)
        ensures
            r@ == event_view(time, EventType::Input, data@),
    {
        Self { time, event_type: EventType::Input, data }
    }

    pub fn output(time: u64, data: String) -> (r: Self)
        ensures
            r@ == event_view(time, EventType::Output, data@),
    {
        Self { time, event_type: EventType::Output, data }
    }

    /// An output event that moves to the start of a new line.
    pub fn outputln(time: u64) -> (r: Self)
        ensures
            r@ == event_view(time, EventType::Output, crlf()),
    {
        let mut data = String::new();
        crate::text::push_char(&mut data, '\r');
        crate::text::push_char(&mut data, '\n');
        assert(data@ =~= crlf());
        Self { time, event_type: EventType::Output, data }
    }

    pub fn marker(time: u64, data: String) -> (r: Self)
        ensures
            r@ == event_view(time, EventType::Marker, data@),
    {
        Self { time, event_type: EventType::Marker, data }
    }
}

} // verus!
