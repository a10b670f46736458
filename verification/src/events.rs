//! Lifecycle and data events a control-channel worker emits to its
//! subscriber.
use vstd::prelude::*;

verus! {

/// One event of a control-channel worker, delivered in strict receipt order
/// per session key.
///
/// `Started` is always the first event; `Stopped` ends a cooperative or
/// faulted shutdown and `Closed` a remote end-of-stream, and either is always
/// the last event. A `Line` carries the exact bytes between two newline
/// delimiters (a trailing carriage return is preserved); an `Error` carries a
/// fault message and is immediately followed by `Stopped`.
#[derive(Debug, Clone, PartialEq, Eq)]
pub enum Event {
    Started,
    Line(Vec<u8>),
    Error(String),
    Closed,
    Stopped,
}

/// The mathematical value of an `Event`.
#[verifier::ext_equal]
pub enum EventV {
    Started,
    Line(Seq<u8>),
    Error(Seq<char>),
    Closed,
    Stopped,
}

impl View for Event {
    type V = EventV;

    open spec fn view(&self) -> EventV {
        match self {
            Event::Started => EventV::Started,
            Event::Line(bytes) => EventV::Line(bytes@),
            Event::Error(msg) => EventV::Error(msg@),
            Event::Closed => EventV::Closed,
            Event::Stopped => EventV::Stopped,
        }
    }
}

/// The values of a sequence of events.
pub open spec fn abs_events(s: Seq<Event>) -> Seq<EventV> {
    s.map(|i: int, e: Event| e@)
}

/// Whether an event ends its worker's stream.
pub open spec fn is_terminal_event(e: EventV) -> bool {
    e is Stopped || e is Closed
}

} // verus!
