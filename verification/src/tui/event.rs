//! The events of a session and the order in which one cycle of the event
//! source hands them out.

use vstd::prelude::*;

verus! {

/// How long the event source waits for input in one cycle unless told
/// otherwise, in milliseconds.
pub const DEFAULT_TICK_MILLIS: u64 = 100;

/// A key of the keyboard, as far as the session tells keys apart.
#[derive(Clone, Copy, Debug, PartialEq, Eq)]
pub enum KeyCode {
    Backspace,
    Enter,
    Up,
    Down,
    Tab,
    Delete,
    Esc,
    /// A function key, by its number.
    F(u8),
    /// A key that types a character.
    Char(char),
    /// Any key the session has no use for.
    Other,
}

/// What the session is told.
#[derive(Clone, Copy, Debug, PartialEq, Eq)]
pub enum Event {
    /// One cycle of the event source has passed.
    Tick,
    /// A key was pressed.
    Key(KeyCode),
    /// The terminal changed its size.
    Resize,
}

/// What the event source found when it waited for input during one cycle.
#[derive(Clone, Copy, Debug, PartialEq, Eq)]
pub enum Polled {
    /// The wait ran out with no input.
    Nothing,
    /// A key was pressed.
    Key(KeyCode),
    /// The terminal changed its size.
    Resize,
    /// Input of a kind the session does not hear of.
    Other,
}

/// The events of one cycle: the input, if it is a key or a resize, and
/// after it the tick that closes every cycle.
pub open spec fn cycle_events_of(polled: Polled) -> Seq<Event> {
    match polled {
        Polled::Key(key) => seq![Event::Key(key), Event::Tick],
        Polled::Resize => seq![Event::Resize, Event::Tick],
        Polled::Nothing => seq![Event::Tick],
        Polled::Other => seq![Event::Tick],
    }
}

/// The events that the source sends for one cycle, in the order sent.
pub fn cycle_events(polled: Polled) -> (r: Vec<Event>)
    ensures
        r@ == cycle_events_of(polled),
{
    let mut events: Vec<Event> = Vec::new();
    match polled {
        Polled::Key(key) => {
            events.push(Event::Key(key));
        },
        Polled::Resize => {
            events.push(Event::Resize);
        },
        Polled::Nothing => {},
        Polled::Other => {},
    }
    events.push(Event::Tick);
    assert(events@ =~= cycle_events_of(polled));
    events
}

/// Every cycle ends with a tick, and whatever input it forwards comes
/// before that tick.
pub proof fn lemma_cycle_ends_with_tick(polled: Polled)
    ensures
        cycle_events_of(polled).len() >= 1,
        cycle_events_of(polled).last() == Event::Tick,
        forall|i: int|
            0 <= i < cycle_events_of(polled).len() - 1 ==> cycle_events_of(polled)[i]
                != Event::Tick,
{
}

} // verus!
