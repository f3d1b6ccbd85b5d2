//! Position of a rank in its publisher's event stream.
use vstd::prelude::*;

verus! {

/// The last event id that was admitted, if any was.
#[derive(Clone, Copy, Debug, PartialEq, Eq, Structural)]
pub enum CursorState {
    Initial,
    Live(u64),
}

/// How an event id relates to a cursor.
#[derive(Clone, Copy, Debug, PartialEq, Eq, Structural)]
pub enum CursorObservation {
    Initial { got: u64 },
    Stale { last_applied: u64, got: u64 },
    Contiguous { got: u64 },
    Gap { expected: u64, got: u64 },
}

impl CursorState {
    pub open spec fn last(self) -> Option<u64> {
        match self {
            CursorState::Initial => None,
            CursorState::Live(last) => Some(last),
        }
    }

    pub open spec fn observation(self, got: u64) -> CursorObservation {
        match self {
            CursorState::Initial => CursorObservation::Initial { got },
            CursorState::Live(last) => if got <= last {
                CursorObservation::Stale { last_applied: last, got }
            } else if got == last + 1 {
                CursorObservation::Contiguous { got }
            } else {
                CursorObservation::Gap { expected: (last + 1) as u64, got }
            },
        }
    }

    pub fn last_applied_id(&self) -> (last: Option<u64>)
        ensures
            last == self.last(),
    {
        match self {
            CursorState::Initial => None,
            CursorState::Live(last) => Some(*last),
        }
    }

    pub fn observe(&self, got: u64) -> (observation: CursorObservation)
        ensures
            observation == self.observation(got),
    {
        match self {
            CursorState::Initial => CursorObservation::Initial { got },
            CursorState::Live(last) => {
                let last: u64 = *last;
                if got <= last {
                    CursorObservation::Stale { last_applied: last, got }
                } else if got == last + 1 {
                    CursorObservation::Contiguous { got }
                } else {
                    CursorObservation::Gap { expected: last + 1, got }
                }
            },
        }
    }

    pub fn advance_to(&self, event_id: u64) -> (cursor: Self)
        ensures
            cursor == CursorState::Live(event_id),
    {
        CursorState::Live(event_id)
    }
}

/// An id is stale up to the cursor, follows on it when it is the very next one, and leaves a gap
/// above that; a gap names the first id that is missing. Before the first event nothing is stale.
pub proof fn law_cursor_places_every_id(last: u64, got: u64)
    ensures
        got <= last ==> CursorState::Live(last).observation(got) == (CursorObservation::Stale {
            last_applied: last,
            got,
        }),
        got == last + 1 ==> CursorState::Live(last).observation(got) == (
        CursorObservation::Contiguous { got }),
        got > last + 1 ==> CursorState::Live(last).observation(got) is Gap,
        got > last + 1 ==> CursorState::Live(last).observation(got)->expected == last + 1,
        got > last + 1 ==> CursorState::Live(last).observation(got)->Gap_got == got,
        CursorState::Initial.observation(got) == (CursorObservation::Initial { got }),
        CursorState::Live(last).last() == Some(last),
        CursorState::Initial.last() is None,
{
}

/// A cursor that is advanced to an id stands there: that id is stale to it, the next one follows
/// on, and any higher one leaves a gap that starts at the next one.
pub proof fn law_advanced_cursor_stands_at_its_id(
    before: &CursorState,
    event_id: u64,
    cursor: &CursorState,
    last: Option<u64>,
    got: u64,
    observation: CursorObservation,
)
    requires
        call_ensures(CursorState::advance_to, (before, event_id), *cursor),
        call_ensures(CursorState::last_applied_id, (cursor,), last),
        call_ensures(CursorState::observe, (cursor, got), observation),
    ensures
        last == Some(event_id),
        observation is Stale <==> got <= event_id,
        observation is Contiguous <==> got == event_id + 1,
        observation is Gap <==> got > event_id + 1,
        observation is Gap ==> observation->expected == event_id + 1 && observation->Gap_got == got,
{
}

} // verus!
