//! Routing of raw input events by the resident input hook.
use vstd::prelude::*;

use crate::input::source::{Hotkey, RawInputEvent, RawMouseEvent};
use crate::model::state::EngineState;

verus! {

/// Where the input hook sends an event.
#[derive(Debug, Clone, Copy, PartialEq, Eq, Structural)]
pub enum InputRoute {
    /// To the running recording session.
    Record(RawMouseEvent),
    /// To the hotkey dispatcher.
    Hotkey(Hotkey),
    /// Nowhere.
    Ignore,
}

/// Routes an event seen while the engine is in `state`.
///
/// Mouse events are recorded only while recording; in particular the events
/// that a replay generates are never recorded. Hotkeys always go to the
/// dispatcher, which decides in turn.
pub fn route_input(state: EngineState, event: RawInputEvent) -> (r: InputRoute)
    ensures
        r == (match event {
            RawInputEvent::Mouse(m) => if state == EngineState::Recording {
                InputRoute::Record(m)
            } else {
                InputRoute::Ignore
            },
            RawInputEvent::Hotkey(h) => InputRoute::Hotkey(h),
            RawInputEvent::Other => InputRoute::Ignore,
        }),
        r is Record ==> state == EngineState::Recording,
{
    match event {
        RawInputEvent::Mouse(m) => {
            if state == EngineState::Recording {
                InputRoute::Record(m)
            } else {
                InputRoute::Ignore
            }
        },
        RawInputEvent::Hotkey(h) => InputRoute::Hotkey(h),
        RawInputEvent::Other => InputRoute::Ignore,
    }
}

} // verus!
