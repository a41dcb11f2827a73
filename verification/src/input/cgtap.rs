//! macOS event tap: which Quartz event types are tapped and how they map to
//! mouse actions. Drags (moves with a button held) arrive as their own
//! event types and are mapped to plain moves, so drag trajectories are
//! recorded.
use vstd::prelude::*;

use crate::model::action::{MouseAction, MouseButton};

verus! {

// Raw `CGEventType` codes.
pub const LEFT_MOUSE_DOWN: u32 = 1;
pub const LEFT_MOUSE_UP: u32 = 2;
pub const RIGHT_MOUSE_DOWN: u32 = 3;
pub const RIGHT_MOUSE_UP: u32 = 4;
pub const MOUSE_MOVED: u32 = 5;
pub const LEFT_MOUSE_DRAGGED: u32 = 6;
pub const RIGHT_MOUSE_DRAGGED: u32 = 7;
pub const SCROLL_WHEEL: u32 = 22;
pub const OTHER_MOUSE_DOWN: u32 = 25;
pub const OTHER_MOUSE_UP: u32 = 26;
pub const OTHER_MOUSE_DRAGGED: u32 = 30;
pub const TAP_DISABLED_BY_TIMEOUT: u32 = 0xFFFF_FFFE;
pub const TAP_DISABLED_BY_USER_INPUT: u32 = 0xFFFF_FFFF;

/// The value of the button-number field that denotes the middle button.
pub const BUTTON_NUMBER_MIDDLE: i64 = 2;

/// Whether an event type reports that the system disabled the tap (after a
/// timeout or by user input): the tap is then re-enabled and the event
/// passed on untouched.
pub fn is_tap_disabled(event_type: u32) -> (r: bool)
    ensures
        r == (event_type == TAP_DISABLED_BY_TIMEOUT || event_type == TAP_DISABLED_BY_USER_INPUT),
{
    event_type == TAP_DISABLED_BY_TIMEOUT || event_type == TAP_DISABLED_BY_USER_INPUT
}

/// The kind of a tapped event; positions and wheel deltas are read from the
/// event itself.
#[derive(Debug, Clone, Copy, PartialEq, Eq, Structural)]
pub enum EventKind {
    Move,
    ButtonDown(MouseButton),
    ButtonUp(MouseButton),
    Wheel,
}

/// The classification of an event type and button number.
pub open spec fn event_kind(event_type: u32, button_number: i64) -> Option<EventKind> {
    if event_type == MOUSE_MOVED || event_type == LEFT_MOUSE_DRAGGED || event_type
        == RIGHT_MOUSE_DRAGGED || event_type == OTHER_MOUSE_DRAGGED {
        Some(EventKind::Move)
    } else if event_type == LEFT_MOUSE_DOWN {
        Some(EventKind::ButtonDown(MouseButton::Left))
    } else if event_type == LEFT_MOUSE_UP {
        Some(EventKind::ButtonUp(MouseButton::Left))
    } else if event_type == RIGHT_MOUSE_DOWN {
        Some(EventKind::ButtonDown(MouseButton::Right))
    } else if event_type == RIGHT_MOUSE_UP {
        Some(EventKind::ButtonUp(MouseButton::Right))
    } else if event_type == OTHER_MOUSE_DOWN && button_number == BUTTON_NUMBER_MIDDLE {
        Some(EventKind::ButtonDown(MouseButton::Middle))
    } else if event_type == OTHER_MOUSE_UP && button_number == BUTTON_NUMBER_MIDDLE {
        Some(EventKind::ButtonUp(MouseButton::Middle))
    } else if event_type == SCROLL_WHEEL {
        Some(EventKind::Wheel)
    } else {
        None
    }
}

/// Each button has its own press type: a left press is type 1, a right
/// press type 3 and a middle press type 25 with button number 2, whatever
/// else the event carries.
pub proof fn lemma_press_types(button_number: i64)
    ensures
        event_kind(1, button_number) == Some(EventKind::ButtonDown(MouseButton::Left)),
        event_kind(3, button_number) == Some(EventKind::ButtonDown(MouseButton::Right)),
        event_kind(25, 2) == Some(EventKind::ButtonDown(MouseButton::Middle)),
{
}

/// Presses and releases mirror each other: an event type presses a button
/// exactly when the next type releases that same button (with the same
/// button number).
pub proof fn lemma_release_mirrors_press(event_type: u32, button_number: i64, button: MouseButton)
    ensures
        event_kind(event_type, button_number) == Some(EventKind::ButtonDown(button)) <==> (
        event_type < u32::MAX && event_kind((event_type + 1) as u32, button_number) == Some(
            EventKind::ButtonUp(button),
        )),
{
}

/// No two event types press the same button, and no two release it: a
/// press or release of one button is never taken for another's.
pub proof fn lemma_one_type_per_button(t1: u32, n1: i64, t2: u32, n2: i64, button: MouseButton)
    ensures
        event_kind(t1, n1) == Some(EventKind::ButtonDown(button)) && event_kind(t2, n2) == Some(
            EventKind::ButtonDown(button),
        ) ==> t1 == t2,
        event_kind(t1, n1) == Some(EventKind::ButtonUp(button)) && event_kind(t2, n2) == Some(
            EventKind::ButtonUp(button),
        ) ==> t1 == t2,
{
}

/// Plain moves and the drags of every button (types 5, 6, 7 and 30) are
/// moves, the scroll wheel (type 22) is the wheel, the middle button is
/// told by button number 2 alone, and every other event is ignored.
pub proof fn lemma_moves_wheel_and_others(event_type: u32, button_number: i64)
    ensures
        event_kind(event_type, button_number) == Some(EventKind::Move) <==> (event_type == 5
            || event_type == 6 || event_type == 7 || event_type == 30),
        event_kind(event_type, button_number) == Some(EventKind::Wheel) <==> event_type == 22,
        (event_type == 25 || event_type == 26) ==> (event_kind(event_type, button_number) is Some
            <==> button_number == 2),
        event_kind(event_type, button_number) is Some ==> (1 <= event_type <= 7 || event_type == 22
            || event_type == 25 || event_type == 26 || event_type == 30),
{
}

/// The system's tap-disabled notices are never taken for mouse events.
pub proof fn lemma_tap_disabled_not_classified(event_type: u32, button_number: i64)
    requires
        event_type == TAP_DISABLED_BY_TIMEOUT || event_type == TAP_DISABLED_BY_USER_INPUT,
    ensures
        event_kind(event_type, button_number) is None,
{
}

/// Maps an event type and button number to an event kind. The other
/// buttons (side buttons 3 and 4) are ignored: the replay backend cannot
/// press them.
pub fn classify_event(event_type: u32, button_number: i64) -> (k: Option<EventKind>)
    ensures
        k == event_kind(event_type, button_number),
{
    match event_type {
        MOUSE_MOVED | LEFT_MOUSE_DRAGGED | RIGHT_MOUSE_DRAGGED | OTHER_MOUSE_DRAGGED => Some(
            EventKind::Move,
        ),
        LEFT_MOUSE_DOWN => Some(EventKind::ButtonDown(MouseButton::Left)),
        LEFT_MOUSE_UP => Some(EventKind::ButtonUp(MouseButton::Left)),
        RIGHT_MOUSE_DOWN => Some(EventKind::ButtonDown(MouseButton::Right)),
        RIGHT_MOUSE_UP => Some(EventKind::ButtonUp(MouseButton::Right)),
        OTHER_MOUSE_DOWN => match button_number {
            BUTTON_NUMBER_MIDDLE => Some(EventKind::ButtonDown(MouseButton::Middle)),
            _ => None,
        },
        OTHER_MOUSE_UP => match button_number {
            BUTTON_NUMBER_MIDDLE => Some(EventKind::ButtonUp(MouseButton::Middle)),
            _ => None,
        },
        SCROLL_WHEEL => Some(EventKind::Wheel),
        _ => None,
    }
}

/// The bit of an event type in an event mask.
pub open spec fn type_bit(event_type: u32) -> u64 {
    (1u64 << (event_type as u64))
}

/// The tapped event types: every type that [`classify_event`] maps.
pub open spec fn tap_mask() -> u64 {
    type_bit(LEFT_MOUSE_DOWN) | type_bit(LEFT_MOUSE_UP) | type_bit(RIGHT_MOUSE_DOWN) | type_bit(
        RIGHT_MOUSE_UP,
    ) | type_bit(MOUSE_MOVED) | type_bit(LEFT_MOUSE_DRAGGED) | type_bit(RIGHT_MOUSE_DRAGGED)
        | type_bit(OTHER_MOUSE_DOWN) | type_bit(OTHER_MOUSE_UP) | type_bit(OTHER_MOUSE_DRAGGED)
        | type_bit(SCROLL_WHEEL)
}

fn bit(event_type: u32) -> (b: u64)
    requires
        event_type < 64,
    ensures
        b == type_bit(event_type),
{
    1u64 << (event_type as u64)
}

/// The mask of the event types the tap subscribes to.
pub fn event_mask() -> (mask: u64)
    ensures
        mask == tap_mask(),
{
    bit(LEFT_MOUSE_DOWN) | bit(LEFT_MOUSE_UP) | bit(RIGHT_MOUSE_DOWN) | bit(RIGHT_MOUSE_UP) | bit(
        MOUSE_MOVED,
    ) | bit(LEFT_MOUSE_DRAGGED) | bit(RIGHT_MOUSE_DRAGGED) | bit(OTHER_MOUSE_DOWN) | bit(
        OTHER_MOUSE_UP,
    ) | bit(OTHER_MOUSE_DRAGGED) | bit(SCROLL_WHEEL)
}

/// The tap subscribes to every event type that is classified: no mapped
/// event (drags and the middle button among them) is left out of the mask.
pub proof fn lemma_mask_covers_classified(event_type: u32, button_number: i64)
    requires
        event_kind(event_type, button_number) is Some,
    ensures
        event_type < 64,
        tap_mask() & type_bit(event_type) != 0,
{
    assert(tap_mask() == 0x464000FEu64) by (bit_vector);
    let t = event_type as u64;
    assert(t < 64);
    assert(0x464000FEu64 & (1u64 << t) != 0) by (bit_vector)
        requires
            t == 1 || t == 2 || t == 3 || t == 4 || t == 5 || t == 6 || t == 7 || t == 22 || t
                == 25 || t == 26 || t == 30,
    ;
}

impl EventKind {
    /// The mouse action of an event of this kind, given the event's location
    /// (in coordinate units) and its two point-delta scroll axes (axis 1 is
    /// vertical, axis 2 horizontal).
    pub fn to_action(self, x: i64, y: i64, axis_1: i64, axis_2: i64) -> (a: MouseAction)
        ensures
            a == (match self {
                EventKind::Move => MouseAction::Move { x, y },
                EventKind::ButtonDown(button) => MouseAction::ButtonDown { button },
                EventKind::ButtonUp(button) => MouseAction::ButtonUp { button },
                EventKind::Wheel => MouseAction::Wheel { delta_x: axis_2, delta_y: axis_1 },
            }),
    {
        match self {
            EventKind::Move => MouseAction::Move { x, y },
            EventKind::ButtonDown(button) => MouseAction::ButtonDown { button },
            EventKind::ButtonUp(button) => MouseAction::ButtonUp { button },
            EventKind::Wheel => MouseAction::Wheel { delta_x: axis_2, delta_y: axis_1 },
        }
    }
}

} // verus!
