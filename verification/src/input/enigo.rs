//! What the replay backend is asked to do: the buttons it can press and
//! the wheel steps it scrolls.
use vstd::prelude::*;

use crate::error::AutomationError;
use crate::model::action::MouseButton;

verus! {

/// A button the replay backend can press.
#[derive(Debug, Clone, Copy, PartialEq, Eq, Structural)]
pub enum ReplayButton {
    Left,
    Middle,
    Right,
}

/// The backend button of a recorded button. The backend has no back and
/// forward buttons (the recorder never produces them either; the model keeps
/// them for later use).
pub fn to_enigo_button(button: MouseButton) -> (r: Result<ReplayButton, AutomationError>)
    ensures
        match button {
            MouseButton::Left => r == Ok::<ReplayButton, AutomationError>(ReplayButton::Left),
            MouseButton::Middle => r == Ok::<ReplayButton, AutomationError>(ReplayButton::Middle),
            MouseButton::Right => r == Ok::<ReplayButton, AutomationError>(ReplayButton::Right),
            MouseButton::Back => r matches Err(AutomationError::InputBackend(m)) && m@
                == "mouse button Back is not supported by the current enigo backend"@,
            MouseButton::Forward => r matches Err(AutomationError::InputBackend(m)) && m@
                == "mouse button Forward is not supported by the current enigo backend"@,
        },
{
    match button {
        MouseButton::Left => Ok(ReplayButton::Left),
        MouseButton::Middle => Ok(ReplayButton::Middle),
        MouseButton::Right => Ok(ReplayButton::Right),
        MouseButton::Back => Err(
            AutomationError::InputBackend(
                String::from_str("mouse button Back is not supported by the current enigo backend"),
            ),
        ),
        MouseButton::Forward => Err(
            AutomationError::InputBackend(
                String::from_str(
                    "mouse button Forward is not supported by the current enigo backend",
                ),
            ),
        ),
    }
}

/// A wheel axis of the replay backend.
#[derive(Debug, Clone, Copy, PartialEq, Eq, Structural)]
pub enum ScrollAxis {
    Vertical,
    Horizontal,
}

/// One scroll request to the backend: `amount` steps along `axis`.
#[derive(Debug, Clone, Copy, PartialEq, Eq, Structural)]
pub struct ScrollStep {
    pub axis: ScrollAxis,
    pub amount: i32,
}

/// The scroll requests for backend wheel amounts: vertical first, then
/// horizontal, each only where its amount is not zero.
pub open spec fn scroll_plan(horizontal: i32, vertical: i32) -> Seq<ScrollStep> {
    let v: Seq<ScrollStep> = if vertical != 0 {
        seq![ScrollStep { axis: ScrollAxis::Vertical, amount: vertical }]
    } else {
        Seq::empty()
    };
    let h: Seq<ScrollStep> = if horizontal != 0 {
        seq![ScrollStep { axis: ScrollAxis::Horizontal, amount: horizontal }]
    } else {
        Seq::empty()
    };
    v + h
}

/// Plans the scroll requests for backend wheel amounts (see
/// [`scroll_plan`]); the backend stops at the first that fails.
pub fn scroll_steps(horizontal: i32, vertical: i32) -> (steps: Vec<ScrollStep>)
    ensures
        steps@ == scroll_plan(horizontal, vertical),
{
    let mut steps: Vec<ScrollStep> = Vec::new();
    if vertical != 0 {
        steps.push(ScrollStep { axis: ScrollAxis::Vertical, amount: vertical });
    }
    if horizontal != 0 {
        steps.push(ScrollStep { axis: ScrollAxis::Horizontal, amount: horizontal });
    }
    proof {
        assert(steps@ =~= scroll_plan(horizontal, vertical));
    }
    steps
}

} // verus!
