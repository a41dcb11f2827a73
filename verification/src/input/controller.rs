//! The replay side's mouse control.
use vstd::prelude::*;

use crate::error::AutomationError;
use crate::model::action::{MouseAction, MouseButton};

verus! {

/// Drives the system mouse during replay. Implementations talk to the
/// operating system: what an operation results in is theirs to decide, and
/// nothing is promised of it.
///
/// An implementation may keep a log of the operations it was asked for: it
/// then sets `models_requests` and keeps in `requested` the mouse actions
/// requested of it so far, in order, each operation adding the action it
/// names. By default it keeps none (ordinary Rust implementations, such as
/// the system controller, cannot keep a ghost log), and the operations
/// promise nothing.
pub trait MouseController {
    /// Whether `requested` logs the requests made of this controller.
    open spec fn models_requests() -> bool {
        false
    }

    /// The actions requested of this controller so far, in order (when
    /// logged).
    open spec fn requested(&self) -> Seq<MouseAction> {
        Seq::empty()
    }

    /// Moves to an absolute position, in coordinate units.
    fn move_to(&mut self, x: i64, y: i64) -> (r: Result<(), AutomationError>)
        ensures
            Self::models_requests() ==> final(self).requested() == old(self).requested().push(
                MouseAction::Move { x, y },
            ),
    ;

    fn button_down(&mut self, button: MouseButton) -> (r: Result<(), AutomationError>)
        ensures
            Self::models_requests() ==> final(self).requested() == old(self).requested().push(
                MouseAction::ButtonDown { button },
            ),
    ;

    fn button_up(&mut self, button: MouseButton) -> (r: Result<(), AutomationError>)
        ensures
            Self::models_requests() ==> final(self).requested() == old(self).requested().push(
                MouseAction::ButtonUp { button },
            ),
    ;

    /// Scrolls by recorded wheel deltas.
    fn scroll(&mut self, delta_x: i64, delta_y: i64) -> (r: Result<(), AutomationError>)
        ensures
            Self::models_requests() ==> final(self).requested() == old(self).requested().push(
                MouseAction::Wheel { delta_x, delta_y },
            ),
    ;

    /// Performs one recorded action with the matching operation (the one
    /// that names the action, with the action's own arguments) and passes on
    /// that operation's result.
    fn execute(&mut self, action: &MouseAction) -> (r: Result<(), AutomationError>)
        ensures
            Self::models_requests() ==> final(self).requested() == old(self).requested().push(
                *action,
            ),
    {
        match action {
            MouseAction::Move { x, y } => self.move_to(*x, *y),
            MouseAction::ButtonDown { button } => self.button_down(*button),
            MouseAction::ButtonUp { button } => self.button_up(*button),
            MouseAction::Wheel { delta_x, delta_y } => self.scroll(*delta_x, *delta_y),
        }
    }
}

} // verus!
