//! The recording worker: turns the raw mouse event stream into the
//! compressed sequence of recorded actions.
//!
//! Event times are monotonic timestamps in nanoseconds.
use vstd::prelude::*;

use crate::model::action::{MouseAction, MouseButton, COORD_UNITS_PER_PIXEL};
use crate::model::recording::{total_delay_us, RecordedAction};

verus! {

/// With no button held, a move is kept only when it is at least this far
/// (in coordinate units, i.e. one pixel) from the last recorded move...
pub const MOVE_MIN_DISTANCE: i64 = COORD_UNITS_PER_PIXEL;

/// ...or at least this long (10 ms, in nanoseconds) after the last recorded
/// action.
pub const MOVE_MIN_INTERVAL_NS: u64 = 10_000_000;

/// Which mouse buttons are currently held; several may be held at once.
#[derive(Debug, Clone, Copy, PartialEq, Eq, Structural)]
pub struct MouseButtonState {
    pub left: bool,
    pub middle: bool,
    pub right: bool,
    pub back: bool,
    pub forward: bool,
}

impl Default for MouseButtonState {
    fn default() -> (s: Self)
        ensures
            s == (MouseButtonState {
                left: false,
                middle: false,
                right: false,
                back: false,
                forward: false,
            }),
            forall|b: MouseButton| !s.is_down(b),
    {
        MouseButtonState { left: false, middle: false, right: false, back: false, forward: false }
    }
}

impl MouseButtonState {
    /// Whether `button` is held.
    pub open spec fn is_down(self, button: MouseButton) -> bool {
        match button {
            MouseButton::Left => self.left,
            MouseButton::Middle => self.middle,
            MouseButton::Right => self.right,
            MouseButton::Back => self.back,
            MouseButton::Forward => self.forward,
        }
    }

    /// This state with `button` held or released.
    pub open spec fn with(self, button: MouseButton, down: bool) -> MouseButtonState {
        match button {
            MouseButton::Left => MouseButtonState { left: down, ..self },
            MouseButton::Middle => MouseButtonState { middle: down, ..self },
            MouseButton::Right => MouseButtonState { right: down, ..self },
            MouseButton::Back => MouseButtonState { back: down, ..self },
            MouseButton::Forward => MouseButtonState { forward: down, ..self },
        }
    }

    /// Whether any button is held.
    pub open spec fn spec_any_down(self) -> bool {
        exists|b: MouseButton| self.is_down(b)
    }

    /// Marks `button` as held (`down`) or released; the other buttons keep
    /// their state.
    pub fn set(&mut self, button: MouseButton, down: bool)
        ensures
            *final(self) == old(self).with(button, down),
            final(self).is_down(button) == down,
            forall|b: MouseButton| b != button ==> final(self).is_down(b) == old(self).is_down(b),
    {
        match button {
            MouseButton::Left => self.left = down,
            MouseButton::Middle => self.middle = down,
            MouseButton::Right => self.right = down,
            MouseButton::Back => self.back = down,
            MouseButton::Forward => self.forward = down,
        }
    }

    /// Whether any button is held.
    pub fn any_down(&self) -> (r: bool)
        ensures
            r == self.spec_any_down(),
    {
        let r = self.left || self.middle || self.right || self.back || self.forward;
        proof {
            if r {
                if self.left {
                    assert(self.is_down(MouseButton::Left));
                } else if self.middle {
                    assert(self.is_down(MouseButton::Middle));
                } else if self.right {
                    assert(self.is_down(MouseButton::Right));
                } else if self.back {
                    assert(self.is_down(MouseButton::Back));
                } else {
                    assert(self.is_down(MouseButton::Forward));
                }
            }
        }
        r
    }
}

/// The abstract state of a [`RecordingWorker`].
pub struct WorkerView {
    /// The actions recorded so far.
    pub actions: Seq<RecordedAction>,
    pub buttons: MouseButtonState,
    /// Time of the last recorded action.
    pub last_recorded_at: Option<u64>,
    /// Position of the last recorded move.
    pub last_recorded_move: Option<(i64, i64)>,
    /// Position of the last move seen, recorded or not.
    pub last_seen_pos: Option<(i64, i64)>,
}

/// Nanoseconds from `since` to `at`, or zero when `at` is earlier.
pub open spec fn elapsed_ns(since: u64, at: u64) -> nat {
    if at >= since {
        (at - since) as nat
    } else {
        0
    }
}

/// Whether `(x, y)` is at least one pixel away from `from`.
pub open spec fn far_enough(from: (i64, i64), x: i64, y: i64) -> bool {
    let dx = x - from.0;
    let dy = y - from.1;
    dx * dx + dy * dy >= MOVE_MIN_DISTANCE * MOVE_MIN_DISTANCE
}

/// Whether an idle move (no button held) to `(x, y)` at time `at` is kept.
pub open spec fn keeps_idle_move(v: WorkerView, x: i64, y: i64, at: u64) -> bool {
    match v.last_recorded_move {
        None => true,
        Some(p) => far_enough(p, x, y) || match v.last_recorded_at {
            None => true,
            Some(last) => elapsed_ns(last, at) >= MOVE_MIN_INTERVAL_NS,
        },
    }
}

/// Whether `action` arriving at `at` is recorded: moves while a button is
/// held, every press and release, and every non-zero wheel always are; idle
/// moves only past the distance or time threshold.
pub open spec fn is_recorded(v: WorkerView, action: MouseAction, at: u64) -> bool {
    match action {
        MouseAction::Move { x, y } => v.buttons.spec_any_down() || keeps_idle_move(v, x, y, at),
        MouseAction::ButtonDown { .. } => true,
        MouseAction::ButtonUp { .. } => true,
        MouseAction::Wheel { delta_x, delta_y } => !(delta_x == 0 && delta_y == 0),
    }
}

/// The delay stored for an action recorded at `at`: whole microseconds
/// since the last recorded action, zero for the first.
pub open spec fn delay_at(v: WorkerView, at: u64) -> u64 {
    match v.last_recorded_at {
        None => 0,
        Some(last) => (elapsed_ns(last, at) / 1000) as u64,
    }
}

/// The worker's state after it handles `action` arriving at `at`.
pub open spec fn worker_step(v: WorkerView, action: MouseAction, at: u64) -> WorkerView {
    let buttons = match action {
        MouseAction::ButtonDown { button } => v.buttons.with(button, true),
        MouseAction::ButtonUp { button } => v.buttons.with(button, false),
        _ => v.buttons,
    };
    let seen = match action {
        MouseAction::Move { x, y } => Some((x, y)),
        _ => v.last_seen_pos,
    };
    if is_recorded(v, action, at) {
        WorkerView {
            actions: v.actions.push(RecordedAction { delay_us: delay_at(v, at), action }),
            buttons,
            last_recorded_at: Some(at),
            last_recorded_move: match action {
                MouseAction::Move { x, y } => Some((x, y)),
                _ => v.last_recorded_move,
            },
            last_seen_pos: seen,
        }
    } else {
        WorkerView {
            actions: v.actions,
            buttons,
            last_recorded_at: v.last_recorded_at,
            last_recorded_move: v.last_recorded_move,
            last_seen_pos: seen,
        }
    }
}

/// The state after handling `events` (action, time) in order.
pub open spec fn worker_run(v: WorkerView, events: Seq<(MouseAction, u64)>) -> WorkerView
    decreases events.len(),
{
    if events.len() == 0 {
        v
    } else {
        worker_step(worker_run(v, events.drop_last()), events.last().0, events.last().1)
    }
}

/// The state of a new worker.
pub open spec fn worker_initial() -> WorkerView {
    WorkerView {
        actions: Seq::empty(),
        buttons: MouseButtonState {
            left: false,
            middle: false,
            right: false,
            back: false,
            forward: false,
        },
        last_recorded_at: None,
        last_recorded_move: None,
        last_seen_pos: None,
    }
}

/// While any button is held, every move is recorded: drags keep their full
/// trajectory.
pub proof fn lemma_drag_moves_recorded(v: WorkerView, x: i64, y: i64, at: u64)
    requires
        v.buttons.spec_any_down(),
    ensures
        worker_step(v, MouseAction::Move { x, y }, at).actions == v.actions.push(
            RecordedAction { delay_us: delay_at(v, at), action: MouseAction::Move { x, y } },
        ),
{
}

/// Presses and releases are always recorded as they are (clicks, long
/// presses and double clicks stay raw), and update the held buttons.
pub proof fn lemma_buttons_recorded(v: WorkerView, button: MouseButton, at: u64)
    ensures
        worker_step(v, MouseAction::ButtonDown { button }, at).actions == v.actions.push(
            RecordedAction { delay_us: delay_at(v, at), action: MouseAction::ButtonDown { button } },
        ),
        worker_step(v, MouseAction::ButtonDown { button }, at).buttons.is_down(button),
        worker_step(v, MouseAction::ButtonUp { button }, at).actions == v.actions.push(
            RecordedAction { delay_us: delay_at(v, at), action: MouseAction::ButtonUp { button } },
        ),
        !worker_step(v, MouseAction::ButtonUp { button }, at).buttons.is_down(button),
{
}

/// Only idle moves are ever dropped, and only those less than a pixel from
/// the last recorded move and less than the interval after the last
/// recorded action; a zero wheel is dropped too. Nothing else changes the
/// recorded actions.
pub proof fn lemma_only_close_idle_moves_dropped(v: WorkerView, action: MouseAction, at: u64)
    requires
        !is_recorded(v, action, at),
    ensures
        worker_step(v, action, at).actions == v.actions,
        action matches MouseAction::Wheel { delta_x, delta_y } ==> delta_x == 0 && delta_y == 0,
        action matches MouseAction::Move { x, y } ==> {
            &&& !v.buttons.spec_any_down()
            &&& v.last_recorded_move matches Some(p) && !far_enough(p, x, y)
            &&& v.last_recorded_at matches Some(last) && elapsed_ns(last, at)
                < MOVE_MIN_INTERVAL_NS
        },
        !(action is ButtonDown) && !(action is ButtonUp),
{
}

/// An idle move at least one pixel (1000 units) from the last recorded
/// move, by Euclidean distance, is always recorded; in particular any move
/// a pixel or more away along either axis is.
pub proof fn lemma_far_moves_recorded(v: WorkerView, x: i64, y: i64, at: u64, lx: i64, ly: i64)
    requires
        v.last_recorded_move == Some((lx, ly)),
        (x - lx) * (x - lx) + (y - ly) * (y - ly) >= 1000 * 1000 || x - lx >= 1000 || lx - x
            >= 1000 || y - ly >= 1000 || ly - y >= 1000,
    ensures
        worker_step(v, MouseAction::Move { x, y }, at).actions == v.actions.push(
            RecordedAction { delay_us: delay_at(v, at), action: MouseAction::Move { x, y } },
        ),
{
    let dx: int = x - lx;
    let dy: int = y - ly;
    assert(dx * dx + dy * dy >= 1000 * 1000) by (nonlinear_arith)
        requires
            dx * dx + dy * dy >= 1000 * 1000 || dx >= 1000 || -dx >= 1000 || dy >= 1000 || -dy
                >= 1000,
    ;
}

/// An idle move less than one pixel (1000 units) from the last recorded
/// move, by Euclidean distance, and less than the interval after the last
/// recorded action, is dropped.
pub proof fn lemma_near_idle_moves_dropped(
    v: WorkerView,
    x: i64,
    y: i64,
    at: u64,
    lx: i64,
    ly: i64,
    last: u64,
)
    requires
        !v.buttons.spec_any_down(),
        v.last_recorded_move == Some((lx, ly)),
        (x - lx) * (x - lx) + (y - ly) * (y - ly) < 1000 * 1000,
        v.last_recorded_at == Some(last),
        last <= at < last + MOVE_MIN_INTERVAL_NS,
    ensures
        worker_step(v, MouseAction::Move { x, y }, at).actions == v.actions,
{
}

/// From a state with a button held, a run of moves records every one of
/// them and leaves the held buttons as they were.
pub proof fn lemma_drag_keeps_every_move(v: WorkerView, moves: Seq<(MouseAction, u64)>)
    requires
        v.buttons.spec_any_down(),
        forall|i: int| 0 <= i < moves.len() ==> (#[trigger] moves[i]).0 is Move,
    ensures
        worker_run(v, moves).actions.len() == v.actions.len() + moves.len(),
        worker_run(v, moves).buttons == v.buttons,
    decreases moves.len(),
{
    if moves.len() > 0 {
        let init = moves.drop_last();
        assert forall|i: int| 0 <= i < init.len() implies (#[trigger] init[i]).0 is Move by {
            assert(init[i] == moves[i]);
        }
        lemma_drag_keeps_every_move(v, init);
        assert(moves[moves.len() - 1].0 is Move);
    }
}

proof fn lemma_whole_micros_add(a: int, b: int, c: int)
    requires
        a <= b <= c,
        a % 1000 == 0,
        b % 1000 == 0,
        c % 1000 == 0,
    ensures
        (b - a) / 1000 + (c - b) / 1000 == (c - a) / 1000,
{
    assert((b - a) / 1000 + (c - b) / 1000 == (c - a) / 1000) by (nonlinear_arith)
        requires
            a <= b <= c,
            a % 1000 == 0,
            b % 1000 == 0,
            c % 1000 == 0,
    ;
}

/// Recorded delays keep the timeline: with event times in whole
/// microseconds that never go backwards, the delays recorded after an action
/// recorded at `since` add up to the time from `since` to the last recorded
/// action.
pub proof fn lemma_delays_add_up_to_elapsed(
    v: WorkerView,
    events: Seq<(MouseAction, u64)>,
    since: u64,
)
    requires
        v.last_recorded_at == Some(since),
        since % 1000 == 0,
        forall|i: int| 0 <= i < events.len() ==> (#[trigger] events[i]).1 % 1000 == 0,
        forall|i: int| 0 <= i < events.len() ==> (#[trigger] events[i]).1 >= since,
        forall|i: int, j: int| 0 <= i < j < events.len() ==> (#[trigger] events[i]).1 <= (
        #[trigger] events[j]).1,
    ensures
        worker_run(v, events).last_recorded_at matches Some(last) && since <= last && last % 1000
            == 0 && (events.len() > 0 ==> last <= events.last().1) && total_delay_us(
            worker_run(v, events).actions,
        ) == total_delay_us(v.actions) + (last - since) / 1000,
    decreases events.len(),
{
    if events.len() > 0 {
        let init = events.drop_last();
        let (action, at) = events.last();
        assert forall|i: int| 0 <= i < init.len() implies (#[trigger] init[i]).1 % 1000 == 0
            && init[i].1 >= since by {
            assert(init[i] == events[i]);
        }
        assert forall|i: int, j: int| 0 <= i < j < init.len() implies (#[trigger] init[i]).1 <= (
        #[trigger] init[j]).1 by {
            assert(init[i] == events[i] && init[j] == events[j]);
        }
        lemma_delays_add_up_to_elapsed(v, init, since);
        let r = worker_run(v, init);
        let prev = r.last_recorded_at.unwrap();
        assert(at % 1000 == 0 && at >= since) by {
            assert(events[events.len() - 1] == events.last());
        }
        if init.len() > 0 {
            assert(init.last() == events[events.len() - 2]);
            assert(events[events.len() - 2].1 <= events[events.len() - 1].1);
        }
        assert(prev <= at);
        if is_recorded(r, action, at) {
            let n = r.actions.push(RecordedAction { delay_us: delay_at(r, at), action });
            assert(n.drop_last() =~= r.actions);
            lemma_whole_micros_add(since as int, prev as int, at as int);
        }
    } else {
        assert(worker_run(v, events) == v);
    }
}

/// Turns raw mouse events into recorded actions, compressing idle moves and
/// keeping the full trajectory of drags.
#[derive(Debug)]
pub struct RecordingWorker {
    actions: Vec<RecordedAction>,
    buttons: MouseButtonState,
    last_recorded_at: Option<u64>,
    last_recorded_move: Option<(i64, i64)>,
    last_seen_pos: Option<(i64, i64)>,
}

impl View for RecordingWorker {
    type V = WorkerView;

    closed spec fn view(&self) -> WorkerView {
        WorkerView {
            actions: self.actions@,
            buttons: self.buttons,
            last_recorded_at: self.last_recorded_at,
            last_recorded_move: self.last_recorded_move,
            last_seen_pos: self.last_seen_pos,
        }
    }
}

impl Default for RecordingWorker {
    fn default() -> (w: Self)
        ensures
            w@ == worker_initial(),
    {
        RecordingWorker {
            actions: Vec::new(),
            buttons: MouseButtonState::default(),
            last_recorded_at: None,
            last_recorded_move: None,
            last_seen_pos: None,
        }
    }
}

impl RecordingWorker {
    pub fn new() -> (w: Self)
        ensures
            w@ == worker_initial(),
    {
        Self::default()
    }

    /// Handles one raw mouse event that arrived at time `at` (nanoseconds).
    pub fn handle(&mut self, action: MouseAction, at: u64)
        ensures
            final(self)@ == worker_step(old(self)@, action, at),
    {
        match action {
            MouseAction::Move { x, y } => {
                self.last_seen_pos = Some((x, y));
                if !self.buttons.any_down() && !self.should_keep_move(x, y, at) {
                    return ;
                }
                self.record(action, at);
                self.last_recorded_move = Some((x, y));
            },
            MouseAction::ButtonDown { button } => {
                self.buttons.set(button, true);
                self.record(action, at);
            },
            MouseAction::ButtonUp { button } => {
                self.buttons.set(button, false);
                self.record(action, at);
            },
            MouseAction::Wheel { delta_x, delta_y } => {
                if delta_x == 0 && delta_y == 0 {
                    return ;
                }
                self.record(action, at);
            },
        }
        proof {
            assert(self@.actions =~= worker_step(old(self)@, action, at).actions);
        }
    }

    fn should_keep_move(&self, x: i64, y: i64, at: u64) -> (r: bool)
        ensures
            r == keeps_idle_move(self@, x, y, at),
    {
        match self.last_recorded_move {
            None => true,
            Some((lx, ly)) => {
                if far_enough_exec(lx, ly, x, y) {
                    return true;
                }
                match self.last_recorded_at {
                    None => true,
                    Some(last) => at.saturating_sub(last) >= MOVE_MIN_INTERVAL_NS,
                }
            },
        }
    }

    fn record(&mut self, action: MouseAction, at: u64)
        ensures
            final(self).actions@ == old(self).actions@.push(
                RecordedAction { delay_us: delay_at(old(self)@, at), action },
            ),
            final(self).last_recorded_at == Some(at),
            final(self).buttons == old(self).buttons,
            final(self).last_recorded_move == old(self).last_recorded_move,
            final(self).last_seen_pos == old(self).last_seen_pos,
    {
        let delay_us = match self.last_recorded_at {
            Some(last) => at.saturating_sub(last) / 1000,
            None => 0,
        };
        self.actions.push(RecordedAction { delay_us, action });
        self.last_recorded_at = Some(at);
    }

    /// The recorded actions.
    pub fn finish(self) -> (actions: Vec<RecordedAction>)
        ensures
            actions@ == self@.actions,
    {
        self.actions
    }

    pub fn action_count(&self) -> (n: usize)
        ensures
            n == self@.actions.len(),
    {
        self.actions.len()
    }

    /// The position of the last move seen, recorded or not.
    pub fn last_seen_pos(&self) -> (p: Option<(i64, i64)>)
        ensures
            p == self@.last_seen_pos,
    {
        self.last_seen_pos
    }

    pub fn last_action(&self) -> (a: Option<&RecordedAction>)
        ensures
            self@.actions.len() == 0 ==> a is None,
            self@.actions.len() > 0 ==> a == Some(&self@.actions.last()),
    {
        let n = self.actions.len();
        if n == 0 {
            None
        } else {
            Some(&self.actions[n - 1])
        }
    }
}

fn far_enough_exec(lx: i64, ly: i64, x: i64, y: i64) -> (r: bool)
    ensures
        r == far_enough((lx, ly), x, y),
{
    let dx = x as i128 - lx as i128;
    let dy = y as i128 - ly as i128;
    let min = MOVE_MIN_DISTANCE as i128;
    if dx >= min || dx <= -min || dy >= min || dy <= -min {
        proof {
            assert(dx * dx >= min * min || dy * dy >= min * min) by (nonlinear_arith)
                requires
                    dx >= min || dx <= -min || dy >= min || dy <= -min,
                    min > 0,
            ;
            assert(dx * dx >= 0 && dy * dy >= 0) by (nonlinear_arith);
        }
        true
    } else {
        proof {
            assert(dx * dx < min * min && dy * dy < min * min) by (nonlinear_arith)
                requires
                    -min < dx < min,
                    -min < dy < min,
                    min > 0,
            ;
            assert(dx * dx >= 0 && dy * dy >= 0) by (nonlinear_arith);
        }
        dx * dx + dy * dy >= min * min
    }
}

} // verus!
