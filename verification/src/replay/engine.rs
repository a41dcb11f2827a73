//! The replay engine.
//!
//! Replay alternates waiting, driving the mouse and reporting progress. The
//! engine here makes every decision: it is a state machine that, given what
//! happened to its last command, tells the driver what to do next. The
//! driver waits (interruptibly), drives the mouse and reports back.
//!
//! Scheduling is absolute: each action's target time is the sum of the
//! recorded delays up to it in the pass, measured from the pass's start, so
//! late wake-ups never accumulate. The driver divides that recorded time by
//! the replay speed: the speed changes nothing else.
use vstd::prelude::*;

use crate::error::AutomationError;
use crate::input::controller::MouseController;
use crate::model::action::{MouseAction, MouseButton};
use crate::model::recording::{RecordedAction, Recording, ReplayOptions};

verus! {

/// The longest single wait (24 hours, in nanoseconds): a corrupt delay can
/// never block replay forever.
pub const MAX_WAIT_NS: u64 = 86_400_000_000_000;

/// How a replay ended.
#[derive(Debug, Clone, Copy, PartialEq, Eq, Structural)]
pub enum ReplayOutcome {
    Completed,
    Stopped,
}

/// Progress after one executed action.
#[derive(Debug, Clone, Copy, PartialEq, Eq, Structural)]
pub struct ReplayProgress {
    pub loop_index: u64,
    pub loops: u32,
    /// When true, `loops` is meaningless.
    pub infinite: bool,
    pub action_index: usize,
    pub action_count: usize,
}

/// `a + b`, saturating at `u64::MAX`.
pub open spec fn sat_add(a: u64, b: u64) -> u64 {
    if a + b > u64::MAX {
        u64::MAX
    } else {
        (a + b) as u64
    }
}

/// The pause between two passes, in nanoseconds, capped at 24 hours.
pub open spec fn pause_ns(interval_ms: u64) -> u64 {
    if interval_ms * 1_000_000 > MAX_WAIT_NS {
        MAX_WAIT_NS
    } else {
        (interval_ms * 1_000_000) as u64
    }
}

fn pause_duration(interval_ms: u64) -> (ns: u64)
    ensures
        ns == pause_ns(interval_ms),
{
    let raw: u128 = interval_ms as u128 * 1_000_000;
    if raw > MAX_WAIT_NS as u128 {
        MAX_WAIT_NS
    } else {
        raw as u64
    }
}

/// The sum of the delays of `actions`, saturating at `u64::MAX`.
pub open spec fn sat_sum(actions: Seq<RecordedAction>) -> u64
    decreases actions.len(),
{
    if actions.len() == 0 {
        0
    } else {
        sat_add(sat_sum(actions.drop_last()), actions.last().delay_us)
    }
}

/// `pressed` after executing `action`: a press adds its button once, a
/// release removes it.
pub open spec fn track_pressed(pressed: Seq<MouseButton>, action: MouseAction) -> Seq<
    MouseButton,
> {
    match action {
        MouseAction::ButtonDown { button } => if pressed.contains(button) {
            pressed
        } else {
            pressed.push(button)
        },
        MouseAction::ButtonUp { button } => without(pressed, button),
        _ => pressed,
    }
}

/// `s` with every occurrence of `b` removed, order kept.
pub open spec fn without(s: Seq<MouseButton>, b: MouseButton) -> Seq<MouseButton>
    decreases s.len(),
{
    if s.len() == 0 {
        s
    } else if s.last() == b {
        without(s.drop_last(), b)
    } else {
        without(s.drop_last(), b).push(s.last())
    }
}

/// The buttons held after executing `actions` from a released state, in
/// order of pressing.
pub open spec fn pressed_after(actions: Seq<MouseAction>) -> Seq<MouseButton>
    decreases actions.len(),
{
    if actions.len() == 0 {
        Seq::empty()
    } else {
        track_pressed(pressed_after(actions.drop_last()), actions.last())
    }
}

/// The actions of `n` complete passes over `recorded`.
pub open spec fn repeat_actions(recorded: Seq<RecordedAction>, n: nat) -> Seq<MouseAction>
    decreases n,
{
    if n == 0 {
        Seq::empty()
    } else {
        repeat_actions(recorded, (n - 1) as nat) + actions_of(recorded)
    }
}

/// The mouse actions of recorded actions.
pub open spec fn actions_of(recorded: Seq<RecordedAction>) -> Seq<MouseAction> {
    recorded.map_values(|r: RecordedAction| r.action)
}

/// What the driver reports about the engine's last command.
pub enum ReplayEvent {
    /// The command was carried out (a wait ran to its end, an action was
    /// executed, a pass was started).
    Continue,
    /// A stop was requested while carrying it out.
    Stopped,
    /// Executing the action failed.
    Failed(AutomationError),
}

/// What the engine asks the driver to do next.
pub enum ReplayCommand {
    /// Take the current time as the start of a new pass, then continue.
    StartLoop,
    /// Wait until the recorded time `offset_us` (microseconds after the
    /// start of the pass, at the recorded pace) has come at the replay's
    /// speed, or until stopped.
    WaitUntil { offset_us: u64 },
    /// Execute `action`; on success report `progress`, then continue.
    Execute { action: MouseAction, progress: ReplayProgress },
    /// Wait `duration_ns` from now (or until stopped).
    Pause { duration_ns: u64 },
    /// Release `release` (ignoring failures) and end the replay with `result`.
    Finish { release: Vec<MouseButton>, result: Result<ReplayOutcome, AutomationError> },
}

/// The abstract form of a [`ReplayCommand`].
pub enum CommandView {
    StartLoop,
    WaitUntil(u64),
    Execute(MouseAction, ReplayProgress),
    Pause(u64),
    Finish(Seq<MouseButton>, Result<ReplayOutcome, AutomationError>),
}

impl View for ReplayCommand {
    type V = CommandView;

    open spec fn view(&self) -> CommandView {
        match self {
            ReplayCommand::StartLoop => CommandView::StartLoop,
            ReplayCommand::WaitUntil { offset_us } => CommandView::WaitUntil(*offset_us),
            ReplayCommand::Execute { action, progress } => CommandView::Execute(*action, *progress),
            ReplayCommand::Pause { duration_ns } => CommandView::Pause(*duration_ns),
            ReplayCommand::Finish { release, result } => CommandView::Finish(release@, *result),
        }
    }
}

/// Where the engine is.
#[derive(Debug, Clone, Copy, PartialEq, Eq, Structural)]
pub enum ReplayPhase {
    /// Nothing done yet.
    Start,
    /// A pass was started; its first action comes next.
    LoopStarting,
    /// Waiting for the current action's time.
    Waiting,
    /// Executing the current action.
    Executing,
    /// Pausing between passes.
    Pausing,
    /// Finished.
    Done,
}

/// The abstract state of a [`ReplayEngine`].
pub struct ReplayView {
    pub actions: Seq<RecordedAction>,
    pub options: ReplayOptions,
    pub phase: ReplayPhase,
    /// The result, once finished.
    pub outcome: Option<Result<ReplayOutcome, AutomationError>>,
    /// The current pass (0-based).
    pub loop_index: u64,
    /// The current action within the pass.
    pub action_index: int,
    /// The delay sum up to the current action, in microseconds.
    pub cumulative_us: u64,
    /// The buttons held by the replay, in order of pressing.
    pub pressed: Seq<MouseButton>,
    /// Every action executed successfully so far.
    pub executed: Seq<MouseAction>,
    /// The number of passes completed.
    pub loops_done: nat,
}

/// Progress report for the current action.
pub open spec fn progress_of(v: ReplayView) -> ReplayProgress {
    ReplayProgress {
        loop_index: v.loop_index,
        loops: v.options.loops,
        infinite: v.options.infinite,
        action_index: v.action_index as usize,
        action_count: v.actions.len() as usize,
    }
}

/// Ending with `result`: every held button is handed over for release.
pub open spec fn finish_with(v: ReplayView, result: Result<ReplayOutcome, AutomationError>) -> (
    ReplayView,
    CommandView,
) {
    (
        ReplayView { phase: ReplayPhase::Done, outcome: Some(result), pressed: Seq::empty(), ..v },
        CommandView::Finish(v.pressed, result),
    )
}

/// Moving on to the current action, or past the end of the pass.
pub open spec fn advance(v: ReplayView) -> (ReplayView, CommandView) {
    if v.action_index < v.actions.len() {
        let c = sat_add(v.cumulative_us, v.actions[v.action_index].delay_us);
        (
            ReplayView { phase: ReplayPhase::Waiting, cumulative_us: c, ..v },
            CommandView::WaitUntil(c),
        )
    } else {
        let next = ReplayView {
            loop_index: sat_add(v.loop_index, 1),
            loops_done: v.loops_done + 1,
            action_index: 0,
            cumulative_us: 0,
            ..v
        };
        if !v.options.infinite && next.loop_index >= v.options.loops {
            finish_with(next, Ok(ReplayOutcome::Completed))
        } else {
            (
                ReplayView { phase: ReplayPhase::Pausing, ..next },
                CommandView::Pause(pause_ns(v.options.loop_interval_ms)),
            )
        }
    }
}

/// The engine's transition: its next state and command after `event`.
pub open spec fn replay_next(v: ReplayView, event: ReplayEvent) -> (ReplayView, CommandView) {
    if v.phase == ReplayPhase::Done {
        (v, CommandView::Finish(Seq::empty(), v.outcome.unwrap()))
    } else {
        match event {
            ReplayEvent::Stopped => finish_with(v, Ok(ReplayOutcome::Stopped)),
            ReplayEvent::Failed(e) => finish_with(v, Err(e)),
            ReplayEvent::Continue => {
                if v.phase == ReplayPhase::Start || v.phase == ReplayPhase::Pausing {
                    (ReplayView { phase: ReplayPhase::LoopStarting, ..v }, CommandView::StartLoop)
                } else if v.phase == ReplayPhase::LoopStarting {
                    advance(v)
                } else if v.phase == ReplayPhase::Waiting {
                    (
                        ReplayView { phase: ReplayPhase::Executing, ..v },
                        CommandView::Execute(v.actions[v.action_index].action, progress_of(v)),
                    )
                } else {
                    let a = v.actions[v.action_index].action;
                    advance(
                        ReplayView {
                            pressed: track_pressed(v.pressed, a),
                            executed: v.executed.push(a),
                            action_index: v.action_index + 1,
                            ..v
                        },
                    )
                }
            },
        }
    }
}

/// The number of passes a finite replay makes (at least one).
pub open spec fn passes(options: ReplayOptions) -> nat {
    if options.loops == 0 {
        1
    } else {
        options.loops as nat
    }
}

/// Replays a recording: see the module documentation.
pub struct ReplayEngine {
    actions: Vec<RecordedAction>,
    options: ReplayOptions,
    phase: ReplayPhase,
    outcome: Option<Result<ReplayOutcome, AutomationError>>,
    loop_index: u64,
    action_index: usize,
    cumulative_us: u64,
    pressed: Vec<MouseButton>,
    executed: Ghost<Seq<MouseAction>>,
    loops_done: Ghost<nat>,
}

impl View for ReplayEngine {
    type V = ReplayView;

    closed spec fn view(&self) -> ReplayView {
        ReplayView {
            actions: self.actions@,
            options: self.options,
            phase: self.phase,
            outcome: self.outcome,
            loop_index: self.loop_index,
            action_index: self.action_index as int,
            cumulative_us: self.cumulative_us,
            pressed: self.pressed@,
            executed: self.executed@,
            loops_done: self.loops_done@,
        }
    }
}

/// The engine's invariant.
pub open spec fn replay_wf(v: ReplayView) -> bool {
    &&& 0 <= v.action_index <= v.actions.len()
    &&& (v.phase == ReplayPhase::Waiting || v.phase == ReplayPhase::Executing) ==> v.action_index
        < v.actions.len()
    &&& (v.phase == ReplayPhase::Start || v.phase == ReplayPhase::LoopStarting || v.phase
        == ReplayPhase::Pausing) ==> v.action_index == 0
    &&& v.executed == repeat_actions(v.actions, v.loops_done) + actions_of(
        v.actions.take(v.action_index),
    )
    &&& v.loop_index == (if v.loops_done > u64::MAX {
        u64::MAX as nat
    } else {
        v.loops_done
    })
    &&& v.phase != ReplayPhase::Done ==> v.pressed == pressed_after(v.executed)
    &&& v.phase == ReplayPhase::Done ==> v.pressed.len() == 0 && v.outcome is Some
    &&& (v.phase == ReplayPhase::Waiting || v.phase == ReplayPhase::Executing) ==> v.cumulative_us
        == sat_sum(v.actions.take(v.action_index + 1))
    &&& (v.phase == ReplayPhase::Start || v.phase == ReplayPhase::LoopStarting || v.phase
        == ReplayPhase::Pausing) ==> v.cumulative_us == 0
    &&& v.phase != ReplayPhase::Done ==> v.outcome is None
    &&& (v.phase != ReplayPhase::Done && !v.options.infinite) ==> v.loops_done < passes(
        v.options,
    )
    &&& v.outcome == Some(Ok::<ReplayOutcome, AutomationError>(ReplayOutcome::Completed))
        ==> !v.options.infinite && v.loops_done == passes(v.options) && v.action_index == 0
}

/// What [`advance`] needs of the state it starts from.
pub open spec fn advance_ready(v: ReplayView) -> bool {
    &&& v.phase != ReplayPhase::Done
    &&& 0 <= v.action_index <= v.actions.len()
    &&& v.executed == repeat_actions(v.actions, v.loops_done) + actions_of(
        v.actions.take(v.action_index),
    )
    &&& v.loop_index == (if v.loops_done > u64::MAX {
        u64::MAX as nat
    } else {
        v.loops_done
    })
    &&& v.pressed == pressed_after(v.executed)
    &&& v.cumulative_us == sat_sum(v.actions.take(v.action_index))
    &&& !v.options.infinite ==> v.loops_done < passes(v.options)
    &&& v.outcome is None
}

proof fn lemma_sat_sum_step(actions: Seq<RecordedAction>, i: int)
    requires
        0 <= i < actions.len(),
    ensures
        sat_sum(actions.take(i + 1)) == sat_add(sat_sum(actions.take(i)), actions[i].delay_us),
{
    assert(actions.take(i + 1).drop_last() =~= actions.take(i));
}

proof fn lemma_advance_wf(v: ReplayView)
    requires
        advance_ready(v),
    ensures
        replay_wf(advance(v).0),
{
    if v.action_index < v.actions.len() {
        lemma_sat_sum_step(v.actions, v.action_index);
    } else {
        let n = v.loops_done + 1;
        assert(v.actions.take(v.action_index) =~= v.actions);
        assert(repeat_actions(v.actions, n) == repeat_actions(v.actions, v.loops_done) + actions_of(
            v.actions,
        ));
        assert(actions_of(v.actions.take(0)) =~= Seq::<MouseAction>::empty());
        assert(repeat_actions(v.actions, n) + actions_of(v.actions.take(0)) =~= repeat_actions(
            v.actions,
            n,
        ));
        assert(v.actions.take(0) =~= Seq::<RecordedAction>::empty());
    }
}

/// Every step keeps the engine's invariant, whatever the driver reports.
pub proof fn lemma_replay_next_wf(v: ReplayView, event: ReplayEvent)
    requires
        replay_wf(v),
    ensures
        replay_wf(replay_next(v, event).0),
{
    if v.phase == ReplayPhase::Done {
    } else {
        match event {
            ReplayEvent::Continue => {
                if v.phase == ReplayPhase::Start || v.phase == ReplayPhase::Pausing {
                } else if v.phase == ReplayPhase::LoopStarting {
                    assert(v.actions.take(0) =~= Seq::<RecordedAction>::empty());
                    lemma_advance_wf(v);
                } else if v.phase == ReplayPhase::Waiting {
                } else {
                    let i = v.action_index;
                    let a = v.actions[i].action;
                    let w = ReplayView {
                        pressed: track_pressed(v.pressed, a),
                        executed: v.executed.push(a),
                        action_index: i + 1,
                        ..v
                    };
                    assert(actions_of(v.actions.take(i + 1)) =~= actions_of(v.actions.take(i)).push(
                        a,
                    ));
                    assert(w.executed =~= repeat_actions(v.actions, v.loops_done) + actions_of(
                        v.actions.take(i + 1),
                    ));
                    assert(w.executed.drop_last() =~= v.executed);
                    lemma_advance_wf(w);
                }
            },
            _ => {},
        }
    }
}


proof fn lemma_without_contains(s: Seq<MouseButton>, b: MouseButton, c: MouseButton)
    ensures
        without(s, b).contains(c) <==> (s.contains(c) && c != b),
    decreases s.len(),
{
    if s.len() > 0 {
        let init = s.drop_last();
        let wi = without(init, b);
        lemma_without_contains(init, b, c);
        assert(s =~= init.push(s.last()));
        assert(s.contains(c) <==> (init.contains(c) || s.last() == c)) by {
            if s.contains(c) {
                let k = choose|k: int| 0 <= k < s.len() && s[k] == c;
                if k < s.len() - 1 {
                    assert(init[k] == c);
                }
            }
            if init.contains(c) {
                let k = choose|k: int| 0 <= k < init.len() && init[k] == c;
                assert(s[k] == c);
            }
            if s.last() == c {
                assert(s[s.len() - 1] == c);
            }
        }
        if s.last() != b {
            let w = wi.push(s.last());
            assert(w.contains(c) <==> (wi.contains(c) || s.last() == c)) by {
                if w.contains(c) {
                    let k = choose|k: int| 0 <= k < w.len() && w[k] == c;
                    if k < wi.len() {
                        assert(wi[k] == c);
                    }
                }
                if wi.contains(c) {
                    let k = choose|k: int| 0 <= k < wi.len() && wi[k] == c;
                    assert(w[k] == c);
                }
                if s.last() == c {
                    assert(w[wi.len() as int] == c);
                }
            }
        }
    }
}

proof fn lemma_without_no_duplicates(s: Seq<MouseButton>, b: MouseButton)
    requires
        s.no_duplicates(),
    ensures
        without(s, b).no_duplicates(),
    decreases s.len(),
{
    if s.len() > 0 {
        let init = s.drop_last();
        assert(init.no_duplicates());
        lemma_without_no_duplicates(init, b);
        if s.last() != b {
            lemma_without_contains(init, b, s.last());
            if init.contains(s.last()) {
                let k = choose|k: int| 0 <= k < init.len() && init[k] == s.last();
                assert(s[k] == s[s.len() - 1]);
            }
        }
    }
}

/// A held-button list never names a button twice.
pub proof fn lemma_pressed_no_duplicates(actions: Seq<MouseAction>)
    ensures
        pressed_after(actions).no_duplicates(),
    decreases actions.len(),
{
    if actions.len() > 0 {
        let p = pressed_after(actions.drop_last());
        lemma_pressed_no_duplicates(actions.drop_last());
        match actions.last() {
            MouseAction::ButtonUp { button } => lemma_without_no_duplicates(p, button),
            _ => {},
        }
    }
}

/// A button is held after replaying `actions` exactly when some action
/// pressed it and no later action released it.
pub proof fn lemma_pressed_iff_last_press(actions: Seq<MouseAction>, b: MouseButton)
    ensures
        pressed_after(actions).contains(b) <==> exists|i: int|
            #![trigger actions[i]]
            0 <= i < actions.len() && actions[i] == (MouseAction::ButtonDown { button: b })
                && forall|j: int|
                #![trigger actions[j]]
                i < j < actions.len() ==> actions[j] != (MouseAction::ButtonUp { button: b }),
    decreases actions.len(),
{
    if actions.len() > 0 {
        let init = actions.drop_last();
        let n = actions.len() - 1;
        let last = actions.last();
        lemma_pressed_iff_last_press(init, b);
        let p = pressed_after(init);
        match last {
            MouseAction::ButtonUp { button } => {
                lemma_without_contains(p, button, b);
            },
            _ => {},
        }
        if pressed_after(actions).contains(b) {
            if last == (MouseAction::ButtonDown { button: b }) {
                assert(actions[n] == last);
            } else {
                assert(p.contains(b)) by {
                    match last {
                        MouseAction::ButtonDown { button } => {
                            if !p.contains(button) {
                                let q = p.push(button);
                                let k = choose|k: int| 0 <= k < q.len() && q[k] == b;
                                assert(k < p.len());
                                assert(p[k] == b);
                            }
                        },
                        _ => {},
                    }
                }
                let i = choose|i: int|
                    #![trigger init[i]]
                    0 <= i < init.len() && init[i] == (MouseAction::ButtonDown { button: b })
                        && forall|j: int|
                        #![trigger init[j]]
                        i < j < init.len() ==> init[j] != (MouseAction::ButtonUp { button: b });
                assert(actions[i] == init[i]);
                assert forall|j: int|
                    #![trigger actions[j]]
                    i < j < actions.len() implies actions[j] != (MouseAction::ButtonUp {
                        button: b,
                    }) by {
                    if j < n {
                        assert(actions[j] == init[j]);
                    }
                }
            }
        } else {
            if exists|i: int|
                #![trigger actions[i]]
                0 <= i < actions.len() && actions[i] == (MouseAction::ButtonDown { button: b })
                    && forall|j: int|
                    #![trigger actions[j]]
                    i < j < actions.len() ==> actions[j] != (MouseAction::ButtonUp { button: b }) {
                let i = choose|i: int|
                    #![trigger actions[i]]
                    0 <= i < actions.len() && actions[i] == (MouseAction::ButtonDown { button: b })
                        && forall|j: int|
                        #![trigger actions[j]]
                        i < j < actions.len() ==> actions[j] != (MouseAction::ButtonUp {
                            button: b,
                        });
                if i == n {
                    assert(last == (MouseAction::ButtonDown { button: b }));
                    if !p.contains(b) {
                        assert(p.push(b)[p.len() as int] == b);
                    }
                } else {
                    assert(init[i] == actions[i]);
                    assert forall|j: int|
                        #![trigger init[j]]
                        i < j < init.len() implies init[j] != (MouseAction::ButtonUp {
                            button: b,
                        }) by {
                        assert(init[j] == actions[j]);
                    }
                    assert(actions[n] != (MouseAction::ButtonUp { button: b }));
                    assert(p.contains(b));
                    match last {
                        MouseAction::ButtonDown { button } => {
                            if !p.contains(button) {
                                let k = choose|k: int| 0 <= k < p.len() && p[k] == b;
                                assert(p.push(button)[k] == b);
                            }
                        },
                        _ => {},
                    }
                }
            }
        }
    }
}

/// Every way a replay ends (completed, stopped or failed) hands over for
/// release exactly the buttons its executed actions left held, and leaves
/// none held.
pub proof fn lemma_finish_releases_held_buttons(v: ReplayView, event: ReplayEvent)
    requires
        replay_wf(v),
        v.phase != ReplayPhase::Done,
    ensures
        replay_next(v, event).1 matches CommandView::Finish(release, _) ==> release
            == pressed_after(replay_next(v, event).0.executed) && replay_next(
            v,
            event,
        ).0.pressed.len() == 0,
{
    match event {
        ReplayEvent::Continue => {
            if v.phase == ReplayPhase::Executing {
                let a = v.actions[v.action_index].action;
                assert(v.executed.push(a).drop_last() =~= v.executed);
            }
        },
        _ => {},
    }
}

/// The pause between two passes is the loop interval in nanoseconds
/// (`loop_interval_ms * 1_000_000`), capped only at 24 hours; a longer
/// interval never gives a shorter pause.
pub proof fn lemma_pause_is_interval(ms: u64, longer_ms: u64)
    ensures
        ms * 1_000_000 <= MAX_WAIT_NS ==> pause_ns(ms) == ms * 1_000_000,
        ms * 1_000_000 > MAX_WAIT_NS ==> pause_ns(ms) == MAX_WAIT_NS,
        ms <= longer_ms ==> pause_ns(ms) <= pause_ns(longer_ms),
{
    if ms <= longer_ms {
        assert(ms * 1_000_000 <= longer_ms * 1_000_000) by (nonlinear_arith)
            requires
                ms <= longer_ms,
        ;
    }
}

/// Whenever the engine pauses, it pauses for the options' loop interval in
/// nanoseconds, or 24 hours if that is longer.
pub proof fn lemma_pause_command(v: ReplayView, event: ReplayEvent)
    ensures
        replay_next(v, event).1 matches CommandView::Pause(d) ==> d == (if v.options.loop_interval_ms
            * 1_000_000 > MAX_WAIT_NS {
            MAX_WAIT_NS as int
        } else {
            v.options.loop_interval_ms * 1_000_000
        }),
{
}

/// A stop request always ends a running replay as stopped.
pub proof fn lemma_stop_ends_replay(v: ReplayView)
    requires
        replay_wf(v),
        v.phase != ReplayPhase::Done,
    ensures
        replay_next(v, ReplayEvent::Stopped).1 matches CommandView::Finish(_, r) && r == Ok::<
            ReplayOutcome,
            AutomationError,
        >(ReplayOutcome::Stopped),
        replay_next(v, ReplayEvent::Stopped).0.phase == ReplayPhase::Done,
{
}

/// A replay completes only when it is finite and has executed the
/// recording's actions in order, pass after pass, exactly `loops` times (once
/// when `loops` is zero).
pub proof fn lemma_completed_replays_every_pass(v: ReplayView, event: ReplayEvent)
    requires
        replay_wf(v),
        replay_next(v, event).1 matches CommandView::Finish(_, r) && r == Ok::<
            ReplayOutcome,
            AutomationError,
        >(ReplayOutcome::Completed),
    ensures
        !v.options.infinite,
        replay_next(v, event).0.executed == repeat_actions(v.actions, passes(v.options)),
{
    lemma_replay_next_wf(v, event);
    let w = replay_next(v, event).0;
    assert(w.outcome == Some(Ok::<ReplayOutcome, AutomationError>(ReplayOutcome::Completed)));
    assert(w.actions.take(0) =~= Seq::<RecordedAction>::empty());
    assert(actions_of(w.actions.take(0)) =~= Seq::<MouseAction>::empty());
    assert(w.executed =~= repeat_actions(v.actions, passes(v.options)));
}

/// Scheduling is absolute: an action's wait target, measured from the start
/// of its pass, is the sum of the recorded delays up to and including it.
pub proof fn lemma_wait_target_is_cumulative(v: ReplayView, event: ReplayEvent)
    requires
        replay_wf(v),
    ensures
        replay_next(v, event).1 matches CommandView::WaitUntil(offset) ==> offset == sat_sum(
            v.actions.take(replay_next(v, event).0.action_index + 1),
        ),
{
    lemma_replay_next_wf(v, event);
}

/// The state `v` replayed at another speed.
pub open spec fn at_speed(v: ReplayView, speed_bits: u64) -> ReplayView {
    ReplayView { options: ReplayOptions { speed_bits, ..v.options }, ..v }
}

/// The speed only changes how long the waits are: at any speed the engine
/// goes through the same states and issues the same commands (whose wait
/// targets are recorded times, which the driver divides by the speed).
pub proof fn lemma_speed_only_scales_waits(v: ReplayView, event: ReplayEvent, speed_bits: u64)
    ensures
        replay_next(at_speed(v, speed_bits), event).0 == at_speed(replay_next(v, event).0, speed_bits),
        replay_next(at_speed(v, speed_bits), event).1 == replay_next(v, event).1,
{
    let w = at_speed(v, speed_bits);
    match event {
        ReplayEvent::Continue => {
            if v.phase == ReplayPhase::Executing {
                let a = v.actions[v.action_index].action;
                let v1 = ReplayView {
                    pressed: track_pressed(v.pressed, a),
                    executed: v.executed.push(a),
                    action_index: v.action_index + 1,
                    ..v
                };
                let w1 = ReplayView {
                    pressed: track_pressed(w.pressed, a),
                    executed: w.executed.push(a),
                    action_index: w.action_index + 1,
                    ..w
                };
                assert(w1 == at_speed(v1, speed_bits));
            }
        },
        _ => {},
    }
}

fn clone_result(r: &Result<ReplayOutcome, AutomationError>) -> (c: Result<
    ReplayOutcome,
    AutomationError,
>)
    ensures
        c == *r,
{
    match r {
        Ok(o) => Ok(*o),
        Err(e) => Err(e.clone()),
    }
}

fn contains_button(pressed: &Vec<MouseButton>, button: MouseButton) -> (r: bool)
    ensures
        r == pressed@.contains(button),
{
    let mut i: usize = 0;
    while i < pressed.len()
        invariant
            i <= pressed.len(),
            forall|j: int| 0 <= j < i ==> pressed@[j] != button,
        decreases pressed.len() - i,
    {
        if pressed[i] == button {
            return true;
        }
        i = i + 1;
    }
    false
}

fn track_pressed_exec(pressed: &mut Vec<MouseButton>, action: MouseAction)
    ensures
        final(pressed)@ == track_pressed(old(pressed)@, action),
{
    match action {
        MouseAction::ButtonDown { button } => {
            if !contains_button(pressed, button) {
                pressed.push(button);
            }
        },
        MouseAction::ButtonUp { button } => {
            let mut kept: Vec<MouseButton> = Vec::new();
            let mut i: usize = 0;
            while i < pressed.len()
                invariant
                    i <= pressed.len(),
                    kept@ == without(pressed@.take(i as int), button),
                decreases pressed.len() - i,
            {
                proof {
                    assert(pressed@.take(i + 1).drop_last() =~= pressed@.take(i as int));
                }
                if pressed[i] != button {
                    kept.push(pressed[i]);
                }
                i = i + 1;
            }
            assert(pressed@.take(i as int) =~= pressed@);
            *pressed = kept;
        },
        _ => {},
    }
}

impl ReplayEngine {
    /// The engine's invariant.
    pub closed spec fn wf(&self) -> bool {
        replay_wf(self@)
    }

    /// An engine is well formed exactly when its abstract state satisfies
    /// [`replay_wf`], the invariant that the laws of this module assume.
    pub proof fn lemma_wf_is_replay_wf(e: &Self)
        ensures
            e.wf() <==> replay_wf(e@),
    {
    }

    /// An engine that will replay `recording` with `options`.
    pub fn new(recording: Recording, options: ReplayOptions) -> (e: Self)
        ensures
            e.wf(),
            e@.actions == recording.actions@,
            e@.options == options,
            e@.phase == ReplayPhase::Start,
            e@.outcome is None,
            e@.loop_index == 0,
            e@.action_index == 0,
            e@.cumulative_us == 0,
            e@.pressed.len() == 0,
            e@.executed.len() == 0,
            e@.loops_done == 0,
    {
        let e = ReplayEngine {
            actions: recording.actions,
            options,
            phase: ReplayPhase::Start,
            outcome: None,
            loop_index: 0,
            action_index: 0,
            cumulative_us: 0,
            pressed: Vec::new(),
            executed: Ghost(Seq::empty()),
            loops_done: Ghost(0),
        };
        proof {
            assert(e@.executed =~= repeat_actions(e@.actions, 0) + actions_of(e@.actions.take(0)));
            assert(sat_sum(e@.actions.take(0)) == 0);
        }
        e
    }

    fn finish(&mut self, result: Result<ReplayOutcome, AutomationError>) -> (cmd: ReplayCommand)
        ensures
            (final(self)@, cmd@) == finish_with(old(self)@, result),
    {
        let mut release: Vec<MouseButton> = Vec::new();
        std::mem::swap(&mut release, &mut self.pressed);
        self.phase = ReplayPhase::Done;
        self.outcome = Some(clone_result(&result));
        ReplayCommand::Finish { release, result }
    }

    fn advance(&mut self) -> (cmd: ReplayCommand)
        requires
            old(self)@.action_index <= old(self)@.actions.len(),
        ensures
            (final(self)@, cmd@) == advance(old(self)@),
    {
        if self.action_index < self.actions.len() {
            let d = self.actions[self.action_index].delay_us;
            self.cumulative_us = self.cumulative_us.saturating_add(d);
            self.phase = ReplayPhase::Waiting;
            ReplayCommand::WaitUntil { offset_us: self.cumulative_us }
        } else {
            self.loop_index = self.loop_index.saturating_add(1);
            self.loops_done = Ghost(self.loops_done@ + 1);
            self.action_index = 0;
            self.cumulative_us = 0;
            if !self.options.infinite && self.loop_index >= self.options.loops as u64 {
                self.finish(Ok(ReplayOutcome::Completed))
            } else {
                self.phase = ReplayPhase::Pausing;
                ReplayCommand::Pause { duration_ns: pause_duration(self.options.loop_interval_ms) }
            }
        }
    }

    /// Takes the driver's report on the last command and returns the next
    /// command. Once finished, every further step repeats `Finish` with
    /// nothing left to release.
    pub fn step(&mut self, event: ReplayEvent) -> (cmd: ReplayCommand)
        requires
            old(self).wf(),
        ensures
            final(self).wf(),
            (final(self)@, cmd@) == replay_next(old(self)@, event),
    {
        proof {
            lemma_replay_next_wf(self@, event);
        }
        if self.phase == ReplayPhase::Done {
            let r = match &self.outcome {
                Some(r) => clone_result(r),
                None => Ok(ReplayOutcome::Stopped),
            };
            return ReplayCommand::Finish { release: Vec::new(), result: r };
        }
        match event {
            ReplayEvent::Stopped => {
                return self.finish(Ok(ReplayOutcome::Stopped));
            },
            ReplayEvent::Failed(e) => {
                return self.finish(Err(e));
            },
            ReplayEvent::Continue => {},
        }
        if self.phase == ReplayPhase::Start || self.phase == ReplayPhase::Pausing {
            self.phase = ReplayPhase::LoopStarting;
            ReplayCommand::StartLoop
        } else if self.phase == ReplayPhase::LoopStarting {
            self.advance()
        } else if self.phase == ReplayPhase::Waiting {
            self.phase = ReplayPhase::Executing;
            let progress = ReplayProgress {
                loop_index: self.loop_index,
                loops: self.options.loops,
                infinite: self.options.infinite,
                action_index: self.action_index,
                action_count: self.actions.len(),
            };
            ReplayCommand::Execute { action: self.actions[self.action_index].action, progress }
        } else {
            let n = self.actions.len();
            assert(self.action_index < n);
            let a = self.actions[self.action_index].action;
            track_pressed_exec(&mut self.pressed, a);
            self.executed = Ghost(self.executed@.push(a));
            self.action_index = self.action_index + 1;
            self.advance()
        }
    }
}

/// The `button_up` requests that release `pressed`, one per button, in order.
pub open spec fn releases_of(pressed: Seq<MouseButton>) -> Seq<MouseAction> {
    pressed.map_values(|b: MouseButton| MouseAction::ButtonUp { button: b })
}

/// Releases every button in `pressed` (ignoring failures), in order, and
/// empties it: the common exit of a replay that completed, was stopped or
/// failed. A failed release does not stop the ones after it.
pub fn release_pressed_buttons<C: MouseController + ?Sized>(
    controller: &mut C,
    pressed: &mut Vec<MouseButton>,
)
    ensures
        final(pressed)@.len() == 0,
        C::models_requests() ==> final(controller).requested() == old(controller).requested()
            + releases_of(old(pressed)@),
{
    let mut i: usize = 0;
    while i < pressed.len()
        invariant
            i <= pressed.len(),
            pressed@ == old(pressed)@,
            C::models_requests() ==> controller.requested() == old(controller).requested()
                + releases_of(old(pressed)@.take(i as int)),
        decreases pressed.len() - i,
    {
        let b = pressed[i];
        let _ = controller.button_up(b);
        proof {
            assert(old(pressed)@.take(i + 1) =~= old(pressed)@.take(i as int).push(b));
            assert(releases_of(old(pressed)@.take(i + 1)) =~= releases_of(
                old(pressed)@.take(i as int),
            ).push(MouseAction::ButtonUp { button: b }));
        }
        i = i + 1;
    }
    proof {
        assert(old(pressed)@.take(i as int) =~= old(pressed)@);
    }
    pressed.clear();
}

} // verus!
