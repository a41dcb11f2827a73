//! Whole replays: what the engine does over a run of steps.
//!
//! A driver hands the engine one report after another; by the contract of
//! [`ReplayEngine::step`](crate::replay::engine::ReplayEngine::step) the
//! states it passes through and the commands it issues are those of
//! [`replay_run`]. The laws here speak of whole runs.
use vstd::prelude::*;

use crate::error::AutomationError;
use crate::model::action::MouseAction;
use crate::model::recording::{RecordedAction, ReplayOptions};
use crate::replay::engine::{
    actions_of, at_speed, lemma_replay_next_wf, lemma_speed_only_scales_waits, passes,
    progress_of, repeat_actions, replay_next, replay_wf, CommandView, ReplayEvent, ReplayOutcome,
    ReplayPhase, ReplayProgress, ReplayView,
};

verus! {

/// The state reached from `v` after the driver reports `events` in turn, and
/// the commands issued on the way, one per report.
pub open spec fn replay_run(v: ReplayView, events: Seq<ReplayEvent>) -> (
    ReplayView,
    Seq<CommandView>,
)
    decreases events.len(),
{
    if events.len() == 0 {
        (v, Seq::empty())
    } else {
        let before = replay_run(v, events.drop_last());
        let step = replay_next(before.0, events.last());
        (step.0, before.1.push(step.1))
    }
}

/// The `Execute` commands among `cmds`, in order: the actions handed to the
/// controller and the progress reported for each.
pub open spec fn executes(cmds: Seq<CommandView>) -> Seq<(MouseAction, ReplayProgress)>
    decreases cmds.len(),
{
    if cmds.len() == 0 {
        Seq::empty()
    } else {
        let rest = executes(cmds.drop_last());
        match cmds.last() {
            CommandView::Execute(a, p) => rest.push((a, p)),
            _ => rest,
        }
    }
}

/// The `j`-th action a replay of `actions` with `options` executes (counting
/// from zero over all passes), with its progress report: pass `j / n`,
/// action `j % n` of that pass, where `n` is the number of actions.
pub open spec fn nth_execute(actions: Seq<RecordedAction>, options: ReplayOptions, j: nat) -> (
    MouseAction,
    ReplayProgress,
) {
    let n = actions.len();
    let pass = j / n;
    (
        actions[(j % n) as int].action,
        ReplayProgress {
            loop_index: if pass > u64::MAX {
                u64::MAX
            } else {
                pass as u64
            },
            loops: options.loops,
            infinite: options.infinite,
            action_index: (j % n) as usize,
            action_count: n as usize,
        },
    )
}

/// A state from which no pass has run yet.
pub open spec fn fresh(v: ReplayView) -> bool {
    replay_wf(v) && v.phase == ReplayPhase::Start && v.loops_done == 0
}

proof fn lemma_repeat_len(actions: Seq<RecordedAction>, n: nat)
    ensures
        repeat_actions(actions, n).len() == n * actions.len(),
    decreases n,
{
    if n > 0 {
        let m = (n - 1) as nat;
        lemma_repeat_len(actions, m);
        let l = actions.len();
        assert(repeat_actions(actions, n) == repeat_actions(actions, m) + actions_of(actions));
        assert(actions_of(actions).len() == l);
        assert(n * l == m * l + l) by (nonlinear_arith)
            requires
                m + 1 == n,
        ;
    } else {
        assert(n * actions.len() == 0) by (nonlinear_arith)
            requires
                n == 0,
        ;
    }
}

/// What holds along a run from a fresh state: the number of issued
/// `Execute` commands matches the executed actions, and each is the one
/// [`nth_execute`] names.
spec fn run_inv(v: ReplayView, w: ReplayView, cmds: Seq<CommandView>) -> bool {
    let ex = executes(cmds);
    &&& replay_wf(w)
    &&& w.actions == v.actions
    &&& w.options == v.options
    &&& (w.phase != ReplayPhase::Done ==> ex.len() == w.executed.len() + (if w.phase
        == ReplayPhase::Executing {
        1int
    } else {
        0int
    }))
    &&& (w.outcome == Some(Ok::<ReplayOutcome, AutomationError>(ReplayOutcome::Completed))
        ==> ex.len() == w.executed.len())
    &&& forall|j: int| 0 <= j < ex.len() ==> #[trigger] ex[j] == nth_execute(v.actions, v.options, j as nat)
}

proof fn lemma_run_inv(v: ReplayView, events: Seq<ReplayEvent>)
    requires
        fresh(v),
    ensures
        run_inv(v, replay_run(v, events).0, replay_run(v, events).1),
    decreases events.len(),
{
    if events.len() == 0 {
        assert(v.actions.take(0) =~= Seq::<RecordedAction>::empty());
        assert(actions_of(v.actions.take(0)) =~= Seq::<MouseAction>::empty());
        assert(v.executed =~= Seq::<MouseAction>::empty());
    } else {
        let prev = events.drop_last();
        lemma_run_inv(v, prev);
        let before = replay_run(v, prev);
        let w = before.0;
        let e = events.last();
        let step = replay_next(w, e);
        let cmds = before.1.push(step.1);
        lemma_replay_next_wf(w, e);
        assert(cmds.drop_last() =~= before.1);
        let ex0 = executes(before.1);
        if w.phase == ReplayPhase::Waiting && e is Continue {
            // The action about to run is the `executed.len()`-th of the replay.
            let n = w.actions.len();
            let i = w.action_index;
            lemma_repeat_len(w.actions, w.loops_done);
            assert(w.executed.len() == w.loops_done * n + i);
            vstd::arithmetic::div_mod::lemma_fundamental_div_mod_converse(
                w.executed.len() as int,
                n as int,
                w.loops_done as int,
                i,
            );
            let j = w.executed.len();
            assert(step.1 == CommandView::Execute(w.actions[i].action, progress_of(w)));
            assert(executes(cmds) == ex0.push((w.actions[i].action, progress_of(w))));
            assert(nth_execute(v.actions, v.options, j) == (
                w.actions[i].action,
                progress_of(w),
            ));
            assert forall|k: int| 0 <= k < executes(cmds).len() implies #[trigger] executes(
                cmds,
            )[k] == nth_execute(v.actions, v.options, k as nat) by {
                if k < ex0.len() {
                    assert(executes(cmds)[k] == ex0[k]);
                }
            }
        } else {
            assert(!(step.1 is Execute));
            assert(executes(cmds) == ex0);
            if w.phase == ReplayPhase::Executing && e is Continue {
                assert(step.0.executed.len() == w.executed.len() + 1);
            }
        }
    }
}

/// The progress of a whole replay: from a fresh state, whatever the driver
/// reports, the `j`-th action handed to the controller is action `j % n` of
/// the recording (`n` actions), reported as action `j % n` of pass `j / n`
/// with the replay's loop count and `n` actions per pass; and a replay that
/// completes has executed exactly `n` actions per pass, `passes(options)`
/// passes in all.
pub proof fn lemma_progress_runs_in_order(v: ReplayView, events: Seq<ReplayEvent>)
    requires
        fresh(v),
    ensures
        forall|j: int|
            0 <= j < executes(replay_run(v, events).1).len() ==> #[trigger] executes(
                replay_run(v, events).1,
            )[j] == nth_execute(v.actions, v.options, j as nat),
        replay_run(v, events).0.outcome == Some(
            Ok::<ReplayOutcome, AutomationError>(ReplayOutcome::Completed),
        ) ==> executes(replay_run(v, events).1).len() == passes(v.options) * v.actions.len(),
{
    lemma_run_inv(v, events);
    let w = replay_run(v, events).0;
    if w.outcome == Some(Ok::<ReplayOutcome, AutomationError>(ReplayOutcome::Completed)) {
        assert(w.actions.take(0) =~= Seq::<RecordedAction>::empty());
        assert(actions_of(w.actions.take(0)) =~= Seq::<MouseAction>::empty());
        assert(w.executed =~= repeat_actions(w.actions, w.loops_done));
        lemma_repeat_len(w.actions, w.loops_done);
    }
}

/// Speed only changes the waiting, over whole replays too: replayed at
/// another speed with the same reports, the engine passes through the same
/// states (but for the speed) and issues the same commands, whose wait
/// targets the driver divides by the speed. In particular the controller is
/// handed the same actions and the same progress is reported.
pub proof fn lemma_speed_only_scales_waits_over_runs(
    v: ReplayView,
    events: Seq<ReplayEvent>,
    speed_bits: u64,
)
    ensures
        replay_run(at_speed(v, speed_bits), events).0 == at_speed(
            replay_run(v, events).0,
            speed_bits,
        ),
        replay_run(at_speed(v, speed_bits), events).1 == replay_run(v, events).1,
    decreases events.len(),
{
    if events.len() > 0 {
        let prev = events.drop_last();
        lemma_speed_only_scales_waits_over_runs(v, prev, speed_bits);
        let b = replay_run(v, prev);
        lemma_speed_only_scales_waits(b.0, events.last(), speed_bits);
    }
}

/// `k` reports that every command was carried out: no stop, no failure.
pub open spec fn all_continue(k: nat) -> Seq<ReplayEvent> {
    Seq::new(k, |i: int| ReplayEvent::Continue)
}

/// The number of commands a finite replay gives when nothing stops or
/// fails it: per pass, the start of the pass, a wait and an execution per
/// action, and the pause or the finish.
pub open spec fn finite_run_steps(v: ReplayView) -> nat {
    passes(v.options) * (2 * v.actions.len() + 2)
}

/// The state after `k` reports that everything went as asked.
spec fn after_continues(v: ReplayView, k: nat) -> ReplayView
    decreases k,
{
    if k == 0 {
        v
    } else {
        replay_next(after_continues(v, (k - 1) as nat), ReplayEvent::Continue).0
    }
}

proof fn lemma_after_one(v: ReplayView)
    ensures
        after_continues(v, 1) == replay_next(v, ReplayEvent::Continue).0,
{
    assert(after_continues(v, 0) == v);
}

proof fn lemma_all_continue_run(v: ReplayView, k: nat)
    ensures
        replay_run(v, all_continue(k)).0 == after_continues(v, k),
    decreases k,
{
    if k > 0 {
        let m = (k - 1) as nat;
        assert(all_continue(k).drop_last() =~= all_continue(m));
        lemma_all_continue_run(v, m);
    }
}

proof fn lemma_after_compose(v: ReplayView, a: nat, b: nat)
    ensures
        after_continues(v, a + b) == after_continues(after_continues(v, a), b),
    decreases b,
{
    if b > 0 {
        lemma_after_compose(v, a, (b - 1) as nat);
        assert((a + b - 1) as nat == a + (b - 1) as nat);
    }
}

/// A state at the start of pass `d`, before its first command.
spec fn pass_start(v: ReplayView, w: ReplayView, d: nat) -> bool {
    &&& replay_wf(w)
    &&& w.actions == v.actions
    &&& w.options == v.options
    &&& (w.phase == ReplayPhase::Start || w.phase == ReplayPhase::Pausing)
    &&& w.loops_done == d
}

proof fn lemma_within_pass(v: ReplayView, s0: ReplayView, d: nat, i: nat)
    requires
        pass_start(v, s0, d),
        i < s0.actions.len(),
    ensures
        ({
            let w = after_continues(s0, 2 + 2 * i);
            &&& replay_wf(w)
            &&& w.actions == v.actions
            &&& w.options == v.options
            &&& w.phase == ReplayPhase::Waiting
            &&& w.action_index == i
            &&& w.loops_done == d
        }),
    decreases i,
{
    if i == 0 {
        let s1 = replay_next(s0, ReplayEvent::Continue).0;
        lemma_replay_next_wf(s0, ReplayEvent::Continue);
        lemma_after_one(s0);
        lemma_replay_next_wf(s1, ReplayEvent::Continue);
        lemma_after_compose(s0, 1, 1);
        lemma_after_one(s1);
    } else {
        let m = (i - 1) as nat;
        lemma_within_pass(v, s0, d, m);
        let w = after_continues(s0, 2 + 2 * m);
        lemma_after_compose(s0, 2 + 2 * m, 2);
        assert(2 + 2 * m + 2 == 2 + 2 * i);
        let w1 = replay_next(w, ReplayEvent::Continue).0;
        lemma_replay_next_wf(w, ReplayEvent::Continue);
        lemma_after_one(w);
        lemma_replay_next_wf(w1, ReplayEvent::Continue);
        lemma_after_compose(w, 1, 1);
        lemma_after_one(w1);
    }
}

proof fn lemma_one_pass(v: ReplayView, s0: ReplayView, d: nat)
    requires
        pass_start(v, s0, d),
        !s0.options.infinite,
    ensures
        ({
            let x = after_continues(s0, 2 * s0.actions.len() + 2);
            &&& replay_wf(x)
            &&& x.actions == v.actions
            &&& x.options == v.options
            &&& d + 1 == passes(v.options) ==> x.phase == ReplayPhase::Done && x.outcome == Some(
                Ok::<ReplayOutcome, AutomationError>(ReplayOutcome::Completed),
            )
            &&& d + 1 < passes(v.options) ==> pass_start(v, x, d + 1)
        }),
{
    let n = s0.actions.len();
    // the state just before the pass ends: its last action is executing
    // (or, with no actions, the pass has just started)
    let (e, k) = if n == 0 {
        let s1 = replay_next(s0, ReplayEvent::Continue).0;
        lemma_replay_next_wf(s0, ReplayEvent::Continue);
        lemma_after_one(s0);
        (s1, 1nat)
    } else {
        lemma_within_pass(v, s0, d, (n - 1) as nat);
        let w = after_continues(s0, 2 + 2 * (n - 1) as nat);
        let w1 = replay_next(w, ReplayEvent::Continue).0;
        lemma_replay_next_wf(w, ReplayEvent::Continue);
        lemma_after_compose(s0, 2 + 2 * (n - 1) as nat, 1);
        lemma_after_one(w);
        (w1, (2 + 2 * (n - 1) as nat + 1) as nat)
    };
    assert(after_continues(s0, k) == e);
    assert(k + 1 == 2 * n + 2);
    lemma_after_compose(s0, k, 1);
    lemma_replay_next_wf(e, ReplayEvent::Continue);
    assert(after_continues(e, 1) == replay_next(e, ReplayEvent::Continue).0);
}

proof fn lemma_passes(v: ReplayView, d: nat)
    requires
        fresh(v),
        !v.options.infinite,
        d < passes(v.options),
    ensures
        pass_start(v, after_continues(v, d * (2 * v.actions.len() + 2)), d),
    decreases d,
{
    let c = 2 * v.actions.len() + 2;
    if d == 0 {
        assert(d * c == 0) by (nonlinear_arith)
            requires
                d == 0,
        ;
    } else {
        let m = (d - 1) as nat;
        lemma_passes(v, m);
        let w = after_continues(v, m * c);
        lemma_one_pass(v, w, m);
        lemma_after_compose(v, m * c, c);
        assert(m * c + c == d * c) by (nonlinear_arith)
            requires
                m + 1 == d,
        ;
    }
}

proof fn lemma_done_stays(v: ReplayView, k: nat)
    requires
        v.phase == ReplayPhase::Done,
    ensures
        after_continues(v, k) == v,
    decreases k,
{
    if k > 0 {
        lemma_done_stays(v, (k - 1) as nat);
    }
}

/// A finite replay that nothing stops and nothing fails completes: from a
/// fresh state, after [`finite_run_steps`] reports that every command was
/// carried out (and however many more follow), the replay has ended as
/// completed, having executed the recording's actions pass after pass,
/// `passes(options)` times, and handed the controller exactly that many
/// actions.
pub proof fn lemma_finite_replay_completes(v: ReplayView, k: nat)
    requires
        fresh(v),
        !v.options.infinite,
        k >= finite_run_steps(v),
    ensures
        replay_run(v, all_continue(k)).0.phase == ReplayPhase::Done,
        replay_run(v, all_continue(k)).0.outcome == Some(
            Ok::<ReplayOutcome, AutomationError>(ReplayOutcome::Completed),
        ),
        replay_run(v, all_continue(k)).0.executed == repeat_actions(v.actions, passes(v.options)),
        executes(replay_run(v, all_continue(k)).1).len() == passes(v.options) * v.actions.len(),
{
    let p = passes(v.options);
    let c = 2 * v.actions.len() + 2;
    let d = (p - 1) as nat;
    lemma_passes(v, d);
    let w = after_continues(v, d * c);
    lemma_one_pass(v, w, d);
    lemma_after_compose(v, d * c, c);
    assert(d * c + c == p * c) by (nonlinear_arith)
        requires
            d + 1 == p,
    ;
    let x = after_continues(v, p * c);
    lemma_done_stays(x, (k - p * c) as nat);
    lemma_after_compose(v, p * c, (k - p * c) as nat);
    lemma_all_continue_run(v, k);
    let y = replay_run(v, all_continue(k)).0;
    assert(y == x);
    assert(y.actions.take(0) =~= Seq::<RecordedAction>::empty());
    assert(actions_of(y.actions.take(0)) =~= Seq::<MouseAction>::empty());
    assert(y.executed =~= repeat_actions(y.actions, y.loops_done));
    lemma_progress_runs_in_order(v, all_continue(k));
}

} // verus!
