use std::cell::Cell;
use std::time::{Duration, Instant};

use mouse_record::commands::replay::check_replay_request;
use mouse_record::error::AutomationError;
use mouse_record::input::controller::MouseController;
use mouse_record::model::action::{MouseAction, MouseButton};
use mouse_record::model::recording::{RecordedAction, Recording, ReplayOptions};
use mouse_record::replay::engine::{
    release_pressed_buttons, ReplayCommand, ReplayEngine, ReplayEvent,
    ReplayOutcome, ReplayProgress, MAX_WAIT_NS,
};

#[derive(Default)]
struct FakeController {
    calls: Vec<String>,
    fail: bool,
}

impl MouseController for FakeController {
    fn move_to(&mut self, x: i64, y: i64) -> Result<(), AutomationError> {
        if self.fail {
            return Err(AutomationError::InputBackend("fail".into()));
        }
        self.calls.push(format!("move({},{})", x / 1000, y / 1000));
        Ok(())
    }

    fn button_down(&mut self, button: MouseButton) -> Result<(), AutomationError> {
        if self.fail {
            return Err(AutomationError::InputBackend("fail".into()));
        }
        self.calls.push(format!("down({button:?})"));
        Ok(())
    }

    fn button_up(&mut self, button: MouseButton) -> Result<(), AutomationError> {
        if self.fail {
            return Err(AutomationError::InputBackend("fail".into()));
        }
        self.calls.push(format!("up({button:?})"));
        Ok(())
    }

    fn scroll(&mut self, delta_x: i64, delta_y: i64) -> Result<(), AutomationError> {
        if self.fail {
            return Err(AutomationError::InputBackend("fail".into()));
        }
        self.calls.push(format!("scroll({delta_x},{delta_y})"));
        Ok(())
    }
}

/// Busy-waits until `target`, polling `stop`; true when stopped.
fn wait_until(target: Instant, stop: &dyn Fn() -> bool) -> bool {
    loop {
        if stop() {
            return true;
        }
        if Instant::now() >= target {
            return false;
        }
        std::hint::spin_loop();
    }
}

/// A recorded time as the time to wait at `speed`, as the application
/// computes it.
fn scaled_delay(delay_us: u64, speed: f64) -> Duration {
    let max_wait = Duration::from_nanos(MAX_WAIT_NS);
    if speed <= 0.0 {
        return Duration::from_micros(delay_us).min(max_wait);
    }
    let nanos = (delay_us as f64 / speed) * 1_000.0;
    Duration::from_nanos(nanos.max(0.0) as u64).min(max_wait)
}

/// Drives a replay engine the way the application does.
fn run(
    controller: &mut FakeController,
    recording: &Recording,
    options: &ReplayOptions,
    stop: &dyn Fn() -> bool,
    mut on_progress: impl FnMut(ReplayProgress),
) -> Result<ReplayOutcome, AutomationError> {
    let speed = f64::from_bits(options.speed_bits);
    let mut engine = ReplayEngine::new(recording.clone(), *options);
    let mut loop_base = Instant::now();
    let mut event = ReplayEvent::Continue;
    loop {
        match engine.step(event) {
            ReplayCommand::StartLoop => {
                loop_base = Instant::now();
                event = ReplayEvent::Continue;
            }
            ReplayCommand::WaitUntil { offset_us } => {
                let target = loop_base
                    .checked_add(scaled_delay(offset_us, speed))
                    .unwrap_or(loop_base);
                event = if wait_until(target, stop) {
                    ReplayEvent::Stopped
                } else {
                    ReplayEvent::Continue
                };
            }
            ReplayCommand::Execute { action, progress } => match controller.execute(&action) {
                Ok(()) => {
                    on_progress(progress);
                    event = ReplayEvent::Continue;
                }
                Err(e) => event = ReplayEvent::Failed(e),
            },
            ReplayCommand::Pause { duration_ns } => {
                let target = Instant::now() + Duration::from_nanos(duration_ns);
                event = if wait_until(target, stop) {
                    ReplayEvent::Stopped
                } else {
                    ReplayEvent::Continue
                };
            }
            ReplayCommand::Finish {
                mut release,
                result,
            } => {
                release_pressed_buttons(controller, &mut release);
                return result;
            }
        }
    }
}

fn sample_recording() -> Recording {
    Recording::new(vec![
        RecordedAction {
            delay_us: 0,
            action: MouseAction::Move {
                x: 100_000,
                y: 200_000,
            },
        },
        RecordedAction {
            delay_us: 10_000,
            action: MouseAction::ButtonDown {
                button: MouseButton::Left,
            },
        },
        RecordedAction {
            delay_us: 0,
            action: MouseAction::ButtonUp {
                button: MouseButton::Left,
            },
        },
    ])
}

#[test]
fn executes_actions_in_order_with_loops() {
    let mut controller = FakeController::default();
    let recording = sample_recording();
    let options = ReplayOptions {
        loops: 2,
        ..Default::default()
    };
    let mut progress_count = 0;

    let outcome = run(&mut controller, &recording, &options, &|| false, |_| {
        progress_count += 1
    })
    .unwrap();

    assert_eq!(outcome, ReplayOutcome::Completed);
    assert_eq!(progress_count, 6);
    assert_eq!(
        controller.calls.as_slice(),
        [
            "move(100,200)",
            "down(Left)",
            "up(Left)",
            "move(100,200)",
            "down(Left)",
            "up(Left)",
        ]
    );
}

#[test]
fn absolute_schedule_does_not_accumulate_drift() {
    // 5 actions 20ms apart: the total stays near 80ms however late single
    // wake-ups are (a relative schedule would add them up)
    let mut controller = FakeController::default();
    let recording = Recording::new(
        (0..5)
            .map(|i| RecordedAction {
                delay_us: if i == 0 { 0 } else { 20_000 },
                action: MouseAction::Move {
                    x: i * 1_000,
                    y: 0,
                },
            })
            .collect(),
    );
    let options = ReplayOptions::default();

    let started = Instant::now();
    let outcome = run(&mut controller, &recording, &options, &|| false, |_| {}).unwrap();
    let elapsed = started.elapsed();

    assert_eq!(outcome, ReplayOutcome::Completed);
    assert_eq!(controller.calls.len(), 5);
    assert!(elapsed >= Duration::from_millis(80), "{elapsed:?}");
    assert!(elapsed < Duration::from_millis(2000), "{elapsed:?}");
}

#[test]
fn infinite_loops_runs_until_stopped() {
    let mut controller = FakeController::default();
    let recording = Recording::new(vec![RecordedAction {
        delay_us: 0,
        action: MouseAction::Move { x: 1_000, y: 2_000 },
    }]);
    let options = ReplayOptions {
        loops: 1, // ignored when infinite
        infinite: true,
        ..Default::default()
    };
    let stop = Cell::new(false);

    let mut progress_calls = 0;
    let mut all_reported_infinite = true;
    let mut last_loop_index = 0u64;

    let outcome = run(&mut controller, &recording, &options, &|| stop.get(), |p| {
        progress_calls += 1;
        all_reported_infinite &= p.infinite;
        last_loop_index = p.loop_index;
        // ask to stop after the third pass has executed its action
        if p.loop_index >= 2 {
            stop.set(true);
        }
    })
    .unwrap();

    assert_eq!(outcome, ReplayOutcome::Stopped);
    assert_eq!(progress_calls, 3);
    assert!(all_reported_infinite);
    assert_eq!(last_loop_index, 2);
    // one action per pass, three passes
    assert_eq!(controller.calls.len(), 3);
}

#[test]
fn stops_and_releases_pressed_buttons() {
    let mut controller = FakeController::default();
    let recording = Recording::new(vec![
        RecordedAction {
            delay_us: 0,
            action: MouseAction::ButtonDown {
                button: MouseButton::Left,
            },
        },
        RecordedAction {
            delay_us: 5_000_000,
            action: MouseAction::Move { x: 1_000, y: 1_000 },
        },
    ]);
    let options = ReplayOptions {
        loops: 1,
        ..Default::default()
    };
    // the stop request arrives 50ms in
    let started = Instant::now();
    let stop = || started.elapsed() >= Duration::from_millis(50);

    let outcome = run(&mut controller, &recording, &options, &stop, |_| {}).unwrap();

    assert_eq!(outcome, ReplayOutcome::Stopped);
    assert_eq!(controller.calls.as_slice(), ["down(Left)", "up(Left)"]);
}

#[test]
fn error_propagates_and_releases_buttons() {
    let mut controller = FakeController {
        calls: Vec::new(),
        fail: true,
    };
    let recording = Recording::new(vec![RecordedAction {
        delay_us: 0,
        action: MouseAction::ButtonDown {
            button: MouseButton::Right,
        },
    }]);
    let options = ReplayOptions::default();

    let result = run(&mut controller, &recording, &options, &|| false, |_| {});

    assert!(result.is_err());
}

/// Steps the engine with `Continue` and collects the commands' kinds.
fn command_trace(recording: Recording, options: ReplayOptions, steps: usize) -> Vec<String> {
    let mut engine = ReplayEngine::new(recording, options);
    let mut trace = Vec::new();
    for _ in 0..steps {
        let text = match engine.step(ReplayEvent::Continue) {
            ReplayCommand::StartLoop => "start".to_string(),
            ReplayCommand::WaitUntil { offset_us } => format!("wait {offset_us}"),
            ReplayCommand::Execute { progress, .. } => {
                format!("exec {}.{}", progress.loop_index, progress.action_index)
            }
            ReplayCommand::Pause { duration_ns } => format!("pause {duration_ns}"),
            ReplayCommand::Finish { release, result } => {
                format!("finish {:?} {:?}", release, result.map_err(|e| e.message()))
            }
        };
        trace.push(text);
    }
    trace
}

#[test]
fn wait_targets_are_cumulative_and_scaled() {
    let recording = Recording::new(vec![
        RecordedAction {
            delay_us: 100,
            action: MouseAction::Move { x: 0, y: 0 },
        },
        RecordedAction {
            delay_us: 300,
            action: MouseAction::Move { x: 0, y: 0 },
        },
    ]);
    let options = ReplayOptions {
        loops: 2,
        loop_interval_ms: 7,
        speed_bits: 2.0f64.to_bits(),
        infinite: false,
    };
    let trace = command_trace(recording, options, 12);
    assert_eq!(
        trace,
        [
            "start",
            "wait 100",
            "exec 0.0",
            "wait 400",
            "exec 0.1",
            "pause 7000000",
            "start",
            "wait 100",
            "exec 1.0",
            "wait 400",
            "exec 1.1",
            "finish [] Ok(Completed)",
        ]
    );
}

#[test]
fn stop_hands_over_held_buttons_once() {
    let recording = Recording::new(vec![
        RecordedAction {
            delay_us: 0,
            action: MouseAction::ButtonDown {
                button: MouseButton::Middle,
            },
        },
        RecordedAction {
            delay_us: 0,
            action: MouseAction::ButtonDown {
                button: MouseButton::Left,
            },
        },
        RecordedAction {
            delay_us: 0,
            action: MouseAction::ButtonDown {
                button: MouseButton::Middle,
            },
        },
        RecordedAction {
            delay_us: 10,
            action: MouseAction::Move { x: 0, y: 0 },
        },
    ]);
    let mut engine = ReplayEngine::new(recording, ReplayOptions::default());
    // start, then three waits and executions
    for _ in 0..7 {
        engine.step(ReplayEvent::Continue);
    }
    // waiting for the move: stop
    assert!(matches!(
        engine.step(ReplayEvent::Continue),
        ReplayCommand::WaitUntil { offset_us: 10 }
    ));
    match engine.step(ReplayEvent::Stopped) {
        ReplayCommand::Finish { release, result } => {
            assert_eq!(release, vec![MouseButton::Middle, MouseButton::Left]);
            assert!(matches!(result, Ok(ReplayOutcome::Stopped)));
        }
        _ => panic!("expected finish"),
    }
    // finished engines keep answering with an empty finish
    match engine.step(ReplayEvent::Continue) {
        ReplayCommand::Finish { release, result } => {
            assert!(release.is_empty());
            assert!(matches!(result, Ok(ReplayOutcome::Stopped)));
        }
        _ => panic!("expected finish"),
    }
}

#[test]
fn failure_releases_buttons_pressed_before_it() {
    let recording = Recording::new(vec![
        RecordedAction {
            delay_us: 0,
            action: MouseAction::ButtonDown {
                button: MouseButton::Right,
            },
        },
        RecordedAction {
            delay_us: 0,
            action: MouseAction::ButtonUp {
                button: MouseButton::Right,
            },
        },
        RecordedAction {
            delay_us: 0,
            action: MouseAction::ButtonDown {
                button: MouseButton::Left,
            },
        },
        RecordedAction {
            delay_us: 0,
            action: MouseAction::Wheel {
                delta_x: 0,
                delta_y: 1,
            },
        },
    ]);
    let mut engine = ReplayEngine::new(recording, ReplayOptions::default());
    // start + 3 x (wait, exec) + wait for the wheel + its execution
    for _ in 0..9 {
        engine.step(ReplayEvent::Continue);
    }
    match engine.step(ReplayEvent::Failed(AutomationError::InputBackend("x".into()))) {
        ReplayCommand::Finish { release, result } => {
            assert_eq!(release, vec![MouseButton::Left]);
            assert_eq!(result.unwrap_err().message(), "input backend error: x");
        }
        _ => panic!("expected finish"),
    }
}

#[test]
fn zero_loops_replays_once() {
    let recording = Recording::new(vec![RecordedAction {
        delay_us: 0,
        action: MouseAction::Move { x: 0, y: 0 },
    }]);
    let options = ReplayOptions {
        loops: 0,
        ..Default::default()
    };
    let trace = command_trace(recording, options, 4);
    assert_eq!(trace, ["start", "wait 0", "exec 0.0", "finish [] Ok(Completed)"]);
}

#[test]
fn replay_request_checks() {
    let options = ReplayOptions::default();
    assert!(check_replay_request(&sample_recording(), &options).is_ok());
    let empty = Recording::new(vec![]);
    assert_eq!(
        check_replay_request(&empty, &options).unwrap_err().message(),
        "invalid recording: recording has no actions"
    );
    let old = Recording {
        version: 3,
        actions: vec![],
    };
    assert_eq!(
        check_replay_request(&old, &options).unwrap_err().message(),
        "invalid recording: unsupported version 3 (expected 2)"
    );
    let bad = ReplayOptions {
        speed_bits: 0.05f64.to_bits(),
        ..Default::default()
    };
    assert!(matches!(
        check_replay_request(&sample_recording(), &bad),
        Err(AutomationError::InvalidOptions(_))
    ));
}

#[test]
fn release_pressed_buttons_releases_in_order() {
    let mut controller = FakeController::default();
    let mut pressed = vec![MouseButton::Right, MouseButton::Left];
    release_pressed_buttons(&mut controller, &mut pressed);
    assert!(pressed.is_empty());
    assert_eq!(controller.calls.as_slice(), ["up(Right)", "up(Left)"]);
}

#[test]
fn speed_only_changes_waits() {
    let recording = Recording::new(vec![
        RecordedAction {
            delay_us: 1_000,
            action: MouseAction::ButtonDown {
                button: MouseButton::Left,
            },
        },
        RecordedAction {
            delay_us: 3_000,
            action: MouseAction::ButtonUp {
                button: MouseButton::Left,
            },
        },
    ]);
    let slow = ReplayOptions {
        loops: 3,
        loop_interval_ms: 1,
        speed_bits: 0.5f64.to_bits(),
        infinite: false,
    };
    let fast = ReplayOptions {
        speed_bits: 4.0f64.to_bits(),
        ..slow
    };
    let a = command_trace(recording.clone(), slow, 20);
    let b = command_trace(recording, fast, 20);
    // the engine gives the same commands; the driver scales the waits
    assert_eq!(a, b);
    assert_eq!(a.iter().filter(|c| c.starts_with("wait")).count(), 6);
    assert_eq!(a[1], "wait 1000");
    assert_eq!(scaled_delay(1_000, 0.5), Duration::from_millis(2));
    assert_eq!(scaled_delay(1_000, 4.0), Duration::from_micros(250));
}

/// Records every release it is asked for and fails on the left button.
#[derive(Default)]
struct FlakyReleaseController {
    attempts: Vec<MouseButton>,
}

impl MouseController for FlakyReleaseController {
    fn move_to(&mut self, _x: i64, _y: i64) -> Result<(), AutomationError> {
        Ok(())
    }

    fn button_down(&mut self, _button: MouseButton) -> Result<(), AutomationError> {
        Ok(())
    }

    fn button_up(&mut self, button: MouseButton) -> Result<(), AutomationError> {
        self.attempts.push(button);
        if button == MouseButton::Left {
            Err(AutomationError::InputBackend("release failed".into()))
        } else {
            Ok(())
        }
    }

    fn scroll(&mut self, _delta_x: i64, _delta_y: i64) -> Result<(), AutomationError> {
        Ok(())
    }
}

#[test]
fn failed_release_does_not_stop_the_others() {
    let mut controller = FlakyReleaseController::default();
    let mut pressed = vec![MouseButton::Right, MouseButton::Left, MouseButton::Middle];
    release_pressed_buttons(&mut controller, &mut pressed);
    assert!(pressed.is_empty());
    assert_eq!(
        controller.attempts,
        vec![MouseButton::Right, MouseButton::Left, MouseButton::Middle]
    );
}

#[test]
fn progress_runs_pass_by_pass() {
    let mut controller = FakeController::default();
    let options = ReplayOptions {
        loops: 2,
        loop_interval_ms: 0,
        speed_bits: 10.0f64.to_bits(),
        infinite: false,
    };
    let mut seen = Vec::new();
    let result = run(
        &mut controller,
        &sample_recording(),
        &options,
        &|| false,
        |p| seen.push(p),
    );
    assert_eq!(result.unwrap(), ReplayOutcome::Completed);
    let n = sample_recording().actions.len();
    assert_eq!(seen.len(), 2 * n);
    for (j, p) in seen.iter().enumerate() {
        assert_eq!(
            *p,
            ReplayProgress {
                loop_index: (j / n) as u64,
                loops: 2,
                infinite: false,
                action_index: j % n,
                action_count: n,
            }
        );
    }
}

#[test]
fn whole_runs_differ_only_in_waits_across_speeds() {
    let recording = sample_recording();
    let base = ReplayOptions {
        loops: 2,
        loop_interval_ms: 3,
        speed_bits: 1.0f64.to_bits(),
        infinite: false,
    };
    let slow = command_trace(recording.clone(), base, 64);
    for speed in [0.1, 0.25, 1.0004, 2.5, 10.0] {
        let other = command_trace(
            recording.clone(),
            ReplayOptions {
                speed_bits: f64::to_bits(speed),
                ..base
            },
            64,
        );
        assert_eq!(slow, other);
    }
}

#[test]
fn finite_replay_completes_after_its_steps() {
    for loops in [0u32, 1, 3] {
        let options = ReplayOptions {
            loops,
            ..Default::default()
        };
        let n = sample_recording().actions.len();
        let passes = loops.max(1) as usize;
        let steps = passes * (2 * n + 2);
        let trace = command_trace(sample_recording(), options, steps + 2);
        assert!(trace[..steps - 1].iter().all(|c| !c.starts_with("finish")));
        assert!(trace[steps - 1].starts_with("finish"));
        assert!(trace[steps - 1].ends_with("Ok(Completed)"));
        assert_eq!(trace[steps], "finish [] Ok(Completed)");
        assert_eq!(trace.iter().filter(|c| c.starts_with("exec")).count(), passes * n);
    }
}
