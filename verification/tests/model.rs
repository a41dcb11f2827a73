use mouse_record::error::AutomationError;
use mouse_record::model::action::{coord_near_pixel, to_pixel, MouseAction, MouseButton};
use mouse_record::model::recording::{
    RecordedAction, Recording, ReplayOptions, LEGACY_RECORDING_VERSION, RECORDING_VERSION,
};
use mouse_record::model::state::{AtomicEngineState, EngineState};

#[test]
fn transition_follows_rules() {
    let state = AtomicEngineState::new(EngineState::Idle);

    // Idle -> Recording
    assert!(state
        .transition(EngineState::Idle, EngineState::Recording)
        .is_ok());
    assert_eq!(state.load(), EngineState::Recording);

    // a second Idle -> Recording is refused (already Recording)
    assert_eq!(
        state.transition(EngineState::Idle, EngineState::Recording),
        Err(EngineState::Recording)
    );

    // Recording -> Idle
    assert!(state
        .transition(EngineState::Recording, EngineState::Idle)
        .is_ok());
    assert_eq!(state.load(), EngineState::Idle);

    // Idle -> Replaying -> Idle
    assert!(state
        .transition(EngineState::Idle, EngineState::Replaying)
        .is_ok());
    assert!(state
        .transition(EngineState::Replaying, EngineState::Idle)
        .is_ok());
    assert_eq!(state.load(), EngineState::Idle);
}

#[test]
fn state_codes_roundtrip() {
    for s in [
        EngineState::Idle,
        EngineState::Recording,
        EngineState::Replaying,
        EngineState::Stopping,
    ] {
        assert_eq!(EngineState::from_u8(s.to_u8()), s);
    }
    assert_eq!(EngineState::from_u8(200), EngineState::Idle);
    let state = AtomicEngineState::new(EngineState::Stopping);
    assert_eq!(state.load(), EngineState::Stopping);
    state.store(EngineState::Replaying);
    assert_eq!(state.load(), EngineState::Replaying);
}

#[test]
fn rejects_unsupported_version() {
    let recording = Recording {
        version: 99,
        actions: vec![],
    };
    assert!(recording.validate().is_err());
}

#[test]
fn unsupported_version_message_names_both_versions() {
    let recording = Recording {
        version: 99,
        actions: vec![],
    };
    match recording.validate() {
        Err(AutomationError::InvalidRecording(m)) => {
            assert_eq!(m, "unsupported version 99 (expected 2)")
        }
        other => panic!("unexpected {other:?}"),
    }
    let legacy = Recording {
        version: LEGACY_RECORDING_VERSION,
        actions: vec![],
    };
    assert!(legacy.validate().is_ok());
    let current = Recording::new(vec![]);
    assert_eq!(current.version, RECORDING_VERSION);
    assert!(current.validate().is_ok());
    let zero = Recording {
        version: 0,
        actions: vec![],
    };
    assert_eq!(
        zero.validate().unwrap_err().message(),
        "invalid recording: unsupported version 0 (expected 2)"
    );
}

#[test]
fn legacy_recording_is_migrated() {
    let mut recording = Recording {
        version: 1,
        actions: vec![RecordedAction {
            delay_us: 200_000,
            action: MouseAction::ButtonDown {
                button: MouseButton::Left,
            },
        }],
    };
    recording.migrate_legacy();
    assert_eq!(recording.version, RECORDING_VERSION);
    assert_eq!(recording.actions.len(), 1);
    let mut other = Recording {
        version: 7,
        actions: vec![],
    };
    other.migrate_legacy();
    assert_eq!(other.version, 7);
}

#[test]
fn stored_delays_prefer_microseconds() {
    let action = MouseAction::Move { x: 500_000, y: 400_000 };
    assert_eq!(
        RecordedAction::from_stored(Some(120_500), Some(3), action),
        Some(RecordedAction {
            delay_us: 120_500,
            action
        })
    );
    // legacy milliseconds become microseconds
    assert_eq!(
        RecordedAction::from_stored(None, Some(200), action).unwrap().delay_us,
        200_000
    );
    assert_eq!(
        RecordedAction::from_stored(None, Some(u64::MAX), action).unwrap().delay_us,
        u64::MAX
    );
    // no delay at all is rejected
    assert_eq!(RecordedAction::from_stored(None, None, action), None);
}

#[test]
fn total_duration_sums_delays() {
    let recording = Recording::new(vec![
        RecordedAction {
            delay_us: 120_500,
            action: MouseAction::Wheel {
                delta_x: 0,
                delta_y: 2,
            },
        },
        RecordedAction {
            delay_us: 800,
            action: MouseAction::ButtonUp {
                button: MouseButton::Right,
            },
        },
    ]);
    assert_eq!(recording.total_duration_us(), 121_300);
    assert_eq!(recording.total_duration_ms(), 121);
    assert_eq!(Recording::new(vec![]).total_duration_ms(), 0);
}

#[test]
fn replay_options_defaults() {
    let opts = ReplayOptions::default();
    assert_eq!(opts.loops, 1);
    assert_eq!(opts.loop_interval_ms, 0);
    assert_eq!(f64::from_bits(opts.speed_bits), 1.0);
    assert!(!opts.infinite);
    assert!(opts.validate().is_ok());
}

#[test]
fn replay_options_rejects_bad_speed() {
    let opts = ReplayOptions {
        loops: 1,
        speed_bits: 0.0f64.to_bits(),
        ..Default::default()
    };
    assert!(opts.validate().is_err());
}

#[test]
fn replay_options_speed_bounds() {
    for (speed, ok) in [
        (0.09996, false),
        (0.1, true),
        (1.0004, true),
        (10.0, true),
        (10.000000000000002, false),
        (-1.0, false),
        (-0.0, false),
        (f64::INFINITY, false),
        (f64::NAN, false),
    ] {
        let opts = ReplayOptions {
            speed_bits: f64::to_bits(speed),
            ..Default::default()
        };
        assert_eq!(opts.validate().is_ok(), ok, "speed {speed}");
    }
    let err = ReplayOptions {
        speed_bits: 20.0f64.to_bits(),
        ..Default::default()
    }
    .validate()
    .unwrap_err();
    assert_eq!(
        err.message(),
        "invalid replay options: speed must be within 0.1..=10.0"
    );
}

#[test]
fn replay_options_infinite_skips_loops_check() {
    let opts = ReplayOptions {
        loops: 0,
        infinite: true,
        ..Default::default()
    };
    assert!(opts.validate().is_ok());
}

#[test]
fn replay_options_rejects_zero_loops_when_finite() {
    let opts = ReplayOptions {
        loops: 0,
        infinite: false,
        ..Default::default()
    };
    assert!(opts.validate().is_err());
    assert_eq!(
        opts.validate().unwrap_err().message(),
        "invalid replay options: loops must be >= 1"
    );
}

#[test]
fn error_messages() {
    assert_eq!(AutomationError::AlreadyRecording.message(), "already recording");
    assert_eq!(AutomationError::NotRecording.message(), "not recording");
    assert_eq!(AutomationError::AlreadyReplaying.message(), "already replaying");
    assert_eq!(AutomationError::NotReplaying.message(), "not replaying");
    assert_eq!(
        AutomationError::Io("disk full".to_string()).message(),
        "io error: disk full"
    );
    assert_eq!(
        AutomationError::InvalidFile("x".to_string()).message(),
        "invalid recording file: x"
    );
    assert_eq!(
        AutomationError::ListenerUnavailable("no permission".to_string()).message(),
        "input listener unavailable: no permission"
    );
    let e = AutomationError::InputBackend("fail".to_string());
    assert_eq!(e.clone().message(), "input backend error: fail");
}

#[test]
fn positions_replay_at_the_pixel_they_were_nearest_to() {
    // 100.4996 px: nearest pixel 100, half a pixel less a hair above it
    let c = coord_near_pixel(100, 500);
    assert_eq!(c, 100_499);
    assert_eq!(to_pixel(c), 100);
    // 100.5 px rounds away from zero, to 101
    let c = coord_near_pixel(101, -500);
    assert_eq!(c, 100_501);
    assert_eq!(to_pixel(c), 101);
    let c = coord_near_pixel(-101, 500);
    assert_eq!(c, -100_501);
    assert_eq!(to_pixel(c), -101);
    assert_eq!(coord_near_pixel(7, 120), 7_120);
    assert_eq!(to_pixel(coord_near_pixel(5_000_000_000, 0)), i32::MAX);
}
