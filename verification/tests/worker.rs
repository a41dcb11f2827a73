use mouse_record::model::action::{MouseAction, MouseButton};
use mouse_record::recorder::worker::{MouseButtonState, RecordingWorker};

/// Nanoseconds in `n` milliseconds.
fn ms(n: u64) -> u64 {
    n * 1_000_000
}

/// Nanoseconds in `n` microseconds.
fn us(n: u64) -> u64 {
    n * 1_000
}

/// An arbitrary start time.
const T0: u64 = 5_000_000_000;

#[test]
fn records_all_event_kinds_with_delay() {
    let mut w = RecordingWorker::new();
    let t0 = T0;

    w.handle(MouseAction::Move { x: 100_000, y: 100_000 }, t0);
    w.handle(
        MouseAction::ButtonDown {
            button: MouseButton::Left,
        },
        t0 + ms(120),
    );
    w.handle(MouseAction::Move { x: 120_000, y: 110_000 }, t0 + ms(140));
    w.handle(
        MouseAction::ButtonUp {
            button: MouseButton::Left,
        },
        t0 + ms(200),
    );
    w.handle(
        MouseAction::Wheel {
            delta_x: 0,
            delta_y: -3,
        },
        t0 + ms(300),
    );

    let actions = w.finish();
    assert_eq!(actions.len(), 5);
    assert_eq!(actions[0].delay_us, 0);
    assert_eq!(actions[1].delay_us, 120_000);
    assert_eq!(actions[2].delay_us, 20_000);
    assert_eq!(actions[3].delay_us, 60_000);
    assert_eq!(actions[4].delay_us, 100_000);
}

#[test]
fn compresses_idle_moves_but_keeps_threshold() {
    let t0 = T0;
    let mut w = RecordingWorker::new();

    w.handle(MouseAction::Move { x: 0, y: 0 }, t0);

    // 0.4px after 5ms: dropped
    w.handle(MouseAction::Move { x: 400, y: 0 }, t0 + ms(5));

    // 0.8px from the last recorded move, but 15ms later: kept (time threshold)
    w.handle(MouseAction::Move { x: 800, y: 0 }, t0 + ms(15));

    // 1.7px: kept (distance threshold)
    w.handle(MouseAction::Move { x: 2_500, y: 0 }, t0 + ms(20));

    let actions = w.finish();
    assert_eq!(actions.len(), 3);
    assert_eq!(actions[0].delay_us, 0);
    assert_eq!(actions[1].delay_us, 15_000);
    assert_eq!(actions[2].delay_us, 5_000);
}

#[test]
fn keeps_sub_millisecond_delay_precision() {
    let t0 = T0;
    let mut w = RecordingWorker::new();

    // while dragging, moves 250us apart keep their microsecond delays
    w.handle(
        MouseAction::ButtonDown {
            button: MouseButton::Left,
        },
        t0,
    );
    w.handle(MouseAction::Move { x: 1_000, y: 1_000 }, t0 + us(250));
    w.handle(MouseAction::Move { x: 2_000, y: 2_000 }, t0 + us(500));

    let actions = w.finish();
    assert_eq!(actions.len(), 3);
    assert_eq!(actions[1].delay_us, 250);
    assert_eq!(actions[2].delay_us, 250);
}

#[test]
fn keeps_all_moves_while_button_down() {
    let t0 = T0;
    let mut w = RecordingWorker::new();

    w.handle(MouseAction::Move { x: 0, y: 0 }, t0);
    w.handle(
        MouseAction::ButtonDown {
            button: MouseButton::Left,
        },
        t0 + ms(10),
    );

    // dragging: 1px moves 2ms apart are all kept
    for i in 1..=5u64 {
        w.handle(
            MouseAction::Move {
                x: (i * 1_000) as i64,
                y: (i * 1_000) as i64,
            },
            t0 + ms(10 + i * 2),
        );
    }

    w.handle(
        MouseAction::ButtonUp {
            button: MouseButton::Left,
        },
        t0 + ms(30),
    );

    let actions = w.finish();
    assert_eq!(actions.len(), 8);
}

#[test]
fn tracks_multiple_simultaneous_buttons() {
    let t0 = T0;
    let mut w = RecordingWorker::new();

    w.handle(
        MouseAction::ButtonDown {
            button: MouseButton::Left,
        },
        t0,
    );
    w.handle(
        MouseAction::ButtonDown {
            button: MouseButton::Right,
        },
        t0 + ms(10),
    );

    // two buttons held: the move is not compressed
    w.handle(MouseAction::Move { x: 1_000, y: 1_000 }, t0 + ms(11));
    assert_eq!(w.action_count(), 3);

    w.handle(
        MouseAction::ButtonUp {
            button: MouseButton::Left,
        },
        t0 + ms(20),
    );
    w.handle(
        MouseAction::ButtonUp {
            button: MouseButton::Right,
        },
        t0 + ms(30),
    );

    // all released: compression is back
    w.handle(MouseAction::Move { x: 1_500, y: 1_500 }, t0 + ms(31));
    assert_eq!(w.action_count(), 5);
}

#[test]
fn ignores_zero_wheel() {
    let t0 = T0;
    let mut w = RecordingWorker::new();
    w.handle(
        MouseAction::Wheel {
            delta_x: 0,
            delta_y: 0,
        },
        t0,
    );
    assert_eq!(w.action_count(), 0);
}

#[test]
fn button_state_set_and_clear() {
    let mut s = MouseButtonState::default();
    s.set(MouseButton::Middle, true);
    s.set(MouseButton::Back, true);
    assert!(s.any_down());
    s.set(MouseButton::Middle, false);
    s.set(MouseButton::Back, false);
    assert!(!s.any_down());
}

#[test]
fn last_seen_position_tracks_dropped_moves() {
    let mut w = RecordingWorker::new();
    assert_eq!(w.last_seen_pos(), None);
    assert!(w.last_action().is_none());
    w.handle(MouseAction::Move { x: 0, y: 0 }, T0);
    w.handle(MouseAction::Move { x: 300, y: 0 }, T0 + ms(1));
    // the second move was compressed away but is still the last seen position
    assert_eq!(w.action_count(), 1);
    assert_eq!(w.last_seen_pos(), Some((300, 0)));
    assert_eq!(
        w.last_action().unwrap().action,
        MouseAction::Move { x: 0, y: 0 }
    );
}

#[test]
fn drag_keeps_every_move_and_click_stays_raw() {
    // a click is a press and a release, recorded as two actions;
    // every move in between is kept
    let mut w = RecordingWorker::new();
    w.handle(
        MouseAction::ButtonDown {
            button: MouseButton::Left,
        },
        T0,
    );
    for i in 0..20u64 {
        w.handle(MouseAction::Move { x: 1, y: 0 }, T0 + us(i));
    }
    w.handle(
        MouseAction::ButtonUp {
            button: MouseButton::Left,
        },
        T0 + ms(1500),
    );
    let actions = w.finish();
    assert_eq!(actions.len(), 22);
    // a long press keeps its hold time
    assert_eq!(actions[21].delay_us, 1_500_000 - 19);
}

#[test]
fn earlier_timestamp_gives_zero_delay() {
    let mut w = RecordingWorker::new();
    w.handle(
        MouseAction::ButtonDown {
            button: MouseButton::Left,
        },
        T0,
    );
    w.handle(
        MouseAction::ButtonUp {
            button: MouseButton::Left,
        },
        T0 - 1,
    );
    let actions = w.finish();
    assert_eq!(actions[1].delay_us, 0);
}

#[test]
fn delays_add_up_to_elapsed_time() {
    let mut w = RecordingWorker::new();
    let times = [T0, T0 + us(3), T0 + us(3), T0 + ms(12), T0 + ms(40), T0 + ms(41)];
    let mut x = 0;
    for (i, t) in times.iter().enumerate() {
        if i % 2 == 0 {
            w.handle(
                MouseAction::Wheel {
                    delta_x: 0,
                    delta_y: 1,
                },
                *t,
            );
        } else {
            x += 5_000;
            w.handle(MouseAction::Move { x, y: 0 }, *t);
        }
    }
    let actions = w.finish();
    assert_eq!(actions.len(), times.len());
    let total: u64 = actions.iter().map(|a| a.delay_us).sum();
    assert_eq!(total, (times[times.len() - 1] - times[0]) / 1_000);
}
