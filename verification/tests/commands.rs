use mouse_record::commands::recording::{
    keep_allowed_chars, meta_of, require_listener, sanitize_name, sort_by_name_desc,
    state_conflict, RecordingMeta,
};
use mouse_record::commands::replay;
use mouse_record::error::AutomationError;
use mouse_record::model::action::MouseAction;
use mouse_record::model::recording::{RecordedAction, Recording};
use mouse_record::model::state::EngineState;

fn invalid_file_message(r: Result<String, AutomationError>) -> String {
    match r {
        Err(AutomationError::InvalidFile(m)) => m,
        other => panic!("unexpected {other:?}"),
    }
}

#[test]
fn sanitize_trims_and_keeps_allowed_characters() {
    assert_eq!(sanitize_name("  my drag.v2  ").unwrap(), "my drag.v2");
    assert_eq!(sanitize_name("a/b\\c:d*e").unwrap(), "abcde");
    assert_eq!(sanitize_name("\tclick_test-1\n").unwrap(), "click_test-1");
    assert_eq!(sanitize_name("录制1").unwrap(), "录制1");
}

#[test]
fn sanitize_rejects_empty_names() {
    assert_eq!(
        invalid_file_message(sanitize_name("   ")),
        "recording name must not be empty"
    );
    assert_eq!(
        invalid_file_message(sanitize_name("")),
        "recording name must not be empty"
    );
}

#[test]
fn sanitize_rejects_long_names() {
    let long = "a".repeat(101);
    assert_eq!(
        invalid_file_message(sanitize_name(&long)),
        "recording name too long (max 100 chars)"
    );
    assert_eq!(sanitize_name(&"a".repeat(100)).unwrap().len(), 100);
    // the limit counts bytes: 34 three-byte characters are 102 bytes
    assert!(sanitize_name(&"录".repeat(34)).is_err());
    assert!(sanitize_name(&"录".repeat(33)).is_ok());
}

#[test]
fn sanitize_rejects_unusable_names() {
    assert_eq!(
        invalid_file_message(sanitize_name("///")),
        "recording name contains no usable characters"
    );
    assert_eq!(
        invalid_file_message(sanitize_name(".hidden")),
        "recording name contains no usable characters"
    );
    assert_eq!(
        invalid_file_message(sanitize_name("/ /")),
        "recording name contains no usable characters"
    );
    // a dot left at the front after dropping characters is refused too
    assert!(sanitize_name("/.x").is_err());
}

#[test]
fn recording_conflicts() {
    assert!(matches!(
        state_conflict(EngineState::Recording),
        AutomationError::AlreadyRecording
    ));
    assert!(matches!(
        state_conflict(EngineState::Replaying),
        AutomationError::AlreadyReplaying
    ));
    assert!(matches!(
        state_conflict(EngineState::Stopping),
        AutomationError::AlreadyReplaying
    ));
    assert!(matches!(
        state_conflict(EngineState::Idle),
        AutomationError::NotRecording
    ));
}

#[test]
fn replay_conflicts() {
    assert!(matches!(
        replay::state_conflict(EngineState::Recording),
        AutomationError::AlreadyRecording
    ));
    assert!(matches!(
        replay::state_conflict(EngineState::Stopping),
        AutomationError::AlreadyReplaying
    ));
    assert!(matches!(
        replay::state_conflict(EngineState::Idle),
        AutomationError::NotReplaying
    ));
}

#[test]
fn meta_summarizes_recording() {
    let recording = Recording::new(vec![
        RecordedAction {
            delay_us: 120_500,
            action: MouseAction::Move { x: 0, y: 0 },
        },
        RecordedAction {
            delay_us: 800,
            action: MouseAction::Move { x: 0, y: 0 },
        },
    ]);
    let meta = meta_of("demo", &recording);
    assert_eq!(meta.name, "demo");
    assert_eq!(meta.version, 2);
    assert_eq!(meta.action_count, 2);
    assert_eq!(meta.duration_ms, 121);
}

fn meta(name: &str, count: usize) -> RecordingMeta {
    RecordingMeta {
        name: name.to_string(),
        version: 2,
        action_count: count,
        duration_ms: 0,
    }
}

#[test]
fn metas_sort_by_descending_name() {
    let mut metas = vec![
        meta("b", 1),
        meta("abc", 2),
        meta("c", 3),
        meta("ab", 4),
        meta("b", 5),
        meta("é", 6),
        meta("Z", 7),
    ];
    sort_by_name_desc(&mut metas);
    let names: Vec<(String, usize)> = metas
        .iter()
        .map(|m| (m.name.clone(), m.action_count))
        .collect();
    assert_eq!(
        names,
        [
            ("é".to_string(), 6),
            ("c".to_string(), 3),
            ("b".to_string(), 1),
            ("b".to_string(), 5),
            ("abc".to_string(), 2),
            ("ab".to_string(), 4),
            ("Z".to_string(), 7),
        ]
    );
    let mut empty: Vec<RecordingMeta> = Vec::new();
    sort_by_name_desc(&mut empty);
    assert!(empty.is_empty());
}

#[test]
fn accepted_names_are_plain_file_names() {
    assert_eq!(sanitize_name(" my/rec ").unwrap(), "myrec");
    assert!(sanitize_name("../x").is_err());
    for name in ["  a:b/c  ", "x..y", "名字 one_2", "\u{3000}tab\there\u{2003}"] {
        let accepted = sanitize_name(name).unwrap();
        let trimmed: Vec<char> = name.trim().chars().collect();
        assert!(!accepted.trim().is_empty());
        assert!(accepted.len() <= 100);
        assert!(!accepted.starts_with('.'));
        assert!(accepted
            .chars()
            .all(|c| c.is_alphanumeric() || matches!(c, '-' | '_' | ' ' | '.')));
        // a subsequence of the trimmed name
        let mut rest = trimmed.iter();
        assert!(accepted.chars().all(|c| rest.any(|&t| t == c)));
    }
    assert_eq!(sanitize_name("\u{3000}tab\there\u{2003}").unwrap(), "tabhere");
}

#[test]
fn recording_needs_the_listener() {
    assert!(require_listener(true).is_ok());
    match require_listener(false) {
        Err(AutomationError::ListenerUnavailable(m)) => {
            assert_eq!(m, "input listener is not running (check accessibility permission)")
        }
        other => panic!("unexpected {other:?}"),
    }
}

#[test]
fn stop_only_moves_a_running_replay() {
    assert_eq!(
        replay::stop_transition(EngineState::Replaying),
        Some(EngineState::Stopping)
    );
    for s in [EngineState::Idle, EngineState::Recording, EngineState::Stopping] {
        assert_eq!(replay::stop_transition(s), None);
    }
}

#[test]
fn kept_characters_follow_the_flags() {
    let chars: Vec<char> = "a/b c-d.é!".chars().collect();
    let flags: Vec<bool> = chars.iter().map(|c| c.is_alphanumeric()).collect();
    let kept: String = keep_allowed_chars(&chars, &flags).into_iter().collect();
    assert_eq!(kept, "ab c-d.é");
    // the flags decide: a character flagged as a letter is kept
    let all = vec![true; chars.len()];
    let kept: String = keep_allowed_chars(&chars, &all).into_iter().collect();
    assert_eq!(kept, "a/b c-d.é!");
    let none = vec![false; chars.len()];
    let kept: String = keep_allowed_chars(&chars, &none).into_iter().collect();
    assert_eq!(kept, " -.");
}
