//! Rules of the replay commands: state conflicts and the checks before a
//! replay starts.
use vstd::prelude::*;

use crate::error::AutomationError;
use crate::model::recording::{
    options_valid, unsupported_version_message, Recording, ReplayOptions, LEGACY_RECORDING_VERSION,
    RECORDING_VERSION,
};
use crate::model::state::EngineState;

verus! {

/// The error for a replay command that found the engine in `actual`.
pub open spec fn replay_conflict(actual: EngineState) -> AutomationError {
    match actual {
        EngineState::Recording => AutomationError::AlreadyRecording,
        EngineState::Replaying => AutomationError::AlreadyReplaying,
        EngineState::Stopping => AutomationError::AlreadyReplaying,
        EngineState::Idle => AutomationError::NotReplaying,
    }
}

/// Maps the state that blocked a replay command to its error.
pub fn state_conflict(actual: EngineState) -> (e: AutomationError)
    ensures
        e == replay_conflict(actual),
{
    match actual {
        EngineState::Recording => AutomationError::AlreadyRecording,
        EngineState::Replaying | EngineState::Stopping => AutomationError::AlreadyReplaying,
        EngineState::Idle => AutomationError::NotReplaying,
    }
}

/// The state a stop request moves the engine to, from `current`: a running
/// replay goes to stopping; any other state is left as it is (the request
/// still raises the replay's stop flag).
pub open spec fn stop_target(current: EngineState) -> Option<EngineState> {
    if current == EngineState::Replaying {
        Some(EngineState::Stopping)
    } else {
        None
    }
}

/// Decides what a stop request does to the engine state `current`.
pub fn stop_transition(current: EngineState) -> (t: Option<EngineState>)
    ensures
        t == stop_target(current),
{
    match current {
        EngineState::Replaying => Some(EngineState::Stopping),
        _ => None,
    }
}

/// Checks a replay request before the engine changes state: the recording
/// must have a supported version and at least one action, the options must
/// be valid; the first failing check gives the error.
pub fn check_replay_request(recording: &Recording, options: &ReplayOptions) -> (r: Result<
    (),
    AutomationError,
>)
    ensures
        ({
            let version_ok = recording.version == RECORDING_VERSION || recording.version
                == LEGACY_RECORDING_VERSION;
            if !version_ok {
                r matches Err(AutomationError::InvalidRecording(m)) && m@
                    == unsupported_version_message(recording.version)
            } else if recording.actions@.len() == 0 {
                r matches Err(AutomationError::InvalidRecording(m)) && m@
                    == "recording has no actions"@
            } else if !options_valid(*options) {
                r matches Err(AutomationError::InvalidOptions(m)) && m@ == (if !options.infinite
                    && options.loops == 0 {
                    "loops must be >= 1"@
                } else {
                    "speed must be within 0.1..=10.0"@
                })
            } else {
                r is Ok
            }
        }),
{
    recording.validate()?;
    if recording.actions.len() == 0 {
        return Err(AutomationError::InvalidRecording(String::from_str("recording has no actions")));
    }
    options.validate()?;
    Ok(())
}

} // verus!
