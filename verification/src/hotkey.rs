//! What a hotkey does in the current engine state.
use vstd::prelude::*;

use crate::input::source::Hotkey;
use crate::model::state::EngineState;

verus! {

/// The effect of a toggle hotkey in a given engine state.
#[derive(Debug, Clone, Copy, PartialEq, Eq, Structural)]
pub enum ToggleDecision {
    Start,
    Stop,
    Ignore,
}

/// The engine state in which a hotkey's feature is running.
pub open spec fn active_state(hotkey: Hotkey) -> EngineState {
    match hotkey {
        Hotkey::ToggleRecording => EngineState::Recording,
        Hotkey::ToggleReplay => EngineState::Replaying,
    }
}

/// Idle starts the hotkey's feature, the feature's own active state stops
/// it; everything else (`Stopping`, or the other feature running) is
/// ignored, never chained implicitly.
pub fn decide(state: EngineState, hotkey: Hotkey) -> (d: ToggleDecision)
    ensures
        d == ToggleDecision::Start <==> state == EngineState::Idle,
        d == ToggleDecision::Stop <==> state == active_state(hotkey),
        d == ToggleDecision::Ignore <==> (state != EngineState::Idle && state != active_state(
            hotkey,
        )),
{
    match (hotkey, state) {
        (Hotkey::ToggleRecording, EngineState::Idle) => ToggleDecision::Start,
        (Hotkey::ToggleRecording, EngineState::Recording) => ToggleDecision::Stop,
        (Hotkey::ToggleReplay, EngineState::Idle) => ToggleDecision::Start,
        (Hotkey::ToggleReplay, EngineState::Replaying) => ToggleDecision::Stop,
        _ => ToggleDecision::Ignore,
    }
}

/// The operation that a hotkey triggers.
#[derive(Debug, Clone, Copy, PartialEq, Eq, Structural)]
pub enum HotkeyCommand {
    StartRecording,
    StopRecording,
    /// Replay the current recording with the last replay options.
    StartReplay,
    StopReplay,
    Nothing,
}

/// The operation for `hotkey` in `state`: the decision applied to the
/// hotkey's own feature.
pub fn hotkey_command(state: EngineState, hotkey: Hotkey) -> (c: HotkeyCommand)
    ensures
        c == (match (decide_spec(state, hotkey), hotkey) {
            (ToggleDecision::Ignore, _) => HotkeyCommand::Nothing,
            (ToggleDecision::Start, Hotkey::ToggleRecording) => HotkeyCommand::StartRecording,
            (ToggleDecision::Start, Hotkey::ToggleReplay) => HotkeyCommand::StartReplay,
            (ToggleDecision::Stop, Hotkey::ToggleRecording) => HotkeyCommand::StopRecording,
            (ToggleDecision::Stop, Hotkey::ToggleReplay) => HotkeyCommand::StopReplay,
        }),
{
    match decide(state, hotkey) {
        ToggleDecision::Ignore => HotkeyCommand::Nothing,
        ToggleDecision::Start => match hotkey {
            Hotkey::ToggleRecording => HotkeyCommand::StartRecording,
            Hotkey::ToggleReplay => HotkeyCommand::StartReplay,
        },
        ToggleDecision::Stop => match hotkey {
            Hotkey::ToggleRecording => HotkeyCommand::StopRecording,
            Hotkey::ToggleReplay => HotkeyCommand::StopReplay,
        },
    }
}

/// The decision of [`decide`], as a function.
pub open spec fn decide_spec(state: EngineState, hotkey: Hotkey) -> ToggleDecision {
    if state == EngineState::Idle {
        ToggleDecision::Start
    } else if state == active_state(hotkey) {
        ToggleDecision::Stop
    } else {
        ToggleDecision::Ignore
    }
}

/// Pressing a hotkey twice toggles: from `Idle` the first press starts its
/// feature, and once the engine is in that feature's state the next press
/// stops it; a hotkey never stops the other feature.
pub proof fn lemma_hotkey_toggles(hotkey: Hotkey, other: Hotkey)
    requires
        other != hotkey,
    ensures
        decide_spec(EngineState::Idle, hotkey) == ToggleDecision::Start,
        decide_spec(active_state(hotkey), hotkey) == ToggleDecision::Stop,
        decide_spec(active_state(other), hotkey) == ToggleDecision::Ignore,
        decide_spec(EngineState::Stopping, hotkey) == ToggleDecision::Ignore,
{
}

} // verus!
