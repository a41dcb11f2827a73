use std::sync::atomic::{AtomicU8, Ordering};
use vstd::prelude::*;

verus! {

/// The engine's global mode.
///
/// The allowed lifecycle is `Idle -> Recording -> Idle` and
/// `Idle -> Replaying -> (Stopping) -> Idle`.
#[derive(Debug, Clone, Copy, PartialEq, Eq, Structural)]
pub enum EngineState {
    Idle,
    Recording,
    Replaying,
    Stopping,
}

/// The byte that encodes a state inside an [`AtomicEngineState`].
pub open spec fn state_code(s: EngineState) -> u8 {
    match s {
        EngineState::Idle => 0,
        EngineState::Recording => 1,
        EngineState::Replaying => 2,
        EngineState::Stopping => 3,
    }
}

/// Decoding of a stored byte; every unknown byte reads as `Idle`.
pub open spec fn state_of_code(v: u8) -> EngineState {
    if v == 1 {
        EngineState::Recording
    } else if v == 2 {
        EngineState::Replaying
    } else if v == 3 {
        EngineState::Stopping
    } else {
        EngineState::Idle
    }
}

impl EngineState {
    pub fn to_u8(self) -> (v: u8)
        ensures
            v == state_code(self),
    {
        match self {
            EngineState::Idle => 0,
            EngineState::Recording => 1,
            EngineState::Replaying => 2,
            EngineState::Stopping => 3,
        }
    }

    pub fn from_u8(v: u8) -> (s: EngineState)
        ensures
            s == state_of_code(v),
    {
        match v {
            1 => EngineState::Recording,
            2 => EngineState::Replaying,
            3 => EngineState::Stopping,
            _ => EngineState::Idle,
        }
    }
}

/// Decoding a state's code gives the state back, and distinct states have
/// distinct codes.
pub proof fn lemma_state_code_roundtrip(s: EngineState, t: EngineState)
    ensures
        state_of_code(state_code(s)) == s,
        state_code(s) == state_code(t) <==> s == t,
{
}

/// An engine state shared between threads (the input hook reads it on every
/// event).
///
/// The byte inside is shared mutable state: another thread may change it at
/// any moment, so no operation here promises anything about the value that a
/// later read will see.
#[derive(Debug)]
pub struct AtomicEngineState {
    cell: AtomicU8,
}

impl AtomicEngineState {
    pub fn new(value: EngineState) -> (r: Self) {
        AtomicEngineState { cell: AtomicU8::new(value.to_u8()) }
    }

    pub fn load(&self) -> EngineState {
        EngineState::from_u8(self.cell.load(Ordering::Acquire))
    }

    pub fn store(&self, value: EngineState) {
        self.cell.store(value.to_u8(), Ordering::Release);
    }

    /// Switches to `new` only if the current state is `expect`; on failure
    /// returns the state that was found instead.
    pub fn transition(&self, expect: EngineState, new: EngineState) -> Result<(), EngineState> {
        match self.cell.compare_exchange(
            expect.to_u8(),
            new.to_u8(),
            Ordering::AcqRel,
            Ordering::Acquire,
        ) {
            Ok(_) => Ok(()),
            Err(actual) => Err(EngineState::from_u8(actual)),
        }
    }
}

} // verus!
