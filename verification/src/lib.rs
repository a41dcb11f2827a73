//! Verified core of a mouse recorder: the data model of recorded mouse
//! actions, the compression rules of the recorder, the replay scheduler,
//! the engine state machine, hotkey handling and the platform conversions.

pub mod commands;
pub mod error;
pub mod hotkey;
pub mod input;
pub mod model;
pub mod platform;
pub mod recorder;
pub mod replay;
pub mod text;
pub mod throttle;
