//! The rules behind the application's commands.
pub mod recording;
pub mod replay;
