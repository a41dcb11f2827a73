pub mod action;
pub mod recording;
pub mod state;
