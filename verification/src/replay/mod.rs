pub mod engine;
pub mod runs;
