pub mod hub;
pub mod worker;
