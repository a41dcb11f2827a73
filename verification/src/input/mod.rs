pub mod cgtap;
pub mod controller;
pub mod enigo;
pub mod rdev;
pub mod source;
