//! Running the actions that a request set off.

pub mod context;
pub mod runner;
