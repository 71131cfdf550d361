//! What the server holds while it runs.

pub mod actions;
