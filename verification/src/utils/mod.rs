//! Building blocks shared by the rest of the crate.

pub mod action_path;
pub mod error;
pub mod location;
pub mod report;
pub mod text;
