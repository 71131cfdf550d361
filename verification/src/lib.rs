//! Webhook-triggered action runner: the verified core.
//!
//! A request is matched against the registry of configured actions,
//! authenticated against the action's origin and secret, expanded into an
//! ordered execution plan, and the plan is run command by command, stopping at
//! the first failure.

pub mod actions;
pub mod commands;
pub mod enabled_actions;
pub mod execution;
pub mod handler;
pub mod hosts;
pub mod logger;
pub mod printer;
pub mod security;
pub mod state;
pub mod utils;
