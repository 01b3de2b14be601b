//! The control plane of the node: its configuration and state, the streams that
//! run, what was discovered, and what the REST interface answers.

pub mod clockmon;
pub mod config;
pub mod handlers;
pub mod identity;
pub mod laws;
pub mod monitor;
pub mod ravenna;
pub mod routing;
pub mod state;
pub mod table;
pub mod tasks;
