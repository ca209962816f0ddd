//! The store: workspaces, executions with their events, and recorded agent
//! sessions with their turns and actions.

pub mod capture;
pub mod columns;
pub mod executions;
pub mod laws;
pub mod present;
pub mod reading;
pub mod retention;
pub mod room;
pub mod rows;
pub mod serve;
pub mod session_reading;
pub mod sessions;
pub mod soundness;
pub mod stats;
pub mod turns;
pub mod workspaces;
