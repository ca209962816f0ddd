//! Durable local command runtime: the rules of the daemon, its store, its
//! clients and its terminal views, stated and proved.

#![verifier::loop_isolation(false)]

pub mod agent;
pub mod cli;
pub mod client;
pub mod codec;
pub mod config;
pub mod daemon;
pub mod delivery;
pub mod dispatch;
pub mod error;
pub mod executor;
pub mod json;
pub mod layout;
pub mod model;
pub mod onboarding;
pub mod order;
pub mod output;
pub mod paths;
pub mod promises;
pub mod protocol;
pub mod quoting;
pub mod readback;
pub mod report;
pub mod screen;
pub mod slots;
pub mod startup;
pub mod store;
pub mod supervisor;
pub mod text;
pub mod toml_text;
pub mod ui;
pub mod ui_view;
pub mod watch;
