//! What the operations of the library are for, said of what goes in and what
//! comes out.

pub mod answers;
pub mod calls;
pub mod clock;
pub mod command_line;
pub mod drawing;
pub mod effects;
pub mod engine;
pub mod hooks;
pub mod lists;
pub mod names;
pub mod observing;
pub mod opening;
pub mod operating;
pub mod places;
pub mod recordings;
pub mod records;
pub mod reports;
pub mod runs;
pub mod seen;
pub mod sessions;
pub mod setup;
pub mod showing;
pub mod starting;
pub mod statistics;
pub mod storing;
pub mod supervision;
pub mod talk;
pub mod turns;
pub mod upkeep;
pub mod words;
