//! The coordination of windows: merging, recovery, transfers, drags and events.

pub mod carry;
pub mod closing;
pub mod control;
pub mod drag;
pub mod foreign;
pub mod import;
pub mod merge;
pub mod outbox;
pub mod pointer;
pub mod recovery;
pub mod run;
pub mod session_events;
pub mod state;
pub mod transfer;
pub mod user_events;
pub mod windows;
