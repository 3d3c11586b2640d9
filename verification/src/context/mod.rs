//! Tabs, their panes, and the sessions that the panes show.

pub mod adopt;
pub mod handover;
pub mod interact;
pub mod intern;
pub mod lifecycle;
pub mod manager;
pub mod numbers;
pub mod pane;
pub mod passive;
pub mod protocol;
pub mod pump;
pub mod remote;
pub mod renderable;
pub mod row;
pub mod session;
pub mod tab;
pub mod title;
