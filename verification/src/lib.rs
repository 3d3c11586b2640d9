//! The logic of a terminal front end: tabs and panes, passive session views,
//! hints, titles, colours, and the coordination of windows.

pub mod application;
pub mod context;
pub mod hints;
pub mod laws;
pub mod maps;
pub mod renderer;
pub mod terminal;
pub mod text;
