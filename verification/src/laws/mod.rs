//! What holds of the library as a whole, in terms of what goes in and what comes
//! out.

pub mod dragging;
pub mod drawing;
pub mod events;
pub mod frames;
pub mod handing;
pub mod hints;
pub mod merging;
pub mod panes;
pub mod pointing;
pub mod recovering;
pub mod sessions;
pub mod tabs;
pub mod texts;
pub mod titles;
pub mod views;
pub mod words;
