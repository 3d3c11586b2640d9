//! What the renderer decides before anything is drawn.

pub mod assistant;
pub mod frame;
pub mod palette;
pub mod tooltip;
pub mod wrap;
