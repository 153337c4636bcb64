//! A terminal habit-tracking calendar core: a per-day boolean log, a
//! date-to-grid mapper for year and month layouts, a cursor/view-mode
//! state machine, and a renderer that computes the cells to draw.

pub mod date;
pub mod grid;
pub mod log;
pub mod render;
pub mod state;
