//! The terminal interface.

pub mod cells;
pub mod controls;
pub mod figures;
pub mod frame;
pub mod layout;
pub mod painter;
pub mod panels;
pub mod placed;
pub mod poller;
pub mod proportion;
pub mod registry;
pub mod scales;
pub mod screen;
pub mod theme;
pub mod tiling;
pub mod units;
pub mod views;
pub mod widgets;
