//! The value types of the panels drawn below the map.

pub mod bar;
pub mod border_style;
pub mod map_frame;
pub mod panel;
pub mod stat_bar;
