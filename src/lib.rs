//! A pannable, zoomable viewport over the longitude/latitude plane, the
//! input state machine that drives it, the reading of the map's point data,
//! and the choice of map points that fall inside the viewport.
//!
//! Coordinates are held in fixed point: one unit is a ten-millionth of a
//! degree, so every step of zoom, pan and drag is an exact integer amount.

pub mod dataset;
pub mod input;
pub mod map;
pub mod viewport;
