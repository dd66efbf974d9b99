//! A small points tracker: tasks earn points, rewards spend them.
//!
//! `model` holds the persisted data and its operations, `text` the decimal
//! conversions used for numeric input and output, `nav` the screen state
//! machine driven by input events, and `render` the projection of model and
//! state into a frame of styled text.

pub mod model;
pub mod text;
pub mod nav;
pub mod render;
