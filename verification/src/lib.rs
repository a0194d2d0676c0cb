//! Core of a retained-mode GUI toolkit: fixed-point geometry, gradient
//! resolution, streaming path bounds, a two-pass layout engine and the
//! retained render-context state machine.

pub mod bounds;
pub mod color;
pub mod events;
pub mod fixed;
pub mod geometry;
pub mod gradient;
pub mod image;
pub mod layout;
pub mod render;
pub mod source;
pub mod stops;
pub mod text;
pub mod trig;
pub mod widgets;
