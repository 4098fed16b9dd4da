//! Interactive music-notation editing core.
//!
//! The crate has two parts, consumed in this order:
//!
//! 1. A document edit model: a score document (movements, measures,
//!    channels, markings) together with a cursor that addresses one
//!    marking slot, and navigation / mutation operations over it.
//! 2. A pagination driver: given the per-measure output of a layout
//!    backend, it lays measures out left to right into a fixed-width
//!    viewport, stops exactly when the next measure would overflow,
//!    and tracks the screen-space rectangle of the selected element.
//!
//! Everything here is pure state manipulation: input handling and
//! drawing belong to the host around this crate.

pub mod fraction;
pub mod layout;
pub mod marking;
pub mod pitch;
pub mod program;
pub mod score;
