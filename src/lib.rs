//! Distance fields for binary occupancy grids.
//!
//! A grid of foreground and background cells is swept in two passes; each cell
//! learns the nearest cell of the opposite layer. Distance metrics are derived
//! from that relation and serialized into little-endian byte buffers.

pub mod bits;
pub mod boundary;
pub mod cell;
pub mod clamp;
pub mod distance;
pub mod export;
pub mod image;
pub mod input;
pub mod result;
pub mod serialize;
pub mod sweep;
pub mod transformation;
