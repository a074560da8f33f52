//! A sector-based pseudo-3D software renderer in integer arithmetic.
//!
//! A level is a list of sectors, each bounded by a run of walls and closed by
//! a floor and a ceiling. Every frame the renderer orders the sectors back to
//! front, brings each wall into camera space, clips it against the near
//! plane, projects it to the screen and paints it column by column. What it
//! hands back is the list of coloured pixels of the frame, in painting order.
//!
//! All coordinates are `i32`. Sines and cosines are fixed-point numbers from
//! a table. Where an exact value does not fit an `i32` it is cut off at the
//! nearest end of the range; a division is guarded against a zero divisor;
//! a texture coordinate wraps around the texture. So every function here is
//! defined, and proved free of overflow, on every input that its contract
//! admits.
use vstd::prelude::*;

pub mod arith;
pub mod ground;
pub mod level;
pub mod player;
pub mod raster;
pub mod renderer;
pub mod sector;
pub mod sorter;
pub mod texture;
pub mod textures;
pub mod transform;
pub mod trig;
pub mod wall;

verus! {

/// Width of the raster, in columns.
pub const RENDER_W: i32 = 160;

/// Height of the raster, in rows.
pub const RENDER_H: i32 = 120;

/// The field-of-view constant of the perspective projection.
pub const FOV: i32 = 200;

} // verus!
