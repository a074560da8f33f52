//! Wall segments.
use vstd::prelude::*;

verus! {

/// One line-segment edge of a sector.
#[derive(Clone, Copy, Debug)]
pub struct Wall {
    /// First endpoint, in world coordinates.
    pub x1: i32,
    pub y1: i32,
    /// Second endpoint, in world coordinates.
    pub x2: i32,
    pub y2: i32,
    /// Index of the wall's texture in the texture table.
    pub texture: i32,
    /// How often the texture repeats along the wall.
    pub u: i32,
    /// How often the texture repeats up the wall.
    pub v: i32,
    /// Amount taken off every colour channel of the texture.
    pub shade: u8,
}

} // verus!
