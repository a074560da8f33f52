//! The texture catalogue: what is known of a texture before its pixels are.
use vstd::prelude::*;

verus! {

/// An entry of the texture catalogue: the size and the name of a texture,
/// without its pixels.
#[derive(Debug)]
pub struct Texture {
    /// Number of pixels in a row.
    pub width: i32,
    /// Number of rows.
    pub height: i32,
    /// Name of the texture.
    pub name: String,
}

impl Texture {
    /// An entry for a texture `w` pixels wide and `h` rows high, named `n`.
    pub fn new(w: i32, h: i32, n: String) -> (entry: Self)
        ensures
            entry.width == w,
            entry.height == h,
            entry.name == n,
    {
        Texture { width: w, height: h, name: n }
    }
}

} // verus!
