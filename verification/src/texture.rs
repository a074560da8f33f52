//! Textures and nearest-neighbour sampling with tiling.
use vstd::prelude::*;
use crate::arith::wrap;
use crate::arith::wrap_into;
use crate::level::LoadError;

verus! {

/// A rectangle of RGB pixels, stored row by row, three bytes per pixel.
#[derive(Debug)]
pub struct Texture {
    /// Number of pixels in a row.
    pub width: i32,
    /// Number of rows.
    pub height: i32,
    /// Name of the texture.
    pub name: String,
    /// The pixels: `width * height * 3` bytes.
    pub data: Vec<u8>,
}

/// A colour channel with `shade` taken off, stopping at black.
pub open spec fn shaded(channel: u8, shade: u8) -> u8 {
    if channel >= shade {
        (channel - shade) as u8
    } else {
        0
    }
}

/// Takes `shade` off a colour channel, stopping at black.
pub fn darken(channel: u8, shade: u8) -> (r: u8)
    ensures
        r == shaded(channel, shade),
{
    if channel >= shade {
        channel - shade
    } else {
        0
    }
}

impl Texture {
    /// The texture has at least one pixel and exactly the bytes of its
    /// pixels.
    pub open spec fn valid(&self) -> bool {
        &&& self.width > 0
        &&& self.height > 0
        &&& self.data@.len() == self.width * self.height * 3
    }

    /// The column that the horizontal texture coordinate `u` falls on: the
    /// texture repeats in both directions.
    pub open spec fn column(&self, u: int) -> int {
        wrap(u, self.width as int)
    }

    /// The row that the vertical texture coordinate `v` falls on. The
    /// coordinate counts from the last row upwards, and the texture repeats.
    pub open spec fn row(&self, v: int) -> int {
        self.height - 1 - wrap(v, self.height as int)
    }

    /// Index in `data` of the first byte of the pixel sampled at `(u, v)`.
    pub open spec fn offset(&self, u: int, v: int) -> int {
        3 * (self.row(v) * self.width + self.column(u))
    }

    /// The colour sampled at `(u, v)`.
    pub open spec fn texel(&self, u: int, v: int) -> (u8, u8, u8) {
        let at = self.offset(u, v);
        (self.data@[at], self.data@[at + 1], self.data@[at + 2])
    }

    /// Whatever the texture coordinates, the sampled pixel lies inside the
    /// texture, and its three bytes inside the data.
    pub proof fn lemma_sample_in_texture(&self, u: int, v: int)
        requires
            self.valid(),
        ensures
            0 <= self.column(u) < self.width,
            0 <= self.row(v) < self.height,
            0 <= self.offset(u, v),
            self.offset(u, v) + 2 < self.data@.len(),
    {
        let w = self.width as int;
        let h = self.height as int;
        vstd::arithmetic::div_mod::lemma_mod_bound(u, w);
        vstd::arithmetic::div_mod::lemma_mod_bound(v, h);
        let r = self.row(v);
        let c = self.column(u);
        assert(0 <= r * w && r * w + w <= h * w) by (nonlinear_arith)
            requires
                0 <= r < h,
                0 < w,
        ;
        assert(h * w == w * h) by (nonlinear_arith);
    }

    /// The column and the row sampled at `(u, v)`.
    pub fn wrap_coord(&self, u: i128, v: i128) -> (at: (i32, i32))
        requires
            self.valid(),
        ensures
            at.0 == self.column(u as int),
            at.1 == self.row(v as int),
            0 <= at.0 < self.width,
            0 <= at.1 < self.height,
    {
        proof {
            self.lemma_sample_in_texture(u as int, v as int);
        }
        let column: i128 = wrap_into(u, self.width as i128);
        let row: i128 = self.height as i128 - 1 - wrap_into(v, self.height as i128);
        (column as i32, row as i32)
    }

    /// Samples the texture at `(u, v)`.
    pub fn sample(&self, u: i128, v: i128) -> (colour: (u8, u8, u8))
        requires
            self.valid(),
        ensures
            colour == self.texel(u as int, v as int),
    {
        proof {
            self.lemma_sample_in_texture(u as int, v as int);
        }
        let (column, row) = self.wrap_coord(u, v);
        let w: usize = self.width as usize;
        let r: usize = row as usize;
        let c: usize = column as usize;
        let bytes: usize = self.data.len();
        proof {
            let pixels = self.height as int * self.width as int;
            assert(0 <= r * w && r * w + w <= pixels) by (nonlinear_arith)
                requires
                    0 <= r < self.height,
                    0 < w,
                    w == self.width,
                    pixels == self.height as int * self.width as int,
            ;
            assert(self.width * self.height * 3 == 3 * pixels) by (nonlinear_arith)
                requires
                    pixels == self.height as int * self.width as int,
            ;
            assert(3 * (r * w + c) + 2 < bytes);
        }
        let at: usize = 3 * (r * w + c);
        (self.data[at], self.data[at + 1], self.data[at + 2])
    }
}

/// Every texture of the table is valid.
pub open spec fn all_valid(textures: Seq<Texture>) -> bool {
    forall|t: int| 0 <= t < textures.len() ==> (#[trigger] textures[t]).valid()
}

/// Texture `t` is the first of the table that is not valid.
pub open spec fn first_bad_texture(textures: Seq<Texture>, t: int) -> bool {
    &&& 0 <= t < textures.len()
    &&& !textures[t].valid()
    &&& forall|k: int| 0 <= k < t ==> (#[trigger] textures[k]).valid()
}

impl Texture {
    /// Whether the texture has at least one pixel and exactly the bytes of
    /// its pixels.
    pub fn is_valid(&self) -> (ok: bool)
        ensures
            ok == self.valid(),
    {
        if self.width <= 0 || self.height <= 0 {
            return false;
        }
        proof {
            crate::arith::lemma_mul_bound(
                self.width as int,
                self.height as int,
                0x8000_0000,
                0x8000_0000,
            );
        }
        let bytes: u128 = (self.width as u128 * self.height as u128) * 3;
        self.data.len() as u128 == bytes
    }

    /// Checks the textures of a table, in index order. A table whose
    /// textures are all valid is handed back as it is; otherwise the first
    /// texture that is not valid is named.
    pub fn texture_loader(textures: Vec<Texture>) -> (loaded: Result<Vec<Texture>, LoadError>)
        ensures
            loaded is Ok <==> all_valid(textures@),
            match loaded {
                Ok(table) => table == textures,
                Err(LoadError::BadTexture(t)) => first_bad_texture(textures@, t as int),
                Err(_) => false,
            },
    {
        let n: usize = textures.len();
        let mut t: usize = 0;
        while t < n
            invariant
                t <= n,
                n == textures@.len(),
                forall|k: int| 0 <= k < t ==> (#[trigger] textures@[k]).valid(),
            decreases n - t,
        {
            if !textures[t].is_valid() {
                return Err(LoadError::BadTexture(t));
            }
            t += 1;
        }
        Ok(textures)
    }
}

} // verus!
