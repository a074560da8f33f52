//! Sectors and what the camera sees of them.
use vstd::prelude::*;
use crate::RENDER_H;
use crate::RENDER_W;

verus! {

/// What is painted of a sector in one frame, decided by where the camera
/// stands relative to the sector's floor and ceiling.
#[derive(Clone, Copy, Debug, PartialEq, Eq, Structural)]
pub enum Surface {
    /// The camera is between floor and ceiling: the walls are painted.
    Walls,
    /// The camera is below the floor: the underside of the floor is painted.
    Floor,
    /// The camera is above the ceiling: the top of the ceiling is painted.
    Ceiling,
}

/// A region of the level bounded by the walls `ws .. we`.
#[derive(Debug)]
pub struct Sector {
    /// Index of the sector's first wall.
    pub ws: i32,
    /// Index one past the sector's last wall.
    pub we: i32,
    /// Height of the floor.
    pub z1: i32,
    /// Height of the ceiling.
    pub z2: i32,
    /// Index of the ceiling's texture in the texture table.
    pub ceiling_texture: i32,
    /// Index of the floor's texture in the texture table.
    pub floor_texture: i32,
    /// Tiling factor of the floor and ceiling textures.
    pub texture_scale: i32,
    /// For every screen column, the row at which the flat of this sector ends.
    /// Written and read within one frame only.
    pub horizon: Vec<i32>,
    /// What is painted of the sector this frame.
    pub surface: Surface,
    /// Average distance of the sector's walls from the camera this frame.
    pub dist: i32,
}

/// Where the camera at height `cam_z` stands relative to a sector whose floor
/// is at `z1` and whose ceiling is at `z2`.
pub open spec fn classify(cam_z: int, z1: int, z2: int) -> Surface {
    if cam_z < z1 {
        Surface::Floor
    } else if cam_z > z2 {
        Surface::Ceiling
    } else {
        Surface::Walls
    }
}

/// The horizon buffer at the start of a sector's frame: untouched where the
/// walls are painted, otherwise every column at the screen edge from which
/// the flat is filled.
pub open spec fn seeded(surface: Surface, horizon: Seq<i32>) -> Seq<i32> {
    match surface {
        Surface::Walls => horizon,
        Surface::Floor => Seq::new(horizon.len(), |x: int| RENDER_H),
        Surface::Ceiling => Seq::new(horizon.len(), |x: int| 0i32),
    }
}

/// A sector as the renderer's rules see it: its fields as mathematical
/// values.
pub struct SectorModel {
    pub ws: int,
    pub we: int,
    pub z1: int,
    pub z2: int,
    pub ceiling_texture: int,
    pub floor_texture: int,
    pub texture_scale: int,
    pub horizon: Seq<i32>,
    pub surface: Surface,
    pub dist: int,
}

impl SectorModel {
    /// The horizon buffer has one entry per screen column, each a row of the
    /// screen or the row just below it.
    pub open spec fn scratch_ok(self) -> bool {
        &&& self.horizon.len() == RENDER_W
        &&& forall|x: int| 0 <= x < RENDER_W ==> 0 <= #[trigger] self.horizon[x] <= RENDER_H
    }

    /// The sector's walls are a range of a wall list of `walls` entries.
    pub open spec fn walls_ok(self, walls: int) -> bool {
        0 <= self.ws <= self.we <= walls
    }

    /// The sector's textures are in a table of `textures` entries.
    pub open spec fn textures_ok(self, textures: int) -> bool {
        0 <= self.floor_texture < textures && 0 <= self.ceiling_texture < textures
    }

    /// The sector fits a level with the given numbers of walls and textures.
    pub open spec fn fits(self, walls: int, textures: int) -> bool {
        self.walls_ok(walls) && self.textures_ok(textures) && self.scratch_ok()
    }

    /// The sector at the start of its frame, for a camera at height `cam_z`:
    /// what is painted of it is decided, and its horizon buffer is seeded.
    pub open spec fn looked_from(self, cam_z: int) -> SectorModel {
        let surface = classify(cam_z, self.z1, self.z2);
        SectorModel { surface, horizon: seeded(surface, self.horizon), ..self }
    }
}

impl View for Sector {
    type V = SectorModel;

    open spec fn view(&self) -> SectorModel {
        SectorModel {
            ws: self.ws as int,
            we: self.we as int,
            z1: self.z1 as int,
            z2: self.z2 as int,
            ceiling_texture: self.ceiling_texture as int,
            floor_texture: self.floor_texture as int,
            texture_scale: self.texture_scale as int,
            horizon: self.horizon@,
            surface: self.surface,
            dist: self.dist as int,
        }
    }
}

impl Sector {
    /// Whether the sector fits a level with the given numbers of walls and
    /// textures.
    pub fn is_fit(&self, walls: usize, textures: usize) -> (ok: bool)
        ensures
            ok == self@.fits(walls as int, textures as int),
    {
        if self.ws < 0 || self.we < self.ws || self.we as usize > walls {
            return false;
        }
        if self.floor_texture < 0 || self.floor_texture as usize >= textures {
            return false;
        }
        if self.ceiling_texture < 0 || self.ceiling_texture as usize >= textures {
            return false;
        }
        if self.horizon.len() != RENDER_W as usize {
            return false;
        }
        let mut x: usize = 0;
        while x < RENDER_W as usize
            invariant
                x <= RENDER_W,
                self.horizon@.len() == RENDER_W,
                forall|k: int| 0 <= k < x ==> 0 <= #[trigger] self.horizon@[k] <= RENDER_H,
            decreases RENDER_W - x,
        {
            if self.horizon[x] < 0 || self.horizon[x] > RENDER_H {
                return false;
            }
            x += 1;
        }
        true
    }

    /// Decides what is painted of the sector for a camera at height `cam_z`,
    /// and seeds the horizon buffer accordingly: under a floor every column
    /// starts at the bottom edge of the screen, over a ceiling at the top.
    pub fn look_from(&mut self, cam_z: i32)
        ensures
            final(self)@ == old(self)@.looked_from(cam_z as int),
            old(self)@.scratch_ok() ==> final(self)@.scratch_ok(),
    {
        if cam_z < self.z1 {
            self.surface = Surface::Floor;
            fill(&mut self.horizon, RENDER_H);
        } else if cam_z > self.z2 {
            self.surface = Surface::Ceiling;
            fill(&mut self.horizon, 0);
        } else {
            self.surface = Surface::Walls;
        }
    }
}

/// Sets every entry of `buffer` to `row`.
fn fill(buffer: &mut Vec<i32>, row: i32)
    ensures
        final(buffer)@ == Seq::new(old(buffer)@.len(), |x: int| row),
{
    let n: usize = buffer.len();
    let mut x: usize = 0;
    while x < n
        invariant
            x <= n,
            buffer@.len() == n,
            n == old(buffer)@.len(),
            forall|k: int| 0 <= k < x ==> #[trigger] buffer@[k] == row,
        decreases n - x,
    {
        buffer[x] = row;
        x += 1;
    }
    assert(buffer@ =~= Seq::new(old(buffer)@.len(), |x: int| row));
}

} // verus!
