//! The level description and its checks.
//!
//! A level arrives as plain records. Before anything is drawn it is checked
//! once; a level that fails a check is refused with the first fault found.
use vstd::prelude::*;
use crate::sector::Sector;
use crate::sector::SectorModel;
use crate::sector::Surface;
use crate::wall::Wall;
use crate::RENDER_W;

verus! {

/// Why a level or its textures were refused.
#[derive(Clone, Copy, Debug, PartialEq, Eq, Structural)]
pub enum LoadError {
    /// The level does not hold as many sectors as it says.
    SectorCount,
    /// The level does not hold as many walls as it says.
    WallCount,
    /// The walls of the sector with this index are no range of the wall list.
    WallRange(usize),
    /// The texture with this index has no pixels, or not the bytes of its
    /// pixels.
    BadTexture(usize),
    /// The wall with this index names a texture that is not in the table.
    WallTexture(usize),
    /// The sector with this index names a texture that is not in the table.
    SectorTexture(usize),
}

/// A level as it is described: its sectors and walls, each with its count.
#[derive(Debug)]
pub struct Level {
    /// Number of sectors.
    pub sectors: i32,
    /// The sectors.
    pub sectors_data: Vec<Sector>,
    /// Number of walls.
    pub walls: i32,
    /// The walls of all sectors.
    pub walls_data: Vec<Wall>,
}

/// The horizon buffer of a sector that has not been drawn yet.
pub open spec fn blank_horizon() -> Seq<i32> {
    Seq::new(RENDER_W as nat, |x: int| 0i32)
}

impl SectorModel {
    /// The sector as a loaded level holds it: nothing painted of it yet.
    pub open spec fn loaded(self) -> SectorModel {
        SectorModel { horizon: blank_horizon(), surface: Surface::Walls, dist: 0, ..self }
    }
}

/// A horizon buffer for a sector that has not been drawn yet.
fn new_horizon() -> (horizon: Vec<i32>)
    ensures
        horizon@ == blank_horizon(),
{
    let mut horizon: Vec<i32> = Vec::new();
    let mut x: i32 = 0;
    while x < RENDER_W
        invariant
            0 <= x <= RENDER_W,
            horizon@.len() == x,
            forall|k: int| 0 <= k < x ==> #[trigger] horizon@[k] == 0,
        decreases RENDER_W - x,
    {
        horizon.push(0);
        x += 1;
    }
    assert(horizon@ =~= blank_horizon());
    horizon
}

impl Level {
    /// The level holds as many sectors and walls as it says.
    pub open spec fn counts_ok(&self) -> bool {
        self.sectors == self.sectors_data@.len() && self.walls == self.walls_data@.len()
    }

    /// The walls of every sector are a range of the wall list.
    pub open spec fn ranges_ok(&self) -> bool {
        forall|s: int|
            0 <= s < self.sectors_data@.len() ==> (#[trigger] self.sectors_data@[s])@.walls_ok(
                self.walls_data@.len() as int,
            )
    }

    /// Sector `s` is the first whose walls are no range of the wall list.
    pub open spec fn first_bad_range(&self, s: int) -> bool {
        &&& 0 <= s < self.sectors_data@.len()
        &&& !self.sectors_data@[s]@.walls_ok(self.walls_data@.len() as int)
        &&& forall|k: int|
            0 <= k < s ==> (#[trigger] self.sectors_data@[k])@.walls_ok(
                self.walls_data@.len() as int,
            )
    }

    /// The level has no fault of its own.
    pub open spec fn sound(&self) -> bool {
        self.counts_ok() && self.ranges_ok()
    }

    /// `fault` is the first fault of the level: a wrong sector count, else a
    /// wrong wall count, else the first sector whose walls are no range of
    /// the wall list.
    pub open spec fn refused_with(&self, fault: LoadError) -> bool {
        match fault {
            LoadError::SectorCount => self.sectors != self.sectors_data@.len(),
            LoadError::WallCount => self.sectors == self.sectors_data@.len() && self.walls
                != self.walls_data@.len(),
            LoadError::WallRange(s) => self.counts_ok() && self.first_bad_range(s as int),
            _ => false,
        }
    }

    /// Checks a level and makes it ready to be drawn.
    ///
    /// A level without fault is handed back as its sector count, its wall
    /// count, its sectors and its walls. The sectors are as they were
    /// described, with a blank horizon buffer each. A level with a fault is
    /// refused with its first fault.
    pub fn level_loader(level: Level) -> (loaded: Result<(i32, i32, Vec<Sector>, Vec<Wall>), LoadError>)
        ensures
            loaded is Ok <==> level.sound(),
            match loaded {
                Ok((sector_count, wall_count, sectors, walls)) => {
                    &&& sector_count == level.sectors
                    &&& wall_count == level.walls
                    &&& walls == level.walls_data
                    &&& sectors@.len() == level.sectors_data@.len()
                    &&& forall|s: int|
                        0 <= s < sectors@.len() ==> (#[trigger] sectors@[s])@
                            == level.sectors_data@[s]@.loaded()
                },
                Err(fault) => level.refused_with(fault),
            },
    {
        let Level { sectors: sector_count, sectors_data, walls: wall_count, walls_data } = level;
        let mut sectors = sectors_data;
        let n: usize = sectors.len();
        let wall_total: usize = walls_data.len();
        if sector_count < 0 || sector_count as usize != n {
            return Err(LoadError::SectorCount);
        }
        if wall_count < 0 || wall_count as usize != wall_total {
            return Err(LoadError::WallCount);
        }
        let ghost described = sectors@;
        let mut i: usize = 0;
        while i < n
            invariant
                i <= n,
                n == sectors@.len(),
                n == described.len(),
                described == level.sectors_data@,
                wall_total == level.walls_data@.len(),
                wall_total <= i32::MAX,
                level.counts_ok(),
                forall|k: int| 0 <= k < i ==> (#[trigger] described[k])@.walls_ok(wall_total as int),
                forall|k: int| 0 <= k < i ==> (#[trigger] sectors@[k])@ == described[k]@.loaded(),
                forall|k: int| i <= k < n ==> #[trigger] sectors@[k] == described[k],
            decreases n - i,
        {
            let ws: i32 = sectors[i].ws;
            let we: i32 = sectors[i].we;
            if ws < 0 || we < ws || we > wall_total as i32 {
                proof {
                    assert(sectors@[i as int] == described[i as int]);
                    assert(!described[i as int]@.walls_ok(wall_total as int));
                    assert(level.first_bad_range(i as int));
                }
                return Err(LoadError::WallRange(i));
            }
            sectors[i].horizon = new_horizon();
            sectors[i].surface = Surface::Walls;
            sectors[i].dist = 0;
            i += 1;
        }
        Ok((sector_count, wall_count, sectors, walls_data))
    }
}

} // verus!
