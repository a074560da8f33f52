//! The renderer: a level, its textures, and the frame painted of them.
//!
//! A frame is painted sector by sector, the farthest first, so that nearer
//! sectors cover farther ones. Of a sector between whose floor and ceiling
//! the camera stands, the walls are painted in one pass. Of a sector seen
//! from below or above, the floor or the ceiling is painted in two passes:
//! the first records the silhouette of the walls in the sector's horizon
//! buffer, the second fills each column between the silhouette and the edge
//! of the wall on the other side.
use vstd::prelude::*;
use crate::level::Level;
use crate::level::LoadError;
use crate::player::Player;
use crate::player::Pose;
use crate::raster::all_on_screen;
use crate::raster::end_column;
use crate::raster::flat_columns;
use crate::raster::flat_texture;
use crate::raster::paint_flat;
use crate::raster::paint_wall;
use crate::raster::record_silhouette;
use crate::raster::silhouette;
use crate::raster::wall_columns;
use crate::raster::Pixel;
use crate::sector::Sector;
use crate::sector::SectorModel;
use crate::sector::Surface;
use crate::sorter::depth_sort;
use crate::sorter::lemma_back_to_front;
use crate::sorter::measured_all;
use crate::sorter::painting_order;
use crate::texture::all_valid;
use crate::texture::first_bad_texture;
use crate::texture::Texture;
use crate::transform::project_wall;
use crate::transform::projected;
use crate::transform::Face;
use crate::transform::ProjectedQuad;
use crate::wall::Wall;
use crate::RENDER_H;
use crate::RENDER_W;

verus! {

/// A level ready to be drawn.
pub struct Renderer {
    /// The sectors, in the order in which they were last painted.
    pub sectors: Vec<Sector>,
    /// The walls of all sectors.
    pub walls: Vec<Wall>,
    /// The texture table.
    pub textures: Vec<Texture>,
}

impl SectorModel {
    /// The sector after a wall that projects to `q` has been passed: in the
    /// first pass over a sector seen from below or above, the wall's
    /// silhouette is in the horizon buffer; otherwise nothing has changed.
    pub open spec fn quad_recorded(self, q: ProjectedQuad, face: Face) -> SectorModel {
        if self.surface != Surface::Walls && face == Face::Front {
            SectorModel { horizon: silhouette(self.horizon, q, self.surface), ..self }
        } else {
            self
        }
    }

    /// What is painted when a wall that projects to `q` is passed: the wall,
    /// where the walls of the sector are painted; in the second pass over a
    /// sector seen from below or above, the flat in the wall's columns; in
    /// the first such pass, nothing.
    pub open spec fn quad_painted(
        self,
        q: ProjectedQuad,
        wall: Wall,
        textures: Seq<Texture>,
        pose: Pose,
        face: Face,
    ) -> Seq<Pixel> {
        if self.surface == Surface::Walls {
            wall_columns(q, wall, textures[wall.texture as int], end_column(q))
        } else if face == Face::Back {
            flat_columns(q, self, textures[flat_texture(self)], pose, end_column(q))
        } else {
            Seq::empty()
        }
    }

    /// The sector after one of its walls has been passed. A wall behind the
    /// camera changes nothing.
    #[verifier::opaque]
    pub open spec fn wall_recorded(self, wall: Wall, pose: Pose, face: Face) -> SectorModel {
        match projected(wall, self.z1, self.z2, pose, face) {
            Some(q) => self.quad_recorded(q, face),
            None => self,
        }
    }

    /// What is painted when one of the sector's walls is passed. Of a wall
    /// behind the camera nothing is painted.
    #[verifier::opaque]
    pub open spec fn wall_painted(
        self,
        wall: Wall,
        textures: Seq<Texture>,
        pose: Pose,
        face: Face,
    ) -> Seq<Pixel> {
        match projected(wall, self.z1, self.z2, pose, face) {
            Some(q) => self.quad_painted(q, wall, textures, pose, face),
            None => Seq::empty(),
        }
    }

    /// The sector after a pass over its walls before `upto`.
    pub open spec fn pass_recorded(self, walls: Seq<Wall>, pose: Pose, face: Face, upto: int) -> SectorModel
        decreases upto - self.ws,
    {
        if upto <= self.ws {
            self
        } else {
            self.pass_recorded(walls, pose, face, upto - 1).wall_recorded(
                walls[upto - 1],
                pose,
                face,
            )
        }
    }

    /// What is painted in a pass over the sector's walls before `upto`.
    pub open spec fn pass_painted(
        self,
        walls: Seq<Wall>,
        textures: Seq<Texture>,
        pose: Pose,
        face: Face,
        upto: int,
    ) -> Seq<Pixel>
        decreases upto - self.ws,
    {
        if upto <= self.ws {
            Seq::empty()
        } else {
            self.pass_painted(walls, textures, pose, face, upto - 1) + self.pass_recorded(
                walls,
                pose,
                face,
                upto - 1,
            ).wall_painted(walls[upto - 1], textures, pose, face)
        }
    }

    /// The sector after its frame: what is painted of it is decided, and
    /// where that is a flat, the silhouettes of its walls are recorded.
    pub open spec fn framed(self, walls: Seq<Wall>, pose: Pose) -> SectorModel {
        self.looked_from(pose.z).pass_recorded(walls, pose, Face::Front, self.we)
    }

    /// What is painted of the sector in a frame.
    pub open spec fn painted(self, walls: Seq<Wall>, textures: Seq<Texture>, pose: Pose) -> Seq<
        Pixel,
    > {
        let seen = self.looked_from(pose.z);
        let front = seen.pass_painted(walls, textures, pose, Face::Front, self.we);
        if seen.surface == Surface::Walls {
            front
        } else {
            front + self.framed(walls, pose).pass_painted(
                walls,
                textures,
                pose,
                Face::Back,
                self.we,
            )
        }
    }
}

/// What is painted of the first `upto` sectors of a list, sector after
/// sector.
pub open spec fn painted_upto(
    order: Seq<Sector>,
    walls: Seq<Wall>,
    textures: Seq<Texture>,
    pose: Pose,
    upto: int,
) -> Seq<Pixel>
    decreases upto,
{
    if upto <= 0 {
        Seq::empty()
    } else {
        painted_upto(order, walls, textures, pose, upto - 1) + order[upto - 1]@.painted(
            walls,
            textures,
            pose,
        )
    }
}

/// The frame that a camera at `pose` sees of a level: every sector in
/// painting order.
pub open spec fn frame_of(
    sectors: Seq<Sector>,
    walls: Seq<Wall>,
    textures: Seq<Texture>,
    pose: Pose,
) -> Seq<Pixel> {
    let order = painting_order(sectors, walls, pose);
    painted_upto(order, walls, textures, pose, order.len() as int)
}

/// Recording a silhouette leaves a sector fitting its level.
pub proof fn lemma_recorded_fits(
    sector: SectorModel,
    q: ProjectedQuad,
    face: Face,
    walls: int,
    textures: int,
)
    requires
        sector.fits(walls, textures),
    ensures
        sector.quad_recorded(q, face).fits(walls, textures),
        sector.quad_recorded(q, face).surface == sector.surface,
        sector.quad_recorded(q, face).ws == sector.ws,
        sector.quad_recorded(q, face).we == sector.we,
{
    let after = sector.quad_recorded(q, face);
    assert forall|x: int| 0 <= x < RENDER_W implies 0 <= #[trigger] after.horizon[x]
        <= RENDER_H by {
        assert(0 <= sector.horizon[x] <= RENDER_H);
    }
}

/// Every wall names a texture of a table of `textures` entries.
pub open spec fn wall_textures_ok(walls: Seq<Wall>, textures: int) -> bool {
    forall|w: int| 0 <= w < walls.len() ==> 0 <= (#[trigger] walls[w]).texture < textures
}

/// Wall `w` is the first that names a texture outside a table of `textures`
/// entries.
pub open spec fn first_bad_wall_texture(walls: Seq<Wall>, textures: int, w: int) -> bool {
    &&& 0 <= w < walls.len()
    &&& !(0 <= walls[w].texture < textures)
    &&& forall|k: int| 0 <= k < w ==> 0 <= (#[trigger] walls[k]).texture < textures
}

/// Every sector names textures of a table of `textures` entries.
pub open spec fn sector_textures_ok(sectors: Seq<Sector>, textures: int) -> bool {
    forall|s: int| 0 <= s < sectors.len() ==> (#[trigger] sectors[s])@.textures_ok(textures)
}

/// Sector `s` is the first that names a texture outside a table of
/// `textures` entries.
pub open spec fn first_bad_sector_texture(sectors: Seq<Sector>, textures: int, s: int) -> bool {
    &&& 0 <= s < sectors.len()
    &&& !sectors[s]@.textures_ok(textures)
    &&& forall|k: int| 0 <= k < s ==> (#[trigger] sectors[k])@.textures_ok(textures)
}

/// A level and a texture table fit together without fault.
pub open spec fn sound_with(level: Level, textures: Seq<Texture>) -> bool {
    &&& level.sound()
    &&& all_valid(textures)
    &&& wall_textures_ok(level.walls_data@, textures.len() as int)
    &&& sector_textures_ok(level.sectors_data@, textures.len() as int)
}

/// `fault` is the first fault of a level with its texture table: a fault of
/// the level by itself, else the first texture that is not valid, else the
/// first wall that names a texture outside the table, else the first sector
/// that does.
pub open spec fn refused_with(level: Level, textures: Seq<Texture>, fault: LoadError) -> bool {
    match fault {
        LoadError::BadTexture(t) => level.sound() && first_bad_texture(textures, t as int),
        LoadError::WallTexture(w) => level.sound() && all_valid(textures)
            && first_bad_wall_texture(level.walls_data@, textures.len() as int, w as int),
        LoadError::SectorTexture(s) => level.sound() && all_valid(textures) && wall_textures_ok(
            level.walls_data@,
            textures.len() as int,
        ) && first_bad_sector_texture(level.sectors_data@, textures.len() as int, s as int),
        _ => level.refused_with(fault),
    }
}

impl Renderer {
    /// Makes a level with its texture table ready to be drawn, or refuses it
    /// with its first fault.
    pub fn new(level: Level, textures: Vec<Texture>) -> (made: Result<Renderer, LoadError>)
        ensures
            made is Ok <==> sound_with(level, textures@),
            match made {
                Ok(renderer) => {
                    &&& renderer.wf()
                    &&& renderer.walls == level.walls_data
                    &&& renderer.textures == textures
                    &&& renderer.sectors@.len() == level.sectors_data@.len()
                    &&& forall|s: int|
                        0 <= s < renderer.sectors@.len() ==> (#[trigger] renderer.sectors@[s])@
                            == level.sectors_data@[s]@.loaded()
                },
                Err(fault) => refused_with(level, textures@, fault),
            },
    {
        let ghost described = level.sectors_data@;
        let (sectors, walls) = match Level::level_loader(level) {
            Ok((_, _, sectors, walls)) => (sectors, walls),
            Err(fault) => {
                return Err(fault);
            },
        };
        let checked = match Texture::texture_loader(textures) {
            Ok(checked) => checked,
            Err(fault) => {
                return Err(fault);
            },
        };
        let table: usize = checked.len();
        let mut w: usize = 0;
        while w < walls.len()
            invariant
                w <= walls@.len(),
                table == checked@.len(),
                level.sound(),
                all_valid(textures@),
                checked == textures,
                walls == level.walls_data,
                forall|k: int| 0 <= k < w ==> 0 <= (#[trigger] walls@[k]).texture < table,
            decreases walls@.len() - w,
        {
            let texture: i32 = walls[w].texture;
            if texture < 0 || texture as usize >= table {
                return Err(LoadError::WallTexture(w));
            }
            w += 1;
        }
        let mut s: usize = 0;
        while s < sectors.len()
            invariant
                s <= sectors@.len(),
                table == checked@.len(),
                level.sound(),
                all_valid(textures@),
                checked == textures,
                walls == level.walls_data,
                described == level.sectors_data@,
                wall_textures_ok(walls@, table as int),
                sectors@.len() == described.len(),
                forall|k: int|
                    0 <= k < sectors@.len() ==> (#[trigger] sectors@[k])@ == described[k]@.loaded(),
                forall|k: int| 0 <= k < s ==> (#[trigger] described[k])@.textures_ok(table as int),
            decreases sectors@.len() - s,
        {
            let floor: i32 = sectors[s].floor_texture;
            let ceiling: i32 = sectors[s].ceiling_texture;
            proof {
                assert(sectors@[s as int]@ == described[s as int]@.loaded());
            }
            if floor < 0 || floor as usize >= table || ceiling < 0 || ceiling as usize >= table {
                return Err(LoadError::SectorTexture(s));
            }
            s += 1;
        }
        proof {
            assert forall|k: int| 0 <= k < sectors@.len() implies (#[trigger] sectors@[k])@.fits(
                walls@.len() as int,
                table as int,
            ) by {
                assert(sectors@[k]@ == described[k]@.loaded());
                assert(described[k]@.textures_ok(table as int));
                assert(described[k]@.walls_ok(walls@.len() as int));
            }
        }
        Ok(Renderer { sectors, walls, textures: checked })
    }

    /// The level is consistent: every sector fits it, every wall's texture
    /// is in the table, and every texture is valid.
    pub open spec fn wf(&self) -> bool {
        &&& forall|s: int|
            0 <= s < self.sectors@.len() ==> (#[trigger] self.sectors@[s])@.fits(
                self.walls@.len() as int,
                self.textures@.len() as int,
            )
        &&& forall|w: int|
            0 <= w < self.walls@.len() ==> 0 <= (#[trigger] self.walls@[w]).texture
                < self.textures@.len()
        &&& forall|t: int| 0 <= t < self.textures@.len() ==> (#[trigger] self.textures@[t]).valid()
    }

    /// Whether the level is consistent.
    pub fn is_wf(&self) -> (ok: bool)
        ensures
            ok == self.wf(),
    {
        let walls: usize = self.walls.len();
        let textures: usize = self.textures.len();
        let mut s: usize = 0;
        while s < self.sectors.len()
            invariant
                s <= self.sectors@.len(),
                walls == self.walls@.len(),
                textures == self.textures@.len(),
                forall|k: int|
                    0 <= k < s ==> (#[trigger] self.sectors@[k])@.fits(walls as int, textures as int),
            decreases self.sectors@.len() - s,
        {
            if !self.sectors[s].is_fit(walls, textures) {
                return false;
            }
            s += 1;
        }
        let mut w: usize = 0;
        while w < walls
            invariant
                w <= walls,
                walls == self.walls@.len(),
                textures == self.textures@.len(),
                forall|k: int|
                    0 <= k < self.sectors@.len() ==> (#[trigger] self.sectors@[k])@.fits(
                        walls as int,
                        textures as int,
                    ),
                forall|k: int| 0 <= k < w ==> 0 <= (#[trigger] self.walls@[k]).texture < textures,
            decreases walls - w,
        {
            if self.walls[w].texture < 0 || self.walls[w].texture as usize >= textures {
                return false;
            }
            w += 1;
        }
        let mut t: usize = 0;
        while t < textures
            invariant
                t <= textures,
                walls == self.walls@.len(),
                textures == self.textures@.len(),
                forall|k: int|
                    0 <= k < self.sectors@.len() ==> (#[trigger] self.sectors@[k])@.fits(
                        walls as int,
                        textures as int,
                    ),
                forall|k: int|
                    0 <= k < walls ==> 0 <= (#[trigger] self.walls@[k]).texture < textures,
                forall|k: int| 0 <= k < t ==> (#[trigger] self.textures@[k]).valid(),
            decreases textures - t,
        {
            if !self.textures[t].is_valid() {
                return false;
            }
            t += 1;
        }
        true
    }

    /// Passes one projected wall of sector `s`: the wall `w` of the level,
    /// which covers the columns from `x1` to `x2` and in them the rows
    /// between the bottom edge from `b1` to `b2` and the top edge from `t1`
    /// to `t2`.
    ///
    /// Where the walls of the sector are painted, the wall is painted with
    /// its texture. Where the sector is seen from below or above, the first
    /// pass records the wall's silhouette in the sector's horizon buffer and
    /// paints nothing, and the second paints the flat between the silhouette
    /// and the wall's edge.
    pub fn wall(
        &mut self,
        x1: i32,
        x2: i32,
        b1: i32,
        b2: i32,
        t1: i32,
        t2: i32,
        s: usize,
        w: i32,
        face: Face,
        p: &Player,
        out: &mut Vec<Pixel>,
    )
        requires
            old(self).wf(),
            s < old(self).sectors@.len(),
            0 <= w < old(self).walls@.len(),
        ensures
            final(self).wf(),
            final(self).walls == old(self).walls,
            final(self).textures == old(self).textures,
            final(self).sectors@.len() == old(self).sectors@.len(),
            forall|k: int|
                0 <= k < old(self).sectors@.len() && k != s ==> #[trigger] final(self).sectors@[k]
                    == old(self).sectors@[k],
            final(self).sectors@[s as int]@ == old(self).sectors@[s as int]@.quad_recorded(
                (ProjectedQuad { x1, x2, b1, b2, t1, t2 }),
                face,
            ),
            final(out)@ == old(out)@ + old(self).sectors@[s as int]@.quad_painted(
                (ProjectedQuad { x1, x2, b1, b2, t1, t2 }),
                old(self).walls@[w as int],
                old(self).textures@,
                p@,
                face,
            ),
            all_on_screen(final(out)@, old(out)@.len() as int),
    {
        let q = ProjectedQuad { x1, x2, b1, b2, t1, t2 };
        proof {
            lemma_recorded_fits(
                self.sectors@[s as int]@,
                q,
                face,
                self.walls@.len() as int,
                self.textures@.len() as int,
            );
        }
        let surface: Surface = self.sectors[s].surface;
        match surface {
            Surface::Walls => {
                let texture: usize = self.walls[w as usize].texture as usize;
                paint_wall(&q, &self.walls[w as usize], &self.textures[texture], out);
            },
            _ => {
                match face {
                    Face::Front => {
                        record_silhouette(&q, surface, &mut self.sectors[s].horizon);
                    },
                    Face::Back => {
                        let texture: usize = match surface {
                            Surface::Ceiling => self.sectors[s].ceiling_texture as usize,
                            _ => self.sectors[s].floor_texture as usize,
                        };
                        paint_flat(&q, &self.sectors[s], &self.textures[texture], p, out);
                    },
                }
            },
        }
    }

    /// Runs wall `w` through the transform pipeline as a pass over sector `s`
    /// sees it and, unless it is behind the camera, hands it to `wall`.
    pub fn pass_wall(&mut self, s: usize, w: i32, face: Face, p: &Player, out: &mut Vec<Pixel>)
        requires
            old(self).wf(),
            s < old(self).sectors@.len(),
            0 <= w < old(self).walls@.len(),
        ensures
            final(self).wf(),
            final(self).walls == old(self).walls,
            final(self).textures == old(self).textures,
            final(self).sectors@.len() == old(self).sectors@.len(),
            forall|k: int|
                0 <= k < old(self).sectors@.len() && k != s ==> #[trigger] final(self).sectors@[k]
                    == old(self).sectors@[k],
            final(self).sectors@[s as int]@ == old(self).sectors@[s as int]@.wall_recorded(
                old(self).walls@[w as int],
                p@,
                face,
            ),
            final(out)@ == old(out)@ + old(self).sectors@[s as int]@.wall_painted(
                old(self).walls@[w as int],
                old(self).textures@,
                p@,
                face,
            ),
            all_on_screen(final(out)@, old(out)@.len() as int),
    {
        proof {
            reveal(SectorModel::wall_recorded);
            reveal(SectorModel::wall_painted);
        }
        let z1: i32 = self.sectors[s].z1;
        let z2: i32 = self.sectors[s].z2;
        match project_wall(&self.walls[w as usize], z1, z2, p, face) {
            Some(q) => {
                assert(q == (ProjectedQuad {
                    x1: q.x1,
                    x2: q.x2,
                    b1: q.b1,
                    b2: q.b2,
                    t1: q.t1,
                    t2: q.t2,
                }));
                self.wall(q.x1, q.x2, q.b1, q.b2, q.t1, q.t2, s, w, face, p, out);
            },
            None => {
                assert(out@ + Seq::<Pixel>::empty() =~= out@);
            },
        }
    }

    /// Passes over the walls of sector `s`, one after the other.
    pub fn pass(&mut self, s: usize, face: Face, p: &Player, out: &mut Vec<Pixel>)
        requires
            old(self).wf(),
            s < old(self).sectors@.len(),
        ensures
            final(self).wf(),
            final(self).walls == old(self).walls,
            final(self).textures == old(self).textures,
            final(self).sectors@.len() == old(self).sectors@.len(),
            forall|k: int|
                0 <= k < old(self).sectors@.len() && k != s ==> #[trigger] final(self).sectors@[k]
                    == old(self).sectors@[k],
            final(self).sectors@[s as int]@ == old(self).sectors@[s as int]@.pass_recorded(
                old(self).walls@,
                p@,
                face,
                old(self).sectors@[s as int].we as int,
            ),
            final(out)@ == old(out)@ + old(self).sectors@[s as int]@.pass_painted(
                old(self).walls@,
                old(self).textures@,
                p@,
                face,
                old(self).sectors@[s as int].we as int,
            ),
            all_on_screen(final(out)@, old(out)@.len() as int),
    {
        let ghost start = self.sectors@[s as int]@;
        let ws: i32 = self.sectors[s].ws;
        let we: i32 = self.sectors[s].we;
        let mut w: i32 = ws;
        assert(out@ + Seq::<Pixel>::empty() =~= out@);
        while w < we
            invariant
                self.wf(),
                s < self.sectors@.len(),
                self.walls == old(self).walls,
                self.textures == old(self).textures,
                self.sectors@.len() == old(self).sectors@.len(),
                forall|k: int|
                    0 <= k < old(self).sectors@.len() && k != s ==> #[trigger] self.sectors@[k]
                        == old(self).sectors@[k],
                start == old(self).sectors@[s as int]@,
                ws == start.ws,
                we == start.we,
                0 <= ws <= w <= we <= self.walls@.len(),
                self.sectors@[s as int]@ == start.pass_recorded(self.walls@, p@, face, w as int),
                out@ == old(out)@ + start.pass_painted(
                    self.walls@,
                    self.textures@,
                    p@,
                    face,
                    w as int,
                ),
                all_on_screen(out@, old(out)@.len() as int),
            decreases we - w,
        {
            let ghost here = self.sectors@[s as int]@;
            let ghost before = out@;
            self.pass_wall(s, w, face, p, out);
            proof {
                let added = here.wall_painted(self.walls@[w as int], self.textures@, p@, face);
                let so_far = start.pass_painted(self.walls@, self.textures@, p@, face, w as int);
                assert(out@ == before + added);
                assert(before == old(out)@ + so_far);
                assert(out@ =~= old(out)@ + (so_far + added));
                assert(start.pass_painted(self.walls@, self.textures@, p@, face, w + 1) == so_far
                    + added);
            }
            w += 1;
        }
    }

    /// Paints the frame that the camera sees, and returns its pixels in
    /// painting order: a later pixel at the same place covers an earlier
    /// one. Every pixel lies on the screen.
    ///
    /// The sectors are given their distances from the camera and ordered
    /// back to front. Then each is painted: what is painted of it is decided
    /// by the camera's height, and its walls are passed once, or twice where
    /// a flat is painted.
    pub fn draw(&mut self, p: &Player) -> (frame: Vec<Pixel>)
        requires
            old(self).wf(),
        ensures
            final(self).wf(),
            final(self).walls == old(self).walls,
            final(self).textures == old(self).textures,
            frame@ == frame_of(old(self).sectors@, old(self).walls@, old(self).textures@, p@),
            all_on_screen(frame@, 0),
            final(self).sectors@.len() == old(self).sectors@.len(),
            forall|k: int|
                0 <= k < old(self).sectors@.len() ==> (#[trigger] final(self).sectors@[k])@
                    == painting_order(old(self).sectors@, old(self).walls@, p@)[k]@.framed(
                    old(self).walls@,
                    p@,
                ),
            forall|i: int, j: int|
                0 <= i < j < final(self).sectors@.len() ==> final(self).sectors@[i].dist
                    >= final(self).sectors@[j].dist,
    {
        proof {
            lemma_order_fits(
                self.sectors@,
                self.walls@,
                p@,
                self.walls@.len() as int,
                self.textures@.len() as int,
            );
        }
        depth_sort(&mut self.sectors, &self.walls, p);
        let ghost order = self.sectors@;
        let mut frame: Vec<Pixel> = Vec::new();
        let n: usize = self.sectors.len();
        let mut s: usize = 0;
        while s < n
            invariant
                self.wf(),
                s <= n,
                n == order.len(),
                self.walls == old(self).walls,
                self.textures == old(self).textures,
                self.sectors@.len() == n,
                order == painting_order(old(self).sectors@, old(self).walls@, p@),
                forall|k: int| s <= k < n ==> #[trigger] self.sectors@[k] == order[k],
                forall|k: int|
                    0 <= k < s ==> (#[trigger] self.sectors@[k])@ == order[k]@.framed(
                        self.walls@,
                        p@,
                    ),
                frame@ == painted_upto(order, self.walls@, self.textures@, p@, s as int),
                all_on_screen(frame@, 0),
            decreases n - s,
        {
            let ghost before = frame@;
            let ghost untouched = self.sectors@;
            self.sectors[s].look_from(p.pos.z);
            let ghost seen = self.sectors@[s as int]@;
            proof {
                assert(seen == order[s as int]@.looked_from(p@.z));
                assert forall|k: int| 0 <= k < n implies (#[trigger] self.sectors@[k])@.fits(
                    self.walls@.len() as int,
                    self.textures@.len() as int,
                ) by {
                    if k != s {
                        assert(self.sectors@[k] == untouched[k]);
                    } else {
                        assert(untouched[k]@.fits(
                            self.walls@.len() as int,
                            self.textures@.len() as int,
                        ));
                    }
                }
            }
            self.pass(s, Face::Front, p, &mut frame);
            let flat: bool = match self.sectors[s].surface {
                Surface::Walls => false,
                _ => true,
            };
            proof {
                lemma_pass_keeps(seen, self.walls@, p@, Face::Front, seen.we);
            }
            if flat {
                self.pass(s, Face::Back, p, &mut frame);
                proof {
                    lemma_back_pass_records_nothing(
                        order[s as int]@.framed(self.walls@, p@),
                        self.walls@,
                        p@,
                        seen.we,
                    );
                }
            }
            proof {
                assert(frame@ =~= before + order[s as int]@.painted(
                    self.walls@,
                    self.textures@,
                    p@,
                ));
            }
            s += 1;
        }
        proof {
            lemma_back_to_front(measured_all(old(self).sectors@, old(self).walls@, p@));
            assert forall|i: int, j: int| 0 <= i < j < self.sectors@.len() implies self.sectors@[i].dist
                >= self.sectors@[j].dist by {
                lemma_pass_keeps(
                    order[i]@.looked_from(p@.z),
                    self.walls@,
                    p@,
                    Face::Front,
                    order[i]@.we,
                );
                lemma_pass_keeps(
                    order[j]@.looked_from(p@.z),
                    self.walls@,
                    p@,
                    Face::Front,
                    order[j]@.we,
                );
                assert(self.sectors@[i]@.dist == order[i]@.dist);
                assert(self.sectors@[j]@.dist == order[j]@.dist);
            }
        }
        frame
    }
}

/// A pass changes nothing of a sector but its horizon buffer.
pub proof fn lemma_pass_keeps(
    sector: SectorModel,
    walls: Seq<Wall>,
    pose: Pose,
    face: Face,
    upto: int,
)
    ensures
        ({
            let after = sector.pass_recorded(walls, pose, face, upto);
            &&& after.ws == sector.ws
            &&& after.we == sector.we
            &&& after.z1 == sector.z1
            &&& after.z2 == sector.z2
            &&& after.surface == sector.surface
            &&& after.dist == sector.dist
            &&& after.floor_texture == sector.floor_texture
            &&& after.ceiling_texture == sector.ceiling_texture
            &&& after.texture_scale == sector.texture_scale
        }),
    decreases upto - sector.ws,
{
    reveal(SectorModel::wall_recorded);
    if upto > sector.ws {
        lemma_pass_keeps(sector, walls, pose, face, upto - 1);
    }
}

/// The second pass leaves the horizon buffer as the first pass filled it.
pub proof fn lemma_back_pass_records_nothing(
    sector: SectorModel,
    walls: Seq<Wall>,
    pose: Pose,
    upto: int,
)
    ensures
        sector.pass_recorded(walls, pose, Face::Back, upto) == sector,
    decreases upto - sector.ws,
{
    reveal(SectorModel::wall_recorded);
    if upto > sector.ws {
        lemma_back_pass_records_nothing(sector, walls, pose, upto - 1);
    }
}

/// Entering distances and ordering back to front keeps every sector fitting
/// its level.
pub proof fn lemma_order_fits(
    sectors: Seq<Sector>,
    walls: Seq<Wall>,
    pose: Pose,
    wall_count: int,
    texture_count: int,
)
    requires
        forall|s: int| 0 <= s < sectors.len() ==> (#[trigger] sectors[s])@.fits(wall_count, texture_count),
    ensures
        forall|s: int|
            0 <= s < sectors.len() ==> (#[trigger] measured_all(sectors, walls, pose)[s])@.fits(
                wall_count,
                texture_count,
            ),
        painting_order(sectors, walls, pose).len() == sectors.len(),
        forall|s: int|
            0 <= s < sectors.len() ==> (#[trigger] painting_order(sectors, walls, pose)[s])@.fits(
                wall_count,
                texture_count,
            ),
{
    let entered = measured_all(sectors, walls, pose);
    let order = painting_order(sectors, walls, pose);
    assert forall|s: int| 0 <= s < sectors.len() implies (#[trigger] entered[s])@.fits(
        wall_count,
        texture_count,
    ) by {
        assert(sectors[s]@.fits(wall_count, texture_count));
    }
    lemma_back_to_front(entered);
    assert forall|s: int| 0 <= s < sectors.len() implies (#[trigger] order[s])@.fits(
        wall_count,
        texture_count,
    ) by {
        order.to_multiset_ensures();
        entered.to_multiset_ensures();
        assert(order.contains(order[s]));
        assert(order.to_multiset().count(order[s]) > 0);
        assert(order.to_multiset() == entered.to_multiset());
        assert(entered.to_multiset().count(order[s]) > 0);
        assert(entered.contains(order[s]));
        let at = choose|at: int| 0 <= at < entered.len() && entered[at] == order[s];
        assert(entered[at]@.fits(wall_count, texture_count));
    }
}

} // verus!
