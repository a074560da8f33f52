//! The column rasterizer: paints a projected wall column by column.
//!
//! A wall on the screen covers the columns from its first to its second end,
//! kept inside the screen. In each column the rows of its bottom and top edge
//! are interpolated between the two ends and kept inside the screen. What is
//! done with a column depends on what is painted of the sector: the wall
//! itself, or the sector's floor or ceiling between a recorded silhouette and
//! the wall's edge.
use vstd::prelude::*;
use crate::arith::clamp;
use crate::arith::clamp_range;
use crate::arith::lemma_trunc_div_bounds;
use crate::arith::trunc_div;
use crate::player::Player;
use crate::player::Pose;
use crate::sector::Sector;
use crate::sector::SectorModel;
use crate::sector::Surface;
use crate::texture::darken;
use crate::texture::shaded;
use crate::texture::Texture;
use crate::transform::ProjectedQuad;
use crate::trig::cos_of;
use crate::trig::sin_of;
use crate::trig::SCALE;
use crate::wall::Wall;
use crate::FOV;
use crate::RENDER_H;
use crate::RENDER_W;

verus! {

/// The pitch term of a flat is `-LOOK_NUM / LOOK_DEN` rows per unit of pitch.
pub const LOOK_NUM: i32 = 628;

/// See `LOOK_NUM`. Rows of a flat are counted in units of `1 / LOOK_DEN`.
pub const LOOK_DEN: i32 = 100;

/// Both the camera's height above a flat and the camera's position are
/// scaled down by this before they enter a flat's texture coordinates.
pub const FLAT_DIV: i32 = 60;

/// A sector's tiling scale is multiplied by this.
pub const TILE_FACTOR: i32 = 7;

/// One painted pixel: a unit square of one colour whose corner nearest the
/// origin is `(x, y)`.
#[derive(Clone, Copy, Debug, PartialEq, Eq, Structural)]
pub struct Pixel {
    pub x: i32,
    pub y: i32,
    pub r: u8,
    pub g: u8,
    pub b: u8,
}

impl Pixel {
    /// The pixel lies on the screen.
    pub open spec fn on_screen(self) -> bool {
        0 <= self.x < RENDER_W && 0 <= self.y < RENDER_H
    }
}

/// Every pixel of the list from index `from` on lies on the screen.
pub open spec fn all_on_screen(pixels: Seq<Pixel>, from: int) -> bool {
    forall|k: int| from <= k < pixels.len() ==> (#[trigger] pixels[k]).on_screen()
}

/// A corner of a pixel's square.
#[derive(Clone, Copy, Debug, PartialEq, Eq, Structural)]
pub struct Vertex {
    pub x: i32,
    pub y: i32,
    pub r: u8,
    pub g: u8,
    pub b: u8,
}

/// The four corners of the unit square at `(x, y)`, in drawing order.
pub open spec fn corners(x: i32, y: i32, r: u8, g: u8, b: u8) -> Seq<Vertex> {
    seq![
        Vertex { x, y, r, g, b },
        Vertex { x: (x + 1) as i32, y, r, g, b },
        Vertex { x: (x + 1) as i32, y: (y + 1) as i32, r, g, b },
        Vertex { x, y: (y + 1) as i32, r, g, b },
    ]
}

/// The unit square of one colour at `(x, y)`, as its four corners.
pub fn pixel(x: i32, y: i32, r: u8, g: u8, b: u8) -> (quad: Vec<Vertex>)
    requires
        x < i32::MAX,
        y < i32::MAX,
    ensures
        quad@ == corners(x, y, r, g, b),
{
    let quad: Vec<Vertex> = vec![
        Vertex { x, y, r, g, b },
        Vertex { x: x + 1, y, r, g, b },
        Vertex { x: x + 1, y: y + 1, r, g, b },
        Vertex { x, y: y + 1, r, g, b },
    ];
    assert(quad@ =~= corners(x, y, r, g, b));
    quad
}

/// The first column that a wall covers on the screen.
pub open spec fn first_column(q: ProjectedQuad) -> int {
    clamp(q.x1 as int, 1, RENDER_W - 1)
}

/// The column at which a wall ends on the screen: the first that it does not
/// cover.
pub open spec fn end_column(q: ProjectedQuad) -> int {
    clamp(q.x2 as int, 1, RENDER_W - 1)
}

/// How far a span that starts at `start` has run before it enters the screen
/// at 1.
pub open spec fn skipped(start: int) -> int {
    if start < 1 {
        -start
    } else {
        0
    }
}

/// The row at column `x` of an edge that runs from row `from` at the quad's
/// first end to row `to` at its second.
pub open spec fn edge_at(from: int, to: int, q: ProjectedQuad, x: int) -> int {
    from + trunc_div((to - from) * (x - q.x1), q.x2 - q.x1)
}

/// The row of a wall's bottom edge at column `x`, wherever it falls.
pub open spec fn bottom_raw(q: ProjectedQuad, x: int) -> int {
    edge_at(q.b1 as int, q.b2 as int, q, x)
}

/// The row of a wall's top edge at column `x`, wherever it falls.
pub open spec fn top_raw(q: ProjectedQuad, x: int) -> int {
    edge_at(q.t1 as int, q.t2 as int, q, x)
}

/// The row of a wall's bottom edge at column `x`, kept inside the screen.
pub open spec fn bottom_row(q: ProjectedQuad, x: int) -> int {
    clamp(bottom_raw(q, x), 1, RENDER_H - 1)
}

/// The row of a wall's top edge at column `x`, kept inside the screen.
pub open spec fn top_row(q: ProjectedQuad, x: int) -> int {
    clamp(top_raw(q, x), 1, RENDER_H - 1)
}

/// Number of rows from `from` up to, not including, `to`.
pub open spec fn span_len(from: int, to: int) -> nat {
    if to > from {
        (to - from) as nat
    } else {
        0
    }
}

/// Horizontal texture coordinate of a wall at column `x`. It advances by
/// `width * u / (x2 - x1)` per column, from where the wall enters the screen.
pub open spec fn wall_u(q: ProjectedQuad, wall: Wall, tex: Texture, x: int) -> int {
    trunc_div(
        (x - first_column(q) + skipped(q.x1 as int)) * (tex.width * wall.u),
        q.x2 - q.x1,
    )
}

/// Vertical texture coordinate of a wall at row `y` of column `x`. It
/// advances by `height / (top - bottom)` per row, from where the column
/// enters the screen.
pub open spec fn wall_v(q: ProjectedQuad, tex: Texture, x: int, y: int) -> int {
    trunc_div(
        (y - bottom_row(q, x) + skipped(bottom_raw(q, x))) * tex.height,
        top_raw(q, x) - bottom_raw(q, x),
    )
}

/// The pixel of a wall at `(x, y)`: the wall's texture, tiled, with the
/// wall's shade taken off every channel.
pub open spec fn wall_pixel(q: ProjectedQuad, wall: Wall, tex: Texture, x: int, y: int) -> Pixel {
    let colour = tex.texel(wall_u(q, wall, tex, x), wall_v(q, tex, x, y));
    Pixel {
        x: x as i32,
        y: y as i32,
        r: shaded(colour.0, wall.shade),
        g: shaded(colour.1, wall.shade),
        b: shaded(colour.2, wall.shade),
    }
}

/// The first `n` pixels of a wall in column `x`, from its bottom row on.
pub open spec fn wall_rows(q: ProjectedQuad, wall: Wall, tex: Texture, x: int, n: nat) -> Seq<
    Pixel,
> {
    Seq::new(n, |k: int| wall_pixel(q, wall, tex, x, bottom_row(q, x) + k))
}

/// The pixels of a wall in column `x`: every row from its bottom edge up to,
/// not including, its top edge.
pub open spec fn wall_column(q: ProjectedQuad, wall: Wall, tex: Texture, x: int) -> Seq<Pixel> {
    wall_rows(q, wall, tex, x, span_len(bottom_row(q, x), top_row(q, x)))
}

/// The pixels of a wall in its columns before `upto`, column after column.
pub open spec fn wall_columns(q: ProjectedQuad, wall: Wall, tex: Texture, upto: int) -> Seq<Pixel>
    decreases upto - first_column(q),
{
    if upto <= first_column(q) {
        Seq::empty()
    } else {
        wall_columns(q, wall, tex, upto - 1) + wall_column(q, wall, tex, upto - 1)
    }
}

/// The row that a wall leaves in the horizon buffer at column `x`: its top
/// edge over a ceiling, its bottom edge otherwise.
pub open spec fn edge_row(q: ProjectedQuad, surface: Surface, x: int) -> int {
    match surface {
        Surface::Ceiling => top_row(q, x),
        _ => bottom_row(q, x),
    }
}

/// The horizon buffer after the silhouette of a wall has been recorded in it:
/// in every column that the wall covers, the row of the wall's edge.
pub open spec fn silhouette(horizon: Seq<i32>, q: ProjectedQuad, surface: Surface) -> Seq<i32> {
    Seq::new(
        horizon.len(),
        |x: int|
            if first_column(q) <= x < end_column(q) {
                edge_row(q, surface, x) as i32
            } else {
                horizon[x]
            },
    )
}

/// The pitch term of a flat, in units of `1 / LOOK_DEN` rows. It is capped at
/// the height of the screen.
pub open spec fn look_term(pitch: int) -> int {
    let look = -LOOK_NUM * pitch;
    if look > LOOK_DEN * RENDER_H {
        LOOK_DEN * RENDER_H
    } else {
        look
    }
}

/// The depth-like divisor of a flat at row `y`, in units of `1 / LOOK_DEN`
/// rows: the row's distance from the middle of the screen plus the pitch
/// term. It is never zero.
pub open spec fn flat_divisor(y: int, pitch: int) -> int {
    let z = LOOK_DEN * (y - RENDER_H / 2) + look_term(pitch);
    if z == 0 {
        1
    } else {
        z
    }
}

/// Height of the camera above a flat at height `surface_z`. It is never zero.
pub open spec fn lift(cam_z: int, surface_z: int) -> int {
    if cam_z == surface_z {
        1
    } else {
        cam_z - surface_z
    }
}

/// A texture coordinate from a quotient: the quotient itself, rounded down,
/// where it is not negative, and otherwise mirrored to the positive side and
/// moved on by one.
pub open spec fn reflect_div(num: int, den: int) -> int {
    let n = if den < 0 {
        -num
    } else {
        num
    };
    let d = if den < 0 {
        -den
    } else {
        den
    };
    if n >= 0 {
        n / d
    } else {
        (-n) / d + 1
    }
}

/// The tiling factor of a flat whose sector has the given scale.
pub open spec fn tile(scale: int) -> int {
    scale * TILE_FACTOR
}

/// The sideways component of the point of a flat under column `x`, before
/// rotation, times `FLAT_DIV * flat_divisor`.
pub open spec fn flat_side(x: int, pose: Pose, surface_z: int, scale: int) -> int {
    (x - RENDER_W / 2) * lift(pose.z, surface_z) * tile(scale) * LOOK_DEN
}

/// The forward component of the point of a flat, before rotation, times
/// `FLAT_DIV * flat_divisor`.
pub open spec fn flat_forward(pose: Pose, surface_z: int, scale: int) -> int {
    FOV * lift(pose.z, surface_z) * tile(scale) * LOOK_DEN
}

/// The common denominator of a flat's texture coordinates at row `y`.
pub open spec fn flat_den(y: int, pose: Pose) -> int {
    FLAT_DIV * flat_divisor(y, pose.pitch) * SCALE
}

/// Numerator of the horizontal texture coordinate of a flat at `(x, y)`: the
/// point of the flat under the pixel, rotated by the camera's heading and
/// moved by the camera's position.
pub open spec fn flat_u_num(x: int, y: int, pose: Pose, surface_z: int, scale: int) -> int {
    flat_side(x, pose, surface_z, scale) * sin_of(pose.heading) - flat_forward(
        pose,
        surface_z,
        scale,
    ) * cos_of(pose.heading) + pose.y * tile(scale) * flat_divisor(y, pose.pitch) * SCALE
}

/// Numerator of the vertical texture coordinate of a flat at `(x, y)`.
pub open spec fn flat_v_num(x: int, y: int, pose: Pose, surface_z: int, scale: int) -> int {
    flat_side(x, pose, surface_z, scale) * cos_of(pose.heading) + flat_forward(
        pose,
        surface_z,
        scale,
    ) * sin_of(pose.heading) - pose.x * tile(scale) * flat_divisor(y, pose.pitch) * SCALE
}

/// Horizontal texture coordinate of a flat at `(x, y)`.
pub open spec fn flat_u(x: int, y: int, pose: Pose, surface_z: int, scale: int) -> int {
    reflect_div(flat_u_num(x, y, pose, surface_z, scale), flat_den(y, pose))
}

/// Vertical texture coordinate of a flat at `(x, y)`.
pub open spec fn flat_v(x: int, y: int, pose: Pose, surface_z: int, scale: int) -> int {
    reflect_div(flat_v_num(x, y, pose, surface_z, scale), flat_den(y, pose))
}

/// Height of the flat that is painted of a sector: the floor's under a floor,
/// the ceiling's over a ceiling.
pub open spec fn flat_z(sector: SectorModel) -> int {
    match sector.surface {
        Surface::Ceiling => sector.z2,
        _ => sector.z1,
    }
}

/// Index of the texture of the flat that is painted of a sector.
pub open spec fn flat_texture(sector: SectorModel) -> int {
    match sector.surface {
        Surface::Ceiling => sector.ceiling_texture,
        _ => sector.floor_texture,
    }
}

/// The pixel of a sector's flat at `(x, y)`: the flat's texture, tiled, in
/// perspective.
pub open spec fn flat_pixel(sector: SectorModel, tex: Texture, pose: Pose, x: int, y: int) -> Pixel {
    let colour = tex.texel(
        flat_u(x, y, pose, flat_z(sector), sector.texture_scale),
        flat_v(x, y, pose, flat_z(sector), sector.texture_scale),
    );
    Pixel { x: x as i32, y: y as i32, r: colour.0, g: colour.1, b: colour.2 }
}

/// The first row of a sector's flat in column `x`: under a floor the wall's
/// bottom edge, over a ceiling the recorded silhouette.
pub open spec fn flat_from(q: ProjectedQuad, sector: SectorModel, x: int) -> int {
    match sector.surface {
        Surface::Floor => bottom_row(q, x),
        Surface::Ceiling => sector.horizon[x] as int,
        Surface::Walls => 0,
    }
}

/// The row at which a sector's flat ends in column `x`: under a floor the
/// recorded silhouette, over a ceiling the wall's top edge.
pub open spec fn flat_to(q: ProjectedQuad, sector: SectorModel, x: int) -> int {
    match sector.surface {
        Surface::Floor => sector.horizon[x] as int,
        Surface::Ceiling => top_row(q, x),
        Surface::Walls => 0,
    }
}

/// The first `n` pixels of a sector's flat in column `x`.
pub open spec fn flat_rows(
    q: ProjectedQuad,
    sector: SectorModel,
    tex: Texture,
    pose: Pose,
    x: int,
    n: nat,
) -> Seq<Pixel> {
    Seq::new(n, |k: int| flat_pixel(sector, tex, pose, x, flat_from(q, sector, x) + k))
}

/// The pixels of a sector's flat in column `x`: every row between the
/// silhouette and the wall's edge. Where the walls of the sector are painted
/// there are none.
pub open spec fn flat_column(
    q: ProjectedQuad,
    sector: SectorModel,
    tex: Texture,
    pose: Pose,
    x: int,
) -> Seq<Pixel> {
    flat_rows(q, sector, tex, pose, x, span_len(flat_from(q, sector, x), flat_to(q, sector, x)))
}

/// The pixels of a sector's flat in the columns of a wall before `upto`.
pub open spec fn flat_columns(
    q: ProjectedQuad,
    sector: SectorModel,
    tex: Texture,
    pose: Pose,
    upto: int,
) -> Seq<Pixel>
    decreases upto - first_column(q),
{
    if upto <= first_column(q) {
        Seq::empty()
    } else {
        flat_columns(q, sector, tex, pose, upto - 1) + flat_column(q, sector, tex, pose, upto - 1)
    }
}

/// Rounding a fraction of `d` toward zero leaves no more than `d`.
pub proof fn lemma_fraction_bound(d: int, n: int, den: int)
    requires
        0 <= n <= den,
        den > 0,
    ensures
        d >= 0 ==> 0 <= trunc_div(d * n, den) <= d,
        d <= 0 ==> d <= trunc_div(d * n, den) <= 0,
{
    if d >= 0 {
        assert(0 <= d * n <= d * den) by (nonlinear_arith)
            requires
                0 <= n <= den,
                d >= 0,
        ;
        vstd::arithmetic::div_mod::lemma_div_pos_is_pos(d * n, den);
        vstd::arithmetic::div_mod::lemma_div_is_ordered(d * n, d * den, den);
        vstd::arithmetic::div_mod::lemma_div_by_multiple(d, den);
    } else {
        assert(0 <= -(d * n) <= (-d) * den) by (nonlinear_arith)
            requires
                0 <= n <= den,
                d < 0,
        ;
        vstd::arithmetic::div_mod::lemma_div_pos_is_pos(-(d * n), den);
        vstd::arithmetic::div_mod::lemma_div_is_ordered(-(d * n), (-d) * den, den);
        vstd::arithmetic::div_mod::lemma_div_by_multiple(-d, den);
    }
}

/// The row at column `x` of an edge from row `from` to row `to`.
fn edge(from: i32, to: i32, q: &ProjectedQuad, x: i32) -> (row: i64)
    requires
        q.x1 <= x < q.x2,
    ensures
        row == edge_at(from as int, to as int, *q, x as int),
        -0x1_8000_0000 <= row <= 0x1_8000_0000,
{
    let d: i128 = to as i128 - from as i128;
    let n: i128 = x as i128 - q.x1 as i128;
    let den: i128 = q.x2 as i128 - q.x1 as i128;
    proof {
        crate::arith::lemma_mul_bound(d as int, n as int, 0x1_0000_0000, 0x1_0000_0000);
        lemma_fraction_bound(d as int, n as int, den as int);
    }
    let step: i128 = (d * n) / den;
    (from as i128 + step) as i64
}

/// Multiplies two values whose sizes are known to be at most `bound_a` and
/// `bound_b`.
fn mul_within(a: i128, b: i128, Ghost(bound_a): Ghost<int>, Ghost(bound_b): Ghost<int>) -> (r:
    i128)
    requires
        -bound_a <= a <= bound_a,
        -bound_b <= b <= bound_b,
        bound_a * bound_b <= i128::MAX,
    ensures
        r == a * b,
        -(bound_a * bound_b) <= r <= bound_a * bound_b,
{
    proof {
        crate::arith::lemma_mul_bound(a as int, b as int, bound_a, bound_b);
    }
    a * b
}

/// Paints one column of a wall.
fn paint_wall_column(q: &ProjectedQuad, wall: &Wall, tex: &Texture, x: i32, out: &mut Vec<Pixel>)
    requires
        tex.valid(),
        first_column(*q) <= x < end_column(*q),
    ensures
        final(out)@ == old(out)@ + wall_column(*q, *wall, *tex, x as int),
        all_on_screen(final(out)@, old(out)@.len() as int),
{
    let first: i32 = clamp_range(q.x1 as i64, 1, RENDER_W - 1);
    let bottom_at: i64 = edge(q.b1, q.b2, q, x);
    let top_at: i64 = edge(q.t1, q.t2, q, x);
    let bottom: i32 = clamp_range(bottom_at, 1, RENDER_H - 1);
    let top: i32 = clamp_range(top_at, 1, RENDER_H - 1);
    let skipped_columns: i128 = if q.x1 < 1 {
        -(q.x1 as i128)
    } else {
        0
    };
    let skipped_rows: i128 = if bottom_at < 1 {
        -(bottom_at as i128)
    } else {
        0
    };
    let across: i128 = mul_within(
        tex.width as i128,
        wall.u as i128,
        Ghost(0x8000_0000),
        Ghost(0x8000_0000),
    );
    let run: i128 = x as i128 - first as i128 + skipped_columns;
    let u_num: i128 = mul_within(
        run,
        across,
        Ghost(0x1_0000_0000),
        Ghost(0x4000_0000_0000_0000),
    );
    let u: i128 = u_num / (q.x2 as i128 - q.x1 as i128);
    let mut y: i32 = bottom;
    while y < top
        invariant
            tex.valid(),
            first_column(*q) <= x < end_column(*q),
            bottom == bottom_row(*q, x as int),
            top == top_row(*q, x as int),
            bottom_at == bottom_raw(*q, x as int),
            top_at == top_raw(*q, x as int),
            -0x1_8000_0000 <= bottom_at <= 0x1_8000_0000,
            -0x1_8000_0000 <= top_at <= 0x1_8000_0000,
            skipped_rows == skipped(bottom_at as int),
            u == wall_u(*q, *wall, *tex, x as int),
            bottom <= y,
            bottom < top ==> y <= top,
            bottom >= top ==> y == bottom,
            out@ == old(out)@ + wall_rows(*q, *wall, *tex, x as int, span_len(bottom as int, y as int)),
            all_on_screen(out@, old(out)@.len() as int),
        decreases top - y,
    {
        let rise: i128 = y as i128 - bottom as i128 + skipped_rows;
        let v_num: i128 = mul_within(
            rise,
            tex.height as i128,
            Ghost(0x2_0000_0000),
            Ghost(0x8000_0000),
        );
        let v: i128 = v_num / (top_at as i128 - bottom_at as i128);
        let (r, g, b) = tex.sample(u, v);
        let painted = Pixel {
            x,
            y,
            r: darken(r, wall.shade),
            g: darken(g, wall.shade),
            b: darken(b, wall.shade),
        };
        proof {
            let n = span_len(bottom as int, y as int);
            assert(painted == wall_pixel(*q, *wall, *tex, x as int, bottom + n));
            assert(wall_rows(*q, *wall, *tex, x as int, n + 1) =~= wall_rows(
                *q,
                *wall,
                *tex,
                x as int,
                n,
            ).push(painted));
        }
        out.push(painted);
        y += 1;
    }
}

/// Paints a wall: in every column that it covers, every row from its bottom
/// edge to its top edge, with the wall's texture.
pub fn paint_wall(q: &ProjectedQuad, wall: &Wall, tex: &Texture, out: &mut Vec<Pixel>)
    requires
        tex.valid(),
    ensures
        final(out)@ == old(out)@ + wall_columns(*q, *wall, *tex, end_column(*q)),
        all_on_screen(final(out)@, old(out)@.len() as int),
{
    let first: i32 = clamp_range(q.x1 as i64, 1, RENDER_W - 1);
    let end: i32 = clamp_range(q.x2 as i64, 1, RENDER_W - 1);
    let mut x: i32 = first;
    while x < end
        invariant
            tex.valid(),
            first == first_column(*q),
            end == end_column(*q),
            first <= x,
            first < end ==> x <= end,
            first >= end ==> x == first,
            out@ == old(out)@ + wall_columns(*q, *wall, *tex, x as int),
            all_on_screen(out@, old(out)@.len() as int),
        decreases end - x,
    {
        paint_wall_column(q, wall, tex, x, out);
        x += 1;
    }
}

/// Records the silhouette of a wall in a horizon buffer: in every column that
/// the wall covers, the row of its top edge over a ceiling, of its bottom
/// edge otherwise. Nothing is painted.
pub fn record_silhouette(q: &ProjectedQuad, surface: Surface, horizon: &mut Vec<i32>)
    requires
        old(horizon)@.len() == RENDER_W,
    ensures
        final(horizon)@ == silhouette(old(horizon)@, *q, surface),
{
    let first: i32 = clamp_range(q.x1 as i64, 1, RENDER_W - 1);
    let end: i32 = clamp_range(q.x2 as i64, 1, RENDER_W - 1);
    let mut x: i32 = first;
    while x < end
        invariant
            first == first_column(*q),
            end == end_column(*q),
            first <= x,
            first < end ==> x <= end,
            first >= end ==> x == first,
            horizon@.len() == RENDER_W,
            forall|k: int|
                0 <= k < RENDER_W ==> #[trigger] horizon@[k] == if first <= k < x {
                    edge_row(*q, surface, k) as i32
                } else {
                    old(horizon)@[k]
                },
        decreases end - x,
    {
        let row: i32 = match surface {
            Surface::Ceiling => clamp_range(edge(q.t1, q.t2, q, x), 1, RENDER_H - 1),
            _ => clamp_range(edge(q.b1, q.b2, q, x), 1, RENDER_H - 1),
        };
        horizon[x as usize] = row;
        x += 1;
    }
    assert(horizon@ =~= silhouette(old(horizon)@, *q, surface));
}

/// The texture coordinate that a quotient stands for.
pub fn reflected(num: i128, den: i128) -> (r: i128)
    requires
        den != 0,
        -i128::MAX < num < i128::MAX,
        -i128::MAX < den,
    ensures
        r == reflect_div(num as int, den as int),
{
    let n: i128 = if den < 0 {
        -num
    } else {
        num
    };
    let d: i128 = if den < 0 {
        -den
    } else {
        den
    };
    if n >= 0 {
        n / d
    } else {
        proof {
            lemma_trunc_div_bounds(-n as int, d as int);
        }
        (-n) / d + 1
    }
}

/// The depth-like divisor of a flat at row `y` for a camera with the given
/// pitch.
fn divisor_at(y: i32, pitch: i32) -> (z: i128)
    requires
        0 <= y <= RENDER_H,
    ensures
        z == flat_divisor(y as int, pitch as int),
        -0x400_0000_0000 <= z <= 0x400_0000_0000,
{
    let raw: i128 = 0 - mul_within(LOOK_NUM as i128, pitch as i128, Ghost(628), Ghost(0x8000_0000));
    let cap: i128 = mul_within(LOOK_DEN as i128, RENDER_H as i128, Ghost(100), Ghost(120));
    let look: i128 = if raw > cap {
        cap
    } else {
        raw
    };
    let row: i128 = mul_within(
        LOOK_DEN as i128,
        y as i128 - (RENDER_H / 2) as i128,
        Ghost(100),
        Ghost(60),
    ) + look;
    if row == 0 {
        1
    } else {
        row
    }
}

/// Height of the camera above the flat that is painted of a sector.
fn lift_over(sector: &Sector, p: &Player) -> (h: i128)
    ensures
        h == lift(p@.z, flat_z(sector@)),
        -0x1_0000_0000 <= h <= 0x1_0000_0000,
{
    let surface_z: i32 = match sector.surface {
        Surface::Ceiling => sector.z2,
        _ => sector.z1,
    };
    if p.pos.z == surface_z {
        1
    } else {
        p.pos.z as i128 - surface_z as i128
    }
}

/// The pixel of a sector's flat at `(x, y)`.
fn flat_sample(sector: &Sector, tex: &Texture, p: &Player, x: i32, y: i32) -> (painted: Pixel)
    requires
        tex.valid(),
        0 <= x < RENDER_W,
        0 <= y <= RENDER_H,
    ensures
        painted == flat_pixel(sector@, *tex, p@, x as int, y as int),
{
    let height: i128 = lift_over(sector, p);
    let tiling: i128 = mul_within(
        sector.texture_scale as i128,
        TILE_FACTOR as i128,
        Ghost(0x8000_0000),
        Ghost(7),
    );
    assert(tiling == tile(sector.texture_scale as int));
    let divisor: i128 = divisor_at(y, p.look_up_down);
    let sin: i128 = p.trig.sin(p.angle) as i128;
    let cos: i128 = p.trig.cos(p.angle) as i128;
    let side_lift: i128 = mul_within(
        x as i128 - (RENDER_W / 2) as i128,
        height,
        Ghost(80),
        Ghost(0x1_0000_0000),
    );
    let side: i128 = mul_within(
        mul_within(side_lift, tiling, Ghost(80int * 0x1_0000_0000), Ghost(0x4_0000_0000)),
        LOOK_DEN as i128,
        Ghost(80int * 0x1_0000_0000 * 0x4_0000_0000),
        Ghost(100),
    );
    assert(side == flat_side(x as int, p@, flat_z(sector@), sector.texture_scale as int));
    let forward: i128 = mul_within(
        mul_within(
            mul_within(FOV as i128, height, Ghost(200), Ghost(0x1_0000_0000)),
            tiling,
            Ghost(200int * 0x1_0000_0000),
            Ghost(0x4_0000_0000),
        ),
        LOOK_DEN as i128,
        Ghost(200int * 0x1_0000_0000 * 0x4_0000_0000),
        Ghost(100),
    );
    assert(forward == flat_forward(p@, flat_z(sector@), sector.texture_scale as int));
    let den: i128 = mul_within(
        mul_within(FLAT_DIV as i128, divisor, Ghost(60), Ghost(0x400_0000_0000)),
        SCALE as i128,
        Ghost(60int * 0x400_0000_0000),
        Ghost(65536),
    );
    assert(den == flat_den(y as int, p@));
    let east: i128 = mul_within(
        mul_within(
            mul_within(p.pos.y as i128, tiling, Ghost(0x8000_0000), Ghost(0x4_0000_0000)),
            divisor,
            Ghost(0x8000_0000int * 0x4_0000_0000),
            Ghost(0x400_0000_0000),
        ),
        SCALE as i128,
        Ghost(0x8000_0000int * 0x4_0000_0000 * 0x400_0000_0000),
        Ghost(65536),
    );
    let north: i128 = mul_within(
        mul_within(
            mul_within(p.pos.x as i128, tiling, Ghost(0x8000_0000), Ghost(0x4_0000_0000)),
            divisor,
            Ghost(0x8000_0000int * 0x4_0000_0000),
            Ghost(0x400_0000_0000),
        ),
        SCALE as i128,
        Ghost(0x8000_0000int * 0x4_0000_0000 * 0x400_0000_0000),
        Ghost(65536),
    );
    let side_sin: i128 = mul_within(
        side,
        sin,
        Ghost(100int * (80int * 0x1_0000_0000 * 0x4_0000_0000)),
        Ghost(65536),
    );
    let side_cos: i128 = mul_within(
        side,
        cos,
        Ghost(100int * (80int * 0x1_0000_0000 * 0x4_0000_0000)),
        Ghost(65536),
    );
    let forward_sin: i128 = mul_within(
        forward,
        sin,
        Ghost(100int * (200int * 0x1_0000_0000 * 0x4_0000_0000)),
        Ghost(65536),
    );
    let forward_cos: i128 = mul_within(
        forward,
        cos,
        Ghost(100int * (200int * 0x1_0000_0000 * 0x4_0000_0000)),
        Ghost(65536),
    );
    let u: i128 = reflected(side_sin - forward_cos + east, den);
    let v: i128 = reflected(side_cos + forward_sin - north, den);
    let (r, g, b) = tex.sample(u, v);
    Pixel { x, y, r, g, b }
}

/// Paints one column of a sector's flat.
fn paint_flat_column(
    q: &ProjectedQuad,
    sector: &Sector,
    tex: &Texture,
    p: &Player,
    x: i32,
    out: &mut Vec<Pixel>,
)
    requires
        tex.valid(),
        sector@.scratch_ok(),
        first_column(*q) <= x < end_column(*q),
    ensures
        final(out)@ == old(out)@ + flat_column(*q, sector@, *tex, p@, x as int),
        all_on_screen(final(out)@, old(out)@.len() as int),
{
    let from: i32 = match sector.surface {
        Surface::Floor => clamp_range(edge(q.b1, q.b2, q, x), 1, RENDER_H - 1),
        Surface::Ceiling => sector.horizon[x as usize],
        Surface::Walls => 0,
    };
    let to: i32 = match sector.surface {
        Surface::Floor => sector.horizon[x as usize],
        Surface::Ceiling => clamp_range(edge(q.t1, q.t2, q, x), 1, RENDER_H - 1),
        Surface::Walls => 0,
    };
    let mut y: i32 = from;
    while y < to
        invariant
            tex.valid(),
            sector@.scratch_ok(),
            first_column(*q) <= x < end_column(*q),
            from == flat_from(*q, sector@, x as int),
            to == flat_to(*q, sector@, x as int),
            0 <= from <= RENDER_H,
            0 <= to <= RENDER_H,
            from <= y,
            from < to ==> y <= to,
            from >= to ==> y == from,
            out@ == old(out)@ + flat_rows(
                *q,
                sector@,
                *tex,
                p@,
                x as int,
                span_len(from as int, y as int),
            ),
            all_on_screen(out@, old(out)@.len() as int),
        decreases to - y,
    {
        let painted = flat_sample(sector, tex, p, x, y);
        proof {
            let n = span_len(from as int, y as int);
            assert(flat_rows(*q, sector@, *tex, p@, x as int, n + 1) =~= flat_rows(
                *q,
                sector@,
                *tex,
                p@,
                x as int,
                n,
            ).push(painted));
        }
        out.push(painted);
        y += 1;
    }
}

/// Paints the flat of a sector in the columns of one of its walls: under a
/// floor from the wall's bottom edge to the recorded silhouette, over a
/// ceiling from the silhouette to the wall's top edge. Where the walls of the
/// sector are painted, nothing is.
pub fn paint_flat(
    q: &ProjectedQuad,
    sector: &Sector,
    tex: &Texture,
    p: &Player,
    out: &mut Vec<Pixel>,
)
    requires
        tex.valid(),
        sector@.scratch_ok(),
    ensures
        final(out)@ == old(out)@ + flat_columns(*q, sector@, *tex, p@, end_column(*q)),
        all_on_screen(final(out)@, old(out)@.len() as int),
{
    let first: i32 = clamp_range(q.x1 as i64, 1, RENDER_W - 1);
    let end: i32 = clamp_range(q.x2 as i64, 1, RENDER_W - 1);
    let mut x: i32 = first;
    while x < end
        invariant
            tex.valid(),
            sector@.scratch_ok(),
            first == first_column(*q),
            end == end_column(*q),
            first <= x,
            first < end ==> x <= end,
            first >= end ==> x == first,
            out@ == old(out)@ + flat_columns(*q, sector@, *tex, p@, x as int),
            all_on_screen(out@, old(out)@.len() as int),
        decreases end - x,
    {
        paint_flat_column(q, sector, tex, p, x, out);
        x += 1;
    }
}

} // verus!
