//! The transform pipeline: from a wall in the world to a quad on the screen.
//!
//! An end of a wall is brought into camera space (shifted by the camera's
//! position, rotated against its heading), given the heights of the sector's
//! floor and ceiling with the pitch shear added, clipped to the near plane if
//! it lies behind it, and projected. Every stage works on `i32` values and
//! saturates where the exact value does not fit.
use vstd::prelude::*;
use crate::arith::clamp_i32;
use crate::arith::clamp_to_i32;
use crate::arith::div_floor;
use crate::arith::floor_div;
use crate::arith::lemma_mul_bound;
use crate::arith::trunc_div;
use crate::player::Player;
use crate::player::Pose;
use crate::renderer::Renderer;
use crate::trig::cos_of;
use crate::trig::sin_of;
use crate::trig::SCALE;
use crate::wall::Wall;
use crate::FOV;
use crate::RENDER_H;
use crate::RENDER_W;

verus! {

/// Depth of the near plane: nothing nearer to the camera is drawn.
pub const NEAR: i32 = 1;

/// Divisor of the pitch shear: the shear is `pitch * depth / PITCH_DIV`.
pub const PITCH_DIV: i32 = 32;

/// Which side of a wall a pass looks at.
#[derive(Clone, Copy, Debug, PartialEq, Eq, Structural)]
pub enum Face {
    /// The wall as its ends are listed.
    Front,
    /// The wall with its ends exchanged.
    Back,
}

/// One end of a wall in camera space.
#[derive(Clone, Copy, Debug, PartialEq, Eq, Structural)]
pub struct CameraPoint {
    /// Offset to the side of the camera's axis.
    pub x: i32,
    /// Distance along the camera's axis.
    pub depth: i32,
    /// Height of the sector's floor at this end, relative to the camera.
    pub bottom: i32,
    /// Height of the sector's ceiling at this end, relative to the camera.
    pub top: i32,
}

/// A wall on the screen: two columns, and at each the rows of the wall's
/// bottom and top edge.
#[derive(Clone, Copy, Debug, PartialEq, Eq, Structural)]
pub struct ProjectedQuad {
    pub x1: i32,
    pub x2: i32,
    pub b1: i32,
    pub b2: i32,
    pub t1: i32,
    pub t2: i32,
}

/// Sideways offset in camera space of a point `(dx, dy)` away from the
/// camera, for a camera with the given heading.
pub open spec fn camera_x(dx: int, dy: int, heading: int) -> int {
    clamp_i32(floor_div(dx * cos_of(heading) - dy * sin_of(heading), SCALE as int))
}

/// Depth in camera space of a point `(dx, dy)` away from the camera.
pub open spec fn camera_depth(dx: int, dy: int, heading: int) -> int {
    clamp_i32(floor_div(dy * cos_of(heading) + dx * sin_of(heading), SCALE as int))
}

/// Height relative to the camera of a point at world height `z` and at the
/// given depth: the pitch shears heights in proportion to depth.
pub open spec fn camera_height(z: int, pose: Pose, depth: int) -> int {
    clamp_i32(z - pose.z + trunc_div(pose.pitch * depth, PITCH_DIV as int))
}

/// The end `(wx, wy)` of a wall of a sector with floor `z1` and ceiling `z2`,
/// in camera space.
pub open spec fn camera_point(wx: int, wy: int, z1: int, z2: int, pose: Pose) -> CameraPoint {
    let x = camera_x(wx - pose.x, wy - pose.y, pose.heading);
    let depth = camera_depth(wx - pose.x, wy - pose.y, pose.heading);
    CameraPoint {
        x: x as i32,
        depth: depth as i32,
        bottom: camera_height(z1, pose, depth) as i32,
        top: camera_height(z2, pose, depth) as i32,
    }
}

/// The value a fraction `num / den` of the way from `a` to `b`, rounded down.
pub open spec fn lerp(a: int, b: int, num: int, den: int) -> int {
    a + floor_div(num * (b - a), den)
}

/// The point in which the edge from `a`, behind the near plane, to `b`, in
/// front of it or on it, meets the near plane.
pub open spec fn clipped(a: CameraPoint, b: CameraPoint) -> CameraPoint {
    let num = NEAR - a.depth;
    let den = b.depth - a.depth;
    CameraPoint {
        x: lerp(a.x as int, b.x as int, num, den) as i32,
        depth: NEAR,
        bottom: lerp(a.bottom as int, b.bottom as int, num, den) as i32,
        top: lerp(a.top as int, b.top as int, num, den) as i32,
    }
}

/// The depth by which the projection divides: never less than the near
/// plane's.
pub open spec fn guarded(depth: int) -> int {
    if depth < NEAR {
        NEAR as int
    } else {
        depth
    }
}

/// Distance on the screen from the centre of a camera-space offset `c` at the
/// given depth.
pub open spec fn perspective(c: int, depth: int) -> int {
    trunc_div(c * FOV, guarded(depth))
}

/// Screen coordinate of a camera-space offset `c` at the given depth, on an
/// axis whose centre is at `center`.
pub open spec fn screen_coord(c: int, depth: int, center: int) -> int {
    clamp_i32(perspective(c, depth) + center)
}

/// The two ends of a wall on the screen.
pub open spec fn on_screen(a: CameraPoint, b: CameraPoint) -> ProjectedQuad {
    ProjectedQuad {
        x1: screen_coord(a.x as int, a.depth as int, RENDER_W / 2) as i32,
        x2: screen_coord(b.x as int, b.depth as int, RENDER_W / 2) as i32,
        b1: screen_coord(a.bottom as int, a.depth as int, RENDER_H / 2) as i32,
        b2: screen_coord(b.bottom as int, b.depth as int, RENDER_H / 2) as i32,
        t1: screen_coord(a.top as int, a.depth as int, RENDER_H / 2) as i32,
        t2: screen_coord(b.top as int, b.depth as int, RENDER_H / 2) as i32,
    }
}

/// The first end of a wall as a pass sees it.
pub open spec fn first_end(wall: Wall, z1: int, z2: int, pose: Pose, face: Face) -> CameraPoint {
    match face {
        Face::Front => camera_point(wall.x1 as int, wall.y1 as int, z1, z2, pose),
        Face::Back => camera_point(wall.x2 as int, wall.y2 as int, z1, z2, pose),
    }
}

/// The second end of a wall as a pass sees it.
pub open spec fn second_end(wall: Wall, z1: int, z2: int, pose: Pose, face: Face) -> CameraPoint {
    match face {
        Face::Front => camera_point(wall.x2 as int, wall.y2 as int, z1, z2, pose),
        Face::Back => camera_point(wall.x1 as int, wall.y1 as int, z1, z2, pose),
    }
}

/// A wall of a sector with floor `z1` and ceiling `z2` on the screen, or
/// `None` where both its ends lie behind the near plane. An end behind the
/// near plane is replaced by the point in which the wall meets the plane.
pub open spec fn projected(wall: Wall, z1: int, z2: int, pose: Pose, face: Face) -> Option<
    ProjectedQuad,
> {
    let a = first_end(wall, z1, z2, pose, face);
    let b = second_end(wall, z1, z2, pose, face);
    if a.depth < NEAR && b.depth < NEAR {
        None
    } else if a.depth < NEAR {
        Some(on_screen(clipped(a, b), b))
    } else if b.depth < NEAR {
        Some(on_screen(a, clipped(b, a)))
    } else {
        Some(on_screen(a, b))
    }
}

/// A value interpolated between `a` and `b` at a fraction between 0 and 1
/// lies between `a` and `b`.
pub proof fn lemma_lerp_between(a: int, b: int, num: int, den: int)
    requires
        0 < num <= den,
    ensures
        a <= b ==> a <= lerp(a, b, num, den) <= b,
        b <= a ==> b <= lerp(a, b, num, den) <= a,
{
    let d = b - a;
    if d >= 0 {
        assert(0 <= num * d <= den * d) by (nonlinear_arith)
            requires
                0 < num <= den,
                d >= 0,
        ;
        vstd::arithmetic::div_mod::lemma_div_pos_is_pos(num * d, den);
        vstd::arithmetic::div_mod::lemma_div_is_ordered(num * d, den * d, den);
        vstd::arithmetic::div_mod::lemma_div_by_multiple(d, den);
        assert(den * d == d * den) by (nonlinear_arith);
    } else {
        assert(den * d <= num * d <= 0) by (nonlinear_arith)
            requires
                0 < num <= den,
                d < 0,
        ;
        vstd::arithmetic::div_mod::lemma_div_is_ordered(den * d, num * d, den);
        vstd::arithmetic::div_mod::lemma_div_is_ordered(num * d, 0, den);
        assert(den * d == d * den + 0) by (nonlinear_arith);
        vstd::arithmetic::div_mod::lemma_fundamental_div_mod_converse(den * d, den, d, 0);
    }
}

/// Size of `v` without its sign.
pub open spec fn magnitude(v: int) -> int {
    if v < 0 {
        -v
    } else {
        v
    }
}

/// The farther a point is from the camera, the nearer to the centre of the
/// screen it is projected, for the same offset `c` to the side. The
/// projection is in whole pixels, so the extent does not shrink with every
/// step in depth: it is strictly smaller at `far` exactly where `far` times
/// the extent at `near` exceeds the scaled offset.
pub proof fn lemma_perspective_shrinks(c: int, near: int, far: int)
    requires
        NEAR <= near < far,
    ensures
        magnitude(perspective(c, far)) <= magnitude(perspective(c, near)),
        magnitude(perspective(c, far)) < magnitude(perspective(c, near)) <==> far * magnitude(
            perspective(c, near),
        ) > magnitude(c) * FOV,
{
    let a = magnitude(c) * FOV;
    assert(a >= 0 && (c >= 0 ==> c * FOV == a) && (c < 0 ==> -(c * FOV) == a && c * FOV < 0))
        by (nonlinear_arith)
        requires
            a == magnitude(c) * FOV,
    ;
    vstd::arithmetic::div_mod::lemma_div_pos_is_pos(a, near);
    vstd::arithmetic::div_mod::lemma_div_pos_is_pos(a, far);
    assert(magnitude(perspective(c, near)) == a / near);
    assert(magnitude(perspective(c, far)) == a / far);
    vstd::arithmetic::div_mod::lemma_div_is_ordered_by_denominator(a, near, far);
    let q = a / near;
    let r = a / far;
    vstd::arithmetic::div_mod::lemma_fundamental_div_mod(a, far);
    vstd::arithmetic::div_mod::lemma_mod_bound(a, far);
    if far * q > a {
        if r >= q {
            assert(far * r >= far * q) by (nonlinear_arith)
                requires
                    r >= q,
                    far > 0,
            ;
        }
    }
    if r < q {
        assert(far * (r + 1) <= far * q) by (nonlinear_arith)
            requires
                r + 1 <= q,
                far > 0,
        ;
        assert(far * (r + 1) == far * r + far) by (nonlinear_arith);
    }
}

/// Interpolates between `a` and `b` at the fraction `num / den`.
fn interpolate(a: i32, b: i32, num: i64, den: i64) -> (r: i32)
    requires
        0 < num <= den <= 0x1_0000_0000,
    ensures
        r == lerp(a as int, b as int, num as int, den as int),
{
    proof {
        lemma_lerp_between(a as int, b as int, num as int, den as int);
        lemma_mul_bound(num as int, b - a, 0x1_0000_0000, 0x1_0000_0000);
    }
    let step: i128 = div_floor(num as i128 * (b as i128 - a as i128), den as i128);
    (a as i128 + step) as i32
}

impl Renderer {
    /// Moves the point `(x1, y1, z1)`, which lies behind the near plane, along
    /// its edge to `(x2, y2, z2)` until it is on the near plane. `y` is depth.
    ///
    /// The new depth is exactly that of the near plane; the new `x` and `z` are
    /// interpolated between the two ends at the fraction of the edge at which it
    /// meets the plane.
    pub fn clip_behind(x1: &mut i32, y1: &mut i32, z1: &mut i32, x2: i32, y2: i32, z2: i32)
        requires
            *old(y1) < NEAR <= y2,
        ensures
            *final(y1) == NEAR,
            *final(x1) == lerp(*old(x1) as int, x2 as int, NEAR - *old(y1), y2 - *old(y1)),
            *final(z1) == lerp(*old(z1) as int, z2 as int, NEAR - *old(y1), y2 - *old(y1)),
    {
        let num: i64 = NEAR as i64 - *y1 as i64;
        let den: i64 = y2 as i64 - *y1 as i64;
        *x1 = interpolate(*x1, x2, num, den);
        *z1 = interpolate(*z1, z2, num, den);
        *y1 = NEAR;
    }
}

/// Clips the end `a` of an edge, which lies behind the near plane, against
/// the other end `b`.
pub fn clip(a: &CameraPoint, b: &CameraPoint) -> (c: CameraPoint)
    requires
        a.depth < NEAR <= b.depth,
    ensures
        c == clipped(*a, *b),
{
    let mut x: i32 = a.x;
    let mut depth: i32 = a.depth;
    let mut bottom: i32 = a.bottom;
    Renderer::clip_behind(&mut x, &mut depth, &mut bottom, b.x, b.depth, b.bottom);
    let mut x_top: i32 = a.x;
    let mut depth_top: i32 = a.depth;
    let mut top: i32 = a.top;
    Renderer::clip_behind(&mut x_top, &mut depth_top, &mut top, b.x, b.depth, b.top);
    CameraPoint { x, depth, bottom, top }
}

/// Height relative to the camera of a point at world height `z` and at the
/// given depth.
pub fn height_at(z: i32, p: &Player, depth: i32) -> (h: i32)
    ensures
        h == camera_height(z as int, p@, depth as int),
{
    proof {
        lemma_mul_bound(p.look_up_down as int, depth as int, 0x8000_0000, 0x8000_0000);
    }
    let shear: i64 = (p.look_up_down as i64 * depth as i64) / (PITCH_DIV as i64);
    proof {
        crate::arith::lemma_trunc_div_bounds(p.look_up_down * depth, PITCH_DIV as int);
    }
    clamp_to_i32(z as i128 - p.pos.z as i128 + shear as i128)
}

/// Brings the end `(wx, wy)` of a wall of a sector with floor `z1` and
/// ceiling `z2` into camera space.
pub fn to_camera(wx: i32, wy: i32, z1: i32, z2: i32, p: &Player) -> (pt: CameraPoint)
    ensures
        pt == camera_point(wx as int, wy as int, z1 as int, z2 as int, p@),
{
    let dx: i128 = wx as i128 - p.pos.x as i128;
    let dy: i128 = wy as i128 - p.pos.y as i128;
    let cos: i128 = p.trig.cos(p.angle) as i128;
    let sin: i128 = p.trig.sin(p.angle) as i128;
    proof {
        lemma_mul_bound(dx as int, cos as int, 0x1_0000_0000, 65536);
        lemma_mul_bound(dy as int, sin as int, 0x1_0000_0000, 65536);
        lemma_mul_bound(dy as int, cos as int, 0x1_0000_0000, 65536);
        lemma_mul_bound(dx as int, sin as int, 0x1_0000_0000, 65536);
    }
    let x: i32 = clamp_to_i32(div_floor(dx * cos - dy * sin, SCALE as i128));
    let depth: i32 = clamp_to_i32(div_floor(dy * cos + dx * sin, SCALE as i128));
    CameraPoint { x, depth, bottom: height_at(z1, p, depth), top: height_at(z2, p, depth) }
}

/// Projects a camera-space offset `c` at the given depth onto an axis of the
/// screen whose centre is at `center`. A depth below the near plane's counts
/// as the near plane's, so the division is always defined.
pub fn project(c: i32, depth: i32, center: i32) -> (s: i32)
    ensures
        s == screen_coord(c as int, depth as int, center as int),
{
    let d: i128 = if depth < NEAR {
        NEAR as i128
    } else {
        depth as i128
    };
    let scaled: i128 = c as i128 * FOV as i128;
    clamp_to_i32(scaled / d + center as i128)
}

/// Projects the two ends of a wall.
pub fn to_screen(a: &CameraPoint, b: &CameraPoint) -> (q: ProjectedQuad)
    ensures
        q == on_screen(*a, *b),
{
    ProjectedQuad {
        x1: project(a.x, a.depth, RENDER_W / 2),
        x2: project(b.x, b.depth, RENDER_W / 2),
        b1: project(a.bottom, a.depth, RENDER_H / 2),
        b2: project(b.bottom, b.depth, RENDER_H / 2),
        t1: project(a.top, a.depth, RENDER_H / 2),
        t2: project(b.top, b.depth, RENDER_H / 2),
    }
}

/// Runs a wall of a sector with floor `z1` and ceiling `z2` through the whole
/// pipeline. `None` means that the wall is behind the camera and is skipped.
pub fn project_wall(wall: &Wall, z1: i32, z2: i32, p: &Player, face: Face) -> (q: Option<
    ProjectedQuad,
>)
    ensures
        q == projected(*wall, z1 as int, z2 as int, p@, face),
        q is None <==> first_end(*wall, z1 as int, z2 as int, p@, face).depth < NEAR && second_end(
            *wall,
            z1 as int,
            z2 as int,
            p@,
            face,
        ).depth < NEAR,
{
    let (a, b) = match face {
        Face::Front => (to_camera(wall.x1, wall.y1, z1, z2, p), to_camera(wall.x2, wall.y2, z1, z2, p)),
        Face::Back => (to_camera(wall.x2, wall.y2, z1, z2, p), to_camera(wall.x1, wall.y1, z1, z2, p)),
    };
    if a.depth < NEAR && b.depth < NEAR {
        None
    } else if a.depth < NEAR {
        let a_on_plane = clip(&a, &b);
        Some(to_screen(&a_on_plane, &b))
    } else if b.depth < NEAR {
        let b_on_plane = clip(&b, &a);
        Some(to_screen(&a, &b_on_plane))
    } else {
        Some(to_screen(&a, &b))
    }
}

} // verus!
