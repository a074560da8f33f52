//! The ground pattern: a chequered square on the plane at height zero, seen
//! in perspective. It shows where the camera stands and looks without any
//! level loaded.
use vstd::prelude::*;
use crate::arith::clamp;
use crate::arith::clamp_range;
use crate::arith::lemma_mul_bound;
use crate::player::Player;
use crate::player::Pose;
use crate::raster::all_on_screen;
use crate::raster::reflect_div;
use crate::raster::reflected;
use crate::raster::Pixel;
use crate::renderer::Renderer;
use crate::trig::cos_of;
use crate::trig::sin_of;
use crate::trig::SCALE;
use crate::FOV;
use crate::RENDER_H;
use crate::RENDER_W;

verus! {

/// Rows by which one unit of pitch moves the pattern.
pub const GROUND_LOOK: i32 = 2;

/// The camera's height is scaled down by this.
pub const GROUND_LIFT_DIV: i32 = 16;

/// The camera's position is scaled down by this.
pub const GROUND_POSITION_DIV: i32 = 15;

/// The pattern has this many cells along each side.
pub const GROUND_CELLS: i32 = 5;

/// The pitch term of the pattern, in rows. It is capped at the height of the
/// screen.
pub open spec fn ground_look(pitch: int) -> int {
    let look = -GROUND_LOOK * pitch;
    if look > RENDER_H {
        RENDER_H as int
    } else {
        look
    }
}

/// The depth-like divisor of the pattern at screen row `y`: the row's
/// distance from the middle of the screen plus the pitch term. It is never
/// zero.
pub open spec fn ground_divisor(y: int, pitch: int) -> int {
    let z = y - RENDER_H / 2 + ground_look(pitch);
    if z == 0 {
        1
    } else {
        z
    }
}

/// Height of the camera over the ground. It is never zero.
pub open spec fn ground_lift(cam_z: int) -> int {
    if cam_z == 0 {
        1
    } else {
        cam_z
    }
}

/// The common denominator of the pattern's coordinates at screen row `y`.
pub open spec fn ground_den(y: int, pose: Pose) -> int {
    GROUND_LIFT_DIV * GROUND_POSITION_DIV * ground_divisor(y, pose.pitch) * SCALE
}

/// Numerator of the first coordinate on the ground of the point under the
/// pixel `(x, y)`: the point is rotated by the camera's heading and moved by
/// the camera's position.
pub open spec fn ground_u_num(x: int, y: int, pose: Pose) -> int {
    GROUND_POSITION_DIV * ((x - RENDER_W / 2) * ground_lift(pose.z) * sin_of(pose.heading) - FOV
        * ground_lift(pose.z) * cos_of(pose.heading)) - pose.y * GROUND_LIFT_DIV * ground_divisor(
        y,
        pose.pitch,
    ) * SCALE
}

/// Numerator of the second coordinate on the ground of the point under the
/// pixel `(x, y)`.
pub open spec fn ground_v_num(x: int, y: int, pose: Pose) -> int {
    GROUND_POSITION_DIV * ((x - RENDER_W / 2) * ground_lift(pose.z) * cos_of(pose.heading) + FOV
        * ground_lift(pose.z) * sin_of(pose.heading)) + pose.x * GROUND_LIFT_DIV * ground_divisor(
        y,
        pose.pitch,
    ) * SCALE
}

/// The pixel of the pattern at `(x, y)`, if the point of the ground under it
/// lies in the chequered square: red where the two cell numbers are both
/// even or both odd, green otherwise.
pub open spec fn ground_pixel(x: int, y: int, pose: Pose) -> Option<Pixel> {
    let u_num = ground_u_num(x, y, pose);
    let v_num = ground_v_num(x, y, pose);
    let u = reflect_div(u_num, ground_den(y, pose));
    let v = reflect_div(v_num, ground_den(y, pose));
    if u_num == 0 || v_num == 0 || u >= GROUND_CELLS || v >= GROUND_CELLS {
        None
    } else if u % 2 == v % 2 {
        Some(Pixel { x: x as i32, y: y as i32, r: 255, g: 0, b: 0 })
    } else {
        Some(Pixel { x: x as i32, y: y as i32, r: 0, g: 255, b: 0 })
    }
}

/// The first screen row of the pattern: the ground lies below the horizon of
/// a camera over it, above the horizon of a camera under it.
pub open spec fn ground_from(pose: Pose) -> int {
    if pose.z >= 0 {
        clamp(RENDER_H / 2 - ground_look(pose.pitch), 0, RENDER_H as int)
    } else {
        0
    }
}

/// The screen row at which the pattern ends.
pub open spec fn ground_to(pose: Pose) -> int {
    if pose.z >= 0 {
        clamp(RENDER_H + ground_look(pose.pitch), 0, RENDER_H as int)
    } else {
        clamp(RENDER_H / 2 - ground_look(pose.pitch), 0, RENDER_H as int)
    }
}

/// The pixels of the pattern in row `y`, in the columns before `upto`.
pub open spec fn ground_row(y: int, pose: Pose, upto: int) -> Seq<Pixel>
    decreases upto,
{
    if upto <= 0 {
        Seq::empty()
    } else {
        match ground_pixel(upto - 1, y, pose) {
            Some(painted) => ground_row(y, pose, upto - 1).push(painted),
            None => ground_row(y, pose, upto - 1),
        }
    }
}

/// The pixels of the pattern in its rows before `upto`, row after row.
pub open spec fn ground_rows(pose: Pose, upto: int) -> Seq<Pixel>
    decreases upto - ground_from(pose),
{
    if upto <= ground_from(pose) {
        Seq::empty()
    } else {
        ground_rows(pose, upto - 1) + ground_row(upto - 1, pose, RENDER_W as int)
    }
}

/// The pitch term of the pattern.
fn look_of(pitch: i32) -> (look: i64)
    ensures
        look == ground_look(pitch as int),
        -0x1_0000_0000 <= look <= RENDER_H,
{
    let raw: i64 = 0 - GROUND_LOOK as i64 * (pitch as i64);
    if raw > RENDER_H as i64 {
        RENDER_H as i64
    } else {
        raw
    }
}

/// The pixel of the pattern at `(x, y)`, if there is one.
fn ground_sample(p: &Player, x: i32, y: i32) -> (painted: Option<Pixel>)
    requires
        0 <= x < RENDER_W,
        0 <= y < RENDER_H,
    ensures
        painted == ground_pixel(x as int, y as int, p@),
{
    let row: i128 = y as i128 - (RENDER_H / 2) as i128 + look_of(p.look_up_down) as i128;
    let divisor: i128 = if row == 0 {
        1
    } else {
        row
    };
    assert(divisor == ground_divisor(y as int, p@.pitch));
    let lift: i128 = if p.pos.z == 0 {
        1
    } else {
        p.pos.z as i128
    };
    let sin: i128 = p.trig.sin(p.angle) as i128;
    let cos: i128 = p.trig.cos(p.angle) as i128;
    proof {
        lemma_mul_bound(x - 80, lift as int, 80, 0x8000_0000);
    }
    let side: i128 = (x as i128 - (RENDER_W / 2) as i128) * lift;
    let forward: i128 = FOV as i128 * lift;
    proof {
        lemma_mul_bound(side as int, sin as int, 80int * 0x8000_0000, 65536);
        lemma_mul_bound(side as int, cos as int, 80int * 0x8000_0000, 65536);
        lemma_mul_bound(forward as int, sin as int, 200int * 0x8000_0000, 65536);
        lemma_mul_bound(forward as int, cos as int, 200int * 0x8000_0000, 65536);
        lemma_mul_bound(p.pos.y * 16, divisor as int, 16int * 0x8000_0000, 0x2_0000_0000);
        lemma_mul_bound(p.pos.x * 16, divisor as int, 16int * 0x8000_0000, 0x2_0000_0000);
    }
    let den: i128 = (GROUND_LIFT_DIV * GROUND_POSITION_DIV) as i128 * divisor * SCALE as i128;
    assert(den == ground_den(y as int, p@));
    let u_num: i128 = GROUND_POSITION_DIV as i128 * (side * sin - forward * cos) - ((p.pos.y as i128
        * GROUND_LIFT_DIV as i128) * divisor) * SCALE as i128;
    let v_num: i128 = GROUND_POSITION_DIV as i128 * (side * cos + forward * sin) + ((p.pos.x as i128
        * GROUND_LIFT_DIV as i128) * divisor) * SCALE as i128;
    assert(u_num == ground_u_num(x as int, y as int, p@));
    assert(v_num == ground_v_num(x as int, y as int, p@));
    if u_num == 0 || v_num == 0 {
        return None;
    }
    let u: i128 = reflected(u_num, den);
    let v: i128 = reflected(v_num, den);
    if u >= GROUND_CELLS as i128 || v >= GROUND_CELLS as i128 {
        None
    } else if u % 2 == v % 2 {
        Some(Pixel { x, y, r: 255, g: 0, b: 0 })
    } else {
        Some(Pixel { x, y, r: 0, g: 255, b: 0 })
    }
}

impl Renderer {
    /// Paints the ground pattern as the camera sees it, and returns its
    /// pixels row by row. The pattern is cut off at the edges of the screen.
    pub fn floor(&self, p: &Player) -> (frame: Vec<Pixel>)
        ensures
            frame@ == ground_rows(p@, ground_to(p@)),
            all_on_screen(frame@, 0),
    {
        let look: i64 = look_of(p.look_up_down);
        let horizon: i32 = clamp_range((RENDER_H / 2) as i64 - look, 0, RENDER_H);
        let from: i32 = if p.pos.z >= 0 {
            horizon
        } else {
            0
        };
        let to: i32 = if p.pos.z >= 0 {
            clamp_range(RENDER_H as i64 + look, 0, RENDER_H)
        } else {
            horizon
        };
        let mut frame: Vec<Pixel> = Vec::new();
        let mut y: i32 = from;
        while y < to
            invariant
                from == ground_from(p@),
                to == ground_to(p@),
                0 <= from <= RENDER_H,
                0 <= to <= RENDER_H,
                from <= y,
                from < to ==> y <= to,
                from >= to ==> y == from,
                frame@ == ground_rows(p@, y as int),
                all_on_screen(frame@, 0),
            decreases to - y,
        {
            let ghost before = frame@;
            let mut x: i32 = 0;
            while x < RENDER_W
                invariant
                    0 <= x <= RENDER_W,
                    0 <= y < RENDER_H,
                    frame@ == before + ground_row(y as int, p@, x as int),
                    all_on_screen(frame@, 0),
                decreases RENDER_W - x,
            {
                match ground_sample(p, x, y) {
                    Some(painted) => {
                        frame.push(painted);
                        assert(frame@ =~= before + ground_row(y as int, p@, x as int + 1));
                    },
                    None => {},
                }
                x += 1;
            }
            y += 1;
        }
        frame
    }
}

} // verus!
