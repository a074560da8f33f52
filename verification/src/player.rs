//! The camera: where the player stands, where they look, and how input moves
//! them.
use vstd::prelude::*;
use crate::arith::clamp_i32;
use crate::arith::clamp_to_i32;
use crate::arith::lemma_mul_bound;
use crate::arith::trunc_div;
use crate::arith::wrap_into;
use crate::trig::cos_of;
use crate::trig::normalize;
use crate::trig::sin_of;
use crate::trig::TrigTable;
use crate::trig::SCALE;

verus! {

/// Degrees turned by one turn command.
pub const TURN_STEP: i32 = 4;

/// Height gained or lost by one ascend or descend command.
pub const CLIMB_STEP: i32 = 4;

/// A point of the world.
#[derive(Clone, Copy, Debug, PartialEq, Eq, Structural)]
pub struct Position {
    /// Left and right.
    pub x: i32,
    /// Near and far.
    pub y: i32,
    /// Up and down.
    pub z: i32,
}

/// The camera.
pub struct Player {
    /// Where the camera is.
    pub pos: Position,
    /// Heading in whole degrees, in `0 .. 360`.
    pub angle: i32,
    /// Pitch: how far the camera looks down (positive) or up (negative).
    pub look_up_down: i32,
    /// Sines and cosines of the headings.
    pub trig: TrigTable,
}

/// What the renderer reads of the camera, as mathematical integers.
pub struct Pose {
    pub x: int,
    pub y: int,
    pub z: int,
    pub heading: int,
    pub pitch: int,
}

/// One movement command.
#[derive(Clone, Copy, Debug, PartialEq, Eq, Structural)]
pub enum Move {
    /// Step along the heading.
    Advance,
    /// Step against the heading.
    Retreat,
    /// Turn by `TURN_STEP` degrees to the left.
    TurnLeft,
    /// Turn by `TURN_STEP` degrees to the right.
    TurnRight,
    /// Rise by `CLIMB_STEP`.
    Ascend,
    /// Sink by `CLIMB_STEP`.
    Descend,
    /// Tilt the view up by one.
    LookUp,
    /// Tilt the view down by one.
    LookDown,
    /// Step sideways to the left of the heading.
    StrafeLeft,
    /// Step sideways to the right of the heading.
    StrafeRight,
}

/// The movement flags of one frame.
#[derive(Clone, Copy, Debug)]
pub struct Input {
    pub advance: bool,
    pub retreat: bool,
    pub strafe_left: bool,
    pub strafe_right: bool,
    pub turn_left: bool,
    pub turn_right: bool,
    pub ascend: bool,
    pub descend: bool,
    pub look_up: bool,
    pub look_down: bool,
}

/// How far a step of length `velocity` carries along an axis on which the
/// heading has the fixed-point component `component`. Rounded toward zero.
pub open spec fn stride(component: int, velocity: int) -> int {
    trunc_div(component * velocity, SCALE as int)
}

impl Pose {
    /// The heading is normalized.
    pub open spec fn valid(self) -> bool {
        0 <= self.heading < 360
    }

    /// The pose after one movement command. Positions and pitch stop at the
    /// ends of the `i32` range; the heading wraps around the full turn.
    pub open spec fn moved(self, command: Move, velocity: int) -> Pose {
        let dx = stride(sin_of(self.heading), velocity);
        let dy = stride(cos_of(self.heading), velocity);
        match command {
            Move::Advance => Pose { x: clamp_i32(self.x + dx), y: clamp_i32(self.y + dy), ..self },
            Move::Retreat => Pose { x: clamp_i32(self.x - dx), y: clamp_i32(self.y - dy), ..self },
            Move::TurnLeft => Pose { heading: normalize(self.heading + TURN_STEP), ..self },
            Move::TurnRight => Pose { heading: normalize(self.heading - TURN_STEP), ..self },
            Move::Ascend => Pose { z: clamp_i32(self.z + CLIMB_STEP), ..self },
            Move::Descend => Pose { z: clamp_i32(self.z - CLIMB_STEP), ..self },
            Move::LookUp => Pose { pitch: clamp_i32(self.pitch - 1), ..self },
            Move::LookDown => Pose { pitch: clamp_i32(self.pitch + 1), ..self },
            Move::StrafeLeft => Pose { x: clamp_i32(self.x + dy), y: clamp_i32(self.y - dx), ..self },
            Move::StrafeRight => Pose { x: clamp_i32(self.x - dy), y: clamp_i32(self.y + dx), ..self },
        }
    }

    /// The pose after `command` if `flag` is set, else the pose itself.
    pub open spec fn moved_if(self, flag: bool, command: Move, velocity: int) -> Pose {
        if flag {
            self.moved(command, velocity)
        } else {
            self
        }
    }

    /// The pose after the commands of one frame, taken in a fixed order.
    pub open spec fn steered(self, input: Input, velocity: int) -> Pose {
        self.moved_if(input.advance, Move::Advance, velocity).moved_if(
            input.retreat,
            Move::Retreat,
            velocity,
        ).moved_if(input.turn_right, Move::TurnRight, velocity).moved_if(
            input.turn_left,
            Move::TurnLeft,
            velocity,
        ).moved_if(input.strafe_left, Move::StrafeLeft, velocity).moved_if(
            input.strafe_right,
            Move::StrafeRight,
            velocity,
        ).moved_if(input.ascend, Move::Ascend, velocity).moved_if(
            input.descend,
            Move::Descend,
            velocity,
        ).moved_if(input.look_up, Move::LookUp, velocity).moved_if(
            input.look_down,
            Move::LookDown,
            velocity,
        )
    }

    /// The pose after a sequence of movement commands.
    pub open spec fn moved_all(self, commands: Seq<Move>, velocity: int) -> Pose
        decreases commands.len(),
    {
        if commands.len() == 0 {
            self
        } else {
            self.moved_all(commands.drop_last(), velocity).moved(commands.last(), velocity)
        }
    }
}

/// One movement command keeps a normalized heading normalized, and a turn
/// normalizes whatever heading there was.
pub proof fn lemma_move_keeps_heading(pose: Pose, command: Move, velocity: int)
    ensures
        pose.valid() ==> pose.moved(command, velocity).valid(),
        command == Move::TurnLeft || command == Move::TurnRight ==> pose.moved(
            command,
            velocity,
        ).valid(),
{
}

/// After any sequence of movement commands, turns or others, a heading that
/// was normalized is normalized.
pub proof fn lemma_heading_stays_normalized(pose: Pose, commands: Seq<Move>, velocity: int)
    requires
        pose.valid(),
    ensures
        pose.moved_all(commands, velocity).valid(),
    decreases commands.len(),
{
    if commands.len() > 0 {
        lemma_heading_stays_normalized(pose, commands.drop_last(), velocity);
        lemma_move_keeps_heading(
            pose.moved_all(commands.drop_last(), velocity),
            commands.last(),
            velocity,
        );
    }
}

impl View for Player {
    type V = Pose;

    open spec fn view(&self) -> Pose {
        Pose {
            x: self.pos.x as int,
            y: self.pos.y as int,
            z: self.pos.z as int,
            heading: self.angle as int,
            pitch: self.look_up_down as int,
        }
    }
}

impl Player {
    /// The camera at its starting place.
    pub fn new() -> (player: Self)
        ensures
            player@ == (Pose { x: -37, y: -190, z: 5, heading: 25, pitch: 0 }),
    {
        Player {
            pos: Position { x: -37, y: -190, z: 5 },
            angle: 25,
            look_up_down: 0,
            trig: TrigTable::new(),
        }
    }

    /// How far a step of length `velocity` carries along the x axis (`.0`)
    /// and along the y axis (`.1`).
    pub fn strides(&self, velocity: i32) -> (d: (i64, i64))
        ensures
            d.0 == stride(sin_of(self@.heading), velocity as int),
            d.1 == stride(cos_of(self@.heading), velocity as int),
    {
        let s: i64 = self.trig.sin(self.angle) as i64;
        let c: i64 = self.trig.cos(self.angle) as i64;
        let v: i64 = velocity as i64;
        proof {
            lemma_mul_bound(s as int, v as int, 65536, 0x8000_0000);
            lemma_mul_bound(c as int, v as int, 65536, 0x8000_0000);
        }
        let dx: i64 = (s * v) / (SCALE as i64);
        let dy: i64 = (c * v) / (SCALE as i64);
        (dx, dy)
    }

    /// Carries out one movement command.
    pub fn advance(&mut self, key: Move, velocity: i32)
        ensures
            final(self)@ == old(self)@.moved(key, velocity as int),
            old(self)@.valid() ==> final(self)@.valid(),
    {
        let (dx, dy) = self.strides(velocity);
        match key {
            Move::Advance => {
                self.pos.x = clamp_to_i32(self.pos.x as i128 + dx as i128);
                self.pos.y = clamp_to_i32(self.pos.y as i128 + dy as i128);
            },
            Move::Retreat => {
                self.pos.x = clamp_to_i32(self.pos.x as i128 - dx as i128);
                self.pos.y = clamp_to_i32(self.pos.y as i128 - dy as i128);
            },
            Move::TurnLeft => {
                self.angle = wrap_into(self.angle as i128 + TURN_STEP as i128, 360) as i32;
            },
            Move::TurnRight => {
                self.angle = wrap_into(self.angle as i128 - TURN_STEP as i128, 360) as i32;
            },
            Move::Ascend => {
                self.pos.z = clamp_to_i32(self.pos.z as i128 + CLIMB_STEP as i128);
            },
            Move::Descend => {
                self.pos.z = clamp_to_i32(self.pos.z as i128 - CLIMB_STEP as i128);
            },
            Move::LookUp => {
                self.look_up_down = clamp_to_i32(self.look_up_down as i128 - 1);
            },
            Move::LookDown => {
                self.look_up_down = clamp_to_i32(self.look_up_down as i128 + 1);
            },
            Move::StrafeLeft => {
                self.pos.x = clamp_to_i32(self.pos.x as i128 + dy as i128);
                self.pos.y = clamp_to_i32(self.pos.y as i128 - dx as i128);
            },
            Move::StrafeRight => {
                self.pos.x = clamp_to_i32(self.pos.x as i128 - dy as i128);
                self.pos.y = clamp_to_i32(self.pos.y as i128 + dx as i128);
            },
        }
    }

    /// Carries out the movement commands of one frame. Each flag that is set
    /// is one command, and the commands are taken in this order: advance,
    /// retreat, turn right, turn left, strafe left, strafe right, ascend,
    /// descend, look up, look down.
    pub fn steer(&mut self, input: &Input, velocity: i32)
        ensures
            final(self)@ == old(self)@.steered(*input, velocity as int),
    {
        if input.advance {
            self.advance(Move::Advance, velocity);
        }
        if input.retreat {
            self.advance(Move::Retreat, velocity);
        }
        if input.turn_right {
            self.advance(Move::TurnRight, velocity);
        }
        if input.turn_left {
            self.advance(Move::TurnLeft, velocity);
        }
        if input.strafe_left {
            self.advance(Move::StrafeLeft, velocity);
        }
        if input.strafe_right {
            self.advance(Move::StrafeRight, velocity);
        }
        if input.ascend {
            self.advance(Move::Ascend, velocity);
        }
        if input.descend {
            self.advance(Move::Descend, velocity);
        }
        if input.look_up {
            self.advance(Move::LookUp, velocity);
        }
        if input.look_down {
            self.advance(Move::LookDown, velocity);
        }
    }
}

} // verus!
