use doomlike::player::Input;
use doomlike::player::Move;
use doomlike::player::Player;
use doomlike::player::Position;

fn at(x: i32, y: i32, z: i32, angle: i32) -> Player {
    let mut p = Player::new();
    p.pos = Position { x, y, z };
    p.angle = angle;
    p
}

fn no_input() -> Input {
    Input {
        advance: false,
        retreat: false,
        strafe_left: false,
        strafe_right: false,
        turn_left: false,
        turn_right: false,
        ascend: false,
        descend: false,
        look_up: false,
        look_down: false,
    }
}

#[test]
fn new_player_stands_at_the_start() {
    let p = Player::new();
    assert_eq!(p.pos, Position { x: -37, y: -190, z: 5 });
    assert_eq!(p.angle, 25);
    assert_eq!(p.look_up_down, 0);
}

#[test]
fn strides_round_toward_zero() {
    let p = Player::new();
    assert_eq!(p.strides(4), (1, 3));
    assert_eq!(p.strides(-4), (-1, -3));
    let q = at(0, 0, 0, 205);
    assert_eq!(q.strides(10), (-4, -9));
    assert_eq!(at(0, 0, 0, 90).strides(i32::MIN), (i32::MIN as i64, 0));
    assert_eq!(at(0, 0, 0, 270).strides(i32::MIN), (-(i32::MIN as i64), 0));
}

#[test]
fn advance_and_retreat_follow_the_heading() {
    let mut p = Player::new();
    p.advance(Move::Advance, 4);
    assert_eq!(p.pos, Position { x: -36, y: -187, z: 5 });
    p.advance(Move::Retreat, 4);
    p.advance(Move::Retreat, 4);
    assert_eq!(p.pos, Position { x: -38, y: -193, z: 5 });
    assert_eq!(p.angle, 25);
}

#[test]
fn strafing_is_across_the_heading() {
    let mut p = Player::new();
    p.advance(Move::StrafeLeft, 4);
    assert_eq!(p.pos, Position { x: -34, y: -191, z: 5 });
    let mut q = Player::new();
    q.advance(Move::StrafeRight, 4);
    assert_eq!(q.pos, Position { x: -40, y: -189, z: 5 });
}

#[test]
fn turning_wraps_around_the_full_turn() {
    let mut p = Player::new();
    p.advance(Move::TurnLeft, 4);
    assert_eq!(p.angle, 29);
    p.angle = 358;
    p.advance(Move::TurnLeft, 4);
    assert_eq!(p.angle, 2);
    p.advance(Move::TurnRight, 4);
    assert_eq!(p.angle, 358);
    p.angle = 0;
    p.advance(Move::TurnRight, 4);
    assert_eq!(p.angle, 356);
    p.angle = 356;
    p.advance(Move::TurnLeft, 4);
    assert_eq!(p.angle, 0);
}

#[test]
fn turning_normalizes_a_heading_that_was_not() {
    let mut p = Player::new();
    p.angle = 1000;
    p.advance(Move::TurnLeft, 0);
    assert_eq!(p.angle, 284);
    p.angle = -1;
    p.advance(Move::TurnRight, 0);
    assert_eq!(p.angle, 355);
    p.angle = i32::MAX;
    p.advance(Move::TurnLeft, 0);
    assert!(p.angle >= 0 && p.angle < 360);
    p.angle = i32::MIN;
    p.advance(Move::TurnRight, 0);
    assert!(p.angle >= 0 && p.angle < 360);
}

#[test]
fn heading_stays_normalized_through_many_turns() {
    let mut p = Player::new();
    let mut i: i32 = 0;
    while i < 1000 {
        p.advance(Move::TurnLeft, 4);
        assert!(p.angle >= 0 && p.angle < 360);
        if i % 3 == 0 {
            p.advance(Move::Advance, 7);
        }
        i += 1;
    }
    assert_eq!(p.angle, (25 + 4 * 1000) % 360);
    while i > 0 {
        p.advance(Move::TurnRight, 4);
        p.advance(Move::TurnRight, 4);
        assert!(p.angle >= 0 && p.angle < 360);
        i -= 1;
    }
    assert_eq!(p.angle, (25 - 4000i32).rem_euclid(360));
}

#[test]
fn climbing_and_looking() {
    let mut p = Player::new();
    p.advance(Move::Ascend, 4);
    assert_eq!(p.pos.z, 9);
    p.advance(Move::Descend, 4);
    p.advance(Move::Descend, 4);
    assert_eq!(p.pos.z, 1);
    p.advance(Move::LookUp, 4);
    assert_eq!(p.look_up_down, -1);
    p.advance(Move::LookDown, 4);
    p.advance(Move::LookDown, 4);
    assert_eq!(p.look_up_down, 1);
    assert_eq!((p.pos.x, p.pos.y, p.angle), (-37, -190, 25));
}

#[test]
fn positions_stop_at_the_ends_of_the_range() {
    let mut p = at(i32::MAX - 3, i32::MIN + 2, i32::MAX - 1, 90);
    p.advance(Move::Advance, 10);
    assert_eq!(p.pos.x, i32::MAX);
    assert_eq!(p.pos.y, i32::MIN + 2);
    p.advance(Move::StrafeRight, 10);
    assert_eq!(p.pos.y, i32::MIN + 12);
    p.advance(Move::StrafeLeft, 100);
    assert_eq!(p.pos.y, i32::MIN);
    p.advance(Move::Ascend, 0);
    assert_eq!(p.pos.z, i32::MAX);
    p.look_up_down = i32::MIN;
    p.advance(Move::LookUp, 0);
    assert_eq!(p.look_up_down, i32::MIN);
    p.look_up_down = i32::MAX;
    p.advance(Move::LookDown, 0);
    assert_eq!(p.look_up_down, i32::MAX);
}

#[test]
fn steer_without_flags_changes_nothing() {
    let mut p = Player::new();
    p.steer(&no_input(), 4);
    assert_eq!(p.pos, Position { x: -37, y: -190, z: 5 });
    assert_eq!((p.angle, p.look_up_down), (25, 0));
}

#[test]
fn steer_takes_the_commands_in_order() {
    let mut p = Player::new();
    let mut input = no_input();
    input.advance = true;
    input.turn_left = true;
    input.ascend = true;
    input.look_down = true;
    p.steer(&input, 4);
    assert_eq!(p.pos, Position { x: -36, y: -187, z: 9 });
    assert_eq!((p.angle, p.look_up_down), (29, 1));
    let mut q = Player::new();
    let mut turn_then_strafe = no_input();
    turn_then_strafe.turn_right = true;
    turn_then_strafe.strafe_left = true;
    q.steer(&turn_then_strafe, 100);
    assert_eq!(q.angle, 21);
    assert_eq!(q.pos, Position { x: -37 + 93, y: -190 - 35, z: 5 });
}

#[test]
fn opposite_flags_cancel() {
    let mut p = Player::new();
    let mut input = no_input();
    input.advance = true;
    input.retreat = true;
    input.turn_left = true;
    input.turn_right = true;
    input.ascend = true;
    input.descend = true;
    input.look_up = true;
    input.look_down = true;
    p.steer(&input, 9);
    assert_eq!(p.pos, Position { x: -37, y: -190, z: 5 });
    assert_eq!((p.angle, p.look_up_down), (25, 0));
}
