use doomlike::trig::TrigTable;
use doomlike::trig::SCALE;

#[test]
fn axes_are_exact() {
    let t = TrigTable::new();
    assert_eq!((t.sin(0), t.cos(0)), (0, SCALE));
    assert_eq!((t.sin(90), t.cos(90)), (SCALE, 0));
    assert_eq!((t.sin(180), t.cos(180)), (0, -SCALE));
    assert_eq!((t.sin(270), t.cos(270)), (-SCALE, 0));
}

#[test]
fn known_values() {
    let t = TrigTable::new();
    assert_eq!(t.sin(30), 32768);
    assert_eq!(t.cos(60), 32768);
    assert_eq!(t.sin(25), 27697);
    assert_eq!(t.cos(25), 59396);
    assert_eq!(t.sin(45), 46341);
    assert_eq!(t.cos(45), 46341);
    assert_eq!(t.sin(1), 1144);
    assert_eq!(t.sin(359), -1144);
    assert_eq!(t.cos(179), -65526);
}

#[test]
fn headings_outside_the_turn_are_normalized() {
    let t = TrigTable::new();
    assert_eq!(t.sin(-30), -32768);
    assert_eq!(t.cos(400), 50203);
    assert_eq!(t.sin(360), 0);
    assert_eq!(t.cos(360), SCALE);
    assert_eq!(t.sin(-90), -SCALE);
    assert_eq!(t.sin(450), SCALE);
    assert_eq!(t.sin(i32::MAX), t.sin(i32::MAX % 360));
    assert_eq!(t.cos(i32::MIN), t.cos(360 + i32::MIN % 360));
}

#[test]
fn symmetries_hold_for_every_heading() {
    let t = TrigTable::new();
    let mut h: i32 = 0;
    while h < 360 {
        assert_eq!(t.sin(h), -t.sin(h + 180));
        assert_eq!(t.cos(h), t.sin(h + 90));
        assert_eq!(t.sin(h), t.sin(180 - h));
        assert!(t.sin(h) >= -SCALE && t.sin(h) <= SCALE);
        h += 1;
    }
}

#[test]
fn every_heading_is_near_the_unit_circle() {
    let t = TrigTable::new();
    let one: i64 = SCALE as i64 * SCALE as i64;
    let mut h: i32 = 0;
    while h < 360 {
        let s = t.sin(h) as i64;
        let c = t.cos(h) as i64;
        let off = s * s + c * c - one;
        assert!(off.abs() <= 2 * SCALE as i64);
        h += 1;
    }
}
