use doomlike::level::Level;
use doomlike::player::Player;
use doomlike::player::Position;
use doomlike::raster::Pixel;
use doomlike::renderer::Renderer;

fn renderer() -> Renderer {
    let level = Level { sectors: 0, sectors_data: Vec::new(), walls: 0, walls_data: Vec::new() };
    match Renderer::new(level, Vec::new()) {
        Ok(r) => r,
        Err(_) => panic!("the level was refused"),
    }
}

fn camera(x: i32, y: i32, z: i32, angle: i32, pitch: i32) -> Player {
    let mut p = Player::new();
    p.pos = Position { x, y, z };
    p.angle = angle;
    p.look_up_down = pitch;
    p
}

fn digest(pixels: &Vec<Pixel>) -> u64 {
    let mut h: u64 = 1469598103934665603;
    for p in pixels.iter() {
        let fields: [u64; 5] = [p.x as u32 as u64, p.y as u32 as u64, p.r as u64, p.g as u64, p.b as u64];
        for f in fields.iter() {
            h ^= *f;
            h = h.wrapping_mul(1099511628211);
        }
    }
    h
}

fn px(x: i32, y: i32, r: u8, g: u8, b: u8) -> Pixel {
    Pixel { x, y, r, g, b }
}

#[test]
fn ground_from_the_start() {
    let frame = renderer().floor(&Player::new());
    assert_eq!(frame.len(), 500);
    assert_eq!(frame[0], px(5, 64, 255, 0, 0));
    assert_eq!(frame[250], px(43, 66, 255, 0, 0));
    assert_eq!(frame[499], px(44, 68, 0, 255, 0));
    assert_eq!(digest(&frame), 2121400146980966419);
}

#[test]
fn ground_out_of_sight() {
    assert_eq!(renderer().floor(&camera(0, 0, 32, 0, 0)).len(), 0);
    assert_eq!(renderer().floor(&camera(20, -30, 64, 45, 70)).len(), 0);
}

#[test]
fn ground_from_height_zero() {
    let frame = renderer().floor(&camera(0, 0, 0, 0, 0));
    assert_eq!(frame.len(), 8904);
    assert_eq!(frame[0], px(0, 64, 255, 0, 0));
    assert_eq!(frame[4452], px(0, 92, 255, 0, 0));
    assert_eq!(frame[8903], px(159, 119, 0, 255, 0));
    assert_eq!(digest(&frame), 6193978450776562137);
}

#[test]
fn ground_looking_up() {
    let frame = renderer().floor(&camera(20, -30, 64, 45, -70));
    assert_eq!(frame.len(), 4297);
    assert_eq!(frame[0], px(30, 58, 255, 0, 0));
    assert_eq!(frame[2148], px(28, 98, 255, 0, 0));
    assert_eq!(frame[4296], px(112, 119, 0, 255, 0));
    assert_eq!(digest(&frame), 12592108717471521956);
}

#[test]
fn ground_from_below() {
    let frame = renderer().floor(&camera(-37, -190, -5, 0, 5));
    assert_eq!(frame.len(), 545);
    assert_eq!(frame[0], px(41, 62, 255, 0, 0));
    assert_eq!(frame[272], px(90, 64, 255, 0, 0));
    assert_eq!(frame[544], px(159, 66, 255, 0, 0));
    assert_eq!(digest(&frame), 11753117637125077122);
    let frame = renderer().floor(&camera(0, 0, -5, 0, 0));
    assert_eq!(frame.len(), 7155);
    assert_eq!(digest(&frame), 14772011127414070176);
}

#[test]
fn ground_stays_on_the_screen() {
    let extremes: [i32; 5] = [i32::MIN, -1, 0, 1, i32::MAX];
    for z in extremes.iter() {
        for pitch in extremes.iter() {
            let frame = renderer().floor(&camera(i32::MAX, i32::MIN, *z, 77, *pitch));
            for p in frame.iter() {
                assert!(p.x >= 0 && p.x < 160);
                assert!(p.y >= 0 && p.y < 120);
                assert!((p.r, p.g, p.b) == (255, 0, 0) || (p.r, p.g, p.b) == (0, 255, 0));
            }
        }
    }
}
