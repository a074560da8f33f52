use doomlike::player::Player;
use doomlike::player::Position;
use doomlike::raster::paint_flat;
use doomlike::raster::paint_wall;
use doomlike::raster::pixel;
use doomlike::raster::record_silhouette;
use doomlike::raster::Pixel;
use doomlike::raster::Vertex;
use doomlike::sector::Sector;
use doomlike::sector::Surface;
use doomlike::texture::Texture;
use doomlike::transform::ProjectedQuad;
use doomlike::wall::Wall;

fn graded() -> Texture {
    let mut data: Vec<u8> = Vec::new();
    let mut r: u8 = 0;
    while r < 4 {
        let mut c: u8 = 0;
        while c < 4 {
            data.push(10 * r + c);
            data.push(100 + 10 * r + c);
            data.push(200 + 4 * r + c);
            c += 1;
        }
        r += 1;
    }
    Texture { width: 4, height: 4, name: String::from("graded"), data }
}

fn quad() -> ProjectedQuad {
    ProjectedQuad { x1: -40, x2: 200, b1: -30, b2: 90, t1: 100, t2: 300 }
}

fn sector(surface: Surface, row: i32) -> Sector {
    Sector {
        ws: 0,
        we: 1,
        z1: 0,
        z2: 40,
        ceiling_texture: 0,
        floor_texture: 0,
        texture_scale: 2,
        horizon: vec![row; 160],
        surface,
        dist: 0,
    }
}

fn camera(x: i32, y: i32, z: i32, angle: i32, pitch: i32) -> Player {
    let mut p = Player::new();
    p.pos = Position { x, y, z };
    p.angle = angle;
    p.look_up_down = pitch;
    p
}

fn digest(pixels: &Vec<Pixel>) -> u64 {
    let mut h: u64 = 1469598103934665603;
    for p in pixels.iter() {
        let fields: [u64; 5] = [p.x as u32 as u64, p.y as u32 as u64, p.r as u64, p.g as u64, p.b as u64];
        for f in fields.iter() {
            h ^= *f;
            h = h.wrapping_mul(1099511628211);
        }
    }
    h
}

fn px(x: i32, y: i32, r: u8, g: u8, b: u8) -> Pixel {
    Pixel { x, y, r, g, b }
}

#[test]
fn pixel_is_a_unit_square() {
    let quad = pixel(3, 4, 1, 2, 3);
    assert_eq!(
        quad,
        vec![
            Vertex { x: 3, y: 4, r: 1, g: 2, b: 3 },
            Vertex { x: 4, y: 4, r: 1, g: 2, b: 3 },
            Vertex { x: 4, y: 5, r: 1, g: 2, b: 3 },
            Vertex { x: 3, y: 5, r: 1, g: 2, b: 3 },
        ]
    );
    let low = pixel(i32::MIN, i32::MAX - 1, 0, 0, 0);
    assert_eq!((low[2].x, low[2].y), (i32::MIN + 1, i32::MAX));
}

#[test]
fn wall_is_painted_column_by_column() {
    let wall = Wall { x1: 0, y1: 0, x2: 0, y2: 0, texture: 0, u: 2, v: 1, shade: 30 };
    let mut out: Vec<Pixel> = Vec::new();
    paint_wall(&quad(), &wall, &graded(), &mut out);
    assert_eq!(out.len(), 14020);
    assert_eq!(out[0], px(1, 1, 1, 101, 183));
    assert_eq!(out[5000], px(44, 48, 2, 102, 184));
    assert_eq!(out[14019], px(158, 118, 0, 92, 180));
    assert_eq!(digest(&out), 7574045536623413953);
}

#[test]
fn wall_is_appended_to_what_was_painted() {
    let wall = Wall { x1: 0, y1: 0, x2: 0, y2: 0, texture: 0, u: 2, v: 1, shade: 30 };
    let mut out: Vec<Pixel> = vec![px(7, 7, 7, 7, 7)];
    paint_wall(&quad(), &wall, &graded(), &mut out);
    assert_eq!(out.len(), 14021);
    assert_eq!(out[0], px(7, 7, 7, 7, 7));
    assert_eq!(out[1], px(1, 1, 1, 101, 183));
}

#[test]
fn wall_stays_inside_the_screen() {
    let wall = Wall { x1: 0, y1: 0, x2: 0, y2: 0, texture: 0, u: -3, v: 1, shade: 0 };
    let wide = ProjectedQuad {
        x1: i32::MIN,
        x2: i32::MAX,
        b1: i32::MIN,
        b2: i32::MIN,
        t1: i32::MAX,
        t2: i32::MAX,
    };
    let mut out: Vec<Pixel> = Vec::new();
    paint_wall(&wide, &wall, &graded(), &mut out);
    assert_eq!(out.len(), 158 * 118);
    for p in out.iter() {
        assert!(p.x >= 1 && p.x < 159);
        assert!(p.y >= 1 && p.y < 119);
    }
}

#[test]
fn wall_seen_from_behind_is_not_painted() {
    let wall = Wall { x1: 0, y1: 0, x2: 0, y2: 0, texture: 0, u: 2, v: 1, shade: 30 };
    let mut out: Vec<Pixel> = Vec::new();
    let turned = ProjectedQuad { x1: 100, x2: 50, b1: 0, b2: 0, t1: 10, t2: 10 };
    paint_wall(&turned, &wall, &graded(), &mut out);
    assert_eq!(out.len(), 0);
    let upside_down = ProjectedQuad { x1: 10, x2: 20, b1: 50, b2: 60, t1: 40, t2: 30 };
    paint_wall(&upside_down, &wall, &graded(), &mut out);
    assert_eq!(out.len(), 0);
    let thin = ProjectedQuad { x1: 10, x2: 10, b1: 0, b2: 0, t1: 10, t2: 10 };
    paint_wall(&thin, &wall, &graded(), &mut out);
    assert_eq!(out.len(), 0);
}

#[test]
fn silhouette_of_a_floor_is_the_bottom_edge() {
    let mut horizon: Vec<i32> = vec![120; 160];
    record_silhouette(&quad(), Surface::Floor, &mut horizon);
    assert_eq!(horizon[0], 120);
    assert_eq!(horizon[1], 1);
    assert_eq!(horizon[50], 15);
    assert_eq!(horizon[158], 69);
    assert_eq!(horizon[159], 120);
}

#[test]
fn silhouette_of_a_ceiling_is_the_top_edge() {
    let mut horizon: Vec<i32> = vec![0; 160];
    let low = ProjectedQuad { x1: 10, x2: 20, b1: 5, b2: 5, t1: 30, t2: 50 };
    record_silhouette(&low, Surface::Ceiling, &mut horizon);
    assert_eq!(horizon[9], 0);
    assert_eq!(horizon[10], 30);
    assert_eq!(horizon[15], 40);
    assert_eq!(horizon[19], 48);
    assert_eq!(horizon[20], 0);
    record_silhouette(&quad(), Surface::Ceiling, &mut horizon);
    assert_eq!(horizon[1], 119);
    assert_eq!(horizon[158], 119);
    assert_eq!(horizon[0], 0);
}

#[test]
fn silhouette_outside_the_screen_records_nothing() {
    let mut horizon: Vec<i32> = vec![33; 160];
    let left = ProjectedQuad { x1: -50, x2: -10, b1: 5, b2: 5, t1: 30, t2: 50 };
    record_silhouette(&left, Surface::Floor, &mut horizon);
    let right = ProjectedQuad { x1: 200, x2: 300, b1: 5, b2: 5, t1: 30, t2: 50 };
    record_silhouette(&right, Surface::Floor, &mut horizon);
    assert_eq!(horizon, vec![33; 160]);
}

#[test]
fn floor_is_filled_up_to_the_silhouette() {
    let p = camera(12, -7, -10, 33, 4);
    let mut out: Vec<Pixel> = Vec::new();
    paint_flat(&quad(), &sector(Surface::Floor, 120), &graded(), &p, &mut out);
    assert_eq!(out.len(), 14178);
    assert_eq!(out[0], px(1, 1, 10, 110, 204));
    assert_eq!(out[7000], px(63, 43, 10, 110, 204));
    assert_eq!(out[14177], px(158, 119, 2, 102, 202));
    assert_eq!(digest(&out), 14013318073310882300);
}

#[test]
fn ceiling_is_filled_from_the_silhouette() {
    let p = camera(12, -7, 50, 133, -2);
    let mut out: Vec<Pixel> = Vec::new();
    paint_flat(&quad(), &sector(Surface::Ceiling, 0), &graded(), &p, &mut out);
    assert_eq!(out.len(), 18802);
    assert_eq!(out[0], px(1, 0, 22, 122, 210));
    assert_eq!(out[7000], px(59, 98, 33, 133, 215));
    assert_eq!(out[18801], px(158, 118, 30, 130, 212));
    assert_eq!(digest(&out), 5386965183631618091);
}

#[test]
fn no_flat_where_the_walls_are_painted() {
    let p = camera(12, -7, 50, 133, -2);
    let mut out: Vec<Pixel> = Vec::new();
    paint_flat(&quad(), &sector(Surface::Walls, 60), &graded(), &p, &mut out);
    assert_eq!(out.len(), 0);
}

#[test]
fn flat_survives_extreme_values() {
    let mut p = camera(i32::MAX, i32::MIN, i32::MIN, 45, i32::MIN);
    let mut s = sector(Surface::Floor, 120);
    s.z1 = i32::MAX;
    s.texture_scale = i32::MIN;
    let mut out: Vec<Pixel> = Vec::new();
    paint_flat(&quad(), &s, &graded(), &p, &mut out);
    assert_eq!(out.len(), 14178);
    p.look_up_down = i32::MAX;
    s.texture_scale = i32::MAX;
    out.clear();
    paint_flat(&quad(), &s, &graded(), &p, &mut out);
    assert_eq!(out.len(), 14178);
}
