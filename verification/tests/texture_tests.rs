use doomlike::level::LoadError;
use doomlike::texture::darken;
use doomlike::texture::Texture;

fn graded() -> Texture {
    let mut data: Vec<u8> = Vec::new();
    let mut r: u8 = 0;
    while r < 4 {
        let mut c: u8 = 0;
        while c < 4 {
            data.push(10 * r + c);
            data.push(100 + 10 * r + c);
            data.push(200 + 4 * r + c);
            c += 1;
        }
        r += 1;
    }
    Texture { width: 4, height: 4, name: String::from("graded"), data }
}

fn sized(width: i32, height: i32, bytes: usize) -> Texture {
    Texture { width, height, name: String::from("t"), data: vec![0; bytes] }
}

#[test]
fn sampling_counts_rows_from_the_last() {
    let t = graded();
    assert_eq!(t.sample(0, 0), (30, 130, 212));
    assert_eq!(t.sample(3, 0), (33, 133, 215));
    assert_eq!(t.sample(0, 3), (0, 100, 200));
    assert_eq!(t.sample(1, 2), (11, 111, 205));
}

#[test]
fn sampling_tiles_in_both_directions() {
    let t = graded();
    assert_eq!(t.sample(5, 6), (11, 111, 205));
    assert_eq!(t.sample(4, 4), t.sample(0, 0));
    assert_eq!(t.sample(-1, -1), (3, 103, 203));
    assert_eq!(t.sample(-4, -8), t.sample(0, 0));
    assert_eq!(t.sample(i128::MAX, i128::MIN), t.sample(3, 0));
}

#[test]
fn wrapped_coordinates_lie_in_the_texture() {
    let t = Texture { width: 3, height: 5, name: String::from("t"), data: vec![7; 45] };
    let mut u: i128 = -50;
    while u < 50 {
        let mut v: i128 = -50;
        while v < 50 {
            let (column, row) = t.wrap_coord(u, v);
            assert!(column >= 0 && column < 3);
            assert!(row >= 0 && row < 5);
            assert_eq!(column as i128, u.rem_euclid(3));
            assert_eq!(row as i128, 4 - v.rem_euclid(5));
            assert_eq!(t.sample(u, v), (7, 7, 7));
            v += 1;
        }
        u += 1;
    }
}

#[test]
fn accumulated_steps_stay_in_the_texture() {
    let t = graded();
    let mut u: i128 = 0;
    let mut v: i128 = 0;
    let mut step: i128 = 1;
    let mut i: i32 = 0;
    while i < 200 {
        u += step;
        v -= 3 * step;
        step = step * 2 - 7;
        if step > 1_000_000_000_000 || step < -1_000_000_000_000 {
            step = 5;
        }
        let (column, row) = t.wrap_coord(u, v);
        assert!(column >= 0 && column < 4);
        assert!(row >= 0 && row < 4);
        i += 1;
    }
}

#[test]
fn wrap_coord_of_known_points() {
    let t = graded();
    assert_eq!(t.wrap_coord(0, 0), (0, 3));
    assert_eq!(t.wrap_coord(-1, -1), (3, 0));
    assert_eq!(t.wrap_coord(7, 9), (3, 2));
}

#[test]
fn darken_stops_at_black() {
    assert_eq!(darken(200, 30), 170);
    assert_eq!(darken(30, 30), 0);
    assert_eq!(darken(10, 30), 0);
    assert_eq!(darken(255, 0), 255);
    assert_eq!(darken(0, 255), 0);
}

#[test]
fn validity_asks_for_the_bytes_of_the_pixels() {
    assert!(graded().is_valid());
    assert!(sized(2, 2, 12).is_valid());
    assert!(sized(1, 1, 3).is_valid());
    assert!(!sized(2, 2, 11).is_valid());
    assert!(!sized(2, 2, 13).is_valid());
    assert!(!sized(0, 2, 0).is_valid());
    assert!(!sized(2, 0, 0).is_valid());
    assert!(!sized(-2, -2, 12).is_valid());
    assert!(!sized(i32::MAX, i32::MAX, 3).is_valid());
}

#[test]
fn loader_hands_a_good_table_back() {
    let loaded = Texture::texture_loader(vec![graded(), sized(2, 2, 12)]);
    match loaded {
        Ok(table) => {
            assert_eq!(table.len(), 2);
            assert_eq!(table[0].name, "graded");
            assert_eq!((table[1].width, table[1].height), (2, 2));
        }
        Err(_) => panic!("a good table was refused"),
    }
    assert!(matches!(Texture::texture_loader(Vec::new()), Ok(_)));
}

#[test]
fn loader_names_the_first_bad_texture() {
    let loaded = Texture::texture_loader(vec![graded(), sized(2, 2, 11), sized(0, 0, 0)]);
    assert!(matches!(loaded, Err(LoadError::BadTexture(1))));
    let loaded = Texture::texture_loader(vec![sized(0, 1, 0)]);
    assert!(matches!(loaded, Err(LoadError::BadTexture(0))));
}

#[test]
fn catalogue_entry_keeps_what_it_is_given() {
    let entry = doomlike::textures::Texture::new(64, 32, String::from("brick"));
    assert_eq!(entry.width, 64);
    assert_eq!(entry.height, 32);
    assert_eq!(entry.name, "brick");
}
