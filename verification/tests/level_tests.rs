use doomlike::level::Level;
use doomlike::level::LoadError;
use doomlike::renderer::Renderer;
use doomlike::sector::Sector;
use doomlike::sector::Surface;
use doomlike::texture::Texture;
use doomlike::wall::Wall;

fn wall(texture: i32) -> Wall {
    Wall { x1: 0, y1: 0, x2: 1, y2: 1, texture, u: 1, v: 1, shade: 0 }
}

fn sector(ws: i32, we: i32, ceiling_texture: i32, floor_texture: i32) -> Sector {
    Sector {
        ws,
        we,
        z1: 0,
        z2: 40,
        ceiling_texture,
        floor_texture,
        texture_scale: 1,
        horizon: vec![55, 66],
        surface: Surface::Ceiling,
        dist: 99,
    }
}

fn level(sectors: Vec<Sector>, walls: Vec<Wall>) -> Level {
    Level { sectors: sectors.len() as i32, sectors_data: sectors, walls: walls.len() as i32, walls_data: walls }
}

fn texture(width: i32, height: i32, bytes: usize) -> Texture {
    Texture { width, height, name: String::from("t"), data: vec![9; bytes] }
}

#[test]
fn loader_blanks_the_scratch_of_every_sector() {
    let loaded = Level::level_loader(level(
        vec![sector(0, 2, 0, 0), sector(2, 3, 1, 0)],
        vec![wall(0), wall(0), wall(1)],
    ));
    match loaded {
        Ok((sector_count, wall_count, sectors, walls)) => {
            assert_eq!((sector_count, wall_count), (2, 3));
            assert_eq!((sectors.len(), walls.len()), (2, 3));
            assert_eq!((sectors[0].ws, sectors[0].we), (0, 2));
            assert_eq!((sectors[1].ws, sectors[1].we), (2, 3));
            assert_eq!(sectors[1].ceiling_texture, 1);
            for s in sectors.iter() {
                assert_eq!(s.horizon, vec![0; 160]);
                assert_eq!(s.surface, Surface::Walls);
                assert_eq!(s.dist, 0);
                assert_eq!((s.z1, s.z2, s.texture_scale), (0, 40, 1));
            }
            assert_eq!(walls[2].texture, 1);
        }
        Err(_) => panic!("a good level was refused"),
    }
}

#[test]
fn loader_takes_an_empty_level() {
    let loaded = Level::level_loader(level(Vec::new(), Vec::new()));
    assert!(matches!(loaded, Ok((0, 0, _, _))));
}

#[test]
fn loader_refuses_a_wrong_sector_count() {
    let mut described = level(vec![sector(0, 1, 0, 0)], vec![wall(0)]);
    described.sectors = 2;
    assert!(matches!(Level::level_loader(described), Err(LoadError::SectorCount)));
    let mut described = level(vec![sector(0, 1, 0, 0)], vec![wall(0)]);
    described.sectors = -1;
    described.walls = 7;
    assert!(matches!(Level::level_loader(described), Err(LoadError::SectorCount)));
}

#[test]
fn loader_refuses_a_wrong_wall_count() {
    let mut described = level(vec![sector(0, 5, 0, 0)], vec![wall(0)]);
    described.walls = 0;
    assert!(matches!(Level::level_loader(described), Err(LoadError::WallCount)));
}

#[test]
fn loader_names_the_first_sector_with_a_bad_range() {
    let walls = vec![wall(0), wall(0)];
    let described = level(vec![sector(0, 2, 0, 0), sector(1, 3, 0, 0), sector(2, 1, 0, 0)], walls);
    assert!(matches!(Level::level_loader(described), Err(LoadError::WallRange(1))));
    let described = level(vec![sector(2, 1, 0, 0)], vec![wall(0), wall(0)]);
    assert!(matches!(Level::level_loader(described), Err(LoadError::WallRange(0))));
    let described = level(vec![sector(0, 2, 0, 0), sector(-1, 1, 0, 0)], vec![wall(0), wall(0)]);
    assert!(matches!(Level::level_loader(described), Err(LoadError::WallRange(1))));
    let described = level(vec![sector(2, 2, 0, 0)], vec![wall(0), wall(0)]);
    assert!(matches!(Level::level_loader(described), Ok(_)));
}

#[test]
fn renderer_takes_a_good_level() {
    let made = Renderer::new(
        level(vec![sector(0, 1, 1, 0)], vec![wall(1)]),
        vec![texture(1, 1, 3), texture(2, 3, 18)],
    );
    match made {
        Ok(renderer) => {
            assert_eq!(renderer.sectors.len(), 1);
            assert_eq!(renderer.walls.len(), 1);
            assert_eq!(renderer.textures.len(), 2);
            assert_eq!(renderer.sectors[0].horizon.len(), 160);
            assert_eq!(renderer.sectors[0].surface, Surface::Walls);
        }
        Err(_) => panic!("a good level was refused"),
    }
}

#[test]
fn renderer_refuses_a_faulty_level_first() {
    let mut described = level(vec![sector(0, 1, 5, 5)], vec![wall(5)]);
    described.walls = 3;
    let made = Renderer::new(described, vec![texture(0, 0, 0)]);
    assert!(matches!(made, Err(LoadError::WallCount)));
    let made = Renderer::new(level(vec![sector(0, 9, 5, 5)], vec![wall(5)]), vec![texture(0, 0, 0)]);
    assert!(matches!(made, Err(LoadError::WallRange(0))));
}

#[test]
fn renderer_refuses_a_bad_texture() {
    let made = Renderer::new(
        level(vec![sector(0, 1, 7, 7)], vec![wall(7)]),
        vec![texture(1, 1, 3), texture(2, 2, 3)],
    );
    assert!(matches!(made, Err(LoadError::BadTexture(1))));
}

#[test]
fn renderer_refuses_a_wall_without_texture() {
    let made = Renderer::new(
        level(vec![sector(0, 3, 7, 7)], vec![wall(0), wall(1), wall(-1)]),
        vec![texture(1, 1, 3)],
    );
    assert!(matches!(made, Err(LoadError::WallTexture(1))));
    let made = Renderer::new(level(vec![sector(0, 1, 0, 0)], vec![wall(0)]), Vec::new());
    assert!(matches!(made, Err(LoadError::WallTexture(0))));
}

#[test]
fn renderer_refuses_a_sector_without_texture() {
    let made = Renderer::new(
        level(vec![sector(0, 1, 0, 0), sector(0, 1, 0, 1), sector(0, 1, -1, 0)], vec![wall(0)]),
        vec![texture(1, 1, 3)],
    );
    assert!(matches!(made, Err(LoadError::SectorTexture(1))));
    let made = Renderer::new(
        level(vec![sector(0, 1, 1, 0)], vec![wall(0)]),
        vec![texture(1, 1, 3)],
    );
    assert!(matches!(made, Err(LoadError::SectorTexture(0))));
}

#[test]
fn sector_fits_its_level() {
    let mut s = sector(0, 2, 1, 0);
    s.horizon = vec![0; 160];
    assert!(s.is_fit(2, 2));
    assert!(s.is_fit(3, 5));
    assert!(!s.is_fit(1, 2));
    assert!(!s.is_fit(2, 1));
    s.horizon[159] = 120;
    assert!(s.is_fit(2, 2));
    s.horizon[159] = 121;
    assert!(!s.is_fit(2, 2));
    s.horizon[159] = -1;
    assert!(!s.is_fit(2, 2));
    s.horizon = vec![0; 159];
    assert!(!s.is_fit(2, 2));
    s.horizon = vec![0; 160];
    s.floor_texture = -1;
    assert!(!s.is_fit(2, 2));
    s.floor_texture = 0;
    s.ws = 3;
    assert!(!s.is_fit(2, 2));
    s.ws = -1;
    assert!(!s.is_fit(2, 2));
}

#[test]
fn renderer_knows_whether_it_is_consistent() {
    let made = Renderer::new(
        level(vec![sector(0, 1, 1, 0)], vec![wall(1)]),
        vec![texture(1, 1, 3), texture(2, 3, 18)],
    );
    let mut renderer = match made {
        Ok(renderer) => renderer,
        Err(_) => panic!("a good level was refused"),
    };
    assert!(renderer.is_wf());
    renderer.walls[0].texture = 2;
    assert!(!renderer.is_wf());
    renderer.walls[0].texture = 0;
    assert!(renderer.is_wf());
    renderer.sectors[0].we = 2;
    assert!(!renderer.is_wf());
    renderer.sectors[0].we = 1;
    renderer.textures[1].data.pop();
    assert!(!renderer.is_wf());
    renderer.textures[1].data.push(0);
    renderer.sectors[0].horizon.clear();
    assert!(!renderer.is_wf());
}
