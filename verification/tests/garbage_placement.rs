use rand::SeedableRng;
use worldgen::errors::{ConfigError, GarbageError};
use worldgen::garbage::{spawn_garbage, validate_settings, GarbageSettings};
use worldgen::tile::{Content, Tile, TileType};

fn grass_grid(n: usize) -> Vec<Vec<Tile>> {
    let mut grid = Vec::new();
    for _ in 0..n {
        let mut row = Vec::new();
        for _ in 0..n {
            row.push(Tile { tile_type: TileType::Grass, content: Content::Empty, elevation: 0 });
        }
        grid.push(row);
    }
    grid
}

fn scenario_settings() -> GarbageSettings {
    GarbageSettings {
        total_garbage_quantity: 100,
        garbage_pile_size: 2..5,
        garbage_per_tile_quantity: 1..5,
        spawn_in_near_tiles_probability: 1_000_000,
        probability_step_by: 200_000,
    }
}

#[test]
fn scenario_reaches_target_with_amounts_in_band() {
    let mut world = grass_grid(200);
    let settings = scenario_settings();
    let mut rng = rand::rngs::StdRng::seed_from_u64(42);
    let placed = spawn_garbage(&mut world, &settings, &mut rng).unwrap();
    assert!(placed >= 100);
    let mut sum = 0usize;
    for row in &world {
        for tile in row {
            match tile.content {
                Content::Empty => {}
                Content::Garbage(a) => {
                    assert!((1..=4).contains(&a));
                    sum += a;
                }
            }
        }
    }
    assert_eq!(sum, placed);
}

#[test]
fn border_tiles_never_receive_garbage() {
    let mut world = grass_grid(200);
    let settings = scenario_settings();
    let mut rng = rand::rngs::StdRng::seed_from_u64(7);
    spawn_garbage(&mut world, &settings, &mut rng).unwrap();
    // The narrowest pile of this configuration uses a 3-sided matrix, so
    // nothing within 3 tiles of any edge is ever written.
    for y in 0..200usize {
        for x in 0..200usize {
            if y < 3 || y >= 197 || x < 3 || x >= 197 {
                assert_eq!(world[y][x].content, Content::Empty);
            }
        }
    }
}

#[test]
fn occupied_tiles_are_never_overwritten() {
    let mut world = grass_grid(120);
    for (y, x, a) in [(40usize, 40usize, 7usize), (60, 60, 9), (80, 30, 11)] {
        world[y][x].content = Content::Garbage(a);
    }
    let mut settings = scenario_settings();
    settings.total_garbage_quantity = 80;
    let mut rng = rand::rngs::StdRng::seed_from_u64(3);
    let placed = spawn_garbage(&mut world, &settings, &mut rng).unwrap();
    assert_eq!(world[40][40].content, Content::Garbage(7));
    assert_eq!(world[60][60].content, Content::Garbage(9));
    assert_eq!(world[80][30].content, Content::Garbage(11));
    // The returned count excludes what was already there.
    let mut sum = 0usize;
    for row in &world {
        for tile in row {
            if let Content::Garbage(a) = tile.content {
                sum += a;
            }
        }
    }
    assert_eq!(sum, placed + 7 + 9 + 11);
}

#[test]
fn terrain_kind_and_elevation_survive_placement() {
    let mut world = grass_grid(100);
    for y in 0..100usize {
        for x in 0..100usize {
            world[y][x].elevation = y * 100 + x;
        }
    }
    let mut settings = scenario_settings();
    settings.total_garbage_quantity = 50;
    let mut rng = rand::rngs::StdRng::seed_from_u64(11);
    spawn_garbage(&mut world, &settings, &mut rng).unwrap();
    for y in 0..100usize {
        for x in 0..100usize {
            assert_eq!(world[y][x].tile_type, TileType::Grass);
            assert_eq!(world[y][x].elevation, y * 100 + x);
        }
    }
}

#[test]
fn zero_radius_piles_place_nothing_and_exhaust() {
    // A pile range that only ever samples radius zero builds empty
    // matrices: every pass contributes nothing, without error, and the
    // run gives up once its pass budget is spent.
    let mut world = grass_grid(50);
    let settings = GarbageSettings {
        total_garbage_quantity: 1,
        garbage_pile_size: 0..1,
        garbage_per_tile_quantity: 1..5,
        spawn_in_near_tiles_probability: 1_000_000,
        probability_step_by: 200_000,
    };
    assert!(validate_settings(&settings, 50).is_ok());
    let mut rng = rand::rngs::StdRng::seed_from_u64(1);
    let r = spawn_garbage(&mut world, &settings, &mut rng);
    assert_eq!(r, Err(GarbageError::Exhaustion));
    for row in &world {
        for tile in row {
            assert_eq!(tile.content, Content::Empty);
        }
    }
}

#[test]
fn zero_target_is_met_immediately() {
    let mut world = grass_grid(50);
    let mut settings = scenario_settings();
    settings.total_garbage_quantity = 0;
    let mut rng = rand::rngs::StdRng::seed_from_u64(1);
    assert_eq!(spawn_garbage(&mut world, &settings, &mut rng), Ok(0));
}

#[test]
fn water_holds_no_garbage() {
    let mut world = grass_grid(60);
    for row in world.iter_mut() {
        for tile in row.iter_mut() {
            tile.tile_type = TileType::DeepWater;
        }
    }
    let mut settings = scenario_settings();
    settings.total_garbage_quantity = 1;
    let mut rng = rand::rngs::StdRng::seed_from_u64(5);
    let r = spawn_garbage(&mut world, &settings, &mut rng);
    assert_eq!(r, Err(GarbageError::Exhaustion));
    for row in &world {
        for tile in row {
            assert_eq!(tile.content, Content::Empty);
        }
    }
}

#[test]
fn seeded_runs_reproduce_exactly() {
    // All randomness flows through one explicitly seeded generator, so a
    // repeated run is bit-identical in both the grid and the count.
    let mut world1 = grass_grid(150);
    let mut world2 = grass_grid(150);
    let settings = scenario_settings();
    let mut rng1 = rand::rngs::StdRng::seed_from_u64(99);
    let mut rng2 = rand::rngs::StdRng::seed_from_u64(99);
    let placed1 = spawn_garbage(&mut world1, &settings, &mut rng1).unwrap();
    let placed2 = spawn_garbage(&mut world2, &settings, &mut rng2).unwrap();
    assert_eq!(placed1, placed2);
    assert_eq!(world1, world2);
}

#[test]
fn default_settings_follow_the_size() {
    let s = GarbageSettings::default(1000);
    assert_eq!(s.total_garbage_quantity, 1000);
    assert_eq!(s.garbage_pile_size, 1..50);
    assert_eq!(s.garbage_per_tile_quantity, 1..10);
    assert_eq!(s.spawn_in_near_tiles_probability, 1_000_000);
    assert_eq!(s.probability_step_by, 200_000);
}

#[test]
fn each_configuration_fault_names_its_error() {
    let good = scenario_settings();
    assert!(validate_settings(&good, 200).is_ok());

    assert_eq!(validate_settings(&good, 0), Err(ConfigError::ZeroGridSize));
    assert_eq!(validate_settings(&good, 0x10000), Err(ConfigError::GridTooLarge));

    let mut s = scenario_settings();
    s.total_garbage_quantity = 0x1000_0000;
    assert_eq!(validate_settings(&s, 200), Err(ConfigError::TargetTooLarge));

    let mut s = scenario_settings();
    s.garbage_pile_size = 5..5;
    assert_eq!(validate_settings(&s, 200), Err(ConfigError::EmptyPileRange));

    let mut s = scenario_settings();
    s.garbage_pile_size = 2..500;
    assert_eq!(validate_settings(&s, 200), Err(ConfigError::PileTooLarge));

    let mut s = scenario_settings();
    s.garbage_per_tile_quantity = 0..5;
    assert_eq!(validate_settings(&s, 200), Err(ConfigError::ZeroAmountStart));

    let mut s = scenario_settings();
    s.garbage_per_tile_quantity = 3..3;
    assert_eq!(validate_settings(&s, 200), Err(ConfigError::EmptyAmountRange));

    let mut s = scenario_settings();
    s.spawn_in_near_tiles_probability = 99_999;
    assert_eq!(validate_settings(&s, 200), Err(ConfigError::CeilingOutOfRange));

    let mut s = scenario_settings();
    s.spawn_in_near_tiles_probability = 1_000_001;
    assert_eq!(validate_settings(&s, 200), Err(ConfigError::CeilingOutOfRange));

    let mut s = scenario_settings();
    s.probability_step_by = 0;
    assert_eq!(validate_settings(&s, 200), Err(ConfigError::StepOutOfRange));

    let mut s = scenario_settings();
    s.probability_step_by = 1_000_000_001;
    assert_eq!(validate_settings(&s, 200), Err(ConfigError::StepOutOfRange));
}
