use noise::{Fbm, MultiFractal, NoiseFn, Perlin, RidgedMulti};
use worldgen::elevation::{bits_from_sort_key, elevation_range, encode_field, sort_key_from_bits};
use worldgen::generator::{LavaSettings, MappedThresholds, NoiseSettings, Thresholds,
    WorldGenerator};
use worldgen::errors::ConfigError;
use worldgen::tile::{Content, TileType};

fn sample_field(size: usize, seed: u32, octaves: usize, frequency: f64, lacunarity: f64,
    persistence: f64, attenuation: f64) -> Vec<Vec<f64>> {
    let noise = RidgedMulti::<Fbm<Perlin>>::new(seed)
        .set_octaves(octaves)
        .set_frequency(frequency)
        .set_lacunarity(lacunarity)
        .set_persistence(persistence)
        .set_attenuation(attenuation);
    (0..size)
        .map(|y| {
            let yn = y as f64 / size as f64;
            (0..size)
                .map(|x| noise.get([x as f64 / size as f64, yn, 0.0]))
                .collect()
        })
        .collect()
}

fn to_keys(field: &[Vec<f64>]) -> Vec<Vec<u64>> {
    let bits: Vec<Vec<u64>> = field
        .iter()
        .map(|row| row.iter().map(|v| v.to_bits()).collect())
        .collect();
    encode_field(&bits)
}

fn scenario_generator() -> WorldGenerator {
    WorldGenerator::new(
        50,
        NoiseSettings {
            seed: 42,
            octaves: 4,
            frequency_bits: 1.0f64.to_bits(),
            lacunarity_bits: 2.0f64.to_bits(),
            persistence_bits: 0.5f64.to_bits(),
            attenuation_bits: 2.0f64.to_bits(),
            scale_bits: 1.0f64.to_bits(),
        },
        Thresholds {
            threshold_deep_water: 200_000,
            threshold_shallow_water: 300_000,
            threshold_sand: 500_000,
            threshold_grass: 700_000,
            threshold_hill: 850_000,
            threshold_mountain: 950_000,
        },
        LavaSettings { number_of_spawn_points: 0, lava_flow_range: 0..0 },
    )
}

fn mapped_thresholds(keys: &Vec<Vec<u64>>, fractions: [f64; 6]) -> MappedThresholds {
    let (lo, hi) = elevation_range(keys).unwrap();
    let min = f64::from_bits(bits_from_sort_key(lo));
    let max = f64::from_bits(bits_from_sort_key(hi));
    let map = |f: f64| sort_key_from_bits((min + f * (max - min)).to_bits());
    MappedThresholds {
        deep_water: map(fractions[0]),
        shallow_water: map(fractions[1]),
        sand: map(fractions[2]),
        grass: map(fractions[3]),
        hill: map(fractions[4]),
        mountain: map(fractions[5]),
    }
}

#[test]
fn field_and_grid_are_square() {
    let field = sample_field(50, 42, 4, 1.0, 2.0, 0.5, 2.0);
    assert_eq!(field.len(), 50);
    for row in &field {
        assert_eq!(row.len(), 50);
    }
    let keys = to_keys(&field);
    let mapped = mapped_thresholds(&keys, [0.2, 0.3, 0.5, 0.7, 0.85, 0.95]);
    let world = scenario_generator().generate_terrain(&keys, &mapped);
    assert_eq!(world.len(), 50);
    for row in &world {
        assert_eq!(row.len(), 50);
    }
}

#[test]
fn identical_configs_give_bit_identical_fields() {
    let a = sample_field(40, 9, 3, 1.5, 2.0, 0.5, 2.0);
    let b = sample_field(40, 9, 3, 1.5, 2.0, 0.5, 2.0);
    for (ra, rb) in a.iter().zip(b.iter()) {
        for (va, vb) in ra.iter().zip(rb.iter()) {
            assert_eq!(va.to_bits(), vb.to_bits());
        }
    }
}

#[test]
fn classification_is_deterministic_and_covers_the_grid() {
    let generator = scenario_generator();
    let fractions = [0.2, 0.3, 0.5, 0.7, 0.85, 0.95];

    let field1 = sample_field(50, 42, 4, 1.0, 2.0, 0.5, 2.0);
    let keys1 = to_keys(&field1);
    let world1 = generator.generate_terrain(&keys1, &mapped_thresholds(&keys1, fractions));

    let field2 = sample_field(50, 42, 4, 1.0, 2.0, 0.5, 2.0);
    let keys2 = to_keys(&field2);
    let world2 = generator.generate_terrain(&keys2, &mapped_thresholds(&keys2, fractions));

    assert_eq!(world1, world2);

    let mut counts = [0usize; 7];
    for row in &world1 {
        for tile in row {
            assert_eq!(tile.content, Content::Empty);
            assert_eq!(tile.elevation, 0);
            let i = match tile.tile_type {
                TileType::DeepWater => 0,
                TileType::ShallowWater => 1,
                TileType::Sand => 2,
                TileType::Grass => 3,
                TileType::Hill => 4,
                TileType::Mountain => 5,
                TileType::Snow => 6,
            };
            counts[i] += 1;
        }
    }
    let total: usize = counts.iter().sum();
    assert_eq!(total, 2500);
}

#[test]
fn generation_config_is_validated_up_front() {
    let good = scenario_generator();
    assert!(good.validate().is_ok());

    let mut zero_size = scenario_generator();
    zero_size.size = 0;
    assert_eq!(zero_size.validate(), Err(ConfigError::ZeroGridSize));

    let mut zero_octaves = scenario_generator();
    zero_octaves.noise_settings.octaves = 0;
    assert_eq!(zero_octaves.validate(), Err(ConfigError::ZeroOctaves));
}
