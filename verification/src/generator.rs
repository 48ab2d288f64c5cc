use vstd::prelude::*;
use core::ops::Range;
use crate::errors::ConfigError;
use crate::tile::{spec_square, Content, Tile, TileType};

verus! {

/// Parameters of the ridged multifractal noise that synthesizes the
/// elevation field.  The shape parameters and the scale are real numbers
/// owned by the unverified noise stage; they are carried here as IEEE-754
/// bit patterns so that the configuration can live, unchanged and
/// comparable, inside the verified pipeline.
pub struct NoiseSettings {
    pub seed: u32,
    pub octaves: usize,
    pub frequency_bits: u64,
    pub lacunarity_bits: u64,
    pub persistence_bits: u64,
    pub attenuation_bits: u64,
    pub scale_bits: u64,
}

/// The six classification fractions, in millionths of the field's value
/// range, conceptually ascending from deep water to mountain.
pub struct Thresholds {
    pub threshold_deep_water: u32,
    pub threshold_shallow_water: u32,
    pub threshold_sand: u32,
    pub threshold_grass: u32,
    pub threshold_hill: u32,
    pub threshold_mountain: u32,
}

/// Configuration of the external lava stage, carried through untouched
/// for the collaborator that consumes it.
pub struct LavaSettings {
    pub number_of_spawn_points: usize,
    pub lava_flow_range: Range<usize>,
}

/// The six thresholds after linear mapping into the field's value range,
/// as elevation keys: `mapped = min + fraction * (max - min)` computed by
/// the caller in the field's own value domain and re-encoded.
pub struct MappedThresholds {
    pub deep_water: u64,
    pub shallow_water: u64,
    pub sand: u64,
    pub grass: u64,
    pub hill: u64,
    pub mountain: u64,
}

/// The mapped thresholds are in non-decreasing order.
pub open spec fn spec_ascending(t: MappedThresholds) -> bool {
    &&& t.deep_water <= t.shallow_water
    &&& t.shallow_water <= t.sand
    &&& t.sand <= t.grass
    &&& t.grass <= t.hill
    &&& t.hill <= t.mountain
}

/// The classification rule: the first kind, in the fixed ascending order,
/// whose mapped threshold strictly exceeds the cell value; `Snow` when
/// none does.  A value exactly equal to a mapped threshold is not less
/// than it, so it falls into the next kind up.
pub open spec fn spec_classify(v: u64, t: MappedThresholds) -> TileType {
    if v < t.deep_water {
        TileType::DeepWater
    } else if v < t.shallow_water {
        TileType::ShallowWater
    } else if v < t.sand {
        TileType::Sand
    } else if v < t.grass {
        TileType::Grass
    } else if v < t.hill {
        TileType::Hill
    } else if v < t.mountain {
        TileType::Mountain
    } else {
        TileType::Snow
    }
}

/// Executable counterpart of `spec_classify`.
pub fn classify_value(v: u64, t: &MappedThresholds) -> (r: TileType)
    ensures
        r == spec_classify(v, *t),
{
    if v < t.deep_water {
        TileType::DeepWater
    } else if v < t.shallow_water {
        TileType::ShallowWater
    } else if v < t.sand {
        TileType::Sand
    } else if v < t.grass {
        TileType::Grass
    } else if v < t.hill {
        TileType::Hill
    } else if v < t.mountain {
        TileType::Mountain
    } else {
        TileType::Snow
    }
}

/// Boundary law: a cell value exactly equal to the mapped sand threshold
/// is not less than it, so with properly ascending thresholds it is
/// classified as the kind above sand, never as sand itself.
pub proof fn lemma_sand_boundary(v: u64, t: MappedThresholds)
    requires
        spec_ascending(t),
        v == t.sand,
        t.sand < t.grass,
    ensures
        spec_classify(v, t) == TileType::Grass,
{
}

/// Determinism law: every cell of a classified grid is pinned to a pure
/// function of the field and the thresholds, so two grids classified from
/// identical inputs agree cell by cell.
pub proof fn lemma_classification_deterministic(
    g1: Seq<Vec<Tile>>,
    g2: Seq<Vec<Tile>>,
    field: Seq<Vec<u64>>,
    t: MappedThresholds,
    n: int,
)
    requires
        spec_square(g1, n),
        spec_square(g2, n),
        forall|y: int, x: int|
            0 <= y < n && 0 <= x < n ==> (#[trigger] g1[y]@[x]).tile_type == spec_classify(
                field[y]@[x],
                t,
            ),
        forall|y: int, x: int|
            0 <= y < n && 0 <= x < n ==> (#[trigger] g2[y]@[x]).tile_type == spec_classify(
                field[y]@[x],
                t,
            ),
    ensures
        forall|y: int, x: int|
            0 <= y < n && 0 <= x < n ==> (#[trigger] g1[y]@[x]).tile_type == g2[y]@[x].tile_type,
{
}

/// The four-part configuration of one generation run.
pub struct WorldGenerator {
    pub size: usize,
    pub noise_settings: NoiseSettings,
    pub thresholds: Thresholds,
    pub lava_settings: LavaSettings,
}

impl WorldGenerator {
    /// Bundle a generation configuration; nothing is validated here.
    pub fn new(
        size: usize,
        noise_settings: NoiseSettings,
        thresholds: Thresholds,
        lava_settings: LavaSettings,
    ) -> (g: WorldGenerator)
        ensures
            g.size == size,
            g.noise_settings == noise_settings,
            g.thresholds == thresholds,
            g.lava_settings == lava_settings,
    {
        WorldGenerator { size, noise_settings, thresholds, lava_settings }
    }

    /// A generation run is refused up front when the grid would be empty
    /// or the noise would use no octaves.
    pub fn validate(&self) -> (r: Result<(), ConfigError>)
        ensures
            r == spec_validate_generation(self.size, self.noise_settings.octaves),
            r is Ok <==> self.size > 0 && self.noise_settings.octaves > 0,
    {
        if self.size == 0 {
            Result::Err(ConfigError::ZeroGridSize)
        } else if self.noise_settings.octaves == 0 {
            Result::Err(ConfigError::ZeroOctaves)
        } else {
            Result::Ok(())
        }
    }

    /// Classify an elevation field into the tile grid: every cell gets the
    /// kind of `spec_classify`, no content, and a zero elevation
    /// placeholder.  The thresholds arrive already mapped into the field's
    /// value range; a non-monotonic set still yields this well-defined
    /// cascade, merely an unintuitive one.
    pub fn generate_terrain(&self, noise_map: &Vec<Vec<u64>>, mapped: &MappedThresholds) -> (world:
        Vec<Vec<Tile>>)
        requires
            spec_square(noise_map@, self.size as int),
        ensures
            spec_square(world@, self.size as int),
            forall|y: int, x: int|
                0 <= y < self.size && 0 <= x < self.size ==> (#[trigger] world@[y]@[x]) == (Tile {
                    tile_type: spec_classify(noise_map@[y]@[x], *mapped),
                    content: Content::Empty,
                    elevation: 0,
                }),
    {
        let size = self.size;
        let mut world: Vec<Vec<Tile>> = Vec::new();
        let mut y: usize = 0;
        while y < size
            invariant
                y <= size,
                size == self.size,
                spec_square(noise_map@, size as int),
                world@.len() == y,
                forall|yy: int| 0 <= yy < y ==> (#[trigger] world@[yy])@.len() == size,
                forall|yy: int, xx: int|
                    0 <= yy < y && 0 <= xx < size ==> (#[trigger] world@[yy]@[xx]) == (Tile {
                        tile_type: spec_classify(noise_map@[yy]@[xx], *mapped),
                        content: Content::Empty,
                        elevation: 0,
                    }),
            decreases size - y,
        {
            let mut row: Vec<Tile> = Vec::new();
            let mut x: usize = 0;
            while x < size
                invariant
                    x <= size,
                    y < size,
                    size == self.size,
                    spec_square(noise_map@, size as int),
                    row@.len() == x,
                    forall|xx: int|
                        0 <= xx < x ==> (#[trigger] row@[xx]) == (Tile {
                            tile_type: spec_classify(noise_map@[y as int]@[xx], *mapped),
                            content: Content::Empty,
                            elevation: 0,
                        }),
                decreases size - x,
            {
                let v = noise_map[y][x];
                let tile_type = classify_value(v, mapped);
                row.push(Tile { tile_type, content: Content::Empty, elevation: 0 });
                x += 1;
            }
            world.push(row);
            y += 1;
        }
        world
    }
}

/// The deterministic up-front decision on a generation configuration.
pub open spec fn spec_validate_generation(size: usize, octaves: usize) -> Result<(), ConfigError> {
    if size == 0 {
        Result::Err(ConfigError::ZeroGridSize)
    } else if octaves == 0 {
        Result::Err(ConfigError::ZeroOctaves)
    } else {
        Result::Ok(())
    }
}

} // verus!
