use crate::block::Block;
use crate::noise::{
    clamp, fbm, fbm_3d, fbm_3d_spec, fbm_spec, fx_div, fx_mul, lemma_div_magnitude,
    lemma_fx_mul_range, mul_fx, noise2d, noise2d_spec, ONE,
};
use vstd::prelude::*;

verus! {

/// Gain of every layered noise of the generator: 0.55.
pub const GAIN: i64 = 550_000;

/// Largest magnitude of a position handed to the generator, in millionths
/// of a block.
pub const POS_LIMIT: i64 = 0x8_0000_0000_0000;

/// Largest magnitude of a height or a strength in a configuration, in
/// millionths.
pub const HEIGHT_LIMIT: i64 = 0x100_0000_0000;

/// Largest spread of tree heights in a configuration.
pub const MAX_TREE_VARIATION: i32 = 1000;

/// Density of air that a cave forces: -1.
pub const CAVE_DENSITY: i64 = -1_000_000;

#[derive(Clone, Copy, Debug, PartialEq, Eq, Structural)]
pub enum BiomeType {
    Ocean,
    Beach,
    Plain,
    Forest,
    Mountain,
    Tundra,
    Desert,
    Cliff,
    Lake,
    Jungle,
}

#[derive(Clone, Copy, Debug, PartialEq, Eq, Structural)]
pub enum TreeType {
    Oak,
    Spruce,
    Birch,
    Acacia,
    DarkOak,
}

/// A tree to plant: the column of its trunk inside the chunk, its species
/// and the height of its trunk.
#[derive(Clone, Copy, Debug, PartialEq, Eq)]
pub struct Tree {
    pub pos: (i32, i32),  // (x, z) in chunk
    pub tree_type: TreeType,
    pub trunk_height: i32,
}

/// Tree properties calculated from biome and 2D noise
#[derive(Clone, Copy, Debug, PartialEq, Eq, Structural)]
pub struct TreeData {
    pub tree_type: TreeType,
    pub tree_height: i32,
    pub should_spawn: bool,
}

/// Configuration for terrain generation parameters. Every quantity but
/// the spread of tree heights is in millionths.
#[derive(Clone, Copy, Debug, PartialEq, Eq, Structural)]
pub struct TerrainConfig {
    // Noise frequencies for terrain shape
    pub continentalness_freq: i64,
    pub erosion_freq: i64,
    pub temperature_freq: i64,
    pub humidity_freq: i64,
    pub base_3d_freq: i64,
    pub cave_freq: i64,
    // Height and density modulation
    pub base_height: i64,
    pub continental_height_amplitude: i64,
    pub erosion_height_amplitude: i64,
    pub y_gradient_scale: i64,
    pub base_3d_noise_strength: i64,
    // Cave generation
    pub cave_noise_min: i64,
    pub cave_noise_max: i64,
    // Tree generation
    pub tree_noise_frequency: i64,
    pub tree_spawn_threshold: i64,
    pub tree_height_variation: i32,
    // Lake generation
    pub lake_frequency: i64,
    pub lake_threshold: i64,
    // Cliff generation
    pub cliff_threshold: i64,
    pub cliff_steepness: i64,
    // Vegetation placement
    pub plant_frequency: i64,
    pub plant_density: i64,
}

/// A frequency between 0 and 1.
pub open spec fn is_freq(f: i64) -> bool {
    0 <= f <= ONE
}

/// A height or strength within `HEIGHT_LIMIT` of zero.
pub open spec fn is_height(h: i64) -> bool {
    -HEIGHT_LIMIT <= h <= HEIGHT_LIMIT
}

/// A position within `POS_LIMIT` of zero.
pub open spec fn is_pos(p: i64) -> bool {
    -POS_LIMIT <= p <= POS_LIMIT
}

fn freq_fits(f: i64) -> (ok: bool)
    ensures
        ok == is_freq(f),
{
    0 <= f && f <= ONE
}

fn height_fits(h: i64) -> (ok: bool)
    ensures
        ok == is_height(h),
{
    -HEIGHT_LIMIT <= h && h <= HEIGHT_LIMIT
}

impl TerrainConfig {
    /// The configuration keeps every computation of the generator within
    /// the machine's integers: frequencies between 0 and 1, heights and
    /// strengths within `HEIGHT_LIMIT`, a positive gradient scale and a
    /// spread of tree heights between 1 and `MAX_TREE_VARIATION`.
    pub open spec fn valid(self) -> bool {
        &&& is_freq(self.continentalness_freq)
        &&& is_freq(self.erosion_freq)
        &&& is_freq(self.temperature_freq)
        &&& is_freq(self.humidity_freq)
        &&& is_freq(self.base_3d_freq)
        &&& is_freq(self.cave_freq)
        &&& is_freq(self.tree_noise_frequency)
        &&& is_freq(self.lake_frequency)
        &&& is_freq(self.plant_frequency)
        &&& is_height(self.base_height)
        &&& is_height(self.continental_height_amplitude)
        &&& is_height(self.erosion_height_amplitude)
        &&& is_height(self.base_3d_noise_strength)
        &&& 1 <= self.y_gradient_scale
        &&& 1 <= self.tree_height_variation <= MAX_TREE_VARIATION
    }

    /// Whether the generator can work with this configuration.
    pub fn is_valid(&self) -> (ok: bool)
        ensures
            ok == self.valid(),
    {
        freq_fits(self.continentalness_freq) && freq_fits(self.erosion_freq) && freq_fits(
            self.temperature_freq,
        ) && freq_fits(self.humidity_freq) && freq_fits(self.base_3d_freq) && freq_fits(
            self.cave_freq,
        ) && freq_fits(self.tree_noise_frequency) && freq_fits(self.lake_frequency) && freq_fits(
            self.plant_frequency,
        ) && height_fits(self.base_height) && height_fits(self.continental_height_amplitude)
            && height_fits(self.erosion_height_amplitude) && height_fits(
            self.base_3d_noise_strength,
        ) && 1 <= self.y_gradient_scale && 1 <= self.tree_height_variation
            && self.tree_height_variation <= MAX_TREE_VARIATION
    }

    /// The configuration that `default` returns.
    pub open spec fn standard() -> TerrainConfig {
        TerrainConfig {
            continentalness_freq: 8_000,
            erosion_freq: 12_000,
            temperature_freq: 5_000,
            humidity_freq: 5_000,
            base_3d_freq: 28_000,
            cave_freq: 40_000,
            base_height: 45_000_000,
            continental_height_amplitude: 80_000_000,
            erosion_height_amplitude: 40_000_000,
            y_gradient_scale: 80_000_000,
            base_3d_noise_strength: 400_000,
            cave_noise_min: -150_000i64,
            cave_noise_max: 200_000,
            tree_noise_frequency: 400_000,
            tree_spawn_threshold: -20_000i64,
            tree_height_variation: 3,
            lake_frequency: 350_000,
            lake_threshold: -500_000i64,
            cliff_threshold: 750_000,
            cliff_steepness: 2_000_000,
            plant_frequency: 800_000,
            plant_density: 600_000,
        }
    }
}

impl Default for TerrainConfig {
    fn default() -> (c: Self)
        ensures
            c == TerrainConfig::standard(),
            c.valid(),
    {
        Self {
            // Noise frequencies - lower = larger features
            continentalness_freq: 8_000,
            erosion_freq: 12_000,
            temperature_freq: 5_000,
            humidity_freq: 5_000,
            base_3d_freq: 28_000,
            cave_freq: 40_000,
            // Height parameters
            base_height: 45_000_000,
            continental_height_amplitude: 80_000_000,
            erosion_height_amplitude: 40_000_000,
            y_gradient_scale: 80_000_000,
            base_3d_noise_strength: 400_000,
            // Cave parameters
            cave_noise_min: -150_000,
            cave_noise_max: 200_000,
            // Tree parameters
            tree_noise_frequency: 400_000,
            tree_spawn_threshold: -20_000,
            tree_height_variation: 3,
            // Lake parameters
            lake_frequency: 350_000,
            lake_threshold: -500_000,
            // Cliff parameters
            cliff_threshold: 750_000,
            cliff_steepness: 2_000_000,
            // Plant parameters
            plant_frequency: 800_000,
            plant_density: 600_000,
        }
    }
}

/// Height of the ground at `(x, z)` before the noise in space bends it.
#[verifier::opaque]
pub open spec fn base_height_spec(cfg: TerrainConfig, x: int, z: int) -> int {
    let continentalness = fbm_spec(x, z, cfg.continentalness_freq as int, 550_000, 4);
    let erosion = fbm_spec(
        fx_mul(x, 1_500_000),
        fx_mul(z, 1_500_000),
        cfg.erosion_freq as int,
        550_000,
        3,
    );
    fx_mul(continentalness, cfg.continental_height_amplitude as int) + fx_mul(
        erosion,
        cfg.erosion_height_amplitude as int,
    ) + cfg.base_height
}

/// Density at `(x, y, z)`: one half minus the height above the ground
/// in units of the gradient scale, held between -1 and 1, plus the
/// weighted noise in space; but -1 wherever the cave noise lies strictly
/// inside the configured band.
#[verifier::opaque]
pub open spec fn density_spec(cfg: TerrainConfig, x: int, y: int, z: int) -> int {
    let cave_noise = fbm_3d_spec(x, y, z, cfg.cave_freq as int, 550_000, 3);
    if cfg.cave_noise_min < cave_noise < cfg.cave_noise_max {
        -1_000_000
    } else {
        500_000 - clamp(
            fx_div(y - base_height_spec(cfg, x, z), cfg.y_gradient_scale as int),
            -1_000_000,
            1_000_000,
        ) + fx_mul(
            fbm_3d_spec(x, y, z, cfg.base_3d_freq as int, 550_000, 3),
            cfg.base_3d_noise_strength as int,
        )
    }
}

/// The four plane fields and the lake field at `(x, z)`, from which the
/// biome is read.
pub struct Climate {
    pub temperature: i64,
    pub humidity: i64,
    pub continentalness: i64,
    pub erosion: i64,
    pub lake_noise: i64,
}

/// Climate at `(x, z)`.
pub open spec fn climate_spec(cfg: TerrainConfig, x: int, z: int) -> Climate {
    Climate {
        temperature: fbm_spec(x, z, cfg.temperature_freq as int, 550_000, 3) as i64,
        humidity: fbm_spec(
            x + 5_000_000_000,
            z - 5_000_000_000,
            cfg.humidity_freq as int,
            550_000,
            3,
        ) as i64,
        continentalness: fbm_spec(x, z, cfg.continentalness_freq as int, 550_000, 4) as i64,
        erosion: fbm_spec(x, z, cfg.erosion_freq as int, 550_000, 3) as i64,
        lake_noise: fbm_spec(
            x + 2_000_000_000,
            z + 2_000_000_000,
            cfg.lake_frequency as int,
            550_000,
            3,
        ) as i64,
    }
}

/// Biome of a place with climate `c` at height `y`. The rules are tried
/// in this order and the first that holds decides: lake, cliff, jungle,
/// high mountain (tundra where it is cold), mountain, tundra, desert,
/// forest, beach; what is left is plain.
pub open spec fn classify_biome(cfg: TerrainConfig, c: Climate, y: int) -> BiomeType {
    if c.lake_noise < cfg.lake_threshold && c.humidity > 300_000 && y < 30_000_000 {
        BiomeType::Lake
    } else if c.erosion > cfg.cliff_threshold && y > 60_000_000 && c.continentalness > 400_000 {
        BiomeType::Cliff
    } else if c.temperature > 500_000 && c.humidity > 600_000 && c.continentalness > 100_000 {
        BiomeType::Jungle
    } else if y > 80_000_000 && c.continentalness > 300_000 {
        if c.temperature < -600_000 {
            BiomeType::Tundra
        } else {
            BiomeType::Mountain
        }
    } else if y > 50_000_000 && c.continentalness > 200_000 {
        BiomeType::Mountain
    } else if c.temperature < -700_000 {
        BiomeType::Tundra
    } else if c.temperature > 700_000 && c.humidity < -500_000 {
        BiomeType::Desert
    } else if c.humidity > 0 {
        BiomeType::Forest
    } else if c.continentalness < 0 && c.continentalness > -300_000 {
        BiomeType::Beach
    } else {
        BiomeType::Plain
    }
}

/// Biome at `(x, z)` and height `y`.
#[verifier::opaque]
pub open spec fn biome_spec(cfg: TerrainConfig, x: int, z: int, y: int) -> BiomeType {
    classify_biome(cfg, climate_spec(cfg, x, z), y)
}

/// Noise that varies the ground cover: two layers over the position
/// scaled by `stretch`, at first frequency `freq`.
pub open spec fn variety_spec(x: int, z: int, stretch: int, freq: int) -> int {
    fbm_spec(fx_mul(x, stretch), fx_mul(z, stretch), freq, 550_000, 2)
}

/// Material of the topmost solid block at `(x, z)` and height `y` in
/// biome `biome`.
#[verifier::opaque]
pub open spec fn surface_block_spec(x: int, z: int, y: int, biome: BiomeType) -> Block {
    match biome {
        BiomeType::Ocean => Block::Water,
        BiomeType::Beach | BiomeType::Lake => if y > 5_000_000 {
            Block::Grass
        } else {
            Block::Sand
        },
        BiomeType::Plain => {
            let variety = variety_spec(x, z, 300_000, 10_000);
            if variety < -300_000 {
                Block::Moss
            } else if variety < 300_000 {
                Block::Grass
            } else {
                Block::Dirt
            }
        },
        BiomeType::Forest => if variety_spec(x, z, 300_000, 10_000) < 0 {
            Block::Moss
        } else {
            Block::Grass
        },
        BiomeType::Mountain => if y > 100_000_000 {
            let variety = variety_spec(x, z, 400_000, 20_000);
            if variety >= 1_000_000 {
                Block::Granite
            } else if variety <= -1_000_000 {
                Block::Cobblestone
            } else {
                Block::Stone
            }
        } else {
            Block::Grass
        },
        BiomeType::Tundra => if y > 60_000_000 {
            Block::Snow
        } else if y > 40_000_000 {
            Block::Moss
        } else if y > 20_000_000 {
            if variety_spec(x, z, 300_000, 10_000) < -200_000 {
                Block::Snow
            } else {
                Block::Moss
            }
        } else {
            Block::Moss
        },
        BiomeType::Desert => Block::Sand,
        BiomeType::Cliff => {
            let variety = variety_spec(x, z, 500_000, 20_000);
            if variety > 500_000 {
                Block::Basalt
            } else if variety > 0 {
                Block::BlackStone
            } else {
                Block::Stone
            }
        },
        BiomeType::Jungle => if variety_spec(x, z, 400_000, 10_000) < -100_000 {
            Block::Moss
        } else {
            Block::Grass
        },
    }
}

/// Material of a solid block below the surface: bedrock below height -20
/// whatever the biome, else by biome and height.
#[verifier::opaque]
pub open spec fn subsurface_block_spec(x: int, z: int, y: int, biome: BiomeType) -> Block {
    if y < -20_000_000 {
        Block::Bedrock
    } else {
        match biome {
            BiomeType::Desert => if y < 40_000_000 {
                Block::Sandstone
            } else {
                Block::Sand
            },
            BiomeType::Mountain | BiomeType::Tundra => {
                let variety = variety_spec(x, z, 500_000, 10_000);
                if -1_000_000 < variety < 1_000_000 {
                    Block::Granite
                } else {
                    Block::Stone
                }
            },
            _ => if y > 0 {
                Block::Dirt
            } else {
                Block::Stone
            },
        }
    }
}

/// Noise that decides on ore at `(x, y, z)`.
pub open spec fn ore_noise_spec(x: int, y: int, z: int) -> int {
    noise2d_spec(
        fx_mul(x, 2_300_000) + fx_mul(y, 500_000),
        fx_mul(z, 1_700_000) - fx_mul(y, 300_000),
    )
}

/// Ore at `(x, y, z)`, if any: each ore has its band of heights and its
/// threshold on the ore noise, and they are tried in the order coal, iron,
/// gold, diamond.
#[verifier::opaque]
pub open spec fn ore_block_spec(x: int, y: int, z: int) -> Option<Block> {
    let ore_check = ore_noise_spec(x, y, z);
    if ore_check > 800_000 && y < 60_000_000 && y > 20_000_000 {
        Some(Block::CoalOre)
    } else if ore_check < -850_000 && y < 40_000_000 && y > 0 {
        Some(Block::IronOre)
    } else if ore_check > 880_000 && y < 10_000_000 && y > -20_000_000 {
        Some(Block::GoldOre)
    } else if ore_check < -900_000 && y < -30_000_000 && y > -80_000_000 {
        Some(Block::DiamondOre)
    } else {
        None
    }
}

/// Species of the trees of a biome; where a biome has two, the roll
/// between 0 and 1 decides.
pub open spec fn tree_type_spec(biome: BiomeType, roll: int) -> TreeType {
    match biome {
        BiomeType::Tundra => TreeType::Spruce,
        BiomeType::Forest => if roll > 400_000 {
            TreeType::Birch
        } else {
            TreeType::Oak
        },
        BiomeType::Mountain => if roll > 600_000 {
            TreeType::Spruce
        } else {
            TreeType::Oak
        },
        BiomeType::Jungle => if roll > 500_000 {
            TreeType::DarkOak
        } else {
            TreeType::Acacia
        },
        BiomeType::Desert => TreeType::Acacia,
        _ => TreeType::Oak,
    }
}

/// Height of the trunk of a tree: a base by species plus the tenths of
/// the roll, reduced modulo a spread that depends on the species.
pub open spec fn tree_height_spec(tree_type: TreeType, roll: int, variation: int) -> int {
    let tenths = (roll * 10) / 1_000_000;
    match tree_type {
        TreeType::Spruce => 9 + tenths % variation,
        TreeType::Birch => 7 + tenths % (if variation - 1 > 1 {
            variation - 1
        } else {
            1
        }),
        TreeType::Oak => 6 + tenths % variation,
        TreeType::Acacia => 8 + tenths % (variation + 1),
        TreeType::DarkOak => 12 + tenths % (variation + 2),
    }
}

/// Roll between 0 and 1 that decides species and height at `(wx, wz)`.
pub open spec fn tree_roll_spec(wx: int, wz: int) -> int {
    (noise2d_spec(fx_mul(wx, 200_000) + 200_000_000, fx_mul(wz, 200_000) - 200_000_000)
        + 1_000_000) / 2
}

/// Tree of the column at `(wx, wz)`: whether one stands there, its
/// species and its height.
#[verifier::opaque]
pub open spec fn tree_data_spec(cfg: TerrainConfig, wx: int, wz: int) -> TreeData {
    let biome = biome_spec(cfg, wx, wz, 30_000_000);
    let tree_location = noise2d_spec(
        fx_mul(wx, cfg.tree_noise_frequency as int) + 200_000_000,
        fx_mul(wz, cfg.tree_noise_frequency as int) - 200_000_000,
    );
    let roll = tree_roll_spec(wx, wz);
    let tree_type = tree_type_spec(biome, roll);
    TreeData {
        tree_type,
        tree_height: tree_height_spec(tree_type, roll, cfg.tree_height_variation as int) as i32,
        should_spawn: tree_location > cfg.tree_spawn_threshold,
    }
}

fn times(x: i64, k: i64) -> (r: i64)
    requires
        is_pos(x),
        0 <= k <= 4 * ONE,
    ensures
        r == fx_mul(x as int, k as int),
        -4 * POS_LIMIT <= r <= 4 * POS_LIMIT,
{
    proof {
        lemma_fx_mul_range(x as int, k as int, POS_LIMIT as int, 4_000_000);
    }
    mul_fx(x, k)
}

fn sized(sample: i64, amount: i64) -> (r: i64)
    requires
        -ONE <= sample <= ONE,
        is_height(amount),
    ensures
        r == fx_mul(sample as int, amount as int),
        -HEIGHT_LIMIT <= r <= HEIGHT_LIMIT,
{
    proof {
        lemma_fx_mul_range(sample as int, amount as int, 1_000_000, HEIGHT_LIMIT as int);
    }
    mul_fx(sample, amount)
}

fn clamped_ratio(a: i64, b: i64) -> (r: i64)
    requires
        b >= 1,
    ensures
        r == clamp(fx_div(a as int, b as int), -1_000_000, 1_000_000),
{
    let p: i128 = (a as i128) * 1_000_000;
    proof {
        lemma_div_magnitude(p as int, b as int);
    }
    let q: i128 = match p.checked_div_euclid(b as i128) {
        Some(q) => q,
        None => 0,
    };
    if q < -1_000_000 {
        -1_000_000
    } else if q > 1_000_000 {
        1_000_000
    } else {
        q as i64
    }
}

fn variety(x: i64, z: i64, stretch: i64, freq: i64) -> (v: i64)
    requires
        is_pos(x),
        is_pos(z),
        0 <= stretch <= ONE,
        0 <= freq <= ONE,
    ensures
        v == variety_spec(x as int, z as int, stretch as int, freq as int),
        -ONE <= v <= ONE,
{
    fbm(times(x, stretch), times(z, stretch), freq, GAIN, 2)
}

pub struct VoxelDensityGenerator {
    pub config: TerrainConfig,
}

impl VoxelDensityGenerator {
    pub fn new() -> (g: Self)
        ensures
            g.config == TerrainConfig::standard(),
            g.config.valid(),
    {
        Self { config: TerrainConfig::default() }
    }

    pub fn with_config(config: TerrainConfig) -> (g: Self)
        ensures
            g.config == config,
    {
        Self { config }
    }

    fn base_height(&self, x: i64, z: i64) -> (h: i64)
        requires
            self.config.valid(),
            is_pos(x),
            is_pos(z),
        ensures
            h == base_height_spec(self.config, x as int, z as int),
            -3 * HEIGHT_LIMIT <= h <= 3 * HEIGHT_LIMIT,
    {
        proof {
            reveal(base_height_spec);
        }
        // 1. Continentalness: determines mountain vs plateau heights
        let continentalness = fbm(x, z, self.config.continentalness_freq, GAIN, 4);
        // 2. Erosion: determines flatness vs jaggedness
        let erosion = fbm(
            times(x, 1_500_000),
            times(z, 1_500_000),
            self.config.erosion_freq,
            GAIN,
            3,
        );
        // 4. Calculate terrain height baseline - gravity-based terrain
        let continental_height = sized(continentalness, self.config.continental_height_amplitude);
        let erosion_height = sized(erosion, self.config.erosion_height_amplitude);
        continental_height + erosion_height + self.config.base_height
    }

    /// Calculate 3D density at position (x, y, z): above 0 is solid, the
    /// rest is air, water or cave.
    pub fn calculate_density(&self, x: i64, y: i64, z: i64) -> (d: i64)
        requires
            self.config.valid(),
            is_pos(x),
            is_pos(y),
            is_pos(z),
        ensures
            d == density_spec(self.config, x as int, y as int, z as int),
    {
        proof {
            reveal(density_spec);
        }
        let base_height = self.base_height(x, z);
        // 5. Y-gradient: density DECREASES as you go UP (gravity - no floating terrain!)
        let y_diff = y - base_height;
        let mut density = 500_000 - clamped_ratio(y_diff, self.config.y_gradient_scale);
        // 6. Base 3D Noise: add surface distortion for overhangs and detail
        let base_3d = fbm_3d(x, y, z, self.config.base_3d_freq, GAIN, 3);
        density += sized(base_3d, self.config.base_3d_noise_strength);
        // 7. Cave carving: if cave noise is in narrow band, force air
        let cave_noise = fbm_3d(x, y, z, self.config.cave_freq, GAIN, 3);
        if cave_noise > self.config.cave_noise_min && cave_noise < self.config.cave_noise_max {
            return CAVE_DENSITY;  // Force air (caves)
        }
        density
    }

    fn climate(&self, x: i64, z: i64) -> (c: Climate)
        requires
            self.config.valid(),
            is_pos(x),
            is_pos(z),
        ensures
            c == climate_spec(self.config, x as int, z as int),
    {
        Climate {
            temperature: fbm(x, z, self.config.temperature_freq, GAIN, 3),
            humidity: fbm(
                x + 5_000_000_000,
                z - 5_000_000_000,
                self.config.humidity_freq,
                GAIN,
                3,
            ),
            continentalness: fbm(x, z, self.config.continentalness_freq, GAIN, 4),
            erosion: fbm(x, z, self.config.erosion_freq, GAIN, 3),
            lake_noise: fbm(
                x + 2_000_000_000,
                z + 2_000_000_000,
                self.config.lake_frequency,
                GAIN,
                3,
            ),
        }
    }

    /// Determine biome type based on temperature, humidity, and height
    pub fn get_biome_type(&self, x: i64, z: i64, y: i64) -> (b: BiomeType)
        requires
            self.config.valid(),
            is_pos(x),
            is_pos(z),
        ensures
            b == biome_spec(self.config, x as int, z as int, y as int),
    {
        proof {
            reveal(biome_spec);
        }
        let c = self.climate(x, z);
        // Lakes: depressions with moderate-high humidity and low continentalness
        if c.lake_noise < self.config.lake_threshold && c.humidity > 300_000 && y < 30_000_000 {
            return BiomeType::Lake;
        }
        // Cliffs: high erosion and steep mountains
        if c.erosion > self.config.cliff_threshold && y > 60_000_000 && c.continentalness
            > 400_000 {
            return BiomeType::Cliff;
        }
        // Hot jungle - hot and very humid
        if c.temperature > 500_000 && c.humidity > 600_000 && c.continentalness > 100_000 {
            return BiomeType::Jungle;
        }
        // High mountains (snow-covered peaks)
        if y > 80_000_000 && c.continentalness > 300_000 {
            if c.temperature < -600_000 {
                return BiomeType::Tundra;
            } else {
                return BiomeType::Mountain;
            }
        }
        // Moderate elevation mountains
        if y > 50_000_000 && c.continentalness > 200_000 {
            return BiomeType::Mountain;
        }
        // Cold regions - tundra
        if c.temperature < -700_000 {
            return BiomeType::Tundra;
        }
        // Hot, dry regions - desert
        if c.temperature > 700_000 && c.humidity < -500_000 {
            return BiomeType::Desert;
        }
        // Wet regions - forest
        if c.humidity > 0 {
            return BiomeType::Forest;
        }
        // Coastal areas
        if c.continentalness < 0 && c.continentalness > -300_000 {
            return BiomeType::Beach;
        }
        // Default: grassland/plain
        BiomeType::Plain
    }

    /// Get surface block type based on biome and height
    pub fn get_surface_block_for_biome(&self, x: i64, z: i64, y: i64, biome: BiomeType) -> (b:
        Block)
        requires
            is_pos(x),
            is_pos(z),
        ensures
            b == surface_block_spec(x as int, z as int, y as int, biome),
    {
        proof {
            reveal(surface_block_spec);
        }
        match biome {
            BiomeType::Ocean => Block::Water,
            BiomeType::Beach => {
                // Beach/sand transition zone
                if y > 5_000_000 {
                    Block::Grass
                } else {
                    Block::Sand
                }
            },
            BiomeType::Plain => {
                // Grassland with some variation
                let variety = variety(x, z, 300_000, 10_000);
                if variety < -300_000 {
                    Block::Moss
                } else if variety < 300_000 {
                    Block::Grass
                } else {
                    Block::Dirt
                }
            },
            BiomeType::Forest => {
                // Forest floor - mostly grass and moss
                let variety = variety(x, z, 300_000, 10_000);
                if variety < 0 {
                    Block::Moss
                } else {
                    Block::Grass
                }
            },
            BiomeType::Mountain => {
                // Rocky peaks with bare stone at top, grassed slopes below
                if y > 100_000_000 {
                    // Bare rocky peak - variety of stone types
                    let variety = variety(x, z, 400_000, 20_000);
                    if variety >= ONE {
                        Block::Granite
                    } else if variety <= -ONE {
                        Block::Cobblestone
                    } else {
                        Block::Stone
                    }
                } else {
                    Block::Grass
                }
            },
            BiomeType::Tundra => {
                // Frozen terrain - moss for trees, snow at peaks
                if y > 60_000_000 {
                    Block::Snow
                } else if y > 40_000_000 {
                    Block::Moss  // Allow trees on moss
                } else if y > 20_000_000 {
                    let variety = variety(x, z, 300_000, 10_000);
                    if variety < -200_000 {
                        Block::Snow
                    } else {
                        Block::Moss
                    }
                } else {
                    Block::Moss
                }
            },
            BiomeType::Desert => Block::Sand,
            BiomeType::Lake => {
                // Lake shores - sandy/grassy with water plants
                if y > 5_000_000 {
                    Block::Grass
                } else {
                    Block::Sand
                }
            },
            BiomeType::Cliff => {
                // Cliff faces - dark stone, mostly basalt
                let variety = variety(x, z, 500_000, 20_000);
                if variety > 500_000 {
                    Block::Basalt
                } else if variety > 0 {
                    Block::BlackStone
                } else {
                    Block::Stone
                }
            },
            BiomeType::Jungle => {
                // Jungle floor - grass and moss, very green
                let variety = variety(x, z, 400_000, 10_000);
                if variety < -100_000 {
                    Block::Moss
                } else {
                    Block::Grass
                }
            },
        }
    }

    /// Get subsurface block based on depth and biome
    pub fn get_subsurface_block(&self, x: i64, z: i64, y: i64, biome: BiomeType) -> (b: Block)
        requires
            is_pos(x),
            is_pos(z),
        ensures
            b == subsurface_block_spec(x as int, z as int, y as int, biome),
    {
        proof {
            reveal(subsurface_block_spec);
        }
        // Deep underground = bedrock
        if y < -20_000_000 {
            return Block::Bedrock;
        }
        match biome {
            BiomeType::Desert => {
                // Desert has sandstone layers
                if y < 40_000_000 {
                    Block::Sandstone
                } else {
                    Block::Sand
                }
            },
            BiomeType::Mountain | BiomeType::Tundra => {
                // Mountains: granite and stone
                let variety = variety(x, z, 500_000, 10_000);
                if -ONE < variety && variety < ONE {
                    Block::Granite
                } else {
                    Block::Stone
                }
            },
            _ => {
                // Default: dirt under grass, stone deeper
                if y > 0 {
                    Block::Dirt
                } else {
                    Block::Stone
                }
            },
        }
    }

    /// Get ore block if one should spawn here
    pub fn get_ore_block(&self, x: i64, y: i64, z: i64) -> (ore: Option<Block>)
        requires
            is_pos(x),
            is_pos(y),
            is_pos(z),
        ensures
            ore == ore_block_spec(x as int, y as int, z as int),
    {
        proof {
            reveal(ore_block_spec);
        }
        let ore_check = noise2d(
            times(x, 2_300_000) + times(y, 500_000),
            times(z, 1_700_000) - times(y, 300_000),
        );
        if ore_check > 800_000 && y < 60_000_000 && y > 20_000_000 {
            Some(Block::CoalOre)
        } else if ore_check < -850_000 && y < 40_000_000 && y > 0 {
            Some(Block::IronOre)
        } else if ore_check > 880_000 && y < 10_000_000 && y > -20_000_000 {
            Some(Block::GoldOre)
        } else if ore_check < -900_000 && y < -30_000_000 && y > -80_000_000 {
            Some(Block::DiamondOre)
        } else {
            None
        }
    }

    /// Calculate tree placement data for a column (type, height, whether to spawn)
    pub fn calculate_tree_data(&self, wx: i64, wz: i64) -> (t: TreeData)
        requires
            self.config.valid(),
            is_pos(wx),
            is_pos(wz),
        ensures
            t == tree_data_spec(self.config, wx as int, wz as int),
            6 <= t.tree_height <= 12 + MAX_TREE_VARIATION + 1,
    {
        proof {
            reveal(tree_data_spec);
        }
        // Determine biome at this location
        let biome = self.get_biome_type(wx, wz, 30_000_000);
        // Check if this is a tree center (using noise)
        let tree_location = noise2d(
            times(wx, self.config.tree_noise_frequency) + 200_000_000,
            times(wz, self.config.tree_noise_frequency) - 200_000_000,
        );
        let should_spawn = tree_location > self.config.tree_spawn_threshold;
        // Generate random value for tree type/height variation
        let tree_chance = noise2d(times(wx, 200_000) + 200_000_000, times(wz, 200_000) - 200_000_000);
        let tree_rng = (tree_chance + ONE) / 2;
        // Determine tree type based on biome
        let tree_type = match biome {
            BiomeType::Tundra => TreeType::Spruce,
            BiomeType::Forest => if tree_rng > 400_000 {
                TreeType::Birch
            } else {
                TreeType::Oak
            },
            BiomeType::Mountain => if tree_rng > 600_000 {
                TreeType::Spruce
            } else {
                TreeType::Oak
            },
            BiomeType::Jungle => if tree_rng > 500_000 {
                TreeType::DarkOak
            } else {
                TreeType::Acacia
            },
            BiomeType::Desert => TreeType::Acacia,
            BiomeType::Plain => TreeType::Oak,
            _ => TreeType::Oak,
        };
        // Calculate height based on tree type with slight variation
        let tenths: i32 = ((tree_rng * 10) / ONE) as i32;
        let variation = self.config.tree_height_variation;
        let tree_height = match tree_type {
            TreeType::Spruce => 9 + tenths % variation,
            TreeType::Birch => 7 + tenths % (if variation - 1 > 1 {
                variation - 1
            } else {
                1
            }),
            TreeType::Oak => 6 + tenths % variation,
            TreeType::Acacia => 8 + tenths % (variation + 1),
            TreeType::DarkOak => 12 + tenths % (variation + 2),
        };
        TreeData { tree_type, tree_height, should_spawn }
    }
}

/// A cave is air whatever the ground would be: where the cave noise lies
/// strictly inside the configured band the density is -1.
pub proof fn lemma_cave_overrides(cfg: TerrainConfig, x: int, y: int, z: int)
    requires
        cfg.cave_noise_min < fbm_3d_spec(x, y, z, cfg.cave_freq as int, 550_000, 3)
            < cfg.cave_noise_max,
    ensures
        density_spec(cfg, x, y, z) == CAVE_DENSITY,
{
    reveal(density_spec);
}

/// Below height -20 the rock is bedrock in every biome.
pub proof fn lemma_deep_is_bedrock(x: int, z: int, y: int, biome: BiomeType)
    requires
        y < -20_000_000,
    ensures
        subsurface_block_spec(x, z, y, biome) == Block::Bedrock,
{
    reveal(subsurface_block_spec);
}

/// The rules of the biomes are tried in order: a place that meets the
/// rule of the lake is a lake whatever the later rules say, and a place
/// that meets no rule is a plain.
pub proof fn lemma_biome_precedence(cfg: TerrainConfig, c: Climate, y: int)
    ensures
        c.lake_noise < cfg.lake_threshold && c.humidity > 300_000 && y < 30_000_000
            ==> classify_biome(cfg, c, y) == BiomeType::Lake,
        !(c.lake_noise < cfg.lake_threshold && c.humidity > 300_000 && y < 30_000_000) && c.erosion
            > cfg.cliff_threshold && y > 60_000_000 && c.continentalness > 400_000
            ==> classify_biome(cfg, c, y) == BiomeType::Cliff,
        c.humidity <= 0 && -700_000 <= c.temperature <= 700_000 && c.continentalness
            <= -300_000 ==> classify_biome(cfg, c, y) == BiomeType::Plain,
{
}

} // verus!
