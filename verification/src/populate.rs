use crate::block::Block;
use crate::chunk::Chunk;
use crate::coords::{linear_index, BlockCoord, ChunkCoord};
use crate::noise::{fbm, fbm_spec, fx_mul, lemma_fx_mul_range, mul_fx, noise2d, noise2d_spec, ONE};
use crate::terrain::{
    biome_spec, density_spec, is_pos, ore_block_spec, subsurface_block_spec, surface_block_spec,
    tree_data_spec, BiomeType, TerrainConfig, Tree, TreeData, VoxelDensityGenerator, GAIN,
    POS_LIMIT,
};
use crate::trees::tree_stamp;
use vstd::prelude::*;

verus! {

/// World height of the layer of clouds.
pub const CLOUD_HEIGHT: isize = 255;

/// The blocks after `b` has been offered to cell `(x, y, z)`: a free cell
/// takes it, any other keeps what it holds.
pub open spec fn put(blocks: Seq<Block>, x: int, y: int, z: int, b: Block) -> Seq<Block> {
    if blocks[linear_index(x, y, z)] == Block::Empty {
        blocks.update(linear_index(x, y, z), b)
    } else {
        blocks
    }
}

/// World coordinate of local coordinate `local` of chunk `chunk`, in
/// millionths.
pub open spec fn world_pos(chunk: int, local: int) -> int {
    (chunk * 16 + local) * 1_000_000
}

/// Whether the ground is solid at a position: its density is above zero.
pub open spec fn solid_at(cfg: TerrainConfig, wx: int, wy: int, wz: int) -> bool {
    density_spec(cfg, wx, wy, wz) > 0
}

/// Whether a position is solid with nothing solid one block above.
pub open spec fn surface_at(cfg: TerrainConfig, wx: int, wy: int, wz: int) -> bool {
    solid_at(cfg, wx, wy, wz) && density_spec(cfg, wx, wy + 1_000_000, wz) <= 0
}

/// Material of the ground at a position: water up to height 0 and air
/// above it where the ground is not solid; on the surface the cover of the
/// biome; below it ore where there is any, else the rock of the biome.
#[verifier::opaque]
pub open spec fn terrain_block_spec(cfg: TerrainConfig, wx: int, wy: int, wz: int) -> Block {
    if !solid_at(cfg, wx, wy, wz) {
        if wy <= 0 {
            Block::Water
        } else {
            Block::Empty
        }
    } else {
        let biome = biome_spec(cfg, wx, wz, wy);
        if surface_at(cfg, wx, wy, wz) {
            surface_block_spec(wx, wz, wy, biome)
        } else {
            match ore_block_spec(wx, wy, wz) {
                Some(ore) => ore,
                None => subsurface_block_spec(wx, wz, wy, biome),
            }
        }
    }
}

/// Whether trees and plants grow on a material.
pub open spec fn fertile(b: Block) -> bool {
    b == Block::Grass || b == Block::Moss
}

/// Noise that decides on clouds over `(wx, wz)`.
pub open spec fn cloud_noise_spec(wx: int, wz: int) -> int {
    noise2d_spec(fx_mul(wx, 40_000), fx_mul(wz, 40_000))
}

/// Noise that decides on a plant at `(wx, wz)`.
pub open spec fn plant_noise_spec(cfg: TerrainConfig, wx: int, wz: int) -> int {
    noise2d_spec(
        fx_mul(wx, cfg.plant_frequency as int) + 100_000_000,
        fx_mul(wz, cfg.plant_frequency as int) - 100_000_000,
    )
}

/// Plant of a biome at a given value of the plant noise.
pub open spec fn plant_block_spec(biome: BiomeType, plant_noise: int) -> Block {
    match biome {
        BiomeType::Forest | BiomeType::Jungle => if plant_noise > 800_000 {
            Block::Grass_Tall
        } else {
            Block::Grass_Short
        },
        BiomeType::Desert => if plant_noise > 900_000 {
            Block::Cactus
        } else {
            Block::DeadBush
        },
        BiomeType::Lake | BiomeType::Beach => Block::SeaGrass,
        _ => if plant_noise > 850_000 {
            Block::RedFlower
        } else {
            Block::YellowFlower
        },
    }
}

/// The tree of a column, ready to plant at local column `(x, z)`.
pub open spec fn tree_of(data: TreeData, x: int, z: int) -> Tree {
    Tree { pos: (x as i32, z as i32), tree_type: data.tree_type, trunk_height: data.tree_height }
}

/// The blocks after cell `(x, y, z)` of chunk `coord` has been generated.
/// At the height of the clouds a cloud may take the cell and end the step.
/// Else the cell is offered its ground material; a fertile surface then
/// gets the tree of its column, planted one above it, or, where no tree
/// stands and the plant noise exceeds the configured density, a plant in
/// the cell above if that cell lies in the chunk.
#[verifier::opaque]
pub open spec fn voxel_spec(
    cfg: TerrainConfig,
    coord: ChunkCoord,
    blocks: Seq<Block>,
    x: int,
    y: int,
    z: int,
) -> Seq<Block> {
    let wx = world_pos(coord.0 as int, x);
    let wz = world_pos(coord.2 as int, z);
    let world_y = coord.1 * 16 + y;
    let wy = world_y * 1_000_000;
    if world_y == 255 && cloud_noise_spec(wx, wz) > 0 {
        put(blocks, x, y, z, Block::Cloud)
    } else {
        let block = terrain_block_spec(cfg, wx, wy, wz);
        let grown = surface_at(cfg, wx, wy, wz) && fertile(block);
        let tree = tree_data_spec(cfg, wx, wz);
        let placed = put(blocks, x, y, z, block);
        let planted = if grown && tree.should_spawn {
            tree_stamp(placed, coord.1 * 16, tree_of(tree, x, z), world_y + 1)
        } else {
            placed
        };
        let plant_noise = plant_noise_spec(cfg, wx, wz);
        if grown && world_y > 0 && !tree.should_spawn && plant_noise > cfg.plant_density && world_y
            < 255 && y + 1 < 16 {
            put(planted, x, y + 1, z, plant_block_spec(biome_spec(cfg, wx, wz, wy), plant_noise))
        } else {
            planted
        }
    }
}

/// The blocks after the lowest `n` cells of column `(x, z)` have been
/// generated, from the bottom up.
pub open spec fn column_spec(
    cfg: TerrainConfig,
    coord: ChunkCoord,
    blocks: Seq<Block>,
    x: int,
    z: int,
    n: int,
) -> Seq<Block>
    decreases n,
{
    if n <= 0 {
        blocks
    } else {
        voxel_spec(cfg, coord, column_spec(cfg, coord, blocks, x, z, n - 1), x, n - 1, z)
    }
}

/// The blocks after the first `k` columns have been generated; columns
/// run along X first, then along Z.
pub open spec fn populate_upto(
    cfg: TerrainConfig,
    coord: ChunkCoord,
    blocks: Seq<Block>,
    k: int,
) -> Seq<Block>
    decreases k,
{
    if k <= 0 {
        blocks
    } else {
        column_spec(cfg, coord, populate_upto(cfg, coord, blocks, k - 1), (k - 1) % 16, (k - 1) / 16, 16)
    }
}

/// The blocks of chunk `coord` after generation over `blocks`. It depends
/// on nothing but the configuration, the chunk's coordinate and the blocks
/// that were there.
pub open spec fn populated(cfg: TerrainConfig, coord: ChunkCoord, blocks: Seq<Block>) -> Seq<
    Block,
> {
    populate_upto(cfg, coord, blocks, 256)
}

/// Height of the ground at `(wx, wz)` in the plain pipeline, in whole
/// blocks between 0 and 255.
#[verifier::opaque]
pub open spec fn terrain_height_spec(wx: int, wz: int) -> int {
    ((fbm_spec(fx_mul(wx, 80_000), fx_mul(wz, 80_000), 80_000, 550_000, 6) + 1_000_000) * 255)
        / 2_000_000
}

/// Material of the ground at world height `world_y` in the plain
/// pipeline: air from the height of the ground on, water below height 0,
/// snow from height 200 and bare stone from height 100 on, else the cover
/// of the biome on the topmost block and its rock below.
#[verifier::opaque]
pub open spec fn simple_block_spec(
    cfg: TerrainConfig,
    wx: int,
    wz: int,
    world_y: int,
) -> Block {
    let biome = biome_spec(cfg, wx, wz, 30_000_000);
    let terrain_height = terrain_height_spec(wx, wz);
    if world_y >= terrain_height {
        Block::Empty
    } else if world_y < 0 {
        Block::Water
    } else if world_y >= 200 {
        Block::Snow
    } else if world_y >= 100 {
        Block::Stone
    } else if world_y == terrain_height - 1 {
        surface_block_spec(wx, wz, world_y * 1_000_000, biome)
    } else {
        subsurface_block_spec(wx, wz, world_y * 1_000_000, biome)
    }
}

/// The blocks after cell `(x, y, z)` has been generated by the plain
/// pipeline: the cell is offered its ground material, and a fertile
/// topmost block below height 150 gets the tree of its column.
#[verifier::opaque]
pub open spec fn simple_voxel_spec(
    cfg: TerrainConfig,
    coord: ChunkCoord,
    blocks: Seq<Block>,
    x: int,
    y: int,
    z: int,
) -> Seq<Block> {
    let wx = world_pos(coord.0 as int, x);
    let wz = world_pos(coord.2 as int, z);
    let world_y = coord.1 * 16 + y;
    let block = simple_block_spec(cfg, wx, wz, world_y);
    let tree = tree_data_spec(cfg, wx, wz);
    let placed = put(blocks, x, y, z, block);
    if world_y < 150 && world_y == terrain_height_spec(wx, wz) - 1 && tree.should_spawn && fertile(
        block,
    ) {
        tree_stamp(placed, coord.1 * 16, tree_of(tree, x, z), world_y + 1)
    } else {
        placed
    }
}

/// As `column_spec`, for the plain pipeline.
pub open spec fn simple_column_spec(
    cfg: TerrainConfig,
    coord: ChunkCoord,
    blocks: Seq<Block>,
    x: int,
    z: int,
    n: int,
) -> Seq<Block>
    decreases n,
{
    if n <= 0 {
        blocks
    } else {
        simple_voxel_spec(
            cfg,
            coord,
            simple_column_spec(cfg, coord, blocks, x, z, n - 1),
            x,
            n - 1,
            z,
        )
    }
}

/// As `populate_upto`, for the plain pipeline.
pub open spec fn simple_populate_upto(
    cfg: TerrainConfig,
    coord: ChunkCoord,
    blocks: Seq<Block>,
    k: int,
) -> Seq<Block>
    decreases k,
{
    if k <= 0 {
        blocks
    } else {
        simple_column_spec(
            cfg,
            coord,
            simple_populate_upto(cfg, coord, blocks, k - 1),
            (k - 1) % 16,
            (k - 1) / 16,
            16,
        )
    }
}

/// The blocks of chunk `coord` after generation by the plain pipeline
/// over `blocks`.
pub open spec fn populated_simple(
    cfg: TerrainConfig,
    coord: ChunkCoord,
    blocks: Seq<Block>,
) -> Seq<Block> {
    simple_populate_upto(cfg, coord, blocks, 256)
}

fn to_world(chunk: isize, local: usize) -> (w: i64)
    requires
        -0x3ff_ffff <= chunk <= 0x3ff_ffff,
        local < 16,
    ensures
        w == world_pos(chunk as int, local as int),
        is_pos(w),
        is_pos((w + ONE) as i64),
{
    (chunk as i64 * 16 + local as i64) * 1_000_000
}

fn scaled(x: i64, k: i64) -> (r: i64)
    requires
        is_pos(x),
        0 <= k <= ONE,
    ensures
        r == fx_mul(x as int, k as int),
        -POS_LIMIT <= r <= POS_LIMIT,
{
    proof {
        lemma_fx_mul_range(x as int, k as int, POS_LIMIT as int, 1_000_000);
    }
    mul_fx(x, k)
}

fn offer(chunk: &mut Chunk, x: usize, y: usize, z: usize, b: Block)
    requires
        old(chunk).wf(),
        x < 16,
        y < 16,
        z < 16,
    ensures
        final(chunk).wf(),
        final(chunk)@ == put(old(chunk)@, x as int, y as int, z as int, b),
{
    chunk.set_block(&BlockCoord(x, y, z), b, false);
}

impl VoxelDensityGenerator {
    fn terrain_block(&self, wx: i64, wy: i64, wz: i64) -> (r: (Block, bool))
        requires
            self.config.valid(),
            is_pos(wx),
            is_pos(wy),
            is_pos((wy + ONE) as i64),
            is_pos(wz),
        ensures
            r.0 == terrain_block_spec(self.config, wx as int, wy as int, wz as int),
            r.1 == surface_at(self.config, wx as int, wy as int, wz as int),
    {
        proof {
            reveal(terrain_block_spec);
        }
        // Use 3D density to calculate terrain (includes cave carving)
        let density = self.calculate_density(wx, wy, wz);
        let is_solid = density > 0;
        let is_surface = is_solid && self.calculate_density(wx, wy + ONE, wz) <= 0;
        let block = if !is_solid {
            // Fill with water if below sea level (y <= 0)
            if wy <= 0 {
                Block::Water
            } else {
                Block::Empty
            }
        } else {
            // Solid block: determine type based on biome and depth
            let biome = self.get_biome_type(wx, wz, wy);
            if is_surface {
                self.get_surface_block_for_biome(wx, wz, wy, biome)
            } else {
                // Check for ores, otherwise use default subsurface type
                match self.get_ore_block(wx, wy, wz) {
                    Some(ore) => ore,
                    None => self.get_subsurface_block(wx, wz, wy, biome),
                }
            }
        };
        (block, is_surface)
    }

    fn plant_for(&self, biome: BiomeType, plant_noise: i64) -> (b: Block)
        ensures
            b == plant_block_spec(biome, plant_noise as int),
    {
        match biome {
            BiomeType::Forest | BiomeType::Jungle => {
                if plant_noise > 800_000 {
                    Block::Grass_Tall
                } else {
                    Block::Grass_Short
                }
            },
            BiomeType::Desert => {
                if plant_noise > 900_000 {
                    Block::Cactus
                } else {
                    Block::DeadBush
                }
            },
            BiomeType::Lake | BiomeType::Beach => Block::SeaGrass,
            _ => {
                if plant_noise > 850_000 {
                    Block::RedFlower
                } else {
                    Block::YellowFlower
                }
            },
        }
    }

    fn place_voxel(
        &self,
        chunk: &mut Chunk,
        chunk_coord: &ChunkCoord,
        x: usize,
        y: usize,
        z: usize,
        tree_data: &TreeData,
    )
        requires
            self.config.valid(),
            old(chunk).wf(),
            chunk_coord.in_limits(),
            x < 16,
            y < 16,
            z < 16,
            *tree_data == tree_data_spec(
                self.config,
                world_pos(chunk_coord.0 as int, x as int),
                world_pos(chunk_coord.2 as int, z as int),
            ),
            0 <= tree_data.tree_height <= 4096,
        ensures
            final(chunk).wf(),
            final(chunk)@ == voxel_spec(
                self.config,
                *chunk_coord,
                old(chunk)@,
                x as int,
                y as int,
                z as int,
            ),
    {
        proof {
            reveal(voxel_spec);
        }
        let wx = to_world(chunk_coord.0, x);
        let wz = to_world(chunk_coord.2, z);
        let world_y = chunk_coord.1 * 16 + y as isize;
        let wy = to_world(chunk_coord.1, y);
        // Add clouds at height 255
        if world_y == CLOUD_HEIGHT {
            let cloud_noise = noise2d(scaled(wx, 40_000), scaled(wz, 40_000));
            if cloud_noise > 0 {
                offer(chunk, x, y, z, Block::Cloud);
                return ;
            }
        }
        let (block, is_surface) = self.terrain_block(wx, wy, wz);
        offer(chunk, x, y, z, block);
        let fertile_here = is_surface && matches!(block, Block::Grass | Block::Moss);
        // Plant trees on surface grass/moss blocks
        if fertile_here && tree_data.should_spawn {
            let tree = Tree {
                pos: (x as i32, z as i32),
                tree_type: tree_data.tree_type,
                trunk_height: tree_data.tree_height,
            };
            Self::plant_tree(&tree, chunk_coord, world_y as i32 + 1, chunk);
        }
        // Place vegetation (plants) on surface blocks

        if fertile_here && world_y > 0 {
            let plant_noise = noise2d(
                scaled(wx, self.config.plant_frequency) + 100_000_000,
                scaled(wz, self.config.plant_frequency) - 100_000_000,
            );
            // Only place plants if not tree-center and noise is above threshold
            if !tree_data.should_spawn && plant_noise > self.config.plant_density {
                let biome = self.get_biome_type(wx, wz, wy);
                let plant_type = self.plant_for(biome, plant_noise);
                // Place plant on top of surface block
                if world_y < 255 {
                    let plant_y = y + 1;
                    if plant_y < 16 {
                        offer(chunk, x, plant_y, z, plant_type);
                    }
                }
            }
        }
    }

    fn populate_column(&self, chunk: &mut Chunk, chunk_coord: &ChunkCoord, x: usize, z: usize)
        requires
            self.config.valid(),
            old(chunk).wf(),
            chunk_coord.in_limits(),
            x < 16,
            z < 16,
        ensures
            final(chunk).wf(),
            final(chunk)@ == column_spec(
                self.config,
                *chunk_coord,
                old(chunk)@,
                x as int,
                z as int,
                16,
            ),
    {
        let wx = to_world(chunk_coord.0, x);
        let wz = to_world(chunk_coord.2, z);
        // Calculate tree placement and properties once per column (for efficiency)
        let tree_data = self.calculate_tree_data(wx, wz);
        // Process each Y level in this column
        let mut y: usize = 0;
        while y < 16
            invariant
                y <= 16,
                x < 16,
                z < 16,
                self.config.valid(),
                chunk.wf(),
                chunk_coord.in_limits(),
                tree_data == tree_data_spec(
                    self.config,
                    world_pos(chunk_coord.0 as int, x as int),
                    world_pos(chunk_coord.2 as int, z as int),
                ),
                0 <= tree_data.tree_height <= 4096,
                chunk@ == column_spec(
                    self.config,
                    *chunk_coord,
                    old(chunk)@,
                    x as int,
                    z as int,
                    y as int,
                ),
            decreases 16 - y,
        {
            self.place_voxel(chunk, chunk_coord, x, y, z, &tree_data);
            y += 1;
        }
    }

    /// Populate a chunk with terrain and features using a complete generation pipeline:
    /// 1. Use 2D noise to determine biome (Forest, Mountain, Plains, etc.)
    /// 2. Use 3D density to generate solid terrain with natural gravity
    /// 3. Carve out caves during density calculation
    /// 4. Fill depressions with water (y <= 0)
    /// 5. Place trees on surface blocks matching biome type
    /// 6. Add clouds at height 255
    pub fn populate_chunk(&self, chunk: &mut Chunk, chunk_coord: &ChunkCoord)
        requires
            self.config.valid(),
            old(chunk).wf(),
            chunk_coord.in_limits(),
        ensures
            final(chunk).wf(),
            final(chunk)@ == populated(self.config, *chunk_coord, old(chunk)@),
    {
        let mut k: usize = 0;
        while k < 256
            invariant
                k <= 256,
                self.config.valid(),
                chunk.wf(),
                chunk_coord.in_limits(),
                chunk@ == populate_upto(self.config, *chunk_coord, old(chunk)@, k as int),
            decreases 256 - k,
        {
            self.populate_column(chunk, chunk_coord, k % 16, k / 16);
            k += 1;
        }
    }

    fn simple_block(
        &self,
        wx: i64,
        wz: i64,
        world_y: isize,
        terrain_height: isize,
        biome: BiomeType,
    ) -> (b: Block)
        requires
            self.config.valid(),
            is_pos(wx),
            is_pos(wz),
            -0x4000_0000 <= world_y <= 0x4000_0000,
            terrain_height == terrain_height_spec(wx as int, wz as int),
            0 <= terrain_height <= 255,
            biome == biome_spec(self.config, wx as int, wz as int, 30_000_000),
        ensures
            b == simple_block_spec(self.config, wx as int, wz as int, world_y as int),
    {
        proof {
            reveal(simple_block_spec);
        }
        if world_y >= terrain_height {
            // Above terrain = air
            Block::Empty
        } else if world_y < 0 {
            // Below sea level = water
            Block::Water
        } else if world_y >= 200 {
            // Above y=200: Snow
            Block::Snow
        } else if world_y >= 100 {
            // Above y=100: Bare stone (no grass)
            Block::Stone
        } else if world_y == terrain_height - 1 {
            // Surface layer: grass and biome-specific blocks
            self.get_surface_block_for_biome(wx, wz, world_y as i64 * 1_000_000, biome)
        } else {
            // Subsurface blocks
            self.get_subsurface_block(wx, wz, world_y as i64 * 1_000_000, biome)
        }
    }

    fn place_voxel_simple(
        &self,
        chunk: &mut Chunk,
        chunk_coord: &ChunkCoord,
        x: usize,
        y: usize,
        z: usize,
        biome: BiomeType,
        terrain_height: isize,
        tree_data: &TreeData,
    )
        requires
            self.config.valid(),
            old(chunk).wf(),
            chunk_coord.in_limits(),
            x < 16,
            y < 16,
            z < 16,
            biome == biome_spec(
                self.config,
                world_pos(chunk_coord.0 as int, x as int),
                world_pos(chunk_coord.2 as int, z as int),
                30_000_000,
            ),
            terrain_height == terrain_height_spec(
                world_pos(chunk_coord.0 as int, x as int),
                world_pos(chunk_coord.2 as int, z as int),
            ),
            0 <= terrain_height <= 255,
            *tree_data == tree_data_spec(
                self.config,
                world_pos(chunk_coord.0 as int, x as int),
                world_pos(chunk_coord.2 as int, z as int),
            ),
            0 <= tree_data.tree_height <= 4096,
        ensures
            final(chunk).wf(),
            final(chunk)@ == simple_voxel_spec(
                self.config,
                *chunk_coord,
                old(chunk)@,
                x as int,
                y as int,
                z as int,
            ),
    {
        proof {
            reveal(simple_voxel_spec);
        }
        let wx = to_world(chunk_coord.0, x);
        let wz = to_world(chunk_coord.2, z);
        let world_y = chunk_coord.1 * 16 + y as isize;
        let block = self.simple_block(wx, wz, world_y, terrain_height, biome);
        offer(chunk, x, y, z, block);
        // Place trees only below y=150 on grass/moss surface
        if world_y < 150 && world_y == terrain_height - 1 && tree_data.should_spawn && matches!(
            block,
            Block::Grass | Block::Moss
        ) {
            let tree = Tree {
                pos: (x as i32, z as i32),
                tree_type: tree_data.tree_type,
                trunk_height: tree_data.tree_height,
            };
            Self::plant_tree(&tree, chunk_coord, world_y as i32 + 1, chunk);
        }
    }

    fn populate_column_simple(
        &self,
        chunk: &mut Chunk,
        chunk_coord: &ChunkCoord,
        x: usize,
        z: usize,
    )
        requires
            self.config.valid(),
            old(chunk).wf(),
            chunk_coord.in_limits(),
            x < 16,
            z < 16,
        ensures
            final(chunk).wf(),
            final(chunk)@ == simple_column_spec(
                self.config,
                *chunk_coord,
                old(chunk)@,
                x as int,
                z as int,
                16,
            ),
    {
        let wx = to_world(chunk_coord.0, x);
        let wz = to_world(chunk_coord.2, z);
        // Determine biome using 2D noise
        let biome = self.get_biome_type(wx, wz, 30_000_000);
        // Calculate terrain height using 2D noise
        proof {
            reveal(terrain_height_spec);
        }
        let height_noise = fbm(scaled(wx, 80_000), scaled(wz, 80_000), 80_000, GAIN, 6);
        let terrain_height = (((height_noise + ONE) * 255) / 2_000_000) as isize;
        // Calculate tree data once per column
        let tree_data = self.calculate_tree_data(wx, wz);
        // Fill entire column based on terrain height
        let mut y: usize = 0;
        while y < 16
            invariant
                y <= 16,
                x < 16,
                z < 16,
                self.config.valid(),
                chunk.wf(),
                chunk_coord.in_limits(),
                biome == biome_spec(
                    self.config,
                    world_pos(chunk_coord.0 as int, x as int),
                    world_pos(chunk_coord.2 as int, z as int),
                    30_000_000,
                ),
                terrain_height == terrain_height_spec(
                    world_pos(chunk_coord.0 as int, x as int),
                    world_pos(chunk_coord.2 as int, z as int),
                ),
                0 <= terrain_height <= 255,
                tree_data == tree_data_spec(
                    self.config,
                    world_pos(chunk_coord.0 as int, x as int),
                    world_pos(chunk_coord.2 as int, z as int),
                ),
                0 <= tree_data.tree_height <= 4096,
                chunk@ == simple_column_spec(
                    self.config,
                    *chunk_coord,
                    old(chunk)@,
                    x as int,
                    z as int,
                    y as int,
                ),
            decreases 16 - y,
        {
            self.place_voxel_simple(chunk, chunk_coord, x, y, z, biome, terrain_height, &tree_data);
            y += 1;
        }
    }

    /// Populate a chunk with simple 2D terrain (sea level at y=0), using
    /// only 2D noise for the biome and for the height of the ground.
    /// Trees are placed only below y=150.
    pub fn populate_chunk_simple(&self, chunk: &mut Chunk, chunk_coord: &ChunkCoord)
        requires
            self.config.valid(),
            old(chunk).wf(),
            chunk_coord.in_limits(),
        ensures
            final(chunk).wf(),
            final(chunk)@ == populated_simple(self.config, *chunk_coord, old(chunk)@),
    {
        let mut k: usize = 0;
        while k < 256
            invariant
                k <= 256,
                self.config.valid(),
                chunk.wf(),
                chunk_coord.in_limits(),
                chunk@ == simple_populate_upto(self.config, *chunk_coord, old(chunk)@, k as int),
            decreases 256 - k,
        {
            self.populate_column_simple(chunk, chunk_coord, k % 16, k / 16);
            k += 1;
        }
    }
}

impl Chunk {
    /// A chunk filled by the plain pipeline of `density_generator`.
    pub fn new_polulated(density_generator: &VoxelDensityGenerator, chunk_coord: &ChunkCoord) -> (c:
        Chunk)
        requires
            density_generator.config.valid(),
            chunk_coord.in_limits(),
        ensures
            c.wf(),
            c@ == populated_simple(
                density_generator.config,
                *chunk_coord,
                Seq::new(4096, |i: int| Block::Empty),
            ),
    {
        let mut chunk = Self::new_empty();
        density_generator.populate_chunk_simple(&mut chunk, chunk_coord);
        chunk
    }
}

/// Generation is a function of the configuration, the chunk's coordinate
/// and the blocks it starts from: two chunks generated alike hold the same
/// blocks, whichever pipeline made them.
pub proof fn lemma_generation_deterministic(
    cfg: TerrainConfig,
    coord: ChunkCoord,
    before_a: Chunk,
    before_b: Chunk,
    after_a: Chunk,
    after_b: Chunk,
    simple: bool,
)
    requires
        before_a@ == before_b@,
        after_a@ == if simple {
            populated_simple(cfg, coord, before_a@)
        } else {
            populated(cfg, coord, before_a@)
        },
        after_b@ == if simple {
            populated_simple(cfg, coord, before_b@)
        } else {
            populated(cfg, coord, before_b@)
        },
    ensures
        after_a@ == after_b@,
{
}

} // verus!
