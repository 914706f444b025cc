use woxel::noise::lattice_hash;
use woxel::{
    fbm, fbm_3d, noise2d, noise3d, BiomeType, Block, BlockCoord, Chunk, ChunkCoord,
    TerrainConfig, Tree, TreeType, VoxelDensityGenerator, ONE,
};

fn blocks_of(chunk: &Chunk) -> Vec<Block> {
    let mut all = Vec::new();
    for z in 0..16 {
        for y in 0..16 {
            for x in 0..16 {
                all.push(chunk.get_block(&BlockCoord(x, y, z)));
            }
        }
    }
    all
}

#[test]
fn voxel_density_test_density_gradient() {
    let generator = VoxelDensityGenerator::new();

    // At sea level with neutral conditions, density should be positive (solid)
    let density_at_0 = generator.calculate_density(100 * ONE, 0, 100 * ONE);
    assert!(density_at_0 > -ONE / 2, "Should be mostly solid near y=0");

    // High up in sky, density should be negative (air)
    let density_at_150 = generator.calculate_density(100 * ONE, 150 * ONE, 100 * ONE);
    assert!(density_at_150 < 0, "Should be mostly air at y=150");
}

#[test]
fn voxel_density_test_biome_detection() {
    let generator = VoxelDensityGenerator::new();

    // Various biome checks - just ensure they don't panic
    let _ = generator.get_biome_type(0, 0, 0);
    let _ = generator.get_biome_type(1000 * ONE, 1000 * ONE, 100 * ONE);
    let _ = generator.get_biome_type(-1000 * ONE, -1000 * ONE, 50 * ONE);
}

#[test]
fn terrain_test_density_gradient() {
    let generator = VoxelDensityGenerator::with_config(TerrainConfig::default());

    // At sea level with neutral conditions, density should be positive (solid)
    let density_at_0 = generator.calculate_density(100 * ONE, 0, 100 * ONE);
    assert!(density_at_0 > -ONE / 2, "Should be mostly solid near y=0");

    // High up in sky, density should be negative (air)
    let density_at_150 = generator.calculate_density(100 * ONE, 150 * ONE, 100 * ONE);
    assert!(density_at_150 < 0, "Should be mostly air at y=150");
}

#[test]
fn terrain_test_biome_detection() {
    let generator = VoxelDensityGenerator::with_config(TerrainConfig::default());

    // Various biome checks - just ensure they don't panic
    let _ = generator.get_biome_type(0, 0, 0);
    let _ = generator.get_biome_type(1000 * ONE, 1000 * ONE, 100 * ONE);
    let _ = generator.get_biome_type(-1000 * ONE, -1000 * ONE, 50 * ONE);
}

#[test]
fn lattice_values_are_fixed() {
    assert_eq!(lattice_hash(0, 0), -1_000_000);
    assert_eq!(lattice_hash(1, 0), -16_253);
    assert_eq!(lattice_hash(-3, 7), -755_123);
    assert_eq!(lattice_hash(123_456, -98_765), -531_985);
}

#[test]
fn noise_values_are_fixed() {
    assert_eq!(noise2d(0, 0), -1_000_000);
    assert_eq!(noise2d(1_500_000, 2_250_000), -490_710);
    assert_eq!(noise2d(-500_000, -7_125_000), -591_308);
    // on a lattice point the noise is the value of the point
    assert_eq!(noise2d(ONE, 0), lattice_hash(1, 0));
    assert_eq!(noise2d(-3 * ONE, 7 * ONE), lattice_hash(-3, 7));
    assert_eq!(noise3d(ONE, 2 * ONE, 3 * ONE), -315_045);
    assert_eq!(noise3d(-10_500_000, 64 * ONE, 3_250_000), -314_693);
}

#[test]
fn layered_noise_values_are_fixed() {
    assert_eq!(fbm(100 * ONE, 100 * ONE, 8_000, 550_000, 4), -416_416);
    assert_eq!(fbm(-1234 * ONE, 777 * ONE, 12_000, 550_000, 3), -454_400);
    assert_eq!(fbm(5 * ONE, 5 * ONE, ONE, 550_000, 8), -735_843);
    // without a layer there is nothing to divide by
    assert_eq!(fbm(3 * ONE, 4 * ONE, 500_000, ONE, 0), 0);
    assert_eq!(fbm_3d(100 * ONE, 0, 100 * ONE, 28_000, 550_000, 3), -484_924);
    assert_eq!(fbm_3d(100 * ONE, 150 * ONE, 100 * ONE, 40_000, 550_000, 3), -485_994);
}

#[test]
fn noise_stays_between_minus_one_and_one() {
    for i in -50i64..50 {
        let x = i * 777_777;
        let z = -i * 1_234_567 + 17;
        let n = noise2d(x, z);
        assert!(-ONE <= n && n <= ONE);
        let m = noise3d(x, z, x + z);
        assert!(-ONE <= m && m <= ONE);
        let f = fbm(x, z, 80_000, 550_000, 6);
        assert!(-ONE <= f && f <= ONE);
    }
}

#[test]
fn density_values_are_fixed() {
    let generator = VoxelDensityGenerator::new();
    assert_eq!(generator.calculate_density(100 * ONE, 0, 100 * ONE), 204_212);
    assert_eq!(generator.calculate_density(100 * ONE, 150 * ONE, 100 * ONE), -671_639);
    assert_eq!(generator.calculate_density(0, 0, 0), -837_500);
    assert_eq!(generator.calculate_density(-500 * ONE, 20 * ONE, 300 * ONE), -402_947);
}

#[test]
fn caves_force_the_density_of_air() {
    // a band that holds every value of the cave noise makes everything a cave
    let mut config = TerrainConfig::default();
    config.cave_noise_min = -2 * ONE;
    config.cave_noise_max = 2 * ONE;
    let generator = VoxelDensityGenerator::with_config(config);
    assert_eq!(generator.calculate_density(100 * ONE, -50 * ONE, 100 * ONE), -ONE);
    assert_eq!(generator.calculate_density(0, 0, 0), -ONE);
    // an empty band carves nothing: deep below the ground the gradient is at its end
    config.cave_noise_min = ONE;
    config.cave_noise_max = -ONE;
    let solid = VoxelDensityGenerator::with_config(config);
    assert!(solid.calculate_density(100 * ONE, -500 * ONE, 100 * ONE) > 0);
    assert!(solid.calculate_density(100 * ONE, 500 * ONE, 100 * ONE) < 0);
}

#[test]
fn biomes_are_fixed() {
    let generator = VoxelDensityGenerator::new();
    assert_eq!(generator.get_biome_type(0, 0, 0), BiomeType::Tundra);
    assert_eq!(generator.get_biome_type(1000 * ONE, 1000 * ONE, 100 * ONE), BiomeType::Tundra);
    assert_eq!(generator.get_biome_type(-1000 * ONE, -1000 * ONE, 50 * ONE), BiomeType::Plain);
    assert_eq!(generator.get_biome_type(100 * ONE, 100 * ONE, 30 * ONE), BiomeType::Plain);
    assert_eq!(generator.get_biome_type(1000 * ONE, -1000 * ONE, 30 * ONE), BiomeType::Beach);
}

#[test]
fn biomes_follow_the_climate() {
    let generator = VoxelDensityGenerator::new();
    assert_eq!(generator.get_biome_type(-1096 * ONE, 12973 * ONE, 0), BiomeType::Plain);
    assert_eq!(generator.get_biome_type(10767 * ONE, -16125 * ONE, 0), BiomeType::Tundra);
    assert_eq!(generator.get_biome_type(-11579 * ONE, -7442 * ONE, 0), BiomeType::Beach);
    // the lattice values are never positive, so no place is humid enough for a lake
    let mut config = TerrainConfig::default();
    config.lake_threshold = 2 * ONE;
    let lakes = VoxelDensityGenerator::with_config(config);
    for i in 0..200i64 {
        let x = i * 37 * ONE;
        let z = -i * 91 * ONE;
        assert_ne!(lakes.get_biome_type(x, z, 0), BiomeType::Lake);
        assert_eq!(lakes.get_biome_type(x, z, 0), generator.get_biome_type(x, z, 0));
    }
}

#[test]
fn surface_blocks_follow_biome_and_height() {
    let g = VoxelDensityGenerator::new();
    assert_eq!(g.get_surface_block_for_biome(0, 0, 0, BiomeType::Ocean), Block::Water);
    assert_eq!(g.get_surface_block_for_biome(0, 0, 0, BiomeType::Desert), Block::Sand);
    assert_eq!(g.get_surface_block_for_biome(0, 0, 5 * ONE, BiomeType::Beach), Block::Sand);
    assert_eq!(g.get_surface_block_for_biome(0, 0, 5 * ONE + 1, BiomeType::Beach), Block::Grass);
    assert_eq!(g.get_surface_block_for_biome(0, 0, 6 * ONE, BiomeType::Lake), Block::Grass);
    assert_eq!(g.get_surface_block_for_biome(0, 0, 2 * ONE, BiomeType::Lake), Block::Sand);
    assert_eq!(g.get_surface_block_for_biome(9 * ONE, 9 * ONE, 61 * ONE, BiomeType::Tundra), Block::Snow);
    assert_eq!(g.get_surface_block_for_biome(9 * ONE, 9 * ONE, 41 * ONE, BiomeType::Tundra), Block::Moss);
    assert_eq!(g.get_surface_block_for_biome(9 * ONE, 9 * ONE, 20 * ONE, BiomeType::Tundra), Block::Moss);
    assert_eq!(g.get_surface_block_for_biome(9 * ONE, 9 * ONE, 70 * ONE, BiomeType::Mountain), Block::Grass);
    assert_eq!(g.get_surface_block_for_biome(9 * ONE, 9 * ONE, 100 * ONE, BiomeType::Mountain), Block::Grass);
    // at the origin every noise is -1
    assert_eq!(g.get_surface_block_for_biome(0, 0, 101 * ONE, BiomeType::Mountain), Block::Cobblestone);
    assert_eq!(g.get_surface_block_for_biome(0, 0, 0, BiomeType::Plain), Block::Moss);
    assert_eq!(g.get_surface_block_for_biome(0, 0, 0, BiomeType::Forest), Block::Moss);
    assert_eq!(g.get_surface_block_for_biome(0, 0, 0, BiomeType::Jungle), Block::Moss);
    assert_eq!(g.get_surface_block_for_biome(0, 0, 0, BiomeType::Cliff), Block::Stone);
    assert_eq!(g.get_surface_block_for_biome(0, 0, 30 * ONE, BiomeType::Tundra), Block::Snow);
}

#[test]
fn subsurface_is_bedrock_below_minus_twenty() {
    let g = VoxelDensityGenerator::new();
    for biome in [
        BiomeType::Ocean,
        BiomeType::Beach,
        BiomeType::Plain,
        BiomeType::Forest,
        BiomeType::Mountain,
        BiomeType::Tundra,
        BiomeType::Desert,
        BiomeType::Cliff,
        BiomeType::Lake,
        BiomeType::Jungle,
    ] {
        assert_eq!(g.get_subsurface_block(3 * ONE, 4 * ONE, -20 * ONE - 1, biome), Block::Bedrock);
        assert_ne!(g.get_subsurface_block(3 * ONE, 4 * ONE, -20 * ONE, biome), Block::Bedrock);
    }
    assert_eq!(g.get_subsurface_block(0, 0, 39 * ONE, BiomeType::Desert), Block::Sandstone);
    assert_eq!(g.get_subsurface_block(0, 0, 40 * ONE, BiomeType::Desert), Block::Sand);
    assert_eq!(g.get_subsurface_block(0, 0, 1, BiomeType::Plain), Block::Dirt);
    assert_eq!(g.get_subsurface_block(0, 0, 0, BiomeType::Plain), Block::Stone);
    assert_eq!(g.get_subsurface_block(7 * ONE, 7 * ONE, 10 * ONE, BiomeType::Mountain), Block::Granite);
    // the noise is -1 at the origin
    assert_eq!(g.get_subsurface_block(0, 0, 10 * ONE, BiomeType::Tundra), Block::Stone);
}

#[test]
fn ores_keep_to_their_bands() {
    let g = VoxelDensityGenerator::new();
    assert_eq!(g.get_ore_block(15 * ONE, 7 * ONE, -213 * ONE), Some(Block::IronOre));
    assert_eq!(g.get_ore_block(2445 * ONE, -35 * ONE, 7 * ONE), Some(Block::DiamondOre));
    // the same places outside the band of the ore
    assert_eq!(g.get_ore_block(15 * ONE, 0, -213 * ONE), None);
    assert_eq!(g.get_ore_block(2445 * ONE, -30 * ONE, 7 * ONE), None);
    for i in 0..4000i64 {
        let x = (i % 61) * ONE;
        let z = (i / 61) * ONE;
        for y in [-50i64, -10, 5, 30, 50, 70] {
            match g.get_ore_block(x, y * ONE, z) {
                Some(Block::CoalOre) => assert!(20 < y && y < 60),
                Some(Block::IronOre) => assert!(0 < y && y < 40),
                Some(Block::GoldOre) => assert!(-20 < y && y < 10),
                Some(Block::DiamondOre) => assert!(-80 < y && y < -30),
                Some(other) => panic!("{:?} is no ore", other),
                None => {}
            }
        }
    }
    assert_eq!(g.get_ore_block(0, 70 * ONE, 0), None);
    assert_eq!(g.get_ore_block(0, -90 * ONE, 0), None);
}

#[test]
fn tree_data_follow_the_biome() {
    let g = VoxelDensityGenerator::new();
    for i in 0..300i64 {
        let wx = i * 13 * ONE;
        let wz = (i * 29 - 1000) * ONE;
        let t = g.calculate_tree_data(wx, wz);
        let biome = g.get_biome_type(wx, wz, 30 * ONE);
        match biome {
            BiomeType::Tundra => assert_eq!(t.tree_type, TreeType::Spruce),
            BiomeType::Desert => assert_eq!(t.tree_type, TreeType::Acacia),
            BiomeType::Forest => assert!(t.tree_type == TreeType::Birch || t.tree_type == TreeType::Oak),
            BiomeType::Mountain => {
                assert!(t.tree_type == TreeType::Spruce || t.tree_type == TreeType::Oak)
            }
            BiomeType::Jungle => {
                assert!(t.tree_type == TreeType::DarkOak || t.tree_type == TreeType::Acacia)
            }
            _ => assert_eq!(t.tree_type, TreeType::Oak),
        }
        let (base, spread) = match t.tree_type {
            TreeType::Spruce => (9, 3),
            TreeType::Birch => (7, 2),
            TreeType::Oak => (6, 3),
            TreeType::Acacia => (8, 4),
            TreeType::DarkOak => (12, 5),
        };
        assert!(base <= t.tree_height && t.tree_height < base + spread);
    }
    // at the origin the roll is 0: a spruce of height 9 in the tundra
    let origin = g.calculate_tree_data(0, 0);
    assert_eq!(origin.tree_type, TreeType::Spruce);
    assert_eq!(origin.tree_height, 9);
    assert!(!origin.should_spawn);
}

#[test]
fn oak_has_a_trunk_and_two_layers_of_leaves() {
    let mut chunk = Chunk::new_empty();
    let tree = Tree { pos: (8, 8), tree_type: TreeType::Oak, trunk_height: 6 };
    VoxelDensityGenerator::plant_tree(&tree, &ChunkCoord(0, 0, 0), 1, &mut chunk);
    for z in 0..16 {
        for y in 0..16 {
            for x in 0..16 {
                let trunk = x == 8 && z == 8 && (1..7).contains(&y);
                let leaves = (7..10).contains(&x) && (7..10).contains(&z) && (y == 5 || y == 6);
                let expected = if trunk {
                    Block::Wood
                } else if leaves {
                    Block::OakLeaves
                } else {
                    Block::Empty
                };
                assert_eq!(chunk.get_block(&BlockCoord(x, y, z)), expected);
            }
        }
    }
}

#[test]
fn trees_take_free_cells_only_and_are_cut_at_the_chunk() {
    let mut chunk = Chunk::new_empty();
    chunk.set_block(&BlockCoord(15, 14, 15), Block::Stone, false);
    chunk.set_block(&BlockCoord(14, 14, 15), Block::Sand, false);
    let tree = Tree { pos: (15, 15), tree_type: TreeType::Birch, trunk_height: 7 };
    // the chunk above the ground: its lowest layer is world height 16
    VoxelDensityGenerator::plant_tree(&tree, &ChunkCoord(0, 1, 0), 26, &mut chunk);
    // trunk from world height 26 to 32: local 10 to 15, the rest is cut off
    for y in 10..16 {
        let expected = if y == 14 { Block::Stone } else { Block::BirchWood };
        assert_eq!(chunk.get_block(&BlockCoord(15, y, 15)), expected);
    }
    assert_eq!(chunk.get_block(&BlockCoord(15, 9, 15)), Block::Empty);
    // leaves at world heights 31 and 32: only local 15 lies in the chunk
    assert_eq!(chunk.get_block(&BlockCoord(14, 15, 14)), Block::BirchLeaves);
    assert_eq!(chunk.get_block(&BlockCoord(14, 15, 15)), Block::BirchLeaves);
    assert_eq!(chunk.get_block(&BlockCoord(15, 15, 14)), Block::BirchLeaves);
    assert_eq!(chunk.get_block(&BlockCoord(13, 15, 15)), Block::Empty);
    assert_eq!(chunk.get_block(&BlockCoord(14, 14, 15)), Block::Sand);
    assert_eq!(chunk.get_block(&BlockCoord(14, 14, 14)), Block::Empty);
}

#[test]
fn spruce_acacia_and_dark_oak_have_their_shapes() {
    let mut chunk = Chunk::new_empty();
    let spruce = Tree { pos: (8, 8), tree_type: TreeType::Spruce, trunk_height: 9 };
    VoxelDensityGenerator::plant_tree(&spruce, &ChunkCoord(0, 0, 0), 0, &mut chunk);
    assert_eq!(chunk.get_block(&BlockCoord(8, 8, 8)), Block::SpruceWood);
    // lowest layer at height 7, radius 2, rounded: the corners are left out
    assert_eq!(chunk.get_block(&BlockCoord(10, 7, 8)), Block::SpruceLeaves);
    assert_eq!(chunk.get_block(&BlockCoord(10, 7, 9)), Block::SpruceLeaves);
    assert_eq!(chunk.get_block(&BlockCoord(10, 7, 10)), Block::Empty);
    assert_eq!(chunk.get_block(&BlockCoord(9, 8, 9)), Block::SpruceLeaves);
    assert_eq!(chunk.get_block(&BlockCoord(10, 8, 8)), Block::Empty);
    assert_eq!(chunk.get_block(&BlockCoord(8, 9, 8)), Block::SpruceLeaves);
    assert_eq!(chunk.get_block(&BlockCoord(8, 10, 8)), Block::Empty);

    let mut chunk = Chunk::new_empty();
    let acacia = Tree { pos: (8, 8), tree_type: TreeType::Acacia, trunk_height: 8 };
    VoxelDensityGenerator::plant_tree(&acacia, &ChunkCoord(0, 0, 0), 0, &mut chunk);
    assert_eq!(chunk.get_block(&BlockCoord(8, 7, 8)), Block::AcaciaWood);
    assert_eq!(chunk.get_block(&BlockCoord(8, 8, 8)), Block::AcaciaLeaves);
    assert_eq!(chunk.get_block(&BlockCoord(6, 7, 7)), Block::AcaciaLeaves);
    assert_eq!(chunk.get_block(&BlockCoord(6, 7, 6)), Block::Empty);
    assert_eq!(chunk.get_block(&BlockCoord(6, 6, 8)), Block::Empty);
    assert_eq!(chunk.get_block(&BlockCoord(6, 9, 8)), Block::Empty);

    let mut chunk = Chunk::new_empty();
    let dark = Tree { pos: (15, 8), tree_type: TreeType::DarkOak, trunk_height: 12 };
    VoxelDensityGenerator::plant_tree(&dark, &ChunkCoord(0, 0, 0), 0, &mut chunk);
    // the trunk is two by two; the half beyond the chunk is cut off
    assert_eq!(chunk.get_block(&BlockCoord(15, 0, 8)), Block::DarkOakWood);
    assert_eq!(chunk.get_block(&BlockCoord(15, 11, 9)), Block::DarkOakWood);
    assert_eq!(chunk.get_block(&BlockCoord(14, 0, 8)), Block::Empty);
    assert_eq!(chunk.get_block(&BlockCoord(12, 9, 5)), Block::DarkOakLeaves);
    assert_eq!(chunk.get_block(&BlockCoord(11, 9, 8)), Block::Empty);
    assert_eq!(chunk.get_block(&BlockCoord(13, 10, 10)), Block::DarkOakLeaves);
    assert_eq!(chunk.get_block(&BlockCoord(12, 10, 8)), Block::Empty);
    assert_eq!(chunk.get_block(&BlockCoord(14, 11, 7)), Block::DarkOakLeaves);
    assert_eq!(chunk.get_block(&BlockCoord(13, 11, 8)), Block::Empty);
    assert_eq!(chunk.get_block(&BlockCoord(15, 12, 8)), Block::Empty);
}

#[test]
fn generation_gives_the_same_blocks_each_time() {
    let g = VoxelDensityGenerator::new();
    for coord in [ChunkCoord(0, 0, 0), ChunkCoord(-3, 1, 7)] {
        let mut a = Chunk::new_empty();
        let mut b = Chunk::new_empty();
        g.populate_chunk(&mut a, &coord);
        VoxelDensityGenerator::new().populate_chunk(&mut b, &coord);
        assert_eq!(blocks_of(&a), blocks_of(&b));
        let c = Chunk::new_polulated(&g, &coord);
        let mut d = Chunk::new_empty();
        g.populate_chunk_simple(&mut d, &coord);
        assert_eq!(blocks_of(&c), blocks_of(&d));
    }
}

#[test]
fn plain_pipeline_fills_by_height() {
    let g = VoxelDensityGenerator::new();
    // below the sea everything is water
    let deep = Chunk::new_polulated(&g, &ChunkCoord(0, -1, 0));
    for b in blocks_of(&deep) {
        assert_eq!(b, Block::Water);
    }
    // above every ground there is air
    assert!(Chunk::new_polulated(&g, &ChunkCoord(0, 16, 0)).is_empty());
    // the ground at (0, 0) has height 0 and at (8, 8) height 13
    let ground = Chunk::new_polulated(&g, &ChunkCoord(0, 0, 0));
    for y in 0..16 {
        assert_eq!(ground.get_block(&BlockCoord(0, y, 0)), Block::Empty);
    }
    for y in 0..13 {
        assert_ne!(ground.get_block(&BlockCoord(8, y, 8)), Block::Empty);
        assert_ne!(ground.get_block(&BlockCoord(8, y, 8)), Block::Water);
    }
    // a tundra below height 20: moss on top, granite or stone below
    assert_eq!(ground.get_block(&BlockCoord(8, 12, 8)), Block::Moss);
    let below = ground.get_block(&BlockCoord(8, 5, 8));
    assert!(below == Block::Granite || below == Block::Stone);
}

#[test]
fn full_pipeline_puts_water_below_the_sea_and_bedrock_deep_down() {
    let g = VoxelDensityGenerator::new();
    let mut sky = Chunk::new_empty();
    g.populate_chunk(&mut sky, &ChunkCoord(0, 40, 0));
    assert!(sky.is_empty());
    let mut deep = Chunk::new_empty();
    g.populate_chunk(&mut deep, &ChunkCoord(2, -4, 2));
    let mut bedrock = 0;
    for b in blocks_of(&deep) {
        // below height -20 what is solid and no ore is bedrock; caves hold water
        assert!(
            b == Block::Bedrock || b == Block::Water || b == Block::DiamondOre,
            "{:?} below the bedrock line",
            b
        );
        if b == Block::Bedrock {
            bedrock += 1;
        }
    }
    assert!(bedrock > 0);
    // blocks that are there before stay
    let mut kept = Chunk::new_empty();
    kept.set_block(&BlockCoord(1, 1, 1), Block::Cactus, false);
    g.populate_chunk(&mut kept, &ChunkCoord(2, -4, 2));
    assert_eq!(kept.get_block(&BlockCoord(1, 1, 1)), Block::Cactus);
}

#[test]
fn clouds_lie_at_height_255_only() {
    let g = VoxelDensityGenerator::new();
    let mut chunk = Chunk::new_empty();
    // the chunk whose top layer is world height 255
    g.populate_chunk(&mut chunk, &ChunkCoord(10, 15, -4));
    let mut clouds = 0;
    for z in 0..16 {
        for y in 0..16 {
            for x in 0..16 {
                let b = chunk.get_block(&BlockCoord(x, y, z));
                if b == Block::Cloud {
                    assert_eq!(y, 15);
                    clouds += 1;
                    let wx = (160 + x as i64) * ONE;
                    let wz = (-64 + z as i64) * ONE;
                    assert!(noise2d(wx * 4 / 100, wz * 4 / 100) > 0);
                }
            }
        }
    }
    let mut expected = 0;
    for z in 0..16i64 {
        for x in 0..16i64 {
            if noise2d((160 + x) * ONE * 4 / 100, (-64 + z) * ONE * 4 / 100) > 0 {
                expected += 1;
            }
        }
    }
    assert_eq!(clouds, expected);
}

#[test]
fn configurations_are_tested_before_use() {
    assert!(TerrainConfig::default().is_valid());
    let mut config = TerrainConfig::default();
    config.y_gradient_scale = 0;
    assert!(!config.is_valid());
    config.y_gradient_scale = 1;
    assert!(config.is_valid());
    config.tree_height_variation = 0;
    assert!(!config.is_valid());
    config.tree_height_variation = 1000;
    assert!(config.is_valid());
    config.tree_height_variation = 1001;
    assert!(!config.is_valid());
    let mut config = TerrainConfig::default();
    config.cave_freq = ONE + 1;
    assert!(!config.is_valid());
    config.cave_freq = ONE;
    assert!(config.is_valid());
    config.plant_frequency = -1;
    assert!(!config.is_valid());
    config.plant_frequency = 0;
    config.base_height = -(1i64 << 40);
    assert!(config.is_valid());
    config.base_height = (1i64 << 40) + 1;
    assert!(!config.is_valid());
    // thresholds are free
    let mut config = TerrainConfig::default();
    config.cave_noise_min = i64::MIN;
    config.lake_threshold = i64::MAX;
    config.cliff_steepness = -5;
    assert!(config.is_valid());
}
