use woxel::{Block, BlockCoord, Chunk};

fn uniform(chunk: &Chunk, b: Block) -> bool {
    for z in 0..16 {
        for y in 0..16 {
            for x in 0..16 {
                if chunk.get_block(&BlockCoord(x, y, z)) != b {
                    return false;
                }
            }
        }
    }
    true
}

#[test]
fn uniform_chunk_stays_uniform_at_every_level() {
    for material in [Block::Stone, Block::Water, Block::BlackStone, Block::Empty] {
        let chunk = Chunk::with_blocks([material; 4096]);
        for lod in 1u8..5 {
            assert!(uniform(&chunk.compute_downsampled(lod), material));
        }
    }
}

#[test]
fn window_takes_its_most_frequent_material() {
    let mut chunk = Chunk::new_empty();
    // window (0,0,0) of side 2: three dirt, two stone, three air
    chunk.set_block(&BlockCoord(0, 0, 0), Block::Stone, false);
    chunk.set_block(&BlockCoord(1, 0, 0), Block::Stone, false);
    chunk.set_block(&BlockCoord(0, 1, 0), Block::Dirt, false);
    chunk.set_block(&BlockCoord(1, 1, 0), Block::Dirt, false);
    chunk.set_block(&BlockCoord(0, 0, 1), Block::Dirt, false);
    let half = chunk.compute_downsampled(1);
    for z in 0..2 {
        for y in 0..2 {
            for x in 0..2 {
                assert_eq!(half.get_block(&BlockCoord(x, y, z)), Block::Dirt);
            }
        }
    }
    assert_eq!(half.get_block(&BlockCoord(2, 0, 0)), Block::Empty);
    assert_eq!(half.get_block(&BlockCoord(0, 2, 0)), Block::Empty);
    assert_eq!(half.get_block(&BlockCoord(0, 0, 2)), Block::Empty);
}

#[test]
fn a_single_block_wins_against_air() {
    let mut chunk = Chunk::new_empty();
    chunk.set_block(&BlockCoord(9, 9, 9), Block::Sand, false);
    let coarse = chunk.compute_downsampled(3);
    for z in 0..16 {
        for y in 0..16 {
            for x in 0..16 {
                let expected = if x >= 8 && y >= 8 && z >= 8 { Block::Sand } else { Block::Empty };
                assert_eq!(coarse.get_block(&BlockCoord(x, y, z)), expected);
            }
        }
    }
    assert!(uniform(&chunk.compute_downsampled(4), Block::Sand));
}

#[test]
fn equal_counts_go_to_the_lower_number() {
    let mut chunk = Chunk::new_empty();
    chunk.set_block(&BlockCoord(0, 0, 0), Block::BlackStone, false);
    chunk.set_block(&BlockCoord(1, 0, 0), Block::Grass, false);
    chunk.set_block(&BlockCoord(0, 1, 0), Block::Basalt, false);
    let half = chunk.compute_downsampled(1);
    assert_eq!(half.get_block(&BlockCoord(1, 1, 1)), Block::Grass);
    // materials with high numbers are counted like the others
    let mut high = Chunk::new_empty();
    high.set_block(&BlockCoord(2, 2, 2), Block::Basalt, false);
    high.set_block(&BlockCoord(3, 2, 2), Block::BlackStone, false);
    high.set_block(&BlockCoord(3, 3, 3), Block::BlackStone, false);
    assert_eq!(high.compute_downsampled(1).get_block(&BlockCoord(2, 3, 2)), Block::BlackStone);
}

#[test]
fn coarse_mesh_of_a_single_block_is_its_whole_window() {
    let mut chunk = Chunk::new_empty();
    chunk.set_block(&BlockCoord(0, 0, 0), Block::Stone, false);
    let mesh = chunk.get_mesh(2);
    assert_eq!(mesh.vertices.len(), 24);
    for v in &mesh.vertices {
        for k in 0..3 {
            assert!(v.pos[k] == 0 || v.pos[k] == 4);
        }
    }
    let coarse = chunk.compute_downsampled(2);
    assert_eq!(coarse.get_block(&BlockCoord(3, 3, 3)), Block::Stone);
    assert_eq!(coarse.get_block(&BlockCoord(4, 0, 0)), Block::Empty);
}
