use woxel::{Block, BlockCoord, Chunk, ChunkCoord};

fn all_empty(chunk: &Chunk) -> bool {
    for z in 0..16 {
        for y in 0..16 {
            for x in 0..16 {
                if chunk.get_block(&BlockCoord(x, y, z)) != Block::Empty {
                    return false;
                }
            }
        }
    }
    true
}

#[test]
fn new_chunk_is_empty() {
    let chunk = Chunk::new_empty();
    assert!(chunk.is_empty());
    assert!(all_empty(&chunk));
}

#[test]
fn set_block_writes_into_an_empty_place() {
    let mut chunk = Chunk::new_empty();
    assert!(chunk.set_block(&BlockCoord(1, 2, 3), Block::Stone, false));
    assert_eq!(chunk.get_block(&BlockCoord(1, 2, 3)), Block::Stone);
    assert_eq!(chunk.get_block(&BlockCoord(3, 2, 1)), Block::Empty);
    assert!(!chunk.is_empty());
}

#[test]
fn set_block_leaves_an_occupied_place_unless_told_to_overwrite() {
    let mut chunk = Chunk::new_empty();
    assert!(chunk.set_block(&BlockCoord(0, 0, 0), Block::Dirt, false));
    assert!(!chunk.set_block(&BlockCoord(0, 0, 0), Block::Stone, false));
    assert_eq!(chunk.get_block(&BlockCoord(0, 0, 0)), Block::Dirt);
    assert!(chunk.set_block(&BlockCoord(0, 0, 0), Block::Stone, true));
    assert_eq!(chunk.get_block(&BlockCoord(0, 0, 0)), Block::Stone);
}

#[test]
fn is_empty_follows_every_edit() {
    let mut chunk = Chunk::new_empty();
    let places = [BlockCoord(0, 0, 0), BlockCoord(15, 15, 15), BlockCoord(7, 0, 9)];
    for p in places.iter() {
        assert!(chunk.set_block(p, Block::Sand, false));
        assert_eq!(chunk.is_empty(), all_empty(&chunk));
    }
    // writing air over air and a block over a block leaves the count alone
    assert!(chunk.set_block(&BlockCoord(1, 1, 1), Block::Empty, true));
    assert!(chunk.set_block(&BlockCoord(0, 0, 0), Block::Stone, true));
    assert_eq!(chunk.is_empty(), all_empty(&chunk));
    for p in places.iter() {
        assert!(!chunk.is_empty());
        assert!(chunk.set_block(p, Block::Empty, true));
        assert_eq!(chunk.is_empty(), all_empty(&chunk));
    }
    assert!(chunk.is_empty());
}

#[test]
fn with_blocks_counts_the_empty_blocks() {
    assert!(Chunk::with_blocks([Block::Empty; 4096]).is_empty());
    let mut blocks = [Block::Empty; 4096];
    blocks[4095] = Block::Water;
    let mut chunk = Chunk::with_blocks(blocks);
    assert!(!chunk.is_empty());
    assert_eq!(chunk.get_block(&BlockCoord(15, 15, 15)), Block::Water);
    assert!(chunk.set_block(&BlockCoord(15, 15, 15), Block::Empty, true));
    assert!(chunk.is_empty());
}

#[test]
fn flat_chunk_is_filled_on_the_ground_layer_only() {
    let ground = Chunk::new_flat(&ChunkCoord(3, 0, -2), Block::Grass);
    assert!(!ground.is_empty());
    assert_eq!(ground.get_block(&BlockCoord(0, 0, 0)), Block::Grass);
    assert_eq!(ground.get_block(&BlockCoord(15, 15, 15)), Block::Grass);
    let above = Chunk::new_flat(&ChunkCoord(3, 1, -2), Block::Grass);
    assert!(above.is_empty());
}

#[test]
fn mesh_is_made_anew_after_an_edit() {
    let mut chunk = Chunk::new_empty();
    assert!(chunk.get_mesh(0).is_empty());
    assert!(chunk.set_block(&BlockCoord(4, 4, 4), Block::Stone, false));
    for lod in 0u8..5 {
        let mesh = chunk.get_mesh(lod);
        assert_eq!(mesh.vertices.len(), 24);
        assert_eq!(mesh.indices.len(), 36);
    }
    let first = chunk.get_mesh(0);
    // a second request gives the same mesh
    assert_eq!(chunk.get_mesh(0), first);
    // a block that touches nothing adds six faces
    assert!(chunk.set_block(&BlockCoord(10, 10, 10), Block::Dirt, false));
    assert_eq!(chunk.get_mesh(0).vertices.len(), 48);
    // taking a block away takes its faces away
    assert!(chunk.set_block(&BlockCoord(4, 4, 4), Block::Empty, true));
    let after = chunk.get_mesh(0);
    assert_eq!(after.vertices.len(), 24);
    assert_ne!(after, first);
    // a write that is refused leaves the mesh as it is
    assert!(!chunk.set_block(&BlockCoord(10, 10, 10), Block::Stone, false));
    assert_eq!(chunk.get_mesh(0), after);
}
