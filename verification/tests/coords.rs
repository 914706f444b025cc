use woxel::coords::{CHUNK_LIMIT, N_BLOCKS_PER_CHUNK, WORLD_LIMIT};
use woxel::{BlockCoord, ChunkCoord, WorldCoord, CHUNK_SIZE};

fn round_trip(w: WorldCoord) {
    let c = w.to_chunk_coord();
    let b = w.to_block_coord();
    let o = c.to_world_coord();
    assert_eq!(o.0 + b.0 as isize, w.0);
    assert_eq!(o.1 + b.1 as isize, w.1);
    assert_eq!(o.2 + b.2 as isize, w.2);
    assert!(b.0 < 16 && b.1 < 16 && b.2 < 16);
}

#[test]
fn negative_world_coordinates_floor_to_their_chunk() {
    let w = WorldCoord(-1, -16, -17);
    assert_eq!(w.to_chunk_coord(), ChunkCoord(-1, -1, -2));
    assert_eq!(w.to_block_coord(), BlockCoord(15, 0, 15));
}

#[test]
fn positive_world_coordinates_split_into_chunk_and_block() {
    let w = WorldCoord(0, 15, 16);
    assert_eq!(w.to_chunk_coord(), ChunkCoord(0, 0, 1));
    assert_eq!(w.to_block_coord(), BlockCoord(0, 15, 0));
    let w = WorldCoord(37, 255, 4096);
    assert_eq!(w.to_chunk_coord(), ChunkCoord(2, 15, 256));
    assert_eq!(w.to_block_coord(), BlockCoord(5, 15, 0));
}

#[test]
fn chunk_and_block_give_the_world_coordinate_back() {
    for x in -40..40 {
        round_trip(WorldCoord(x, -x, 3 * x + 1));
    }
    round_trip(WorldCoord(WORLD_LIMIT, -WORLD_LIMIT, 0));
    round_trip(WorldCoord(-WORLD_LIMIT + 1, WORLD_LIMIT - 1, -1));
}

#[test]
fn chunk_origin_is_sixteen_times_the_chunk_coordinate() {
    assert_eq!(CHUNK_SIZE, 16);
    assert_eq!(ChunkCoord(0, 0, 0).to_world_coord(), WorldCoord(0, 0, 0));
    assert_eq!(ChunkCoord(1, -1, 3).to_world_coord(), WorldCoord(16, -16, 48));
    assert_eq!(
        ChunkCoord(CHUNK_LIMIT, -CHUNK_LIMIT, 0).to_world_coord(),
        WorldCoord(CHUNK_LIMIT * 16, -CHUNK_LIMIT * 16, 0)
    );
    assert_eq!(ChunkCoord(-2, 0, 0).to_world_coord().to_chunk_coord(), ChunkCoord(-2, 0, 0));
}

#[test]
fn block_index_runs_along_x_then_y_then_z() {
    assert_eq!(BlockCoord(0, 0, 0).get_block_idx(), 0);
    assert_eq!(BlockCoord(1, 0, 0).get_block_idx(), 1);
    assert_eq!(BlockCoord(0, 1, 0).get_block_idx(), 16);
    assert_eq!(BlockCoord(0, 0, 1).get_block_idx(), 256);
    assert_eq!(BlockCoord(3, 4, 5).get_block_idx(), 3 + 4 * 16 + 5 * 256);
    assert_eq!(BlockCoord(15, 15, 15).get_block_idx(), N_BLOCKS_PER_CHUNK - 1);
}

#[test]
fn squared_distance_adds_the_squares_of_the_differences() {
    let a = WorldCoord(1, 2, 3);
    let b = WorldCoord(4, -2, 3);
    assert_eq!(a.squared_distance(&b), 9 + 16);
    assert_eq!(b.squared_distance(&a), 25);
    assert_eq!(a.squared_distance(&a), 0);
    assert_eq!(WorldCoord(-10, 0, 0).squared_distance(&WorldCoord(10, 0, 0)), 400);
}
