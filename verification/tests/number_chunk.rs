use woxel::{Block, BlockCoord, Chunk, ChunkCoord};

const PICTURES: [[&str; 6]; 10] = [
    ["#####", "#...#", "#...#", "#...#", "#...#", "#####"],
    ["..#..", ".##..", "..#..", "..#..", "..#..", ".###."],
    ["####.", "...#.", ".###.", "#....", "#....", "#####"],
    ["####.", "...#.", "..##.", "...#.", "...#.", "####."],
    ["#..#.", "#..#.", "#####", "...#.", "...#.", "...#."],
    ["#####", "#....", "####.", "...#.", "...#.", "####."],
    ["####.", "#....", "####.", "#...#", "#...#", "####."],
    ["#####", "...#.", "..#..", ".#...", "#....", "#...."],
    ["####.", "#...#", "####.", "#...#", "#...#", "####."],
    ["####.", "#...#", "#...#", "#####", "...#.", "####."],
];

/// The chunk as it is built by writing the frame and then the digits one after the other.
fn expected(coord: ChunkCoord) -> Vec<Block> {
    let mut blocks = vec![Block::Empty; 4096];
    if coord.1 != 0 {
        return blocks;
    }
    for x in 0..16 {
        for z in 0..16 {
            if x == 0 || x == 15 || z == 0 || z == 15 {
                blocks[x + 256 * z] = Block::Stone;
            }
        }
    }
    for (layer, n) in [(2usize, coord.0.unsigned_abs()), (9usize, coord.2.unsigned_abs())] {
        let digits = [(n / 100) % 10, (n / 10) % 10, n % 10];
        for (place, digit) in digits.iter().enumerate() {
            for (row, line) in PICTURES[*digit].iter().enumerate() {
                for (col, cell) in line.chars().enumerate() {
                    let px = col + 2 + place * 4;
                    if cell == '#' && px < 16 {
                        blocks[px + 16 * layer + 256 * row] = Block::Sand;
                    }
                }
            }
        }
    }
    blocks
}

fn blocks_of(chunk: &Chunk) -> Vec<Block> {
    let mut all = Vec::new();
    for z in 0..16 {
        for y in 0..16 {
            for x in 0..16 {
                all.push(chunk.get_block(&BlockCoord(x, y, z)));
            }
        }
    }
    all
}

#[test]
fn number_chunk_shows_its_coordinates() {
    for coord in [
        ChunkCoord(0, 0, 0),
        ChunkCoord(123, 0, -45),
        ChunkCoord(-7, 0, 908),
        ChunkCoord(1234, 0, 65),
        ChunkCoord(999, 0, -999),
    ] {
        assert_eq!(blocks_of(&Chunk::new_coord(coord)), expected(coord));
    }
}

#[test]
fn number_chunk_is_empty_off_the_ground_layer() {
    assert!(Chunk::new_coord(ChunkCoord(12, 1, 34)).is_empty());
    assert!(Chunk::new_coord(ChunkCoord(12, -1, 34)).is_empty());
    assert!(!Chunk::new_coord(ChunkCoord(12, 0, 34)).is_empty());
}

#[test]
fn number_chunk_has_a_frame_and_two_rows_of_digits() {
    let chunk = Chunk::new_coord(ChunkCoord(1, 0, 70));
    assert_eq!(chunk.get_block(&BlockCoord(0, 0, 0)), Block::Stone);
    assert_eq!(chunk.get_block(&BlockCoord(15, 0, 7)), Block::Stone);
    assert_eq!(chunk.get_block(&BlockCoord(7, 0, 7)), Block::Empty);
    assert_eq!(chunk.get_block(&BlockCoord(0, 1, 0)), Block::Empty);
    // 001 in layer 2: the last digit begins at column 10, and the one has its top at column 12
    assert_eq!(chunk.get_block(&BlockCoord(12, 2, 0)), Block::Sand);
    assert_eq!(chunk.get_block(&BlockCoord(11, 2, 0)), Block::Empty);
    // column 10 is shared: the last column of the zero before lies there
    assert_eq!(chunk.get_block(&BlockCoord(10, 2, 0)), Block::Sand);
    // the hundreds are a zero: a full top row from column 2 to 6
    for x in 2..7 {
        assert_eq!(chunk.get_block(&BlockCoord(x, 2, 0)), Block::Sand);
    }
    // 070 in layer 9: the seven begins at column 6
    assert_eq!(chunk.get_block(&BlockCoord(9, 9, 1)), Block::Sand);
    assert_eq!(chunk.get_block(&BlockCoord(8, 9, 2)), Block::Sand);
    assert_eq!(chunk.get_block(&BlockCoord(8, 9, 1)), Block::Empty);
    // nothing above the sixth row
    for x in 0..16 {
        assert_eq!(chunk.get_block(&BlockCoord(x, 2, 6)), Block::Empty);
        assert_eq!(chunk.get_block(&BlockCoord(x, 9, 7)), Block::Empty);
    }
}
