use crate::block::Block;
use crate::chunk::Chunk;
use crate::coords::ChunkCoord;
use vstd::prelude::*;

verus! {

/// The pictures of the ten digits, five cells wide and six rows high: six
/// numbers for each digit, one for each row, in which bit `c` stands for the
/// cell in column `c`.
pub open spec fn digit_rows() -> Seq<u8> {
    seq![
        31u8, 17u8, 17u8, 17u8, 17u8, 31u8,
        4u8, 6u8, 4u8, 4u8, 4u8, 14u8,
        15u8, 8u8, 14u8, 1u8, 1u8, 31u8,
        15u8, 8u8, 12u8, 8u8, 8u8, 15u8,
        9u8, 9u8, 31u8, 8u8, 8u8, 8u8,
        31u8, 1u8, 15u8, 8u8, 8u8, 15u8,
        15u8, 1u8, 15u8, 17u8, 17u8, 15u8,
        31u8, 8u8, 4u8, 2u8, 1u8, 1u8,
        15u8, 17u8, 15u8, 17u8, 17u8, 15u8,
        15u8, 17u8, 17u8, 31u8, 8u8, 15u8,
    ]
}

/// Whether the picture of digit `d` has a block in column `col` of row
/// `row`.
pub open spec fn digit_cell(d: int, col: int, row: int) -> bool {
    let bits = digit_rows()[d * 6 + row] as int;
    if col == 0 {
        bits % 2 == 1
    } else if col == 1 {
        (bits / 2) % 2 == 1
    } else if col == 2 {
        (bits / 4) % 2 == 1
    } else if col == 3 {
        (bits / 8) % 2 == 1
    } else {
        (bits / 16) % 2 == 1
    }
}

/// Digit of `n` at place `place`: 0 is the hundreds, 1 the tens, 2 the
/// ones.
pub open spec fn decimal_digit(n: int, place: int) -> int {
    if place == 0 {
        (n / 100) % 10
    } else if place == 1 {
        (n / 10) % 10
    } else {
        n % 10
    }
}

/// Whether digit `place` of `n` has a block at `(x, row)` when the three
/// digits are written side by side from column 2 on, four columns apart.
pub open spec fn digit_shows(n: int, place: int, x: int, row: int) -> bool {
    let col = x - (2 + 4 * place);
    0 <= col < 5 && digit_cell(decimal_digit(n, place), col, row)
}

/// Whether the last three digits of `n` have a block at `(x, row)`.
pub open spec fn number_shows(n: int, x: int, row: int) -> bool {
    0 <= row < 6 && (digit_shows(n, 0, x, row) || digit_shows(n, 1, x, row) || digit_shows(
        n,
        2,
        x,
        row,
    ))
}

/// Magnitude of a coordinate.
pub open spec fn magnitude(c: int) -> int {
    if c < 0 {
        -c
    } else {
        c
    }
}

/// Block `i` of the chunk that shows its own coordinate: a frame of stone
/// round the lowest layer, the X coordinate in sand in layer 2 and the Z
/// coordinate in sand in layer 9. Only chunks of the ground layer
/// (`coord.1 == 0`) show anything.
pub open spec fn number_block(coord: ChunkCoord, i: int) -> Block {
    let x = i % 16;
    let y = (i / 16) % 16;
    let z = i / 256;
    if coord.1 != 0 {
        Block::Empty
    } else if y == 0 && (x == 0 || x == 15 || z == 0 || z == 15) {
        Block::Stone
    } else if y == 2 && number_shows(magnitude(coord.0 as int), x, z) {
        Block::Sand
    } else if y == 9 && number_shows(magnitude(coord.2 as int), x, z) {
        Block::Sand
    } else {
        Block::Empty
    }
}

fn digit_has(rows: &[u8; 60], d: usize, col: usize, row: usize) -> (set: bool)
    requires
        rows@ == digit_rows(),
        d < 10,
        col < 5,
        row < 6,
    ensures
        set == digit_cell(d as int, col as int, row as int),
{
    let bits = rows[d * 6 + row];
    if col == 0 {
        bits % 2 == 1
    } else if col == 1 {
        (bits / 2) % 2 == 1
    } else if col == 2 {
        (bits / 4) % 2 == 1
    } else if col == 3 {
        (bits / 8) % 2 == 1
    } else {
        (bits / 16) % 2 == 1
    }
}

fn number_has(rows: &[u8; 60], n: isize, digits: &[usize; 3], x: usize, row: usize) -> (set: bool)
    requires
        rows@ == digit_rows(),
        digits[0] == decimal_digit(magnitude(n as int), 0),
        digits[1] == decimal_digit(magnitude(n as int), 1),
        digits[2] == decimal_digit(magnitude(n as int), 2),
        x < 16,
        row < 16,
    ensures
        set == number_shows(magnitude(n as int), x as int, row as int),
{
    if row >= 6 {
        return false;
    }
    let mut set = false;
    let mut digit_idx: usize = 0;
    while digit_idx < 3
        invariant
            digit_idx <= 3,
            rows@ == digit_rows(),
            digits[0] == decimal_digit(magnitude(n as int), 0),
            digits[1] == decimal_digit(magnitude(n as int), 1),
            digits[2] == decimal_digit(magnitude(n as int), 2),
            x < 16,
            row < 6,
            set == ({
                ||| (digit_idx > 0 && digit_shows(magnitude(n as int), 0, x as int, row as int))
                ||| (digit_idx > 1 && digit_shows(magnitude(n as int), 1, x as int, row as int))
                ||| (digit_idx > 2 && digit_shows(magnitude(n as int), 2, x as int, row as int))
            }),
        decreases 3 - digit_idx,
    {
        // Start at x=2, space digits by 4
        let x_offset = 2 + digit_idx * 4;
        if x >= x_offset && x - x_offset < 5 {
            if digit_has(rows, digits[digit_idx], x - x_offset, row) {
                set = true;
            }
        }
        digit_idx += 1;
    }
    set
}

fn last_digits(c: isize) -> (digits: [usize; 3])
    requires
        c != isize::MIN,
    ensures
        digits[0] == decimal_digit(magnitude(c as int), 0),
        digits[1] == decimal_digit(magnitude(c as int), 1),
        digits[2] == decimal_digit(magnitude(c as int), 2),
{
    let n: usize = if c < 0 {
        (-c) as usize
    } else {
        c as usize
    };
    // Convert to base-10 digits (up to 3 digits, right-aligned)
    [(n / 100) % 10, (n / 10) % 10, n % 10]
}

impl Chunk {
    /// A chunk that shows its own X and Z coordinates as numbers, for
    /// finding one's way in a flat test world.
    pub fn new_coord(coord: ChunkCoord) -> (c: Chunk)
        requires
            coord.0 != isize::MIN,
            coord.2 != isize::MIN,
        ensures
            c.wf(),
            c@ == Seq::new(4096, |i: int| number_block(coord, i)),
    {
        // only create number in chunk y=0
        if coord.1 != 0 {
            let chunk = Self::new_empty();
            assert(chunk@ =~= Seq::new(4096, |i: int| number_block(coord, i)));
            return chunk;
        }
        let rows: [u8; 60] = [
        31, 17, 17, 17, 17, 31,
        4, 6, 4, 4, 4, 14,
        15, 8, 14, 1, 1, 31,
        15, 8, 12, 8, 8, 15,
        9, 9, 31, 8, 8, 8,
        31, 1, 15, 8, 8, 15,
        15, 1, 15, 17, 17, 15,
        31, 8, 4, 2, 1, 1,
        15, 17, 15, 17, 17, 15,
        15, 17, 17, 31, 8, 15,
        ];
        assert(rows@ =~= digit_rows());
        let x_digits = last_digits(coord.0);
        let z_digits = last_digits(coord.2);
        let mut blocks = [Block::Empty;4096];
        let mut i: usize = 0;
        while i < 4096
            invariant
                i <= 4096,
                coord.1 == 0,
                rows@ == digit_rows(),
                x_digits[0] == decimal_digit(magnitude(coord.0 as int), 0),
                x_digits[1] == decimal_digit(magnitude(coord.0 as int), 1),
                x_digits[2] == decimal_digit(magnitude(coord.0 as int), 2),
                z_digits[0] == decimal_digit(magnitude(coord.2 as int), 0),
                z_digits[1] == decimal_digit(magnitude(coord.2 as int), 1),
                z_digits[2] == decimal_digit(magnitude(coord.2 as int), 2),
                forall|j: int| 0 <= j < i ==> blocks@[j] == number_block(coord, j),
            decreases 4096 - i,
        {
            let x = i % 16;
            let y = (i / 16) % 16;
            let z = i / 256;
            let block = if y == 0 && (x == 0 || x == 15 || z == 0 || z == 15) {
                // stone outline at y=0 on the perimeter
                Block::Stone
            } else if y == 2 && number_has(&rows, coord.0, &x_digits, x, z) {
                // Row 1: the X coordinate
                Block::Sand
            } else if y == 9 && number_has(&rows, coord.2, &z_digits, x, z) {
                // Row 2: the Z coordinate
                Block::Sand
            } else {
                Block::Empty
            };
            blocks[i] = block;
            i += 1;
        }
        let chunk = Self::with_blocks(blocks);
        assert(chunk@ =~= Seq::new(4096, |i: int| number_block(coord, i)));
        chunk
    }
}

} // verus!
