use crate::block::{lemma_block_id_round_trip, Block};
use crate::chunk::Chunk;
use crate::coords::{linear_index, BlockCoord};
use crate::mesher::block_at;
use vstd::arithmetic::div_mod::{lemma_fundamental_div_mod, lemma_fundamental_div_mod_converse};
use vstd::prelude::*;

verus! {

/// Side of the cubes that level `lod` merges: two to the power `lod`.
pub open spec fn window_side(lod: int) -> int {
    if lod == 1 {
        2
    } else if lod == 2 {
        4
    } else if lod == 3 {
        8
    } else {
        16
    }
}

/// Smallest coordinate of the cube of side `side` that holds coordinate
/// `c`.
pub open spec fn window_base(c: int, side: int) -> int {
    c - c % side
}

/// Number of blocks of kind `b` among the first `n` of the row that
/// starts at `(bx, y, z)` and runs along X.
pub open spec fn row_count(blocks: Seq<Block>, bx: int, y: int, z: int, b: Block, n: int) -> int
    decreases n,
{
    if n <= 0 {
        0
    } else {
        row_count(blocks, bx, y, z, b, n - 1) + if block_at(blocks, bx + n - 1, y, z) == b {
            1int
        } else {
            0int
        }
    }
}

/// Number of blocks of kind `b` in the first `n` rows of length `side` of
/// the plane that starts at `(bx, by, z)`.
pub open spec fn plane_count(
    blocks: Seq<Block>,
    side: int,
    bx: int,
    by: int,
    z: int,
    b: Block,
    n: int,
) -> int
    decreases n,
{
    if n <= 0 {
        0
    } else {
        plane_count(blocks, side, bx, by, z, b, n - 1) + row_count(
            blocks,
            bx,
            by + n - 1,
            z,
            b,
            side,
        )
    }
}

/// Number of blocks of kind `b` in the first `n` planes of the cube of
/// side `side` that starts at `(bx, by, bz)`.
pub open spec fn cube_count(
    blocks: Seq<Block>,
    side: int,
    bx: int,
    by: int,
    bz: int,
    b: Block,
    n: int,
) -> int
    decreases n,
{
    if n <= 0 {
        0
    } else {
        cube_count(blocks, side, bx, by, bz, b, n - 1) + plane_count(
            blocks,
            side,
            bx,
            by,
            bz + n - 1,
            b,
            side,
        )
    }
}

/// Weight of kind `b` in the vote of a cube: the number of its blocks of
/// that kind, but nothing for air, which never wins against a material.
pub open spec fn score(blocks: Seq<Block>, side: int, bx: int, by: int, bz: int, b: Block) -> int {
    if b == Block::Empty {
        0
    } else {
        cube_count(blocks, side, bx, by, bz, b, side)
    }
}

/// Winner of the vote among the kinds numbered below `n`: a later kind
/// replaces an earlier one only with a strictly higher score.
pub open spec fn best_upto(blocks: Seq<Block>, side: int, bx: int, by: int, bz: int, n: int) -> Block
    decreases n,
{
    if n <= 0 {
        Block::Empty
    } else {
        let prev = best_upto(blocks, side, bx, by, bz, n - 1);
        let cand = Block::of_id((n - 1) as u8);
        if score(blocks, side, bx, by, bz, cand) > score(blocks, side, bx, by, bz, prev) {
            cand
        } else {
            prev
        }
    }
}

/// Material that stands for the cube of side `side` at `(bx, by, bz)`:
/// the most frequent kind other than air, the lowest-numbered among equals,
/// and air if the cube holds nothing else.
pub open spec fn window_mode(blocks: Seq<Block>, side: int, bx: int, by: int, bz: int) -> Block {
    best_upto(blocks, side, bx, by, bz, 40)
}

/// Block `i` of the chunk at level `lod`: the material that stands for the
/// cube that holds it.
pub open spec fn downsample_cell(blocks: Seq<Block>, lod: int, i: int) -> Block {
    let side = window_side(lod);
    window_mode(
        blocks,
        side,
        window_base(i % 16, side),
        window_base((i / 16) % 16, side),
        window_base(i / 256, side),
    )
}

/// The chunk at level `lod`: every cube of side `2^lod` filled with the
/// material that stands for it.
pub open spec fn downsample(blocks: Seq<Block>, lod: int) -> Seq<Block> {
    Seq::new(4096, |i: int| downsample_cell(blocks, lod, i))
}

/// Whether `(x, y, z)` lies in the cube of side `side` at `(bx, by, bz)`.
pub open spec fn in_cube(side: int, bx: int, by: int, bz: int, x: int, y: int, z: int) -> bool {
    bx <= x < bx + side && by <= y < by + side && bz <= z < bz + side
}

proof fn lemma_counts_bounds(
    blocks: Seq<Block>,
    side: int,
    bx: int,
    by: int,
    bz: int,
    b: Block,
    n: int,
)
    requires
        0 <= n,
        0 <= side,
    ensures
        0 <= row_count(blocks, bx, by, bz, b, n),
        0 <= plane_count(blocks, side, bx, by, bz, b, n),
        0 <= cube_count(blocks, side, bx, by, bz, b, n),
    decreases n,
{
    if n > 0 {
        lemma_counts_bounds(blocks, side, bx, by, bz, b, n - 1);
        lemma_row_nonneg(blocks, bx, by + n - 1, bz, b, side);
        lemma_plane_nonneg(blocks, side, bx, by, bz + n - 1, b, side);
    }
}

proof fn lemma_row_nonneg(blocks: Seq<Block>, bx: int, y: int, z: int, b: Block, n: int)
    ensures
        0 <= row_count(blocks, bx, y, z, b, n),
    decreases n,
{
    if n > 0 {
        lemma_row_nonneg(blocks, bx, y, z, b, n - 1);
    }
}

proof fn lemma_plane_nonneg(
    blocks: Seq<Block>,
    side: int,
    bx: int,
    by: int,
    z: int,
    b: Block,
    n: int,
)
    ensures
        0 <= plane_count(blocks, side, bx, by, z, b, n),
    decreases n,
{
    if n > 0 {
        lemma_plane_nonneg(blocks, side, bx, by, z, b, n - 1);
        lemma_row_nonneg(blocks, bx, by + n - 1, z, b, side);
    }
}

/// The material that stands for a cube is its most frequent kind other
/// than air, and among kinds equally frequent the one with the lowest
/// number; it is air only if no other kind occurs.
pub proof fn lemma_window_mode(
    blocks: Seq<Block>,
    side: int,
    bx: int,
    by: int,
    bz: int,
    b: Block,
)
    requires
        0 <= side,
    ensures
        ({
            let m = window_mode(blocks, side, bx, by, bz);
            &&& score(blocks, side, bx, by, bz, b) <= score(blocks, side, bx, by, bz, m)
            &&& score(blocks, side, bx, by, bz, b) == score(blocks, side, bx, by, bz, m) && b
                != Block::Empty && m != Block::Empty ==> m.id() <= b.id()
            &&& m != Block::Empty ==> score(blocks, side, bx, by, bz, m) > 0
        }),
{
    lemma_best_upto(blocks, side, bx, by, bz, 40, b);
    lemma_block_id_round_trip(b, 0);
}

proof fn lemma_best_upto(
    blocks: Seq<Block>,
    side: int,
    bx: int,
    by: int,
    bz: int,
    n: int,
    b: Block,
)
    requires
        0 <= n <= 40,
        0 <= side,
    ensures
        ({
            let m = best_upto(blocks, side, bx, by, bz, n);
            &&& m == Block::Empty || m.id() < n
            &&& m != Block::Empty ==> score(blocks, side, bx, by, bz, m) > 0
            &&& b.id() < n ==> score(blocks, side, bx, by, bz, b) <= score(
                blocks,
                side,
                bx,
                by,
                bz,
                m,
            )
            &&& b.id() < n && score(blocks, side, bx, by, bz, b) == score(
                blocks,
                side,
                bx,
                by,
                bz,
                m,
            ) && b != Block::Empty && m != Block::Empty ==> m.id() <= b.id()
        }),
    decreases n,
{
    if n > 0 {
        lemma_best_upto(blocks, side, bx, by, bz, n - 1, b);
        let cand = Block::of_id((n - 1) as u8);
        lemma_block_id_round_trip(b, (n - 1) as u8);
        lemma_best_upto(blocks, side, bx, by, bz, n - 1, cand);
        lemma_counts_bounds(blocks, side, bx, by, bz, cand, side);
    }
}

proof fn lemma_uniform_row(
    blocks: Seq<Block>,
    m: Block,
    bx: int,
    y: int,
    z: int,
    b: Block,
    n: int,
)
    requires
        blocks.len() == 4096,
        forall|i: int| 0 <= i < 4096 ==> blocks[i] == m,
        0 <= bx,
        0 <= y < 16,
        0 <= z < 16,
        0 <= n,
        bx + n <= 16,
    ensures
        row_count(blocks, bx, y, z, b, n) == if b == m {
            n
        } else {
            0
        },
    decreases n,
{
    if n > 0 {
        lemma_uniform_row(blocks, m, bx, y, z, b, n - 1);
        assert(0 <= linear_index(bx + n - 1, y, z) < 4096);
    }
}

proof fn lemma_uniform_plane(
    blocks: Seq<Block>,
    m: Block,
    side: int,
    bx: int,
    by: int,
    z: int,
    b: Block,
    n: int,
)
    requires
        blocks.len() == 4096,
        forall|i: int| 0 <= i < 4096 ==> blocks[i] == m,
        0 <= bx,
        0 <= by,
        0 <= z < 16,
        1 <= side,
        bx + side <= 16,
        0 <= n,
        by + n <= 16,
    ensures
        b != m ==> plane_count(blocks, side, bx, by, z, b, n) == 0,
        b == m && n >= 1 ==> plane_count(blocks, side, bx, by, z, b, n) >= 1,
        plane_count(blocks, side, bx, by, z, b, n) >= 0,
    decreases n,
{
    if n > 0 {
        lemma_uniform_plane(blocks, m, side, bx, by, z, b, n - 1);
        lemma_uniform_row(blocks, m, bx, by + n - 1, z, b, side);
    }
}

proof fn lemma_uniform_cube(
    blocks: Seq<Block>,
    m: Block,
    side: int,
    bx: int,
    by: int,
    bz: int,
    b: Block,
    n: int,
)
    requires
        blocks.len() == 4096,
        forall|i: int| 0 <= i < 4096 ==> blocks[i] == m,
        0 <= bx,
        0 <= by,
        0 <= bz,
        1 <= side,
        bx + side <= 16,
        by + side <= 16,
        0 <= n,
        bz + n <= 16,
    ensures
        b != m ==> cube_count(blocks, side, bx, by, bz, b, n) == 0,
        b == m && n >= 1 ==> cube_count(blocks, side, bx, by, bz, b, n) >= 1,
        cube_count(blocks, side, bx, by, bz, b, n) >= 0,
    decreases n,
{
    if n > 0 {
        lemma_uniform_cube(blocks, m, side, bx, by, bz, b, n - 1);
        lemma_uniform_plane(blocks, m, side, bx, by, bz + n - 1, b, side);
    }
}

proof fn lemma_uniform_best(
    blocks: Seq<Block>,
    m: Block,
    side: int,
    bx: int,
    by: int,
    bz: int,
    n: int,
)
    requires
        blocks.len() == 4096,
        forall|i: int| 0 <= i < 4096 ==> blocks[i] == m,
        0 <= bx,
        0 <= by,
        0 <= bz,
        1 <= side,
        bx + side <= 16,
        by + side <= 16,
        bz + side <= 16,
        0 <= n <= 40,
    ensures
        best_upto(blocks, side, bx, by, bz, n) == if n > m.id() {
            m
        } else {
            Block::Empty
        },
    decreases n,
{
    if n > 0 {
        lemma_uniform_best(blocks, m, side, bx, by, bz, n - 1);
        let cand = Block::of_id((n - 1) as u8);
        lemma_block_id_round_trip(m, (n - 1) as u8);
        lemma_uniform_cube(blocks, m, side, bx, by, bz, cand, side);
        lemma_uniform_cube(blocks, m, side, bx, by, bz, m, side);
    }
}

/// The cube that holds a coordinate starts at a multiple of its side and
/// lies inside the chunk.
pub proof fn lemma_window_base(c: int, lod: int)
    requires
        0 <= c < 16,
        1 <= lod <= 4,
    ensures
        0 <= window_base(c, window_side(lod)) <= c,
        c < window_base(c, window_side(lod)) + window_side(lod) <= 16,
        window_base(c, window_side(lod)) % window_side(lod) == 0,
{
}

/// Merging a chunk filled with one material gives a chunk filled with
/// that material, at every level.
pub proof fn lemma_downsample_uniform(blocks: Seq<Block>, lod: int, m: Block)
    requires
        blocks.len() == 4096,
        forall|i: int| 0 <= i < 4096 ==> blocks[i] == m,
        1 <= lod <= 4,
    ensures
        downsample(blocks, lod) == Seq::new(4096, |i: int| m),
{
    let side = window_side(lod);
    assert forall|i: int| 0 <= i < 4096 implies downsample_cell(blocks, lod, i) == m by {
        lemma_window_base(i % 16, lod);
        lemma_window_base((i / 16) % 16, lod);
        lemma_window_base(i / 256, lod);
        lemma_uniform_best(
            blocks,
            m,
            side,
            window_base(i % 16, side),
            window_base((i / 16) % 16, side),
            window_base(i / 256, side),
            40,
        );
        lemma_block_id_round_trip(m, 0);
    }
    assert(downsample(blocks, lod) =~= Seq::new(4096, |i: int| m));
}

/// Whether cell `(x, y, z)` of the cube at `(bx, by, bz)` comes before
/// cell `(bx + ox, by + oy, bz + oz)` when the cube is walked plane by
/// plane and row by row.
pub open spec fn cube_before(
    side: int,
    bx: int,
    by: int,
    bz: int,
    ox: int,
    oy: int,
    oz: int,
    x: int,
    y: int,
    z: int,
) -> bool {
    in_cube(side, bx, by, bz, x, y, z) && (z < bz + oz || (z == bz + oz && (y < by + oy || (y == by
        + oy && x < bx + ox))))
}

/// Whether the cube that holds `(x, y, z)` comes before the cube at
/// `(bx, by, bz)` when the cubes of side `side` are walked in the same
/// order.
pub open spec fn window_before(
    side: int,
    bx: int,
    by: int,
    bz: int,
    x: int,
    y: int,
    z: int,
) -> bool {
    z < bz || (z < bz + side && (y < by || (y < by + side && x < bx)))
}

/// A coordinate that lies in the cube that starts at the multiple `b` of
/// the cube's side has `b` as the base of its cube.
proof fn lemma_base_of(c: int, lod: int, b: int)
    requires
        1 <= lod <= 4,
        0 <= b,
        b % window_side(lod) == 0,
        b <= c < b + window_side(lod),
    ensures
        window_base(c, window_side(lod)) == b,
{
    let side = window_side(lod);
    let q = b / side;
    lemma_fundamental_div_mod(b, side);
    assert(b == q * side) by (nonlinear_arith)
        requires
            b == side * q + 0,
    ;
    lemma_fundamental_div_mod_converse(c, side, q, c - b);
}

/// The cube after the one at `b` starts at a multiple of the side too, and
/// the cube at `b` ends inside the chunk.
proof fn lemma_window_step(b: int, lod: int)
    requires
        1 <= lod <= 4,
        0 <= b < 16,
        b % window_side(lod) == 0,
    ensures
        b + window_side(lod) <= 16,
        (b + window_side(lod)) % window_side(lod) == 0,
{
    let side = window_side(lod);
    let q = b / side;
    lemma_fundamental_div_mod(b, side);
    assert(b + side == (q + 1) * side + 0) by (nonlinear_arith)
        requires
            b == side * q + 0,
    ;
    lemma_fundamental_div_mod_converse(b + side, side, q + 1, 0);
    if b + side > 16 {
        assert(b >= side) by (nonlinear_arith)
            requires
                b == side * q + 0,
                b > 0,
                side > 0,
        ;
    }
}

/// Filling the cube at `(bx, by, bz)` with the material that stands for it
/// carries the merged chunk one cube further.
proof fn lemma_window_filled(
    src: Seq<Block>,
    lod: int,
    before: Seq<Block>,
    after: Seq<Block>,
    bx: int,
    by: int,
    bz: int,
    chosen: Block,
)
    requires
        1 <= lod <= 4,
        0 <= bx < 16,
        0 <= by < 16,
        0 <= bz < 16,
        bx % window_side(lod) == 0,
        by % window_side(lod) == 0,
        bz % window_side(lod) == 0,
        before.len() == 4096,
        after.len() == 4096,
        chosen == window_mode(src, window_side(lod), bx, by, bz),
        forall|i: int|
            0 <= i < 4096 ==> #[trigger] before[i] == if window_before(
                window_side(lod),
                bx,
                by,
                bz,
                i % 16,
                (i / 16) % 16,
                i / 256,
            ) {
                downsample_cell(src, lod, i)
            } else {
                Block::Empty
            },
        forall|i: int|
            0 <= i < 4096 ==> #[trigger] after[i] == if in_cube(
                window_side(lod),
                bx,
                by,
                bz,
                i % 16,
                (i / 16) % 16,
                i / 256,
            ) && before[i] == Block::Empty {
                chosen
            } else {
                before[i]
            },
    ensures
        bx + window_side(lod) <= 16,
        (bx + window_side(lod)) % window_side(lod) == 0,
        forall|i: int|
            0 <= i < 4096 ==> #[trigger] after[i] == if window_before(
                window_side(lod),
                bx + window_side(lod),
                by,
                bz,
                i % 16,
                (i / 16) % 16,
                i / 256,
            ) {
                downsample_cell(src, lod, i)
            } else {
                Block::Empty
            },
{
    let side = window_side(lod);
    lemma_window_step(bx, lod);
    lemma_window_step(by, lod);
    lemma_window_step(bz, lod);
    assert forall|i: int| 0 <= i < 4096 implies #[trigger] after[i] == if window_before(
        side,
        bx + side,
        by,
        bz,
        i % 16,
        (i / 16) % 16,
        i / 256,
    ) {
        downsample_cell(src, lod, i)
    } else {
        Block::Empty
    } by {
        let x = i % 16;
        let y = (i / 16) % 16;
        let z = i / 256;
        assert(before[i] == if window_before(side, bx, by, bz, x, y, z) {
            downsample_cell(src, lod, i)
        } else {
            Block::Empty
        });
        if in_cube(side, bx, by, bz, x, y, z) {
            lemma_base_of(x, lod, bx);
            lemma_base_of(y, lod, by);
            lemma_base_of(z, lod, bz);
        }
    }
}

fn window_mode_of(chunk: &Chunk, side: usize, bx: usize, by: usize, bz: usize) -> (m: Block)
    requires
        1 <= side,
        bx + side <= 16,
        by + side <= 16,
        bz + side <= 16,
    ensures
        m == window_mode(chunk@, side as int, bx as int, by as int, bz as int),
{
    proof {
        chunk.lemma_view_len();
    }
    let mut counts: [u32; 40] = [0;40];
    let mut oz: usize = 0;
    while oz < side
        invariant
            oz <= side,
            1 <= side,
            bx + side <= 16,
            by + side <= 16,
            bz + side <= 16,
            chunk@.len() == 4096,
            counts@[0] == 0,
            forall|k: int|
                1 <= k < 40 ==> #[trigger] counts@[k] == cube_count(
                    chunk@,
                    side as int,
                    bx as int,
                    by as int,
                    bz as int,
                    Block::of_id(k as u8),
                    oz as int,
                ),
            forall|k: int| 0 <= k < 40 ==> #[trigger] counts@[k] <= 256 * oz,
        decreases side - oz,
    {
        let mut oy: usize = 0;
        while oy < side
            invariant
                oy <= side,
                oz < side,
                1 <= side,
                bx + side <= 16,
                by + side <= 16,
                bz + side <= 16,
                chunk@.len() == 4096,
                counts@[0] == 0,
                forall|k: int|
                    1 <= k < 40 ==> #[trigger] counts@[k] == cube_count(
                        chunk@,
                        side as int,
                        bx as int,
                        by as int,
                        bz as int,
                        Block::of_id(k as u8),
                        oz as int,
                    ) + plane_count(
                        chunk@,
                        side as int,
                        bx as int,
                        by as int,
                        bz + oz,
                        Block::of_id(k as u8),
                        oy as int,
                    ),
                forall|k: int| 0 <= k < 40 ==> #[trigger] counts@[k] <= 256 * oz + 16 * oy,
            decreases side - oy,
        {
            let mut ox: usize = 0;
            while ox < side
                invariant
                    ox <= side,
                    oy < side,
                    oz < side,
                    1 <= side,
                    bx + side <= 16,
                    by + side <= 16,
                    bz + side <= 16,
                    chunk@.len() == 4096,
                    counts@[0] == 0,
                    forall|k: int|
                        1 <= k < 40 ==> #[trigger] counts@[k] == cube_count(
                            chunk@,
                            side as int,
                            bx as int,
                            by as int,
                            bz as int,
                            Block::of_id(k as u8),
                            oz as int,
                        ) + plane_count(
                            chunk@,
                            side as int,
                            bx as int,
                            by as int,
                            bz + oz,
                            Block::of_id(k as u8),
                            oy as int,
                        ) + row_count(
                            chunk@,
                            bx as int,
                            by + oy,
                            bz + oz,
                            Block::of_id(k as u8),
                            ox as int,
                        ),
                    forall|k: int|
                        0 <= k < 40 ==> #[trigger] counts@[k] <= 256 * oz + 16 * oy + ox,
                decreases side - ox,
            {
                let b = chunk.get_block(&BlockCoord(bx + ox, by + oy, bz + oz));
                assert(b == block_at(chunk@, bx + ox, by + oy, bz + oz));
                proof {
                    assert forall|k: int| 1 <= k < 40 implies (#[trigger] Block::of_id(k as u8)
                        == b) == (k == b.id()) by {
                        lemma_block_id_round_trip(b, k as u8);
                    }
                }
                if b != Block::Empty {
                    let id = b.to_u8() as usize;
                    counts[id] = counts[id] + 1;
                }
                ox += 1;
            }
            oy += 1;
        }
        oz += 1;
    }
    let mut best = Block::Empty;
    let mut highest_count: u32 = 0;
    let mut k: u8 = 0;
    while k < 40
        invariant
            k <= 40,
            counts@[0] == 0,
            forall|j: int|
                1 <= j < 40 ==> #[trigger] counts@[j] == cube_count(
                    chunk@,
                    side as int,
                    bx as int,
                    by as int,
                    bz as int,
                    Block::of_id(j as u8),
                    side as int,
                ),
            best == best_upto(chunk@, side as int, bx as int, by as int, bz as int, k as int),
            highest_count == score(chunk@, side as int, bx as int, by as int, bz as int, best),
        decreases 40 - k,
    {
        let c = counts[k as usize];
        proof {
            lemma_block_id_round_trip(Block::Empty, k);
            assert(c == score(
                chunk@,
                side as int,
                bx as int,
                by as int,
                bz as int,
                Block::of_id(k),
            ));
        }
        if c > highest_count {
            highest_count = c;
            best = Block::from_u8(k);
        }
        k += 1;
    }
    best
}

/// Writing one cell of a cube carries the filling of the cube one cell
/// further.
proof fn lemma_cell_filled(
    orig: Seq<Block>,
    before: Seq<Block>,
    after: Seq<Block>,
    side: int,
    bx: int,
    by: int,
    bz: int,
    ox: int,
    oy: int,
    oz: int,
    chosen: Block,
)
    requires
        orig.len() == 4096,
        before.len() == 4096,
        after.len() == 4096,
        0 <= bx,
        0 <= by,
        0 <= bz,
        0 <= ox < side,
        0 <= oy < side,
        0 <= oz < side,
        bx + side <= 16,
        by + side <= 16,
        bz + side <= 16,
        forall|i: int|
            0 <= i < 4096 ==> #[trigger] before[i] == if cube_before(
                side,
                bx,
                by,
                bz,
                ox,
                oy,
                oz,
                i % 16,
                (i / 16) % 16,
                i / 256,
            ) && orig[i] == Block::Empty {
                chosen
            } else {
                orig[i]
            },
        after == if before[linear_index(bx + ox, by + oy, bz + oz)] == Block::Empty {
            before.update(linear_index(bx + ox, by + oy, bz + oz), chosen)
        } else {
            before
        },
    ensures
        forall|i: int|
            0 <= i < 4096 ==> #[trigger] after[i] == if cube_before(
                side,
                bx,
                by,
                bz,
                ox + 1,
                oy,
                oz,
                i % 16,
                (i / 16) % 16,
                i / 256,
            ) && orig[i] == Block::Empty {
                chosen
            } else {
                orig[i]
            },
{
    let idx = linear_index(bx + ox, by + oy, bz + oz);
    assert(idx % 16 == bx + ox && (idx / 16) % 16 == by + oy && idx / 256 == bz + oz);
    assert forall|i: int| 0 <= i < 4096 implies #[trigger] after[i] == if cube_before(
        side,
        bx,
        by,
        bz,
        ox + 1,
        oy,
        oz,
        i % 16,
        (i / 16) % 16,
        i / 256,
    ) && orig[i] == Block::Empty {
        chosen
    } else {
        orig[i]
    } by {
        assert(i == i % 16 + 16 * ((i / 16) % 16) + 256 * (i / 256));
        assert(before[i] == if cube_before(
            side,
            bx,
            by,
            bz,
            ox,
            oy,
            oz,
            i % 16,
            (i / 16) % 16,
            i / 256,
        ) && orig[i] == Block::Empty {
            chosen
        } else {
            orig[i]
        });
        if i != idx {
            assert(after[i] == before[i]);
        }
    }
}

fn fill_window(out: &mut Chunk, side: usize, bx: usize, by: usize, bz: usize, chosen: Block)
    requires
        old(out).wf(),
        1 <= side,
        bx + side <= 16,
        by + side <= 16,
        bz + side <= 16,
    ensures
        final(out).wf(),
        forall|l: int| 0 <= l < 5 && old(out).cached(l) is None ==> final(out).cached(l) is None,
        forall|i: int|
            0 <= i < 4096 ==> #[trigger] final(out)@[i] == if in_cube(
                side as int,
                bx as int,
                by as int,
                bz as int,
                i % 16,
                (i / 16) % 16,
                i / 256,
            ) && old(out)@[i] == Block::Empty {
                chosen
            } else {
                old(out)@[i]
            },
{
    proof {
        out.lemma_view_len();
    }
    let mut oz: usize = 0;
    while oz < side
        invariant
            oz <= side,
            1 <= side,
            bx + side <= 16,
            by + side <= 16,
            bz + side <= 16,
            out.wf(),
            out@.len() == 4096,
            old(out)@.len() == 4096,
            forall|l: int| 0 <= l < 5 && old(out).cached(l) is None ==> out.cached(l) is None,
            forall|i: int|
                0 <= i < 4096 ==> #[trigger] out@[i] == if cube_before(
                    side as int,
                    bx as int,
                    by as int,
                    bz as int,
                    0,
                    0,
                    oz as int,
                    i % 16,
                    (i / 16) % 16,
                    i / 256,
                ) && old(out)@[i] == Block::Empty {
                    chosen
                } else {
                    old(out)@[i]
                },
        decreases side - oz,
    {
        let mut oy: usize = 0;
        while oy < side
            invariant
                oy <= side,
                oz < side,
                1 <= side,
                bx + side <= 16,
                by + side <= 16,
                bz + side <= 16,
                out.wf(),
                out@.len() == 4096,
                old(out)@.len() == 4096,
                forall|l: int| 0 <= l < 5 && old(out).cached(l) is None ==> out.cached(l) is None,
                forall|i: int|
                    0 <= i < 4096 ==> #[trigger] out@[i] == if cube_before(
                        side as int,
                        bx as int,
                        by as int,
                        bz as int,
                        0,
                        oy as int,
                        oz as int,
                        i % 16,
                        (i / 16) % 16,
                        i / 256,
                    ) && old(out)@[i] == Block::Empty {
                        chosen
                    } else {
                        old(out)@[i]
                    },
            decreases side - oy,
        {
            let mut ox: usize = 0;
            while ox < side
                invariant
                    ox <= side,
                    oy < side,
                    oz < side,
                    1 <= side,
                    bx + side <= 16,
                    by + side <= 16,
                    bz + side <= 16,
                    out.wf(),
                    out@.len() == 4096,
                    old(out)@.len() == 4096,
                    forall|l: int|
                        0 <= l < 5 && old(out).cached(l) is None ==> out.cached(l) is None,
                    forall|i: int|
                        0 <= i < 4096 ==> #[trigger] out@[i] == if cube_before(
                            side as int,
                            bx as int,
                            by as int,
                            bz as int,
                            ox as int,
                            oy as int,
                            oz as int,
                            i % 16,
                            (i / 16) % 16,
                            i / 256,
                        ) && old(out)@[i] == Block::Empty {
                            chosen
                        } else {
                            old(out)@[i]
                        },
                decreases side - ox,
            {
                let ghost before = out@;
                let at = BlockCoord(bx + ox, by + oy, bz + oz);
                out.set_block(&at, chosen, false);
                proof {
                    out.lemma_view_len();
                    lemma_cell_filled(
                        old(out)@,
                        before,
                        out@,
                        side as int,
                        bx as int,
                        by as int,
                        bz as int,
                        ox as int,
                        oy as int,
                        oz as int,
                        chosen,
                    );
                }
                ox += 1;
            }
            oy += 1;
        }
        oz += 1;
    }
}

impl Chunk {
    /// Compute a subsampled version of this chunk for the given LOD level
    /// Strategy: for each window_size^3 cell, pick the modal block (ignoring air so surface wins),
    /// then fill ALL blocks in that cell with the chosen block type.
    /// This allows greedy meshing to recognize merged surfaces across the downsampled region.
    pub fn compute_downsampled(&self, lod: u8) -> (c: Chunk)
        requires
            self.wf(),
            1 <= lod <= 4,
        ensures
            c.wf(),
            c@ == downsample(self@, lod as int),
            forall|l: int| 0 <= l < 5 ==> c.cached(l) is None,
    {
        let mut downsampled_chunk = Chunk::new_empty();
        proof {
            self.lemma_view_len();
            downsampled_chunk.lemma_view_len();
        }
        // an empty chunk stays empty at every level
        if self.is_empty() {
            proof {
                lemma_downsample_uniform(self@, lod as int, Block::Empty);
                assert(downsampled_chunk@ =~= downsample(self@, lod as int));
            }
            return downsampled_chunk;
        }
        let window_size: usize = if lod == 1 {
            2
        } else if lod == 2 {
            4
        } else if lod == 3 {
            8
        } else {
            16
        };
        let mut bz: usize = 0;
        while bz < 16
            invariant
                1 <= lod <= 4,
                window_size == window_side(lod as int),
                bz <= 16,
                bz % window_size == 0,
                downsampled_chunk.wf(),
                downsampled_chunk@.len() == 4096,
                forall|l: int| 0 <= l < 5 ==> downsampled_chunk.cached(l) is None,
                forall|i: int|
                    0 <= i < 4096 ==> #[trigger] downsampled_chunk@[i] == if window_before(
                        window_size as int,
                        0,
                        0,
                        bz as int,
                        i % 16,
                        (i / 16) % 16,
                        i / 256,
                    ) {
                        downsample_cell(self@, lod as int, i)
                    } else {
                        Block::Empty
                    },
            decreases 16 - bz,
        {
            let mut by: usize = 0;
            while by < 16
                invariant
                    1 <= lod <= 4,
                    window_size == window_side(lod as int),
                    bz < 16,
                    bz % window_size == 0,
                    by <= 16,
                    by % window_size == 0,
                    downsampled_chunk.wf(),
                    downsampled_chunk@.len() == 4096,
                    forall|l: int| 0 <= l < 5 ==> downsampled_chunk.cached(l) is None,
                    forall|i: int|
                        0 <= i < 4096 ==> #[trigger] downsampled_chunk@[i] == if window_before(
                            window_size as int,
                            0,
                            by as int,
                            bz as int,
                            i % 16,
                            (i / 16) % 16,
                            i / 256,
                        ) {
                            downsample_cell(self@, lod as int, i)
                        } else {
                            Block::Empty
                        },
                decreases 16 - by,
            {
                let mut bx: usize = 0;
                while bx < 16
                    invariant
                        1 <= lod <= 4,
                        window_size == window_side(lod as int),
                        bz < 16,
                        bz % window_size == 0,
                        by < 16,
                        by % window_size == 0,
                        bx <= 16,
                        bx % window_size == 0,
                        downsampled_chunk.wf(),
                        downsampled_chunk@.len() == 4096,
                        forall|l: int| 0 <= l < 5 ==> downsampled_chunk.cached(l) is None,
                        forall|i: int|
                            0 <= i < 4096 ==> #[trigger] downsampled_chunk@[i] == if window_before(
                                window_size as int,
                                bx as int,
                                by as int,
                                bz as int,
                                i % 16,
                                (i / 16) % 16,
                                i / 256,
                            ) {
                                downsample_cell(self@, lod as int, i)
                            } else {
                                Block::Empty
                            },
                    decreases 16 - bx,
                {
                    // Pick the modal block inside this window_size^3 cell (ignore air so surface wins over empty)
                    let chosen = window_mode_of(self, window_size, bx, by, bz);
                    let ghost before = downsampled_chunk@;
                    // Fill all blocks in this window with the chosen type
                    fill_window(&mut downsampled_chunk, window_size, bx, by, bz, chosen);
                    proof {
                        downsampled_chunk.lemma_view_len();
                        lemma_window_filled(
                            self@,
                            lod as int,
                            before,
                            downsampled_chunk@,
                            bx as int,
                            by as int,
                            bz as int,
                            chosen,
                        );
                    }
                    bx += window_size;
                }
                proof {
                    lemma_window_step(by as int, lod as int);
                }
                by += window_size;
            }
            proof {
                lemma_window_step(bz as int, lod as int);
            }
            bz += window_size;
        }
        assert(downsampled_chunk@ =~= downsample(self@, lod as int));
        downsampled_chunk
    }
}

} // verus!
