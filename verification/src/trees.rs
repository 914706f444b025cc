use crate::block::Block;
use crate::chunk::Chunk;
use crate::coords::{BlockCoord, ChunkCoord};
use crate::terrain::{Tree, TreeType, VoxelDensityGenerator};
use vstd::prelude::*;

verus! {

/// Largest height of a trunk that can be planted.
pub const MAX_TRUNK: i32 = 4096;

/// The blocks after a column of `b` has been set into the free cells at
/// `(x, z)` whose world height lies in `y0 .. y0 + h`; `base` is the world
/// height of the chunk's lowest layer.
pub open spec fn column_stamp(
    blocks: Seq<Block>,
    base: int,
    x: int,
    z: int,
    y0: int,
    h: int,
    b: Block,
) -> Seq<Block> {
    Seq::new(
        4096,
        |i: int|
            if blocks[i] == Block::Empty && i % 16 == x && i / 256 == z && y0 <= base + (i / 16)
                % 16 < y0 + h {
                b
            } else {
                blocks[i]
            },
    )
}

/// Whether the cell at offset `(dx, dz)` from the trunk belongs to a
/// layer of foliage of radius `r`: inside the square of that radius and no
/// further than `limit` in squared distance.
pub open spec fn in_disc(dx: int, dz: int, r: int, limit: int) -> bool {
    -r <= dx <= r && -r <= dz <= r && dx * dx + dz * dz <= limit
}

/// The blocks after one layer of foliage `b` has been set into the free
/// cells of world height `wy` around `(x, z)`.
pub open spec fn disc_stamp(
    blocks: Seq<Block>,
    base: int,
    x: int,
    z: int,
    wy: int,
    r: int,
    limit: int,
    b: Block,
) -> Seq<Block> {
    Seq::new(
        4096,
        |i: int|
            if blocks[i] == Block::Empty && base + (i / 16) % 16 == wy && in_disc(
                i % 16 - x,
                i / 256 - z,
                r,
                limit,
            ) {
                b
            } else {
                blocks[i]
            },
    )
}

/// An oak or a birch: a trunk of one block, then two layers of three by
/// three leaves that begin two below the top of the trunk.
pub open spec fn small_tree_stamp(
    blocks: Seq<Block>,
    base: int,
    x: int,
    z: int,
    y0: int,
    h: int,
    wood: Block,
    leaves: Block,
) -> Seq<Block> {
    let trunk = column_stamp(blocks, base, x, z, y0, h, wood);
    let first = disc_stamp(trunk, base, x, z, y0 + h - 2, 1, 2, leaves);
    disc_stamp(first, base, x, z, y0 + h - 1, 1, 2, leaves)
}

/// A spruce: a trunk of one block, then three rounded layers of radius 2,
/// 1 and 1 that begin two below the top of the trunk.
pub open spec fn spruce_stamp(blocks: Seq<Block>, base: int, x: int, z: int, y0: int, h: int) -> Seq<
    Block,
> {
    let trunk = column_stamp(blocks, base, x, z, y0, h, Block::SpruceWood);
    let first = disc_stamp(trunk, base, x, z, y0 + h - 2, 2, 5, Block::SpruceLeaves);
    let second = disc_stamp(first, base, x, z, y0 + h - 1, 1, 2, Block::SpruceLeaves);
    disc_stamp(second, base, x, z, y0 + h, 1, 2, Block::SpruceLeaves)
}

/// An acacia: a trunk of one block, then two rounded layers of radius 2
/// that begin one below the top of the trunk.
pub open spec fn acacia_stamp(blocks: Seq<Block>, base: int, x: int, z: int, y0: int, h: int) -> Seq<
    Block,
> {
    let trunk = column_stamp(blocks, base, x, z, y0, h, Block::AcaciaWood);
    let first = disc_stamp(trunk, base, x, z, y0 + h - 1, 2, 5, Block::AcaciaLeaves);
    disc_stamp(first, base, x, z, y0 + h, 2, 5, Block::AcaciaLeaves)
}

/// A dark oak: a trunk of two by two blocks, then three square layers of
/// radius 3, 2 and 1 that begin three below the top of the trunk.
pub open spec fn dark_oak_stamp(
    blocks: Seq<Block>,
    base: int,
    x: int,
    z: int,
    y0: int,
    h: int,
) -> Seq<Block> {
    let t0 = column_stamp(blocks, base, x, z, y0, h, Block::DarkOakWood);
    let t1 = column_stamp(t0, base, x, z + 1, y0, h, Block::DarkOakWood);
    let t2 = column_stamp(t1, base, x + 1, z, y0, h, Block::DarkOakWood);
    let t3 = column_stamp(t2, base, x + 1, z + 1, y0, h, Block::DarkOakWood);
    let first = disc_stamp(t3, base, x, z, y0 + h - 3, 3, 18, Block::DarkOakLeaves);
    let second = disc_stamp(first, base, x, z, y0 + h - 2, 2, 8, Block::DarkOakLeaves);
    disc_stamp(second, base, x, z, y0 + h - 1, 1, 2, Block::DarkOakLeaves)
}

/// The blocks after `tree` has been planted with the foot of its trunk at
/// world height `y0`. Only free cells take a block of the tree, and what
/// reaches beyond the chunk is cut off.
#[verifier::opaque]
pub open spec fn tree_stamp(blocks: Seq<Block>, base: int, tree: Tree, y0: int) -> Seq<Block> {
    let x = tree.pos.0 as int;
    let z = tree.pos.1 as int;
    let h = tree.trunk_height as int;
    match tree.tree_type {
        TreeType::Oak => small_tree_stamp(blocks, base, x, z, y0, h, Block::Wood, Block::OakLeaves),
        TreeType::Spruce => spruce_stamp(blocks, base, x, z, y0, h),
        TreeType::Birch => small_tree_stamp(
            blocks,
            base,
            x,
            z,
            y0,
            h,
            Block::BirchWood,
            Block::BirchLeaves,
        ),
        TreeType::Acacia => acacia_stamp(blocks, base, x, z, y0, h),
        TreeType::DarkOak => dark_oak_stamp(blocks, base, x, z, y0, h),
    }
}

/// What planting asks: the trunk stands inside the chunk, its height is
/// between 0 and `MAX_TRUNK`, and chunk and foot lie within the world's
/// limits.
pub open spec fn plantable(tree: Tree, chunk_coord: ChunkCoord, height: i32) -> bool {
    &&& 0 <= tree.pos.0 < 16
    &&& 0 <= tree.pos.1 < 16
    &&& 0 <= tree.trunk_height <= MAX_TRUNK
    &&& chunk_coord.in_limits()
    &&& -0x4000_0100 <= height <= 0x4000_0100
}

proof fn lemma_column_step(
    orig: Seq<Block>,
    before: Seq<Block>,
    after: Seq<Block>,
    base: int,
    x: int,
    z: int,
    y0: int,
    h: int,
    b: Block,
    y: int,
)
    requires
        orig.len() == 4096,
        before.len() == 4096,
        after.len() == 4096,
        0 <= x < 16,
        0 <= z < 16,
        0 <= y < 16,
        forall|i: int|
            0 <= i < 4096 ==> #[trigger] before[i] == if (i / 16) % 16 < y {
                column_stamp(orig, base, x, z, y0, h, b)[i]
            } else {
                orig[i]
            },
        after == if y0 <= base + y < y0 + h && before[x + 16 * y + 256 * z] == Block::Empty {
            before.update(x + 16 * y + 256 * z, b)
        } else {
            before
        },
    ensures
        forall|i: int|
            0 <= i < 4096 ==> #[trigger] after[i] == if (i / 16) % 16 < y + 1 {
                column_stamp(orig, base, x, z, y0, h, b)[i]
            } else {
                orig[i]
            },
{
    let idx = x + 16 * y + 256 * z;
    assert(idx % 16 == x && (idx / 16) % 16 == y && idx / 256 == z);
    assert forall|i: int| 0 <= i < 4096 implies #[trigger] after[i] == if (i / 16) % 16 < y + 1 {
        column_stamp(orig, base, x, z, y0, h, b)[i]
    } else {
        orig[i]
    } by {
        assert(i == i % 16 + 16 * ((i / 16) % 16) + 256 * (i / 256));
        assert(before[i] == if (i / 16) % 16 < y {
            column_stamp(orig, base, x, z, y0, h, b)[i]
        } else {
            orig[i]
        });
        if i != idx {
            assert(after[i] == before[i]);
        }
    }
}

proof fn lemma_disc_step(
    orig: Seq<Block>,
    before: Seq<Block>,
    after: Seq<Block>,
    base: int,
    x: int,
    z: int,
    wy: int,
    r: int,
    limit: int,
    b: Block,
    k: int,
)
    requires
        orig.len() == 4096,
        before.len() == 4096,
        after.len() == 4096,
        0 <= k < 256,
        0 <= wy - base < 16,
        forall|i: int|
            0 <= i < 4096 ==> #[trigger] before[i] == if i % 16 + 16 * (i / 256) < k {
                disc_stamp(orig, base, x, z, wy, r, limit, b)[i]
            } else {
                orig[i]
            },
        after == if in_disc(k % 16 - x, k / 16 - z, r, limit) && before[k % 16 + 16 * (wy - base)
            + 256 * (k / 16)] == Block::Empty {
            before.update(k % 16 + 16 * (wy - base) + 256 * (k / 16), b)
        } else {
            before
        },
    ensures
        forall|i: int|
            0 <= i < 4096 ==> #[trigger] after[i] == if i % 16 + 16 * (i / 256) < k + 1 {
                disc_stamp(orig, base, x, z, wy, r, limit, b)[i]
            } else {
                orig[i]
            },
{
    let idx = k % 16 + 16 * (wy - base) + 256 * (k / 16);
    assert(idx % 16 == k % 16 && (idx / 16) % 16 == wy - base && idx / 256 == k / 16);
    assert forall|i: int| 0 <= i < 4096 implies #[trigger] after[i] == if i % 16 + 16 * (i / 256)
        < k + 1 {
        disc_stamp(orig, base, x, z, wy, r, limit, b)[i]
    } else {
        orig[i]
    } by {
        assert(i == i % 16 + 16 * ((i / 16) % 16) + 256 * (i / 256));
        assert(before[i] == if i % 16 + 16 * (i / 256) < k {
            disc_stamp(orig, base, x, z, wy, r, limit, b)[i]
        } else {
            orig[i]
        });
        if i != idx {
            assert(after[i] == before[i]);
        }
    }
}

fn stamp_column(chunk: &mut Chunk, base: i64, x: i64, z: i64, y0: i64, h: i64, b: Block)
    requires
        old(chunk).wf(),
        -0x4000_0000 <= base <= 0x4000_0000,
        -0x4000_0100 <= y0 <= 0x4000_0100,
        0 <= h <= MAX_TRUNK,
        0 <= x <= 16,
        0 <= z <= 16,
    ensures
        final(chunk).wf(),
        final(chunk)@ == column_stamp(old(chunk)@, base as int, x as int, z as int, y0 as int, h as int, b),
{
    proof {
        chunk.lemma_view_len();
    }
    if x >= 16 || z >= 16 {
        assert(chunk@ =~= column_stamp(chunk@, base as int, x as int, z as int, y0 as int, h as int, b));
        return ;
    }
    let mut y: usize = 0;
    while y < 16
        invariant
            y <= 16,
            chunk.wf(),
            chunk@.len() == 4096,
            old(chunk)@.len() == 4096,
            -0x4000_0000 <= base <= 0x4000_0000,
            -0x4000_0100 <= y0 <= 0x4000_0100,
            0 <= h <= MAX_TRUNK,
            0 <= x < 16,
            0 <= z < 16,
            forall|i: int|
                0 <= i < 4096 ==> #[trigger] chunk@[i] == if (i / 16) % 16 < y {
                    column_stamp(old(chunk)@, base as int, x as int, z as int, y0 as int, h as int, b)[i]
                } else {
                    old(chunk)@[i]
                },
        decreases 16 - y,
    {
        let wy = base + y as i64;
        let ghost before = chunk@;
        if y0 <= wy && wy < y0 + h {
            chunk.set_block(&BlockCoord(x as usize, y, z as usize), b, false);
        }
        proof {
            chunk.lemma_view_len();
            lemma_column_step(
                old(chunk)@,
                before,
                chunk@,
                base as int,
                x as int,
                z as int,
                y0 as int,
                h as int,
                b,
                y as int,
            );
        }
        y += 1;
    }
    assert(chunk@ =~= column_stamp(old(chunk)@, base as int, x as int, z as int, y0 as int, h as int, b));
}

fn stamp_disc(
    chunk: &mut Chunk,
    base: i64,
    x: i64,
    z: i64,
    wy: i64,
    r: i64,
    limit: i64,
    b: Block,
)
    requires
        old(chunk).wf(),
        -0x4000_0000 <= base <= 0x4000_0000,
        -0x4000_2000 <= wy <= 0x4000_2000,
        0 <= x < 16,
        0 <= z < 16,
        0 <= r <= 16,
    ensures
        final(chunk).wf(),
        final(chunk)@ == disc_stamp(
            old(chunk)@,
            base as int,
            x as int,
            z as int,
            wy as int,
            r as int,
            limit as int,
            b,
        ),
{
    proof {
        chunk.lemma_view_len();
    }
    let cy_local = wy - base;
    if cy_local < 0 || cy_local >= 16 {
        assert(chunk@ =~= disc_stamp(
            chunk@,
            base as int,
            x as int,
            z as int,
            wy as int,
            r as int,
            limit as int,
            b,
        ));
        return ;
    }
    let mut k: usize = 0;
    while k < 256
        invariant
            k <= 256,
            chunk.wf(),
            chunk@.len() == 4096,
            old(chunk)@.len() == 4096,
            -0x4000_0000 <= base <= 0x4000_0000,
            0 <= x < 16,
            0 <= z < 16,
            0 <= r <= 16,
            0 <= cy_local < 16,
            cy_local == wy - base,
            forall|i: int|
                0 <= i < 4096 ==> #[trigger] chunk@[i] == if i % 16 + 16 * (i / 256) < k {
                    disc_stamp(
                        old(chunk)@,
                        base as int,
                        x as int,
                        z as int,
                        wy as int,
                        r as int,
                        limit as int,
                        b,
                    )[i]
                } else {
                    old(chunk)@[i]
                },
        decreases 256 - k,
    {
        let nx = (k % 16) as i64;
        let nz = (k / 16) as i64;
        let lx = nx - x;
        let lz = nz - z;
        let ghost before = chunk@;
        assert(0 <= lx * lx <= 256 && 0 <= lz * lz <= 256) by (nonlinear_arith)
            requires
                -16 <= lx <= 16,
                -16 <= lz <= 16,
        ;
        if -r <= lx && lx <= r && -r <= lz && lz <= r && lx * lx + lz * lz <= limit {
            chunk.set_block(&BlockCoord(nx as usize, cy_local as usize, nz as usize), b, false);
        }
        proof {
            chunk.lemma_view_len();
            lemma_disc_step(
                old(chunk)@,
                before,
                chunk@,
                base as int,
                x as int,
                z as int,
                wy as int,
                r as int,
                limit as int,
                b,
                k as int,
            );
        }
        k += 1;
    }
    assert(chunk@ =~= disc_stamp(
        old(chunk)@,
        base as int,
        x as int,
        z as int,
        wy as int,
        r as int,
        limit as int,
        b,
    ));
}

impl VoxelDensityGenerator {
    /// Plant a tree of given type at specified location
    pub fn plant_tree(tree: &Tree, chunk_coord: &ChunkCoord, height: i32, chunk: &mut Chunk)
        requires
            old(chunk).wf(),
            plantable(*tree, *chunk_coord, height),
        ensures
            final(chunk).wf(),
            final(chunk)@ == tree_stamp(old(chunk)@, chunk_coord.1 * 16, *tree, height as int),
    {
        proof {
            reveal(tree_stamp);
        }
        let (x, z) = tree.pos;
        match tree.tree_type {
            TreeType::Oak => Self::plant_oak(tree, chunk_coord, x, z, height, chunk),
            TreeType::Spruce => Self::plant_spruce(tree, chunk_coord, x, z, height, chunk),
            TreeType::Birch => Self::plant_birch(tree, chunk_coord, x, z, height, chunk),
            TreeType::Acacia => Self::plant_acacia(tree, chunk_coord, x, z, height, chunk),
            TreeType::DarkOak => Self::plant_darkoak(tree, chunk_coord, x, z, height, chunk),
        }
    }

    /// Plant an Oak tree: compact tree with 1-block trunk and 2-layer foliage
    fn plant_oak(
        tree: &Tree,
        chunk_coord: &ChunkCoord,
        x: i32,
        z: i32,
        world_y: i32,
        chunk: &mut Chunk,
    )
        requires
            old(chunk).wf(),
            plantable(*tree, *chunk_coord, world_y),
            x == tree.pos.0,
            z == tree.pos.1,
        ensures
            final(chunk).wf(),
            final(chunk)@ == small_tree_stamp(
                old(chunk)@,
                chunk_coord.1 * 16,
                x as int,
                z as int,
                world_y as int,
                tree.trunk_height as int,
                Block::Wood,
                Block::OakLeaves,
            ),
    {
        let base = chunk_coord.1 as i64 * 16;
        let trunk_h = tree.trunk_height as i64;
        // Place trunk vertically
        stamp_column(chunk, base, x as i64, z as i64, world_y as i64, trunk_h, Block::Wood);
        // Place foliage: 2 layers with compact 3x3 shape
        let leaves_base = world_y as i64 + trunk_h - 2;
        stamp_disc(chunk, base, x as i64, z as i64, leaves_base, 1, 2, Block::OakLeaves);
        stamp_disc(chunk, base, x as i64, z as i64, leaves_base + 1, 1, 2, Block::OakLeaves);
    }

    /// Plant a Spruce tree: conical tree with 1-block trunk and 3-layer foliage
    fn plant_spruce(
        tree: &Tree,
        chunk_coord: &ChunkCoord,
        x: i32,
        z: i32,
        world_y: i32,
        chunk: &mut Chunk,
    )
        requires
            old(chunk).wf(),
            plantable(*tree, *chunk_coord, world_y),
            x == tree.pos.0,
            z == tree.pos.1,
        ensures
            final(chunk).wf(),
            final(chunk)@ == spruce_stamp(
                old(chunk)@,
                chunk_coord.1 * 16,
                x as int,
                z as int,
                world_y as int,
                tree.trunk_height as int,
            ),
    {
        let base = chunk_coord.1 as i64 * 16;
        let trunk_h = tree.trunk_height as i64;
        // Place trunk vertically
        stamp_column(chunk, base, x as i64, z as i64, world_y as i64, trunk_h, Block::SpruceWood);
        // Place foliage: 3 layers in conical shape, rounded (not square)
        let leaves_base = world_y as i64 + trunk_h - 2;
        stamp_disc(chunk, base, x as i64, z as i64, leaves_base, 2, 5, Block::SpruceLeaves);
        stamp_disc(chunk, base, x as i64, z as i64, leaves_base + 1, 1, 2, Block::SpruceLeaves);
        stamp_disc(chunk, base, x as i64, z as i64, leaves_base + 2, 1, 2, Block::SpruceLeaves);
    }

    /// Plant a Birch tree: tall thin tree with 1-block trunk and 2-layer foliage
    fn plant_birch(
        tree: &Tree,
        chunk_coord: &ChunkCoord,
        x: i32,
        z: i32,
        world_y: i32,
        chunk: &mut Chunk,
    )
        requires
            old(chunk).wf(),
            plantable(*tree, *chunk_coord, world_y),
            x == tree.pos.0,
            z == tree.pos.1,
        ensures
            final(chunk).wf(),
            final(chunk)@ == small_tree_stamp(
                old(chunk)@,
                chunk_coord.1 * 16,
                x as int,
                z as int,
                world_y as int,
                tree.trunk_height as int,
                Block::BirchWood,
                Block::BirchLeaves,
            ),
    {
        let base = chunk_coord.1 as i64 * 16;
        let trunk_h = tree.trunk_height as i64;
        // Place trunk vertically
        stamp_column(chunk, base, x as i64, z as i64, world_y as i64, trunk_h, Block::BirchWood);
        // Place foliage: 2 layers with compact 3x3 shape
        let leaves_base = world_y as i64 + trunk_h - 2;
        stamp_disc(chunk, base, x as i64, z as i64, leaves_base, 1, 2, Block::BirchLeaves);
        stamp_disc(chunk, base, x as i64, z as i64, leaves_base + 1, 1, 2, Block::BirchLeaves);
    }

    /// Plant an Acacia tree: dry climate tree with 1-block trunk and wide foliage
    fn plant_acacia(
        tree: &Tree,
        chunk_coord: &ChunkCoord,
        x: i32,
        z: i32,
        world_y: i32,
        chunk: &mut Chunk,
    )
        requires
            old(chunk).wf(),
            plantable(*tree, *chunk_coord, world_y),
            x == tree.pos.0,
            z == tree.pos.1,
        ensures
            final(chunk).wf(),
            final(chunk)@ == acacia_stamp(
                old(chunk)@,
                chunk_coord.1 * 16,
                x as int,
                z as int,
                world_y as int,
                tree.trunk_height as int,
            ),
    {
        let base = chunk_coord.1 as i64 * 16;
        let trunk_h = tree.trunk_height as i64;
        // Place trunk vertically
        stamp_column(chunk, base, x as i64, z as i64, world_y as i64, trunk_h, Block::AcaciaWood);
        // Acacia: wide, flat foliage - 2 layers with radius 2, rounded
        let leaves_base = world_y as i64 + trunk_h - 1;
        stamp_disc(chunk, base, x as i64, z as i64, leaves_base, 2, 5, Block::AcaciaLeaves);
        stamp_disc(chunk, base, x as i64, z as i64, leaves_base + 1, 2, 5, Block::AcaciaLeaves);
    }

    /// Plant a Dark Oak tree: large tree with 2-block trunk and dense foliage
    fn plant_darkoak(
        tree: &Tree,
        chunk_coord: &ChunkCoord,
        x: i32,
        z: i32,
        world_y: i32,
        chunk: &mut Chunk,
    )
        requires
            old(chunk).wf(),
            plantable(*tree, *chunk_coord, world_y),
            x == tree.pos.0,
            z == tree.pos.1,
        ensures
            final(chunk).wf(),
            final(chunk)@ == dark_oak_stamp(
                old(chunk)@,
                chunk_coord.1 * 16,
                x as int,
                z as int,
                world_y as int,
                tree.trunk_height as int,
            ),
    {
        let base = chunk_coord.1 as i64 * 16;
        let trunk_h = tree.trunk_height as i64;
        let x = x as i64;
        let z = z as i64;
        let world_y = world_y as i64;
        // Dark Oak: 2x2 trunk base
        stamp_column(chunk, base, x, z, world_y, trunk_h, Block::DarkOakWood);
        stamp_column(chunk, base, x, z + 1, world_y, trunk_h, Block::DarkOakWood);
        stamp_column(chunk, base, x + 1, z, world_y, trunk_h, Block::DarkOakWood);
        stamp_column(chunk, base, x + 1, z + 1, world_y, trunk_h, Block::DarkOakWood);
        // Dark Oak: Dense foliage - 3 layers, large radius
        let leaves_base = world_y + trunk_h - 3;
        stamp_disc(chunk, base, x, z, leaves_base, 3, 18, Block::DarkOakLeaves);
        stamp_disc(chunk, base, x, z, leaves_base + 1, 2, 8, Block::DarkOakLeaves);
        stamp_disc(chunk, base, x, z, leaves_base + 2, 1, 2, Block::DarkOakLeaves);
    }
}

} // verus!
