use vstd::prelude::*;

verus! {

/// Side length of a chunk, in blocks.
pub const CHUNK_SIZE: isize = 16;

/// Number of blocks in a chunk.
pub const N_BLOCKS_PER_CHUNK: usize = 4096;

/// Largest absolute value of a world coordinate for which every derived
/// quantity (chunk origins, mesh offsets, noise inputs) is representable on
/// every supported target.
pub const WORLD_LIMIT: isize = 0x4000_0000;

/// Absolute position of a block in the world.
#[derive(Debug, Eq, Hash, PartialEq, Clone, Copy, Structural)]
pub struct WorldCoord(pub isize, pub isize, pub isize);

/// Position of a chunk in the grid of chunks.
#[derive(Debug, Eq, Hash, PartialEq, Clone, Copy, Structural)]
pub struct ChunkCoord(pub isize, pub isize, pub isize);

/// Position of a block inside its chunk.
#[derive(Debug, Clone, Copy, Eq, PartialEq, Structural)]
pub struct BlockCoord(pub usize, pub usize, pub usize);

/// Index of the chunk that holds world coordinate `w` along one axis: the
/// quotient rounded toward negative infinity.
pub open spec fn chunk_of(w: int) -> int {
    w / 16
}

/// Position of world coordinate `w` inside its chunk along one axis: the
/// remainder that is never negative.
pub open spec fn local_of(w: int) -> int {
    w % 16
}

/// Smallest world coordinate of chunk `c` along one axis.
pub open spec fn origin_of(c: int) -> int {
    c * 16
}

/// Position of block `(x, y, z)` in the dense block array of a chunk.
pub open spec fn linear_index(x: int, y: int, z: int) -> int {
    x + y * 16 + z * 256
}

fn floor_div_16(w: isize) -> (c: isize)
    ensures
        c == chunk_of(w as int),
{
    match w.checked_div_euclid(CHUNK_SIZE) {
        Some(c) => c,
        None => 0,
    }
}

fn floor_mod_16(w: isize) -> (r: usize)
    ensures
        r == local_of(w as int),
        r < 16,
{
    match w.checked_rem_euclid(CHUNK_SIZE) {
        Some(r) => r as usize,
        None => 0,
    }
}

impl WorldCoord {
    /// Chunk that holds this block.
    pub open spec fn chunk(self) -> ChunkCoord {
        ChunkCoord(
            chunk_of(self.0 as int) as isize,
            chunk_of(self.1 as int) as isize,
            chunk_of(self.2 as int) as isize,
        )
    }

    /// Position of this block inside its chunk.
    pub open spec fn local(self) -> BlockCoord {
        BlockCoord(
            local_of(self.0 as int) as usize,
            local_of(self.1 as int) as usize,
            local_of(self.2 as int) as usize,
        )
    }

    /// Every component lies within `WORLD_LIMIT` of zero.
    pub open spec fn in_limits(self) -> bool {
        &&& -WORLD_LIMIT <= self.0 <= WORLD_LIMIT
        &&& -WORLD_LIMIT <= self.1 <= WORLD_LIMIT
        &&& -WORLD_LIMIT <= self.2 <= WORLD_LIMIT
    }

    /// Squared Euclidean distance between two positions.
    pub open spec fn squared_distance_spec(self, other: WorldCoord) -> int {
        (self.0 - other.0) * (self.0 - other.0) + (self.1 - other.1) * (self.1 - other.1) + (
        self.2 - other.2) * (self.2 - other.2)
    }

    pub fn squared_distance(&self, other: &WorldCoord) -> (d: isize)
        requires
            self.squared_distance_spec(*other) <= isize::MAX,
        ensures
            d == self.squared_distance_spec(*other),
    {
        let ghost a = self.0 - other.0;
        let ghost b = self.1 - other.1;
        let ghost c = self.2 - other.2;
        assert(a * a >= 0 && b * b >= 0 && c * c >= 0 && -(a * a) <= a <= a * a && -(b * b) <= b
            <= b * b && -(c * c) <= c <= c * c) by (nonlinear_arith);
        let dx = self.0 - other.0;
        let dy = self.1 - other.1;
        let dz = self.2 - other.2;
        dx * dx + dy * dy + dz * dz
    }

    /// Convert to chunk index
    pub fn to_chunk_coord(&self) -> (c: ChunkCoord)
        ensures
            c == self.chunk(),
            c.0 == chunk_of(self.0 as int),
            c.1 == chunk_of(self.1 as int),
            c.2 == chunk_of(self.2 as int),
    {
        ChunkCoord(floor_div_16(self.0), floor_div_16(self.1), floor_div_16(self.2))
    }

    /// Convert to chunk-local coordinates
    pub fn to_block_coord(&self) -> (b: BlockCoord)
        ensures
            b == self.local(),
            b.in_bounds(),
            b.0 == local_of(self.0 as int),
            b.1 == local_of(self.1 as int),
            b.2 == local_of(self.2 as int),
    {
        BlockCoord(floor_mod_16(self.0), floor_mod_16(self.1), floor_mod_16(self.2))
    }
}

/// Largest absolute value of a chunk coordinate whose blocks all lie within
/// `WORLD_LIMIT`.
pub const CHUNK_LIMIT: isize = 0x3ff_ffff;

impl ChunkCoord {
    /// Every component lies within `CHUNK_LIMIT` of zero, so that every
    /// block of the chunk lies within `WORLD_LIMIT`.
    pub open spec fn in_limits(self) -> bool {
        &&& -CHUNK_LIMIT <= self.0 <= CHUNK_LIMIT
        &&& -CHUNK_LIMIT <= self.1 <= CHUNK_LIMIT
        &&& -CHUNK_LIMIT <= self.2 <= CHUNK_LIMIT
    }

    /// The world origin of this chunk is representable.
    pub open spec fn has_origin(self) -> bool {
        &&& isize::MIN <= origin_of(self.0 as int) <= isize::MAX
        &&& isize::MIN <= origin_of(self.1 as int) <= isize::MAX
        &&& isize::MIN <= origin_of(self.2 as int) <= isize::MAX
    }

    /// Corner of this chunk with the smallest world coordinates.
    pub open spec fn origin(self) -> WorldCoord {
        WorldCoord(
            origin_of(self.0 as int) as isize,
            origin_of(self.1 as int) as isize,
            origin_of(self.2 as int) as isize,
        )
    }

    /// Convert to chunk world key (the corner position in world block coordinates)
    pub fn to_world_coord(&self) -> (w: WorldCoord)
        requires
            self.has_origin(),
        ensures
            w == self.origin(),
            w.0 == origin_of(self.0 as int),
            w.1 == origin_of(self.1 as int),
            w.2 == origin_of(self.2 as int),
    {
        WorldCoord(self.0 * CHUNK_SIZE, self.1 * CHUNK_SIZE, self.2 * CHUNK_SIZE)
    }
}

impl BlockCoord {
    /// Every component lies inside the chunk.
    pub open spec fn in_bounds(self) -> bool {
        self.0 < 16 && self.1 < 16 && self.2 < 16
    }

    /// Position of this block in the dense block array.
    pub open spec fn idx(self) -> int {
        linear_index(self.0 as int, self.1 as int, self.2 as int)
    }

    pub fn get_block_idx(&self) -> (i: usize)
        requires
            self.in_bounds(),
        ensures
            i == self.idx(),
            i < N_BLOCKS_PER_CHUNK,
    {
        self.0 + self.1 * 16 + self.2 * 256
    }
}

/// A world position is recovered exactly from the chunk that holds it and
/// its position inside that chunk, on every axis and for negative
/// coordinates too.
pub proof fn lemma_coordinate_round_trip(w: WorldCoord)
    ensures
        w.chunk().has_origin(),
        w.local().in_bounds(),
        w.chunk().origin().0 + w.local().0 == w.0,
        w.chunk().origin().1 + w.local().1 == w.1,
        w.chunk().origin().2 + w.local().2 == w.2,
{
}

/// Every block of a chunk within the limits for chunks lies within the
/// limits for blocks.
pub proof fn lemma_chunk_limits(w: WorldCoord)
    requires
        w.chunk().in_limits(),
    ensures
        w.in_limits(),
{
}

/// The chunk of a chunk's origin is that chunk, and the origin sits at local
/// position zero.
pub proof fn lemma_origin_round_trip(c: ChunkCoord)
    requires
        c.has_origin(),
    ensures
        c.origin().chunk() == c,
        c.origin().local() == BlockCoord(0, 0, 0),
{
}

/// Distinct in-bounds block positions have distinct array indices, and each
/// index below the block count belongs to one in-bounds position.
pub proof fn lemma_linear_index_bijective(a: BlockCoord, b: BlockCoord)
    requires
        a.in_bounds(),
        b.in_bounds(),
    ensures
        0 <= a.idx() < 4096,
        a.idx() == b.idx() <==> a == b,
        a.idx() % 16 == a.0,
        (a.idx() / 16) % 16 == a.1,
        a.idx() / 256 == a.2,
{
}

} // verus!
