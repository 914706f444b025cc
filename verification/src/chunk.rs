use crate::block::Block;
use crate::coords::{BlockCoord, ChunkCoord};
use crate::downsample::downsample;
use crate::mesh::Mesh;
use crate::mesher::{chunk_quads, compute_mesh, quads_indices, quads_vertices};
use vstd::prelude::*;

verus! {

/// Number of levels of detail: level `l` merges cubes of side `2^l`.
pub const LOD_LEVELS: usize = 5;

/// A cube of 16 by 16 by 16 blocks with its meshes.
#[derive(Clone)]
pub struct Chunk {
    blocks: [Block; 4096],
    /// stores precomputed meshes for different LOD levels
    meshes: [Option<Mesh>; 5],
    // tracks number of blocks that are Block::Empty (optimization for skipping empty chunks)
    n_empty_blocks: usize,
}

/// Number of the first `n` entries of `s` that hold `b`.
pub open spec fn count_block(s: Seq<Block>, b: Block, n: int) -> int
    decreases n,
{
    if n <= 0 {
        0
    } else {
        count_block(s, b, n - 1) + if s[n - 1] == b {
            1int
        } else {
            0int
        }
    }
}

/// The blocks from which the mesh of level `lod` is made: the chunk's own
/// for level 0, the merged ones above.
pub open spec fn lod_blocks(blocks: Seq<Block>, lod: int) -> Seq<Block> {
    if lod == 0 {
        blocks
    } else {
        downsample(blocks, lod)
    }
}

/// Whether `m` is the greedy mesh of `blocks`.
pub open spec fn mesh_matches(m: Mesh, blocks: Seq<Block>) -> bool {
    &&& m.vertices@ == quads_vertices(chunk_quads(blocks))
    &&& m.indices@ == quads_indices(chunk_quads(blocks))
}

pub proof fn lemma_count_bounds(s: Seq<Block>, b: Block, n: int)
    requires
        0 <= n,
    ensures
        0 <= count_block(s, b, n) <= n,
    decreases n,
{
    if n > 0 {
        lemma_count_bounds(s, b, n - 1);
    }
}

/// All of the first `n` entries hold `b` exactly when `n` of them do.
pub proof fn lemma_count_full(s: Seq<Block>, b: Block, n: int)
    requires
        0 <= n,
    ensures
        count_block(s, b, n) == n <==> forall|i: int| 0 <= i < n ==> s[i] == b,
    decreases n,
{
    if n > 0 {
        lemma_count_full(s, b, n - 1);
        lemma_count_bounds(s, b, n - 1);
        if count_block(s, b, n) == n {
            assert forall|i: int| 0 <= i < n implies s[i] == b by {
                if i < n - 1 {
                }
            }
        }
    }
}

/// Writing one entry moves the count by what left and what came.
pub proof fn lemma_count_update(s: Seq<Block>, b: Block, n: int, i: int, new: Block)
    requires
        0 <= n <= s.len(),
        0 <= i < s.len(),
    ensures
        count_block(s.update(i, new), b, n) == count_block(s, b, n) + if i < n {
            (if new == b {
                1int
            } else {
                0int
            }) - (if s[i] == b {
                1int
            } else {
                0int
            })
        } else {
            0int
        },
    decreases n,
{
    if n > 0 {
        lemma_count_update(s, b, n - 1, i, new);
    }
}

fn copy_mesh(m: &Mesh) -> (c: Mesh)
    ensures
        c.vertices@ == m.vertices@,
        c.indices@ == m.indices@,
{
    let c = Mesh { vertices: m.vertices.clone(), indices: m.indices.clone() };
    assert(c.vertices@ =~= m.vertices@);
    assert(c.indices@ =~= m.indices@);
    c
}

impl Chunk {
    /// The blocks of the chunk in array order: 4096 of them.
    pub closed spec fn view(&self) -> Seq<Block> {
        self.blocks@
    }

    /// Mesh kept for level `lod`, if one is.
    pub closed spec fn cached(&self, lod: int) -> Option<Mesh> {
        self.meshes@[lod]
    }

    /// The count of empty blocks is right and every mesh that is kept is
    /// the mesh of the blocks as they are now.
    pub closed spec fn wf(&self) -> bool {
        &&& self.n_empty_blocks == count_block(self.blocks@, Block::Empty, 4096)
        &&& forall|lod: int|
            0 <= lod < 5 ==> match #[trigger] self.meshes@[lod] {
                Some(m) => mesh_matches(m, lod_blocks(self.blocks@, lod)),
                None => true,
            }
    }

    pub proof fn lemma_view_len(&self)
        ensures
            self@.len() == 4096,
    {
    }

    /// A mesh that is kept is never stale.
    pub proof fn lemma_cached_is_current(&self, lod: int)
        requires
            self.wf(),
            0 <= lod < 5,
            self.cached(lod) is Some,
        ensures
            mesh_matches(self.cached(lod)->0, lod_blocks(self@, lod)),
    {
    }

    /// creates a new empty chunk
    pub fn new_empty() -> (c: Chunk)
        ensures
            c.wf(),
            c@ == Seq::new(4096, |i: int| Block::Empty),
            forall|lod: int| 0 <= lod < 5 ==> c.cached(lod) is None,
    {
        let c = Self {
            blocks: [Block::Empty;4096],
            meshes: [None, None, None, None, None],
            n_empty_blocks: 4096,
        };
        proof {
            lemma_count_full(c.blocks@, Block::Empty, 4096);
            assert(c.blocks@ =~= Seq::new(4096, |i: int| Block::Empty));
        }
        c
    }

    /// A chunk of the ground layer (`coord.1 == 0`) is filled with
    /// `block_type`; every other chunk is empty.
    pub fn new_flat(coord: &ChunkCoord, block_type: Block) -> (c: Chunk)
        ensures
            c.wf(),
            c@ == Seq::new(
                4096,
                |i: int|
                    if coord.1 == 0 {
                        block_type
                    } else {
                        Block::Empty
                    },
            ),
            forall|lod: int| 0 <= lod < 5 ==> c.cached(lod) is None,
    {
        if coord.1 == 0 {
            let c = Self::with_blocks([block_type;4096]);
            assert(c@ =~= Seq::new(4096, |i: int| block_type));
            c
        } else {
            Self::new_empty()
        }
    }

    pub fn with_blocks(blocks: [Block; 4096]) -> (c: Chunk)
        ensures
            c.wf(),
            c@ == blocks@,
            forall|lod: int| 0 <= lod < 5 ==> c.cached(lod) is None,
    {
        let mut n: usize = 0;
        let mut i: usize = 0;
        while i < 4096
            invariant
                i <= 4096,
                n == count_block(blocks@, Block::Empty, i as int),
                n <= i,
            decreases 4096 - i,
        {
            if blocks[i].is_empty() {
                n += 1;
            }
            i += 1;
        }
        Self { blocks, meshes: [None, None, None, None, None], n_empty_blocks: n }
    }

    pub fn is_empty(&self) -> (e: bool)
        requires
            self.wf(),
        ensures
            e <==> forall|i: int| 0 <= i < 4096 ==> self@[i] == Block::Empty,
    {
        proof {
            lemma_count_full(self.blocks@, Block::Empty, 4096);
        }
        self.n_empty_blocks == 4096
    }

    pub fn get_block(&self, coord: &BlockCoord) -> (b: Block)
        requires
            coord.in_bounds(),
        ensures
            b == self@[coord.idx()],
    {
        self.blocks[coord.get_block_idx()]
    }

    /// Writes `new` at `coord` if the place is empty or `overwrite` is set,
    /// and says whether it wrote. A write discards every kept mesh.
    pub fn set_block(&mut self, coord: &BlockCoord, new: Block, overwrite: bool) -> (wrote: bool)
        requires
            old(self).wf(),
            coord.in_bounds(),
        ensures
            final(self).wf(),
            wrote == (old(self)@[coord.idx()] == Block::Empty || overwrite),
            wrote ==> final(self)@ == old(self)@.update(coord.idx(), new),
            wrote ==> forall|lod: int| 0 <= lod < 5 ==> final(self).cached(lod) is None,
            !wrote ==> final(self)@ == old(self)@,
            !wrote ==> forall|lod: int|
                0 <= lod < 5 ==> final(self).cached(lod) == old(self).cached(lod),
    {
        let idx = coord.get_block_idx();
        let target = self.blocks[idx];
        if target.is_empty() || overwrite {
            proof {
                lemma_count_update(self.blocks@, Block::Empty, 4096, idx as int, new);
                lemma_count_bounds(self.blocks@, Block::Empty, 4096);
                lemma_count_bounds(self.blocks@.update(idx as int, new), Block::Empty, 4096);
            }
            // keep track of empty blocks count
            if target.is_empty() && !new.is_empty() {
                self.n_empty_blocks -= 1;
            } else if !target.is_empty() && new.is_empty() {
                self.n_empty_blocks += 1;
            }
            self.blocks[idx] = new;
            // invalidate meshes
            self.meshes = [None, None, None, None, None];
            true
        } else {
            false
        }
    }

    /// The mesh of level `lod`, made on the first request after a change
    /// and kept until the next one.
    pub fn get_mesh(&mut self, lod: u8) -> (mesh: Mesh)
        requires
            old(self).wf(),
            lod < 5,
        ensures
            final(self).wf(),
            final(self)@ == old(self)@,
            mesh_matches(mesh, lod_blocks(old(self)@, lod as int)),
            final(self).cached(lod as int) is Some,
            forall|l: int|
                0 <= l < 5 && l != lod ==> final(self).cached(l) == old(self).cached(l),
    {
        let i = lod as usize;
        if self.meshes[i].is_none() {
            let made = if lod == 0 {
                // level 0 is meshed from the blocks as they are
                compute_mesh(&self.blocks)
            } else {
                let downsampled = self.compute_downsampled(lod);
                compute_mesh(&downsampled.blocks)
            };
            self.meshes[i] = Some(made);
        }
        match &self.meshes[i] {
            Some(m) => copy_mesh(m),
            None => Mesh::empty(),
        }
    }
}

} // verus!
