use crate::block::Block;
use crate::chunk::{lod_blocks, Chunk};
use crate::coords::{ChunkCoord, WorldCoord, CHUNK_LIMIT};
use crate::mesh::{shift_vertices, Mesh};
use crate::mesh_laws::lemma_mesh_vertices_in_chunk;
use crate::mesher::{chunk_quads, quads_indices, quads_vertices};
use crate::populate::populated_simple;
use crate::terrain::{TerrainConfig, VoxelDensityGenerator};
use crate::visit_order::{
    generate_qube_offset_in_spherical_order, in_box, in_reach, is_visit_order, lemma_box_in_reach,
    lemma_center_first, lod_for, offset_dist, present, select_lod, sizes_ok, squared_len,
    visit_before, window_lo, Visit, LOD, MAX_WINDOW_SIDE,
};
use vstd::arithmetic::div_mod::{
    lemma_fundamental_div_mod, lemma_fundamental_div_mod_converse, lemma_mod_sub_multiples_vanish,
};
use vstd::prelude::*;

verus! {

/// Largest absolute value of a coordinate of the chunk at the centre of
/// the window: it leaves room for the window inside `CHUNK_LIMIT`.
pub const CENTER_LIMIT: isize = 0x3ff_f000;

/// What one slot of the window holds: the chunk at `coord`, which is
/// either the shared chunk of air (`loaded` is `None`) or a chunk of its own
/// with the level of detail and the mesh it is drawn with.
pub struct ActiveEntry {
    pub coord: ChunkCoord,
    pub loaded: Option<(Chunk, (LOD, Mesh))>,
}

/// A slot as the contracts see it: whose chunk it holds, that chunk's
/// blocks, the level of detail of its mesh, and whether it is the shared
/// chunk of air.
pub struct SlotView {
    pub coord: ChunkCoord,
    pub blocks: Seq<Block>,
    pub lod: u8,
    pub shared_air: bool,
}

pub struct Scene {
    /// One slot for each chunk of the window; `None` is a chunk that is
    /// not loaded.
    active: Vec<Option<ActiveEntry>>,
    /// Number of chunks along each axis in the active chunk grid
    active_size: [usize; 3],
    previous_player_chunk_coord: ChunkCoord,
    sphere_offsets: Vec<Visit>,
    density_generator: VoxelDensityGenerator,
}

/// 4096 blocks of air.
pub open spec fn all_air() -> Seq<Block> {
    Seq::new(4096, |i: int| Block::Empty)
}

/// Whether `blocks` holds nothing but air.
pub open spec fn is_all_air(blocks: Seq<Block>) -> bool {
    forall|i: int| 0 <= i < 4096 ==> blocks[i] == Block::Empty
}

/// Whether `mesh` is the mesh of `blocks` at level `lod`, moved to the
/// place of chunk `coord` in the world.
pub open spec fn is_world_mesh(mesh: Mesh, blocks: Seq<Block>, lod: int, coord: ChunkCoord) -> bool {
    &&& mesh.vertices@ == shift_vertices(
        quads_vertices(chunk_quads(lod_blocks(blocks, lod))),
        coord.origin().0 as int,
        coord.origin().1 as int,
        coord.origin().2 as int,
    )
    &&& mesh.indices@ == quads_indices(chunk_quads(lod_blocks(blocks, lod)))
}

/// An entry is sound when its chunk lies within the world's limits and,
/// if it has a chunk of its own, the count of that chunk is right, the
/// level is one of the five, and the mesh is the mesh of the blocks as they
/// are now, at that level, at the chunk's place in the world.
pub open spec fn entry_wf(e: ActiveEntry) -> bool {
    &&& e.coord.in_limits()
    &&& match e.loaded {
        Some((chunk, (lod, mesh))) => chunk.wf() && lod < 5 && is_world_mesh(
            mesh,
            chunk@,
            lod as int,
            e.coord,
        ),
        None => true,
    }
}

/// What the contracts see of an entry.
pub open spec fn entry_view(e: ActiveEntry) -> SlotView {
    match e.loaded {
        Some((chunk, (lod, mesh))) => SlotView {
            coord: e.coord,
            blocks: chunk@,
            lod,
            shared_air: false,
        },
        None => SlotView { coord: e.coord, blocks: all_air(), lod: 0, shared_air: true },
    }
}

/// What the contracts see of the slots.
pub open spec fn slots_view(active: Seq<Option<ActiveEntry>>) -> Seq<Option<SlotView>> {
    Seq::new(
        active.len(),
        |i: int|
            match active[i] {
                Some(e) => Some(entry_view(e)),
                None => None,
            },
    )
}

/// Slot of chunk `c` in a window of size `sizes`: the coordinates wrap
/// around along each axis.
pub open spec fn slot_index(sizes: [usize; 3], c: ChunkCoord) -> int {
    ((c.0 as int) % (sizes[0] as int)) + ((c.1 as int) % (sizes[1] as int)) * sizes[0] + ((
    c.2 as int) % (sizes[2] as int)) * (sizes[0] * sizes[1])
}

/// Whether chunk `c` lies in the window of size `sizes` around `center`.
pub open spec fn in_window(center: ChunkCoord, sizes: [usize; 3], c: ChunkCoord) -> bool {
    &&& center.0 + window_lo(sizes[0] as int) <= c.0 < center.0 + window_lo(sizes[0] as int)
        + sizes[0]
    &&& center.1 + window_lo(sizes[1] as int) <= c.1 < center.1 + window_lo(sizes[1] as int)
        + sizes[1]
    &&& center.2 + window_lo(sizes[2] as int) <= c.2 < center.2 + window_lo(sizes[2] as int)
        + sizes[2]
}

/// Whether a chunk may be the centre of the window.
pub open spec fn center_ok(c: ChunkCoord) -> bool {
    &&& -CENTER_LIMIT <= c.0 <= CENTER_LIMIT
    &&& -CENTER_LIMIT <= c.1 <= CENTER_LIMIT
    &&& -CENTER_LIMIT <= c.2 <= CENTER_LIMIT
}

/// Number of slots of a window.
pub open spec fn slot_count(sizes: [usize; 3]) -> int {
    sizes[0] * sizes[1] * sizes[2]
}

/// The slot of a chunk lies among the slots of the window.
pub proof fn lemma_slot_bound(sizes: [usize; 3], c: ChunkCoord)
    requires
        sizes_ok(sizes),
    ensures
        0 <= slot_index(sizes, c) < slot_count(sizes),
        slot_count(sizes) <= 0x4000_0000,
{
    let n0 = sizes[0] as int;
    let n1 = sizes[1] as int;
    let n2 = sizes[2] as int;
    let r0 = (c.0 as int) % n0;
    let r1 = (c.1 as int) % n1;
    let r2 = (c.2 as int) % n2;
    assert(0 <= r0 + r1 * n0 + r2 * (n0 * n1) < n0 * n1 * n2 && n0 * n1 * n2 <= 0x4000_0000)
        by (nonlinear_arith)
        requires
            0 <= r0 < n0,
            0 <= r1 < n1,
            0 <= r2 < n2,
            n0 <= 1024,
            n1 <= 1024,
            n2 <= 1024,
    ;
}

/// Two numbers less than `n` apart with the same remainder are equal.
proof fn lemma_same_residue(x: int, y: int, n: int)
    requires
        0 < n,
        x % n == y % n,
        -n < x - y < n,
    ensures
        x == y,
{
    lemma_fundamental_div_mod(x, n);
    lemma_fundamental_div_mod(y, n);
    let qx = x / n;
    let qy = y / n;
    assert(qx == qy) by (nonlinear_arith)
        requires
            0 < n,
            -n < n * qx - n * qy < n,
    ;
}

/// A number below `n0 * m` splits in one way into a part below `n0` and a
/// multiple of `n0`.
proof fn lemma_split(a: int, b: int, a2: int, b2: int, n: int)
    requires
        0 < n,
        0 <= a < n,
        0 <= a2 < n,
        a + b * n == a2 + b2 * n,
    ensures
        a == a2,
        b == b2,
{
    lemma_fundamental_div_mod_converse(a + b * n, n, b, a);
    lemma_fundamental_div_mod_converse(a2 + b2 * n, n, b2, a2);
}

/// Inside one window no two chunks share a slot.
pub proof fn lemma_slot_injective(sizes: [usize; 3], center: ChunkCoord, a: ChunkCoord, b: ChunkCoord)
    requires
        sizes_ok(sizes),
        in_window(center, sizes, a),
        in_window(center, sizes, b),
        slot_index(sizes, a) == slot_index(sizes, b),
    ensures
        a == b,
{
    let n0 = sizes[0] as int;
    let n1 = sizes[1] as int;
    let n2 = sizes[2] as int;
    let a0 = (a.0 as int) % n0;
    let a1 = (a.1 as int) % n1;
    let a2 = (a.2 as int) % n2;
    let b0 = (b.0 as int) % n0;
    let b1 = (b.1 as int) % n1;
    let b2 = (b.2 as int) % n2;
    assert(a0 + a1 * n0 + a2 * (n0 * n1) == a0 + (a1 + a2 * n1) * n0) by (nonlinear_arith);
    assert(b0 + b1 * n0 + b2 * (n0 * n1) == b0 + (b1 + b2 * n1) * n0) by (nonlinear_arith);
    lemma_split(a0, a1 + a2 * n1, b0, b1 + b2 * n1, n0);
    lemma_split(a1, a2, b1, b2, n1);
    lemma_same_residue(a.0 as int, b.0 as int, n0);
    lemma_same_residue(a.1 as int, b.1 as int, n1);
    lemma_same_residue(a.2 as int, b.2 as int, n2);
}

fn wrap(c: isize, n: usize) -> (r: usize)
    requires
        1 <= n <= MAX_WINDOW_SIDE,
    ensures
        r == (c as int) % (n as int),
        r < n,
{
    match c.checked_rem_euclid(n as isize) {
        Some(r) => r as usize,
        None => 0,
    }
}

/// The mesh of `chunk` at level `lod`, at the place of chunk `coord` in
/// the world.
fn world_mesh(chunk: &mut Chunk, lod: LOD, coord: &ChunkCoord) -> (mesh: Mesh)
    requires
        old(chunk).wf(),
        lod < 5,
        coord.in_limits(),
    ensures
        final(chunk).wf(),
        final(chunk)@ == old(chunk)@,
        is_world_mesh(mesh, old(chunk)@, lod as int, *coord),
{
    let mut mesh = chunk.get_mesh(lod);
    proof {
        let local = quads_vertices(chunk_quads(lod_blocks(chunk@, lod as int)));
        assert forall|i: int| 0 <= i < local.len() implies {
            &&& isize::MIN <= (#[trigger] local[i]).pos[0] + coord.origin().0 <= isize::MAX
            &&& isize::MIN <= local[i].pos[1] + coord.origin().1 <= isize::MAX
            &&& isize::MIN <= local[i].pos[2] + coord.origin().2 <= isize::MAX
        } by {
            lemma_mesh_vertices_in_chunk(lod_blocks(chunk@, lod as int), i);
        }
    }
    mesh.offset_vertices_by(coord);
    mesh
}

impl Scene {
    /// Number of chunks of the window along each axis.
    pub closed spec fn size(&self) -> [usize; 3] {
        self.active_size
    }

    /// Chunk around which the window lies: the player's chunk at the last
    /// update.
    pub closed spec fn center(&self) -> ChunkCoord {
        self.previous_player_chunk_coord
    }

    /// Configuration of the generator that fills new chunks.
    pub closed spec fn config(&self) -> TerrainConfig {
        self.density_generator.config
    }

    /// Order in which the chunks around the player are visited.
    pub closed spec fn order(&self) -> Seq<Visit> {
        self.sphere_offsets@
    }

    /// The slots of the window.
    pub closed spec fn entries(&self) -> Seq<Option<ActiveEntry>> {
        self.active@
    }

    /// The slots as the contracts see them.
    pub open spec fn view(&self) -> Seq<Option<SlotView>> {
        slots_view(self.entries())
    }

    /// What is known of chunk `c`: the slot that holds it, if it is
    /// loaded.
    pub open spec fn resident(&self, c: ChunkCoord) -> Option<SlotView> {
        let i = slot_index(self.size(), c);
        if 0 <= i < self@.len() {
            match self@[i] {
                Some(s) => if s.coord == c {
                    Some(s)
                } else {
                    None
                },
                None => None,
            }
        } else {
            None
        }
    }

    /// The window has one slot for each of its chunks; every loaded chunk
    /// lies in the window around the centre, sits in the slot that its
    /// coordinate names, and is sound; the visiting order is that of the
    /// window's size.
    pub closed spec fn wf(&self) -> bool {
        &&& sizes_ok(self.active_size)
        &&& self.active@.len() == slot_count(self.active_size)
        &&& center_ok(self.previous_player_chunk_coord)
        &&& self.density_generator.config.valid()
        &&& is_visit_order(self.active_size, self.sphere_offsets@)
        &&& forall|i: int|
            0 <= i < self.active@.len() ==> match #[trigger] self.active@[i] {
                Some(e) => entry_wf(e) && in_window(
                    self.previous_player_chunk_coord,
                    self.active_size,
                    e.coord,
                ) && slot_index(self.active_size, e.coord) == i,
                None => true,
            }
    }

    /// What a sound scene guarantees of a loaded slot.
    pub proof fn lemma_slot_sound(&self, i: int)
        requires
            self.wf(),
            0 <= i < self.entries().len(),
            self.entries()[i] is Some,
        ensures
            entry_wf(self.entries()[i]->0),
            in_window(self.center(), self.size(), self.entries()[i]->0.coord),
            slot_index(self.size(), self.entries()[i]->0.coord) == i,
    {
    }

    /// The window wraps around without mixing chunks up: when the player
    /// has moved by the size of the window or more along some axis, no chunk
    /// stays loaded, so that every slot is empty before it is visited for
    /// the chunk that takes it.
    pub proof fn lemma_window_wraparound(&self, new_center: ChunkCoord, axis: int, i: int)
        requires
            self.wf(),
            0 <= axis < 3,
            0 <= i < self@.len(),
            axis_of(new_center, axis) - axis_of(self.center(), axis) >= self.size()[axis]
                || axis_of(self.center(), axis) - axis_of(new_center, axis) >= self.size()[axis],
        ensures
            slid(self@, self.size(), new_center)[i] is None,
    {
    }

    /// What a sound scene guarantees of its shape.
    pub proof fn lemma_shape(&self)
        requires
            self.wf(),
        ensures
            sizes_ok(self.size()),
            self.entries().len() == slot_count(self.size()),
            center_ok(self.center()),
            self.config().valid(),
            is_visit_order(self.size(), self.order()),
    {
    }

    /// A window of `active_size` chunks around the chunk at the origin,
    /// with nothing loaded.
    pub fn new(active_size: [usize; 3]) -> (s: Scene)
        requires
            sizes_ok(active_size),
        ensures
            s.wf(),
            s.size() == active_size,
            s.center() == ChunkCoord(0, 0, 0),
            s.config() == TerrainConfig::standard(),
            forall|i: int| 0 <= i < s.entries().len() ==> s.entries()[i] is None,
    {
        proof {
            lemma_slot_bound(active_size, ChunkCoord(0, 0, 0));
            assert(active_size[0] * active_size[1] <= 0x10_0000) by (nonlinear_arith)
                requires
                    active_size[0] <= 1024,
                    active_size[1] <= 1024,
            ;
        }
        let n = active_size[0] * active_size[1] * active_size[2];
        let mut active: Vec<Option<ActiveEntry>> = Vec::new();
        let mut i: usize = 0;
        while i < n
            invariant
                i <= n,
                active@.len() == i,
                forall|k: int| 0 <= k < i ==> active@[k] is None,
            decreases n - i,
        {
            active.push(None);
            i += 1;
        }
        Self {
            active_size,
            active,
            previous_player_chunk_coord: ChunkCoord(0, 0, 0),
            sphere_offsets: generate_qube_offset_in_spherical_order(active_size),
            density_generator: VoxelDensityGenerator::new(),
        }
    }

    /// The slots of the window, for reading: the loaded chunks with
    /// their levels of detail and their meshes.
    pub fn active(&self) -> (slots: &Vec<Option<ActiveEntry>>)
        ensures
            slots@ == self.entries(),
    {
        &self.active
    }

    /// Slot that chunk `coord` takes while it lies in the window.
    pub fn slot_of(&self, coord: &ChunkCoord) -> (i: usize)
        requires
            self.wf(),
        ensures
            i == slot_index(self.size(), *coord),
            i < self.entries().len(),
    {
        self.active_idx(coord)
    }

    fn active_idx(&self, coord: &ChunkCoord) -> (i: usize)
        requires
            sizes_ok(self.active_size),
        ensures
            i == slot_index(self.active_size, *coord),
            i < slot_count(self.active_size),
    {
        proof {
            lemma_slot_bound(self.active_size, *coord);
        }
        let n0 = self.active_size[0];
        let n1 = self.active_size[1];
        let r0 = wrap(coord.0, n0);
        let r1 = wrap(coord.1, n1);
        let r2 = wrap(coord.2, self.active_size[2]);
        assert(r1 * n0 <= 0x10_0000 && n0 * n1 <= 0x10_0000 && r2 * (n0 * n1) <= 0x4000_0000)
            by (nonlinear_arith)
            requires
                r1 < n1,
                r2 < 1024,
                n0 <= 1024,
                n1 <= 1024,
        ;
        r0 + r1 * n0 + r2 * (n0 * n1)
    }

    /// The block at `world_coord`, or `None` while its chunk is not loaded.
    pub fn get_block(&self, world_coord: &WorldCoord) -> (b: Option<Block>)
        requires
            self.wf(),
        ensures
            b == match self.resident(world_coord.chunk()) {
                Some(s) => Some(s.blocks[world_coord.local().idx()]),
                None => None,
            },
    {
        // Find which chunk contains this block
        let chunk_coord = world_coord.to_chunk_coord();
        let i = self.active_idx(&chunk_coord);
        match &self.active[i] {
            Some(entry) => {
                if entry.coord.0 == chunk_coord.0 && entry.coord.1 == chunk_coord.1 && entry.coord.2
                    == chunk_coord.2 {
                    let block_coord = world_coord.to_block_coord();
                    match &entry.loaded {
                        Some((chunk, _)) => Some(chunk.get_block(&block_coord)),
                        None => Some(Block::Empty),
                    }
                } else {
                    None
                }
            },
            None => None,
        }
    }
}

/// Component `axis` of a chunk coordinate.
pub open spec fn axis_of(c: ChunkCoord, axis: int) -> int {
    if axis == 0 {
        c.0 as int
    } else if axis == 1 {
        c.1 as int
    } else {
        c.2 as int
    }
}

/// Whether coordinate `v` lies in the window along an axis with `n`
/// chunks when the centre is at `center` on that axis.
pub open spec fn in_range(center: int, n: int, v: int) -> bool {
    center + window_lo(n) <= v < center + window_lo(n) + n
}

/// The slots after the window has moved to `center`: a chunk stays
/// loaded exactly if it lies in the new window too.
pub open spec fn slid(view: Seq<Option<SlotView>>, sizes: [usize; 3], center: ChunkCoord) -> Seq<
    Option<SlotView>,
> {
    Seq::new(
        view.len(),
        |i: int|
            match view[i] {
                Some(s) => if in_window(center, sizes, s.coord) {
                    Some(s)
                } else {
                    None
                },
                None => None,
            },
    )
}

fn axis_get(c: &ChunkCoord, axis: usize) -> (v: isize)
    ensures
        v == axis_of(*c, axis as int),
{
    if axis == 0 {
        c.0
    } else if axis == 1 {
        c.1
    } else {
        c.2
    }
}

/// Whether cell `(b, c)` of a plane comes before cell `(i, j)` when the
/// plane is walked row by row from `(base_b, base_c)`.
pub open spec fn plane_before(b: int, c: int, base_b: int, base_c: int, i: int, j: int) -> bool {
    b - base_b < i || (b - base_b == i && c - base_c < j)
}

/// First of the two axes other than `axis`.
pub open spec fn first_other(axis: int) -> int {
    if axis == 0 {
        1
    } else {
        0
    }
}

/// Second of the two axes other than `axis`.
pub open spec fn second_other(axis: int) -> int {
    if axis == 2 {
        1
    } else {
        2
    }
}

impl Scene {
    fn unset_active(&mut self, coord: &ChunkCoord)
        requires
            old(self).wf(),
            in_window(old(self).center(), old(self).size(), *coord),
        ensures
            final(self).wf(),
            final(self).size() == old(self).size(),
            final(self).center() == old(self).center(),
            final(self).config() == old(self).config(),
            final(self).order() == old(self).order(),
            final(self).entries().len() == old(self).entries().len(),
            forall|k: int|
                0 <= k < old(self).entries().len() ==> #[trigger] final(self).entries()[k] == (
                match old(self).entries()[k] {
                    Some(e) => if e.coord == *coord {
                        None
                    } else {
                        Some(e)
                    },
                    None => None,
                }),
    {
        let active_idx = self.active_idx(coord);
        proof {
            assert forall|k: int| 0 <= k < self.active@.len() && self.active@[k] is Some implies ((
            #[trigger] self.active@[k])->0.coord == *coord) == (k == active_idx) by {
                let e = self.active@[k]->0;
                if k == active_idx {
                    lemma_slot_injective(self.active_size, self.previous_player_chunk_coord, e.coord, *coord);
                }
            }
        }
        self.active.set(active_idx, None);
    }

    /// Unloads every chunk whose coordinate along `axis` is `t`, a
    /// coordinate of the window.
    fn evict_plane(&mut self, axis: usize, t: isize)
        requires
            old(self).wf(),
            axis < 3,
            in_range(
                axis_of(old(self).center(), axis as int),
                old(self).size()[axis as int] as int,
                t as int,
            ),
        ensures
            final(self).wf(),
            final(self).size() == old(self).size(),
            final(self).center() == old(self).center(),
            final(self).config() == old(self).config(),
            final(self).order() == old(self).order(),
            final(self).entries().len() == old(self).entries().len(),
            forall|k: int|
                0 <= k < old(self).entries().len() ==> #[trigger] final(self).entries()[k] == (
                match old(self).entries()[k] {
                    Some(e) => if axis_of(e.coord, axis as int) == t {
                        None
                    } else {
                        Some(e)
                    },
                    None => None,
                }),
    {
        let axis_b: usize = if axis == 0 {
            1
        } else {
            0
        };
        let axis_c: usize = if axis == 2 {
            1
        } else {
            2
        };
        let prev_base = self.previous_player_chunk_coord;
        let n_b = self.active_size[axis_b];
        let n_c = self.active_size[axis_c];
        let base_b = axis_get(&prev_base, axis_b) - (n_b / 2) as isize;
        let base_c = axis_get(&prev_base, axis_c) - (n_c / 2) as isize;
        // iterate 2D plane perpendicular to the current axis
        let mut i: usize = 0;
        while i < n_b
            invariant
                i <= n_b,
                axis < 3,
                axis_b == first_other(axis as int),
                axis_c == second_other(axis as int),
                self.wf(),
                self.size() == old(self).size(),
                self.center() == old(self).center(),
                self.config() == old(self).config(),
                self.order() == old(self).order(),
                self.entries().len() == old(self).entries().len(),
                prev_base == old(self).center(),
                old(self).wf(),
                n_b == old(self).size()[axis_b as int],
                n_c == old(self).size()[axis_c as int],
                base_b == axis_of(prev_base, axis_b as int) + window_lo(n_b as int),
                base_c == axis_of(prev_base, axis_c as int) + window_lo(n_c as int),
                in_range(
                    axis_of(prev_base, axis as int),
                    old(self).size()[axis as int] as int,
                    t as int,
                ),
                forall|k: int|
                    0 <= k < old(self).entries().len() ==> #[trigger] self.entries()[k] == (
                    match old(self).entries()[k] {
                        Some(e) => if axis_of(e.coord, axis as int) == t && plane_before(
                            axis_of(e.coord, axis_b as int),
                            axis_of(e.coord, axis_c as int),
                            base_b as int,
                            base_c as int,
                            i as int,
                            0,
                        ) {
                            None
                        } else {
                            Some(e)
                        },
                        None => None,
                    }),
            decreases n_b - i,
        {
            let mut j: usize = 0;
            while j < n_c
                invariant
                    i < n_b,
                    j <= n_c,
                    axis < 3,
                    axis_b == first_other(axis as int),
                    axis_c == second_other(axis as int),
                    self.wf(),
                    self.size() == old(self).size(),
                    self.center() == old(self).center(),
                    self.config() == old(self).config(),
                    self.order() == old(self).order(),
                    self.entries().len() == old(self).entries().len(),
                    prev_base == old(self).center(),
                    old(self).wf(),
                    n_b == old(self).size()[axis_b as int],
                    n_c == old(self).size()[axis_c as int],
                    base_b == axis_of(prev_base, axis_b as int) + window_lo(n_b as int),
                    base_c == axis_of(prev_base, axis_c as int) + window_lo(n_c as int),
                    in_range(
                        axis_of(prev_base, axis as int),
                        old(self).size()[axis as int] as int,
                        t as int,
                    ),
                    forall|k: int|
                        0 <= k < old(self).entries().len() ==> #[trigger] self.entries()[k] == (
                        match old(self).entries()[k] {
                            Some(e) => if axis_of(e.coord, axis as int) == t && plane_before(
                                axis_of(e.coord, axis_b as int),
                                axis_of(e.coord, axis_c as int),
                                base_b as int,
                                base_c as int,
                                i as int,
                                j as int,
                            ) {
                                None
                            } else {
                                Some(e)
                            },
                            None => None,
                        }),
                decreases n_c - j,
            {
                let b = base_b + i as isize;
                let c = base_c + j as isize;
                let chunk_coord = if axis == 0 {
                    // move in x-axis: clear yz-plane at the correct edge
                    ChunkCoord(t, b, c)
                } else if axis == 1 {
                    // Y-axis: clear xz-plane
                    ChunkCoord(b, t, c)
                } else {
                    // Z-axis: clear xy-plane
                    ChunkCoord(b, c, t)
                };
                // clear chunk at this position
                self.unset_active(&chunk_coord);
                j += 1;
            }
            proof {
                assert forall|k: int|
                    0 <= k < old(self).entries().len() implies #[trigger] self.entries()[k] == (
                match old(self).entries()[k] {
                    Some(e) => if axis_of(e.coord, axis as int) == t && plane_before(
                        axis_of(e.coord, axis_b as int),
                        axis_of(e.coord, axis_c as int),
                        base_b as int,
                        base_c as int,
                        i + 1,
                        0,
                    ) {
                        None
                    } else {
                        Some(e)
                    },
                    None => None,
                }) by {
                    if old(self).entries()[k] is Some {
                        old(self).lemma_slot_sound(k);
                    }
                }
            }
            i += 1;
        }
        proof {
            assert forall|k: int|
                0 <= k < old(self).entries().len() implies #[trigger] self.entries()[k] == (
            match old(self).entries()[k] {
                Some(e) => if axis_of(e.coord, axis as int) == t {
                    None
                } else {
                    Some(e)
                },
                None => None,
            }) by {
                if old(self).entries()[k] is Some {
                    old(self).lemma_slot_sound(k);
                }
            }
        }
    }
}

/// Whether coordinate `v` of the window has been given up after `steps`
/// unit steps of a move by `delta` along an axis: each step gives up the
/// plane at the edge that trails the move.
pub open spec fn given_up(center: int, n: int, delta: int, steps: int, v: int) -> bool {
    if delta > 0 {
        v < center + window_lo(n) + steps
    } else {
        v > center + window_lo(n) + n - 1 - steps
    }
}

impl Scene {
    /// Moves the window by `delta` chunks along `axis`, one chunk at a
    /// time, and unloads at each step the plane of chunks at the trailing
    /// edge. The centre is not yet moved.
    fn evict_axis(&mut self, axis: usize, delta: isize)
        requires
            old(self).wf(),
            axis < 3,
            -0x1000_0000 <= delta <= 0x1000_0000,
        ensures
            final(self).wf(),
            final(self).size() == old(self).size(),
            final(self).center() == old(self).center(),
            final(self).config() == old(self).config(),
            final(self).order() == old(self).order(),
            final(self).entries().len() == old(self).entries().len(),
            forall|k: int|
                0 <= k < old(self).entries().len() ==> #[trigger] final(self).entries()[k] == (
                match old(self).entries()[k] {
                    Some(e) => if in_range(
                        axis_of(old(self).center(), axis as int) + delta,
                        old(self).size()[axis as int] as int,
                        axis_of(e.coord, axis as int),
                    ) {
                        Some(e)
                    } else {
                        None
                    },
                    None => None,
                }),
    {
        // no movement along this axis -> skip
        if delta == 0 {
            proof {
                assert forall|k: int|
                    0 <= k < old(self).entries().len() && old(self).entries()[k] is Some implies in_range(
                    axis_of(old(self).center(), axis as int) + delta,
                    old(self).size()[axis as int] as int,
                    axis_of((#[trigger] old(self).entries()[k])->0.coord, axis as int),
                ) by {
                    old(self).lemma_slot_sound(k);
                }
            }
            return ;
        }
        let n = self.active_size[axis];
        let half = (n / 2) as isize;
        let prev = axis_get(&self.previous_player_chunk_coord, axis);
        let distance: usize = if delta > 0 {
            delta as usize
        } else {
            (-delta) as usize
        };
        let steps = if distance < n {
            distance
        } else {
            n
        };
        // process each step of movement separately
        let mut s: usize = 0;
        while s < steps
            invariant
                s <= steps,
                steps <= n,
                steps <= distance,
                steps == n || steps == distance,
                delta != 0,
                delta > 0 ==> distance == delta,
                delta < 0 ==> distance == -delta,
                axis < 3,
                n == old(self).size()[axis as int],
                half == n / 2,
                prev == axis_of(old(self).center(), axis as int),
                old(self).wf(),
                self.wf(),
                self.size() == old(self).size(),
                self.center() == old(self).center(),
                self.config() == old(self).config(),
                self.order() == old(self).order(),
                self.entries().len() == old(self).entries().len(),
                forall|k: int|
                    0 <= k < old(self).entries().len() ==> #[trigger] self.entries()[k] == (
                    match old(self).entries()[k] {
                        Some(e) => if given_up(
                            prev as int,
                            n as int,
                            delta as int,
                            s as int,
                            axis_of(e.coord, axis as int),
                        ) {
                            None
                        } else {
                            Some(e)
                        },
                        None => None,
                    }),
            decreases steps - s,
        {
            // The plane to clear is at the edge that the window leaves behind
            let t = if delta > 0 {
                prev - half + s as isize
            } else {
                prev - half + n as isize - 1 - s as isize
            };
            let ghost before = self.entries();
            self.evict_plane(axis, t);
            proof {
                assert forall|k: int|
                    0 <= k < old(self).entries().len() implies #[trigger] self.entries()[k] == (
                match old(self).entries()[k] {
                    Some(e) => if given_up(
                        prev as int,
                        n as int,
                        delta as int,
                        s + 1,
                        axis_of(e.coord, axis as int),
                    ) {
                        None
                    } else {
                        Some(e)
                    },
                    None => None,
                }) by {
                    assert(self.entries()[k] == match before[k] {
                        Some(e) => if axis_of(e.coord, axis as int) == t {
                            None
                        } else {
                            Some(e)
                        },
                        None => None,
                    });
                    if old(self).entries()[k] is Some {
                        old(self).lemma_slot_sound(k);
                    }
                }
            }
            s += 1;
        }
        proof {
            assert forall|k: int|
                0 <= k < old(self).entries().len() implies #[trigger] self.entries()[k] == (
            match old(self).entries()[k] {
                Some(e) => if in_range(
                    axis_of(old(self).center(), axis as int) + delta,
                    old(self).size()[axis as int] as int,
                    axis_of(e.coord, axis as int),
                ) {
                    Some(e)
                } else {
                    None
                },
                None => None,
            }) by {
                if old(self).entries()[k] is Some {
                    old(self).lemma_slot_sound(k);
                }
            }
        }
    }

    /// Update loaded chunks based on player movement
    /// Uses modulo-based indexing to implement a sliding 3D array around the player:
    /// whatever leaves the window is unloaded before its slot can be taken
    /// for the chunk that enters.
    pub fn slide_active_chunk_window(&mut self, player_chunk_coord: ChunkCoord)
        requires
            old(self).wf(),
            center_ok(player_chunk_coord),
        ensures
            final(self).wf(),
            final(self).size() == old(self).size(),
            final(self).config() == old(self).config(),
            final(self).order() == old(self).order(),
            final(self).center() == player_chunk_coord,
            final(self).entries().len() == old(self).entries().len(),
            forall|k: int|
                0 <= k < old(self).entries().len() ==> #[trigger] final(self).entries()[k] == (
                match old(self).entries()[k] {
                    Some(e) => if in_window(player_chunk_coord, old(self).size(), e.coord) {
                        Some(e)
                    } else {
                        None
                    },
                    None => None,
                }),
            final(self)@ == slid(old(self)@, old(self).size(), player_chunk_coord),
    {
        // Find in which direction(s) the player moved
        let deltas = [
            player_chunk_coord.0 - self.previous_player_chunk_coord.0,
            player_chunk_coord.1 - self.previous_player_chunk_coord.1,
            player_chunk_coord.2 - self.previous_player_chunk_coord.2,
        ];
        // process each axis independently
        self.evict_axis(0, deltas[0]);
        self.evict_axis(1, deltas[1]);
        self.evict_axis(2, deltas[2]);
        self.previous_player_chunk_coord = player_chunk_coord;
        proof {
            assert(self@ =~= slid(old(self)@, old(self).size(), player_chunk_coord));
        }
    }
}

/// The blocks that the generator gives chunk `c`.
pub open spec fn generated(cfg: TerrainConfig, c: ChunkCoord) -> Seq<Block> {
    populated_simple(cfg, c, all_air())
}

/// The slot of a chunk that has just been generated: the shared chunk of
/// air if it holds nothing, else the chunk with its mesh at level
/// `required`.
pub open spec fn fresh_slot(cfg: TerrainConfig, c: ChunkCoord, required: u8) -> SlotView {
    if is_all_air(generated(cfg, c)) {
        SlotView { coord: c, blocks: all_air(), lod: 0, shared_air: true }
    } else {
        SlotView { coord: c, blocks: generated(cfg, c), lod: required, shared_air: false }
    }
}

/// Whether a loaded chunk gets a new mesh when it is visited: it has
/// blocks of its own, not all air, and its mesh is at another level than
/// `required`.
pub open spec fn needs_remesh(s: SlotView, required: u8) -> bool {
    !s.shared_air && !is_all_air(s.blocks) && s.lod != required
}

/// What a visit to chunk `c` costs, where `slot` is what the slot of `c`
/// holds and `inside` says whether `c` lies in the window: 2 to generate and
/// mesh a chunk that is not all air, 1 to mesh the loaded chunk anew, else
/// nothing. A visit that finds another chunk of the window in the slot
/// costs nothing.
pub open spec fn visit_cost(
    slot: Option<SlotView>,
    cfg: TerrainConfig,
    c: ChunkCoord,
    required: u8,
    inside: bool,
) -> int {
    match slot {
        None => if inside && !is_all_air(generated(cfg, c)) {
            2
        } else {
            0
        },
        Some(s) => if s.coord == c && needs_remesh(s, required) {
            1
        } else {
            0
        },
    }
}

/// What the slot of chunk `c` holds after a visit to `c`. A free slot
/// takes the chunk if it lies in the window. A slot that holds `c` gets a
/// new mesh if it needs one. A slot that holds another chunk of the window,
/// which is one that lies as far from the player on the opposite side,
/// keeps it as it is.
pub open spec fn visit_slot(
    slot: Option<SlotView>,
    cfg: TerrainConfig,
    c: ChunkCoord,
    required: u8,
    inside: bool,
) -> Option<SlotView> {
    match slot {
        None => if inside {
            Some(fresh_slot(cfg, c, required))
        } else {
            None
        },
        Some(s) => if s.coord == c && needs_remesh(s, required) {
            Some(SlotView { coord: s.coord, blocks: s.blocks, lod: required, shared_air: false })
        } else {
            Some(s)
        },
    }
}

/// Whether the budget is looked at after a visit: not after one that
/// found the shared chunk of air.
pub open spec fn visit_checks(slot: Option<SlotView>) -> bool {
    match slot {
        Some(s) => !s.shared_air,
        None => true,
    }
}

/// Chunk that visit `v` goes to when the player is in chunk `center`.
pub open spec fn visit_target(center: ChunkCoord, v: Visit) -> ChunkCoord {
    ChunkCoord(
        (center.0 + v.0.0) as isize,
        (center.1 + v.0.1) as isize,
        (center.2 + v.0.2) as isize,
    )
}

/// The slots after the visits from number `k` on, when `used` of the
/// budget is spent: the visits go on in order until one that looks at the
/// budget finds it spent.
#[verifier::opaque]
pub open spec fn visited(
    view: Seq<Option<SlotView>>,
    cfg: TerrainConfig,
    sizes: [usize; 3],
    center: ChunkCoord,
    order: Seq<Visit>,
    k: int,
    used: int,
    budget: int,
) -> Seq<Option<SlotView>>
    decreases order.len() - k,
{
    if k < 0 || k >= order.len() {
        view
    } else {
        let c = visit_target(center, order[k]);
        let required = lod_for(order[k].1 as int);
        let i = slot_index(sizes, c);
        let inside = in_window(center, sizes, c);
        let cost = visit_cost(view[i], cfg, c, required, inside);
        let next = view.update(i, visit_slot(view[i], cfg, c, required, inside));
        if visit_checks(view[i]) && used + cost >= budget {
            next
        } else {
            visited(next, cfg, sizes, center, order, k + 1, used + cost, budget)
        }
    }
}

/// The slots whose mesh the visits from number `k` on make anew, in the
/// order of the visits.
#[verifier::opaque]
pub open spec fn touched(
    view: Seq<Option<SlotView>>,
    cfg: TerrainConfig,
    sizes: [usize; 3],
    center: ChunkCoord,
    order: Seq<Visit>,
    k: int,
    used: int,
    budget: int,
) -> Seq<usize>
    decreases order.len() - k,
{
    if k < 0 || k >= order.len() {
        Seq::empty()
    } else {
        let c = visit_target(center, order[k]);
        let required = lod_for(order[k].1 as int);
        let i = slot_index(sizes, c);
        let inside = in_window(center, sizes, c);
        let cost = visit_cost(view[i], cfg, c, required, inside);
        let next = view.update(i, visit_slot(view[i], cfg, c, required, inside));
        let here = if cost > 0 {
            seq![i as usize]
        } else {
            Seq::empty()
        };
        if visit_checks(view[i]) && used + cost >= budget {
            here
        } else {
            here + touched(next, cfg, sizes, center, order, k + 1, used + cost, budget)
        }
    }
}

/// One visit: what `visited` and `touched` are at visit `k` in terms of
/// what they are at the next.
pub proof fn lemma_visit_step(
    view: Seq<Option<SlotView>>,
    cfg: TerrainConfig,
    sizes: [usize; 3],
    center: ChunkCoord,
    order: Seq<Visit>,
    k: int,
    used: int,
    budget: int,
)
    requires
        0 <= k < order.len(),
    ensures
        ({
            let c = visit_target(center, order[k]);
            let required = lod_for(order[k].1 as int);
            let i = slot_index(sizes, c);
            let inside = in_window(center, sizes, c);
            let cost = visit_cost(view[i], cfg, c, required, inside);
            let next = view.update(i, visit_slot(view[i], cfg, c, required, inside));
            let here = if cost > 0 {
                seq![i as usize]
            } else {
                Seq::<usize>::empty()
            };
            let stop = visit_checks(view[i]) && used + cost >= budget;
            &&& visited(view, cfg, sizes, center, order, k, used, budget) == if stop {
                next
            } else {
                visited(next, cfg, sizes, center, order, k + 1, used + cost, budget)
            }
            &&& touched(view, cfg, sizes, center, order, k, used, budget) == if stop {
                here
            } else {
                here + touched(next, cfg, sizes, center, order, k + 1, used + cost, budget)
            }
        }),
{
    reveal_with_fuel(visited, 2);
    reveal_with_fuel(touched, 2);
}

/// After the last visit nothing changes.
pub proof fn lemma_visits_done(
    view: Seq<Option<SlotView>>,
    cfg: TerrainConfig,
    sizes: [usize; 3],
    center: ChunkCoord,
    order: Seq<Visit>,
    k: int,
    used: int,
    budget: int,
)
    requires
        k >= order.len(),
    ensures
        visited(view, cfg, sizes, center, order, k, used, budget) == view,
        touched(view, cfg, sizes, center, order, k, used, budget) == Seq::<usize>::empty(),
{
    reveal_with_fuel(visited, 2);
    reveal_with_fuel(touched, 2);
}

impl Scene {
    /// Puts `entry` into slot `i`.
    fn store(&mut self, i: usize, entry: ActiveEntry)
        requires
            sizes_ok(old(self).size()),
            i < old(self).entries().len(),
            old(self).entries().len() == slot_count(old(self).size()),
            center_ok(old(self).center()),
            old(self).config().valid(),
            is_visit_order(old(self).size(), old(self).order()),
            entry_wf(entry),
            in_window(old(self).center(), old(self).size(), entry.coord),
            slot_index(old(self).size(), entry.coord) == i,
            forall|k: int|
                0 <= k < old(self).entries().len() && k != i ==> match #[trigger] old(
                    self,
                ).entries()[k] {
                    Some(e) => entry_wf(e) && in_window(
                        old(self).center(),
                        old(self).size(),
                        e.coord,
                    ) && slot_index(old(self).size(), e.coord) == k,
                    None => true,
                },
        ensures
            final(self).wf(),
            final(self).size() == old(self).size(),
            final(self).center() == old(self).center(),
            final(self).config() == old(self).config(),
            final(self).order() == old(self).order(),
            final(self).entries() == old(self).entries().update(i as int, Some(entry)),
    {
        self.active.set(i, Some(entry));
    }

    /// Takes what slot `i` holds and leaves the slot empty.
    fn take(&mut self, i: usize) -> (taken: Option<ActiveEntry>)
        requires
            i < old(self).entries().len(),
        ensures
            taken == old(self).entries()[i as int],
            final(self).size() == old(self).size(),
            final(self).center() == old(self).center(),
            final(self).config() == old(self).config(),
            final(self).order() == old(self).order(),
            final(self).entries() == old(self).entries().update(i as int, None),
    {
        let mut taken: Option<ActiveEntry> = None;
        std::mem::swap(&mut self.active[i], &mut taken);
        taken
    }

    /// Whether chunk `c` lies in the window.
    fn holds(&self, c: &ChunkCoord) -> (inside: bool)
        requires
            self.wf(),
        ensures
            inside == in_window(self.center(), self.size(), *c),
    {
        let center = self.previous_player_chunk_coord;
        let lo_x = center.0 - (self.active_size[0] / 2) as isize;
        let lo_y = center.1 - (self.active_size[1] / 2) as isize;
        let lo_z = center.2 - (self.active_size[2] / 2) as isize;
        lo_x <= c.0 && c.0 < lo_x + self.active_size[0] as isize && lo_y <= c.1 && c.1 < lo_y
            + self.active_size[1] as isize && lo_z <= c.2 && c.2 < lo_z
            + self.active_size[2] as isize
    }

    /// Visits chunk `c`: generates it if its slot is free and it lies in
    /// the window, meshes it anew if its mesh is at another level than
    /// `required`, and leaves the slot alone if another chunk holds it.
    /// Returns the cost and whether the budget is to be looked at.
    fn visit(&mut self, c: &ChunkCoord, required: LOD) -> (r: (usize, bool))
        requires
            old(self).wf(),
            required < 5,
        ensures
            final(self).wf(),
            final(self).size() == old(self).size(),
            final(self).center() == old(self).center(),
            final(self).config() == old(self).config(),
            final(self).order() == old(self).order(),
            final(self)@ == old(self)@.update(
                slot_index(old(self).size(), *c),
                visit_slot(
                    old(self)@[slot_index(old(self).size(), *c)],
                    old(self).config(),
                    *c,
                    required,
                    in_window(old(self).center(), old(self).size(), *c),
                ),
            ),
            r.0 == visit_cost(
                old(self)@[slot_index(old(self).size(), *c)],
                old(self).config(),
                *c,
                required,
                in_window(old(self).center(), old(self).size(), *c),
            ),
            r.1 == visit_checks(old(self)@[slot_index(old(self).size(), *c)]),
    {
        let active_idx = self.active_idx(c);
        let inside = self.holds(c);
        let taken = self.take(active_idx);
        let coord = ChunkCoord(c.0, c.1, c.2);
        match taken {
            Some(entry) => {
                let here = entry.coord.0 == c.0 && entry.coord.1 == c.1 && entry.coord.2 == c.2;
                let kept = ChunkCoord(entry.coord.0, entry.coord.1, entry.coord.2);
                match entry.loaded {
                    None => {
                        // it's the empty chunk - no LOD update needed
                        self.store(active_idx, ActiveEntry { coord: kept, loaded: None });
                        assert(self@ =~= old(self)@);
                        (0, false)
                    },
                    Some((mut active_chunk, (active_lod, active_mesh))) => {
                        // chunk is present -> check if LOD needs to be updated
                        if here && !active_chunk.is_empty() && active_lod != required {
                            let new_mesh = world_mesh(&mut active_chunk, required, &coord);
                            self.store(
                                active_idx,
                                ActiveEntry {
                                    coord,
                                    loaded: Some((active_chunk, (required, new_mesh))),
                                },
                            );
                            assert(self@ =~= old(self)@.update(
                                active_idx as int,
                                visit_slot(
                                    old(self)@[active_idx as int],
                                    old(self).config(),
                                    *c,
                                    required,
                                    inside,
                                ),
                            ));
                            (1, true)
                        } else {
                            self.store(
                                active_idx,
                                ActiveEntry {
                                    coord: kept,
                                    loaded: Some((active_chunk, (active_lod, active_mesh))),
                                },
                            );
                            assert(self@ =~= old(self)@);
                            (0, true)
                        }
                    },
                }
            },
            None => {
                if !inside {
                    // the slot belongs to a chunk of the window that is not loaded
                    assert(self.entries() =~= old(self).entries());
                    assert(self@ =~= old(self)@);
                    return (0, true);
                }
                // chunk is missing -> generate and mesh it
                let mut new_chunk = Chunk::new_polulated(&self.density_generator, &coord);
                // if empty, use the shared air chunk (safes memory and GPU resources)
                // else compute mesh
                if new_chunk.is_empty() {
                    self.store(active_idx, ActiveEntry { coord, loaded: None });
                    assert(self@ =~= old(self)@.update(
                        active_idx as int,
                        Some(fresh_slot(old(self).config(), *c, required)),
                    ));
                    (0, true)
                } else {
                    let new_mesh = world_mesh(&mut new_chunk, required, &coord);
                    self.store(
                        active_idx,
                        ActiveEntry { coord, loaded: Some((new_chunk, (required, new_mesh))) },
                    );
                    assert(self@ =~= old(self)@.update(
                        active_idx as int,
                        Some(fresh_slot(old(self).config(), *c, required)),
                    ));
                    (2, true)
                }
            },
        }
    }

    /// Chunk of visit `k` around `center`, and the level of detail that
    /// its distance asks for.
    fn candidate(&self, center: &ChunkCoord, k: usize) -> (r: (ChunkCoord, LOD))
        requires
            self.wf(),
            self.center() == *center,
            k < self.order().len(),
        ensures
            r.0 == visit_target(*center, self.order()[k as int]),
            r.1 == lod_for(self.order()[k as int].1 as int),
            r.1 < 5,
    {
        let ((offset_x, offset_y, offset_z), distance) = self.sphere_offsets[k];
        assert(in_reach(self.active_size, self.sphere_offsets@[k as int].0));
        let required_lod = select_lod(distance);
        let chunk_coord = ChunkCoord(
            center.0 + offset_x,
            center.1 + offset_y,
            center.2 + offset_z,
        );
        (chunk_coord, required_lod)
    }

    /// Moves the window to the player's chunk, then visits the chunks
    /// around the player from near to far until the budget is spent or
    /// all are visited. Returns the slots whose mesh was made anew, in the
    /// order of the visits.
    pub fn update(&mut self, player: &WorldCoord, compute_budget: usize) -> (changed: Vec<usize>)
        requires
            old(self).wf(),
            center_ok(player.chunk()),
        ensures
            final(self).wf(),
            final(self).size() == old(self).size(),
            final(self).config() == old(self).config(),
            final(self).order() == old(self).order(),
            final(self).center() == player.chunk(),
            final(self)@ == visited(
                slid(old(self)@, old(self).size(), player.chunk()),
                old(self).config(),
                old(self).size(),
                player.chunk(),
                old(self).order(),
                0,
                0,
                compute_budget as int,
            ),
            changed@ == touched(
                slid(old(self)@, old(self).size(), player.chunk()),
                old(self).config(),
                old(self).size(),
                player.chunk(),
                old(self).order(),
                0,
                0,
                compute_budget as int,
            ),
    {
        let mut changed: Vec<usize> = Vec::new();
        let mut used_compute_budget: usize = 0;
        let ghost mut used: int = 0;
        let center = player.to_chunk_coord();
        // Update sliding chunk window based on player position
        self.slide_active_chunk_window(center);
        let ghost cfg = self.config();
        let ghost sizes = self.size();
        let ghost order = self.order();
        let ghost budget = compute_budget as int;
        let ghost goal = visited(self@, cfg, sizes, center, order, 0, 0, budget);
        let ghost goal_touched = touched(self@, cfg, sizes, center, order, 0, 0, budget);
        let n = self.sphere_offsets.len();
        // iterate in order of distance from player
        let mut k: usize = 0;
        let mut spent = false;
        proof {
            assert(changed@ + goal_touched =~= goal_touched);
        }
        while k < n && !spent
            invariant
                k <= n,
                n == order.len(),
                self.wf(),
                self.size() == sizes,
                self.config() == cfg,
                self.order() == order,
                self.center() == center,
                budget == compute_budget,
                visits_so_far(
                    self@,
                    changed@,
                    cfg,
                    sizes,
                    center,
                    order,
                    k as int,
                    used,
                    budget,
                    spent,
                    goal,
                    goal_touched,
                ),
                used_compute_budget == if used <= usize::MAX {
                    used
                } else {
                    usize::MAX as int
                },
                0 <= used,
            decreases n - k + if spent { 0int } else { 1int },
        {
            let (chunk_coord, required_lod) = self.candidate(&center, k);
            let ghost before = self@;
            let ghost changed_before = changed@;
            let (cost, checks) = self.visit(&chunk_coord, required_lod);
            if cost > 0 {
                changed.push(self.slot_of(&chunk_coord));
            }
            used_compute_budget = used_compute_budget.saturating_add(cost);
            let stop = checks && used_compute_budget >= compute_budget;
            proof {
                lemma_visit_progress(
                    before,
                    self@,
                    changed_before,
                    changed@,
                    cfg,
                    sizes,
                    center,
                    order,
                    k as int,
                    used,
                    budget,
                    goal,
                    goal_touched,
                );
                used = used + cost;
            }
            if stop {
                spent = true;
            }
            k += 1;
        }
        proof {
            if !spent {
                lemma_visits_done(self@, cfg, sizes, center, order, k as int, used, budget);
                assert(changed@ + Seq::<usize>::empty() =~= changed@);
            }
        }
        changed
    }
}

/// What holds between the visits: as long as the budget has not ended
/// them, the visits that remain lead from the slots as they are to the
/// slots as they will be, and the slots named so far followed by those
/// that the remaining visits name are all that will be named.
pub open spec fn visits_so_far(
    view: Seq<Option<SlotView>>,
    changed: Seq<usize>,
    cfg: TerrainConfig,
    sizes: [usize; 3],
    center: ChunkCoord,
    order: Seq<Visit>,
    k: int,
    used: int,
    budget: int,
    spent: bool,
    goal: Seq<Option<SlotView>>,
    goal_touched: Seq<usize>,
) -> bool {
    if spent {
        view == goal && changed == goal_touched
    } else {
        visited(view, cfg, sizes, center, order, k, used, budget) == goal && changed + touched(
            view,
            cfg,
            sizes,
            center,
            order,
            k,
            used,
            budget,
        ) == goal_touched
    }
}

/// One visit carries `visits_so_far` from visit `k` to the next.
proof fn lemma_visit_progress(
    before: Seq<Option<SlotView>>,
    after: Seq<Option<SlotView>>,
    changed_before: Seq<usize>,
    changed_after: Seq<usize>,
    cfg: TerrainConfig,
    sizes: [usize; 3],
    center: ChunkCoord,
    order: Seq<Visit>,
    k: int,
    used: int,
    budget: int,
    goal: Seq<Option<SlotView>>,
    goal_touched: Seq<usize>,
)
    requires
        0 <= k < order.len(),
        visits_so_far(
            before,
            changed_before,
            cfg,
            sizes,
            center,
            order,
            k,
            used,
            budget,
            false,
            goal,
            goal_touched,
        ),
        ({
            let c = visit_target(center, order[k]);
            let required = lod_for(order[k].1 as int);
            let i = slot_index(sizes, c);
            let inside = in_window(center, sizes, c);
            let cost = visit_cost(before[i], cfg, c, required, inside);
            &&& after == before.update(i, visit_slot(before[i], cfg, c, required, inside))
            &&& changed_after == if cost > 0 {
                changed_before.push(i as usize)
            } else {
                changed_before
            }
        }),
    ensures
        ({
            let c = visit_target(center, order[k]);
            let required = lod_for(order[k].1 as int);
            let i = slot_index(sizes, c);
            let cost = visit_cost(before[i], cfg, c, required, in_window(center, sizes, c));
            let stop = visit_checks(before[i]) && used + cost >= budget;
            visits_so_far(
                after,
                changed_after,
                cfg,
                sizes,
                center,
                order,
                k + 1,
                used + cost,
                budget,
                stop,
                goal,
                goal_touched,
            )
        }),
{
    lemma_visit_step(before, cfg, sizes, center, order, k, used, budget);
    let c = visit_target(center, order[k]);
    let required = lod_for(order[k].1 as int);
    let i = slot_index(sizes, c);
    let cost = visit_cost(before[i], cfg, c, required, in_window(center, sizes, c));
    let here = if cost > 0 {
        seq![i as usize]
    } else {
        Seq::<usize>::empty()
    };
    assert(changed_after =~= changed_before + here);
    let rest = touched(after, cfg, sizes, center, order, k + 1, used + cost, budget);
    assert((changed_before + here) + rest =~= changed_before + (here + rest));
}

/// The slot of a chunk after `block` has been written at index `idx` of
/// its blocks. The shared chunk of air stays shared only while air is
/// written into it.
pub open spec fn edited_slot(s: SlotView, idx: int, block: Block) -> SlotView {
    SlotView {
        coord: s.coord,
        blocks: s.blocks.update(idx, block),
        lod: s.lod,
        shared_air: s.shared_air && block == Block::Empty,
    }
}

impl Scene {
    /// Writes `block` at `world_coord` if the chunk there is loaded and
    /// the place is empty or `overwrite` is set, and says whether it wrote.
    /// After a write the chunk's mesh is made anew at once, at the level it
    /// had. A write into the shared chunk of air gives the slot a chunk of
    /// its own first.
    pub fn set_block(&mut self, world_coord: &WorldCoord, block: Block, overwrite: bool) -> (ok:
        bool)
        requires
            old(self).wf(),
        ensures
            final(self).wf(),
            final(self).size() == old(self).size(),
            final(self).center() == old(self).center(),
            final(self).config() == old(self).config(),
            final(self).order() == old(self).order(),
            match old(self).resident(world_coord.chunk()) {
                None => !ok && final(self)@ == old(self)@,
                Some(s) => {
                    &&& ok == (s.blocks[world_coord.local().idx()] == Block::Empty || overwrite)
                    &&& final(self)@ == if ok {
                        old(self)@.update(
                            slot_index(old(self).size(), world_coord.chunk()),
                            Some(edited_slot(s, world_coord.local().idx(), block)),
                        )
                    } else {
                        old(self)@
                    }
                },
            },
    {
        // Find which chunk contains this block
        let chunk_coord = world_coord.to_chunk_coord();
        let block_coord = world_coord.to_block_coord();
        let active_idx = self.active_idx(&chunk_coord);
        let taken = self.take(active_idx);
        match taken {
            Some(entry) => {
                let coord = ChunkCoord(entry.coord.0, entry.coord.1, entry.coord.2);
                let here = coord.0 == chunk_coord.0 && coord.1 == chunk_coord.1 && coord.2
                    == chunk_coord.2;
                match entry.loaded {
                    Some((mut active_chunk, (active_lod, active_mesh))) => {
                        if here && active_chunk.set_block(&block_coord, block, overwrite) {
                            // the new mesh is there at once
                            let new_mesh = world_mesh(&mut active_chunk, active_lod, &coord);
                            self.store(
                                active_idx,
                                ActiveEntry {
                                    coord,
                                    loaded: Some((active_chunk, (active_lod, new_mesh))),
                                },
                            );
                            assert(self@ =~= old(self)@.update(
                                active_idx as int,
                                Some(
                                    edited_slot(
                                        old(self)@[active_idx as int]->0,
                                        block_coord.idx(),
                                        block,
                                    ),
                                ),
                            ));
                            true
                        } else {
                            self.store(
                                active_idx,
                                ActiveEntry {
                                    coord,
                                    loaded: Some((active_chunk, (active_lod, active_mesh))),
                                },
                            );
                            assert(self@ =~= old(self)@);
                            false
                        }
                    },
                    None => {
                        if here && !block.is_empty() {
                            // the shared chunk of air is never written: the slot gets its own
                            let mut own = Chunk::new_empty();
                            own.set_block(&block_coord, block, overwrite);
                            let new_mesh = world_mesh(&mut own, 0, &coord);
                            self.store(
                                active_idx,
                                ActiveEntry { coord, loaded: Some((own, (0, new_mesh))) },
                            );
                            assert(self@ =~= old(self)@.update(
                                active_idx as int,
                                Some(
                                    edited_slot(
                                        old(self)@[active_idx as int]->0,
                                        block_coord.idx(),
                                        block,
                                    ),
                                ),
                            ));
                            true
                        } else {
                            self.store(active_idx, ActiveEntry { coord, loaded: None });
                            proof {
                                assert(self@ =~= old(self)@);
                                if here {
                                    let s = old(self)@[active_idx as int]->0;
                                    assert(edited_slot(s, block_coord.idx(), block).blocks
                                        =~= s.blocks);
                                    assert(self@ =~= old(self)@.update(
                                        active_idx as int,
                                        Some(edited_slot(s, block_coord.idx(), block)),
                                    ));
                                }
                            }
                            here
                        }
                    },
                }
            },
            None => {
                assert(self.entries() =~= old(self).entries());
                false
            },
        }
    }
}

/// Moving the window keeps exactly the chunks that lie in both windows,
/// each in its slot.
pub proof fn lemma_slide_keeps_overlap(
    view: Seq<Option<SlotView>>,
    sizes: [usize; 3],
    new_center: ChunkCoord,
    i: int,
)
    requires
        0 <= i < view.len(),
    ensures
        slid(view, sizes, new_center)[i] is Some <==> view[i] is Some && in_window(
            new_center,
            sizes,
            view[i]->0.coord,
        ),
        slid(view, sizes, new_center)[i] is Some ==> slid(view, sizes, new_center)[i] == view[i],
{
}

/// Whether every chunk of `view` lies in the window around `center`, in
/// the slot that its coordinate names.
pub open spec fn view_in_window(
    view: Seq<Option<SlotView>>,
    sizes: [usize; 3],
    center: ChunkCoord,
) -> bool {
    forall|i: int|
        0 <= i < view.len() ==> match #[trigger] view[i] {
            Some(s) => in_window(center, sizes, s.coord) && slot_index(sizes, s.coord) == i,
            None => true,
        }
}

impl Scene {
    /// In a sound scene every loaded chunk lies in the window, in its own
    /// slot.
    pub proof fn lemma_view_in_window(&self)
        requires
            self.wf(),
        ensures
            view_in_window(self@, self.size(), self.center()),
            self@.len() == slot_count(self.size()),
    {
    }
}

/// Moving the window leaves every chunk that stays in its slot, and all of
/// them lie in the new window.
pub proof fn lemma_slid_in_window(
    view: Seq<Option<SlotView>>,
    sizes: [usize; 3],
    old_center: ChunkCoord,
    new_center: ChunkCoord,
)
    requires
        view_in_window(view, sizes, old_center),
    ensures
        view_in_window(slid(view, sizes, new_center), sizes, new_center),
        slid(view, sizes, new_center).len() == view.len(),
{
    let after = slid(view, sizes, new_center);
    assert forall|i: int| 0 <= i < after.len() implies match #[trigger] after[i] {
        Some(s) => in_window(new_center, sizes, s.coord) && slot_index(sizes, s.coord) == i,
        None => true,
    } by {
        if after[i] is Some {
            assert(view[i] is Some);
        }
    }
}

/// The visits from number `k` on leave a chunk as it is unless one of them
/// goes to it.
pub proof fn lemma_visits_keep(
    view: Seq<Option<SlotView>>,
    cfg: TerrainConfig,
    sizes: [usize; 3],
    center: ChunkCoord,
    order: Seq<Visit>,
    k: int,
    used: int,
    budget: int,
    i: int,
)
    requires
        sizes_ok(sizes),
        view.len() == slot_count(sizes),
        0 <= k,
        0 <= i < view.len(),
        view[i] is Some,
        forall|j: int|
            k <= j < order.len() ==> visit_target(center, #[trigger] order[j]) != view[i]->0.coord,
    ensures
        visited(view, cfg, sizes, center, order, k, used, budget).len() == view.len(),
        visited(view, cfg, sizes, center, order, k, used, budget)[i] == view[i],
    decreases order.len() - k,
{
    if k < order.len() {
        lemma_visit_step(view, cfg, sizes, center, order, k, used, budget);
        let c = visit_target(center, order[k]);
        let required = lod_for(order[k].1 as int);
        let s = slot_index(sizes, c);
        lemma_slot_bound(sizes, c);
        let inside = in_window(center, sizes, c);
        let cost = visit_cost(view[s], cfg, c, required, inside);
        let next = view.update(s, visit_slot(view[s], cfg, c, required, inside));
        assert(next[i] == view[i]);
        lemma_visits_keep(next, cfg, sizes, center, order, k + 1, used + cost, budget, i);
    } else {
        lemma_visits_done(view, cfg, sizes, center, order, k, used, budget);
    }
}

/// Whatever the budget, an update loads the chunk that the player is in,
/// and if that chunk has blocks of its own that are not all air, its mesh
/// is at the finest level.
pub proof fn lemma_update_loads_player_chunk(
    view: Seq<Option<SlotView>>,
    cfg: TerrainConfig,
    sizes: [usize; 3],
    center: ChunkCoord,
    order: Seq<Visit>,
    budget: int,
)
    requires
        sizes_ok(sizes),
        is_visit_order(sizes, order),
        view.len() == slot_count(sizes),
        view_in_window(view, sizes, center),
        center_ok(center),
    ensures
        ({
            let after = visited(view, cfg, sizes, center, order, 0, 0, budget);
            let slot = after[slot_index(sizes, center)];
            &&& slot == visit_slot(view[slot_index(sizes, center)], cfg, center, 0, true)
            &&& slot is Some
            &&& slot->0.coord == center
            &&& !needs_remesh(slot->0, 0)
        }),
{
    lemma_center_first(sizes, order);
    lemma_slot_bound(sizes, center);
    lemma_visit_step(view, cfg, sizes, center, order, 0, 0, budget);
    let i = slot_index(sizes, center);
    assert(visit_target(center, order[0]) == center);
    assert(in_window(center, sizes, center));
    if view[i] is Some {
        lemma_slot_injective(sizes, center, view[i]->0.coord, center);
    }
    let first = view.update(i, visit_slot(view[i], cfg, center, 0, true));
    assert forall|j: int| 1 <= j < order.len() implies visit_target(center, #[trigger] order[j])
        != first[i]->0.coord by {
        assert(visit_before(order[0], order[j]));
        assert(in_reach(sizes, order[j].0));
    }
    lemma_visits_keep(
        first,
        cfg,
        sizes,
        center,
        order,
        1,
        visit_cost(view[i], cfg, center, 0, true),
        budget,
        i,
    );
}

/// The visits unload nothing: a slot that holds a chunk holds one after
/// them.
pub proof fn lemma_visits_unload_nothing(
    view: Seq<Option<SlotView>>,
    cfg: TerrainConfig,
    sizes: [usize; 3],
    center: ChunkCoord,
    order: Seq<Visit>,
    k: int,
    used: int,
    budget: int,
    i: int,
)
    requires
        sizes_ok(sizes),
        view.len() == slot_count(sizes),
        0 <= k,
        0 <= i < view.len(),
        view[i] is Some,
    ensures
        visited(view, cfg, sizes, center, order, k, used, budget).len() == view.len(),
        visited(view, cfg, sizes, center, order, k, used, budget)[i] is Some,
    decreases order.len() - k,
{
    if k < order.len() {
        lemma_visit_step(view, cfg, sizes, center, order, k, used, budget);
        let c = visit_target(center, order[k]);
        let required = lod_for(order[k].1 as int);
        let s = slot_index(sizes, c);
        lemma_slot_bound(sizes, c);
        let inside = in_window(center, sizes, c);
        let cost = visit_cost(view[s], cfg, c, required, inside);
        let next = view.update(s, visit_slot(view[s], cfg, c, required, inside));
        lemma_visits_unload_nothing(next, cfg, sizes, center, order, k + 1, used + cost, budget, i);
    } else {
        lemma_visits_done(view, cfg, sizes, center, order, k, used, budget);
    }
}

/// With budget to spare for every visit that remains, each of them is
/// made: if visit `j` goes to a chunk of the window, that chunk's slot is
/// loaded afterwards.
pub proof fn lemma_visits_load(
    view: Seq<Option<SlotView>>,
    cfg: TerrainConfig,
    sizes: [usize; 3],
    center: ChunkCoord,
    order: Seq<Visit>,
    k: int,
    used: int,
    budget: int,
    j: int,
)
    requires
        sizes_ok(sizes),
        view.len() == slot_count(sizes),
        0 <= k <= j < order.len(),
        used + 2 * (order.len() - k) < budget,
        in_window(center, sizes, visit_target(center, order[j])),
    ensures
        visited(view, cfg, sizes, center, order, k, used, budget)[slot_index(
            sizes,
            visit_target(center, order[j]),
        )] is Some,
    decreases order.len() - k,
{
    lemma_visit_step(view, cfg, sizes, center, order, k, used, budget);
    let c = visit_target(center, order[k]);
    let required = lod_for(order[k].1 as int);
    let s = slot_index(sizes, c);
    lemma_slot_bound(sizes, c);
    let inside = in_window(center, sizes, c);
    let cost = visit_cost(view[s], cfg, c, required, inside);
    let next = view.update(s, visit_slot(view[s], cfg, c, required, inside));
    if j == k {
        lemma_visits_unload_nothing(next, cfg, sizes, center, order, k + 1, used + cost, budget, s);
    } else {
        lemma_visits_load(next, cfg, sizes, center, order, k + 1, used + cost, budget, j);
    }
}

/// With a budget above twice the number of visits, an update loads every
/// chunk of the window around the player. The number of visits is
/// `reach_count` of the window's size.
pub proof fn lemma_update_loads_window(
    view: Seq<Option<SlotView>>,
    cfg: TerrainConfig,
    sizes: [usize; 3],
    center: ChunkCoord,
    order: Seq<Visit>,
    budget: int,
    c: ChunkCoord,
)
    requires
        sizes_ok(sizes),
        is_visit_order(sizes, order),
        view.len() == slot_count(sizes),
        center_ok(center),
        in_window(center, sizes, c),
        2 * order.len() < budget,
    ensures
        visited(view, cfg, sizes, center, order, 0, 0, budget)[slot_index(sizes, c)] is Some,
{
    let o = ((c.0 - center.0) as isize, (c.1 - center.1) as isize, (c.2 - center.2) as isize);
    assert(in_box(sizes, o));
    lemma_box_in_reach(sizes, o);
    assert(present(order, o));
    let j = choose|j: int| 0 <= j < order.len() && (#[trigger] order[j]).0 == o;
    assert(visit_target(center, order[j]) == c);
    lemma_visits_load(view, cfg, sizes, center, order, 0, 0, budget, j);
}

/// Component of the offset that shares its slot with component `v` of an
/// offset within reach, along an axis with `n` chunks: where the side is
/// even, the far end of the reach shares its slots with the near end of the
/// window.
pub open spec fn twin(n: int, v: int) -> int {
    if n % 2 == 0 && v == n / 2 {
        -v
    } else {
        v
    }
}

/// A visit that goes past the window goes to the slot of a chunk of the
/// window that was visited before it and lies as far from the player. So
/// when its turn comes the slot is loaded, and being equally far the chunk
/// there has the level that this visit asks for.
pub proof fn lemma_twin_visited_before(
    sizes: [usize; 3],
    center: ChunkCoord,
    order: Seq<Visit>,
    j: int,
) -> (i: int)
    requires
        sizes_ok(sizes),
        is_visit_order(sizes, order),
        center_ok(center),
        0 <= j < order.len(),
        !in_window(center, sizes, visit_target(center, order[j])),
    ensures
        0 <= i < j,
        in_window(center, sizes, visit_target(center, order[i])),
        slot_index(sizes, visit_target(center, order[i])) == slot_index(
            sizes,
            visit_target(center, order[j]),
        ),
        order[i].1 == order[j].1,
{
    let o = order[j].0;
    assert(in_reach(sizes, o));
    let t = (
        twin(sizes[0] as int, o.0 as int) as isize,
        twin(sizes[1] as int, o.1 as int) as isize,
        twin(sizes[2] as int, o.2 as int) as isize,
    );
    assert(in_box(sizes, t));
    lemma_box_in_reach(sizes, t);
    assert(present(order, t));
    let i = choose|i: int| 0 <= i < order.len() && (#[trigger] order[i]).0 == t;
    assert(squared_len(t) == squared_len(o)) by {
        assert((-(o.0 as int)) * (-(o.0 as int)) == o.0 * o.0) by (nonlinear_arith);
        assert((-(o.1 as int)) * (-(o.1 as int)) == o.1 * o.1) by (nonlinear_arith);
        assert((-(o.2 as int)) * (-(o.2 as int)) == o.2 * o.2) by (nonlinear_arith);
    }
    assert(order[i].1 == offset_dist(t));
    assert(order[j].1 == offset_dist(o));
    assert(t != o);
    if i > j {
        assert(visit_before(order[j], order[i]));
    }
    let a = visit_target(center, order[i]);
    let b = visit_target(center, order[j]);
    assert((a.0 as int) % (sizes[0] as int) == (b.0 as int) % (sizes[0] as int)) by {
        lemma_mod_sub_multiples_vanish(b.0 as int, sizes[0] as int);
    }
    assert((a.1 as int) % (sizes[1] as int) == (b.1 as int) % (sizes[1] as int)) by {
        lemma_mod_sub_multiples_vanish(b.1 as int, sizes[1] as int);
    }
    assert((a.2 as int) % (sizes[2] as int) == (b.2 as int) % (sizes[2] as int)) by {
        lemma_mod_sub_multiples_vanish(b.2 as int, sizes[2] as int);
    }
    i
}

} // verus!
