use crate::block::Block;
use crate::coords::linear_index;
use crate::block::normal_spec;
use crate::mesh::Vertex;
use crate::mesher::{
    quad_corner, quad_vertex, quads_vertices, block_at, chunk_quads, clear_rect, dir_quads, face_axis, face_is_back, face_mask, face_step,
    face_visible, greedy_from, in_rect, layer_quads, mask_cell, neighbor_at, quad_at,
    quad_in_bounds, quads_of_dirs, row_matches, rows_len, run_len, sweep_x, sweep_y, sweep_z, Quad,
};
use vstd::prelude::*;

verus! {

/// Slice that holds the face of `(x, y, z)` in direction `dir`.
pub open spec fn sweep_w(dir: int, x: int, y: int, z: int) -> int {
    if face_axis(dir) == 0 {
        x
    } else if face_axis(dir) == 1 {
        y
    } else {
        z
    }
}

/// Column of `(x, y, z)` in the mask of its slice.
pub open spec fn sweep_u(dir: int, x: int, y: int, z: int) -> int {
    if face_axis(dir) == 0 {
        y
    } else {
        x
    }
}

/// Row of `(x, y, z)` in the mask of its slice.
pub open spec fn sweep_v(dir: int, x: int, y: int, z: int) -> int {
    if face_axis(dir) == 2 {
        y
    } else {
        z
    }
}

/// Whether rectangle `q` contains the face of block `(x, y, z)` that looks
/// in direction `dir`.
pub open spec fn quad_covers(q: Quad, dir: int, x: int, y: int, z: int) -> bool {
    &&& q.dir == dir
    &&& q.layer == sweep_w(dir, x, y, z)
    &&& q.u <= sweep_u(dir, x, y, z) < q.u + q.width
    &&& q.v <= sweep_v(dir, x, y, z) < q.v + q.height
}

/// Rectangle `q` lies inside a slice for direction `dir`, slice `layer`,
/// and every cell of it holds the material of `q` in `mask`, which is not
/// air.
pub open spec fn quad_fits(mask: Seq<Block>, dir: int, layer: int, q: Quad) -> bool {
    &&& quad_in_bounds(q)
    &&& q.dir == dir
    &&& q.layer == layer
    &&& q.block != Block::Empty
    &&& forall|i: int| 0 <= i < 256 && in_rect(q, i) ==> #[trigger] mask[i] == q.block
}

/// Rectangle `q` covers only faces of `blocks` that are drawn, all of the
/// material of `q`.
pub open spec fn quad_sound(blocks: Seq<Block>, q: Quad) -> bool {
    &&& 0 <= q.dir < 6
    &&& 0 <= q.layer < 16
    &&& quad_fits(face_mask(blocks, q.dir as int, q.layer as int), q.dir as int, q.layer as int, q)
}

/// The run that starts at `from` holds `b` in each of its cells and ends
/// inside the row.
pub proof fn lemma_run_len(mask: Seq<Block>, v: int, from: int, b: Block)
    requires
        0 <= from <= 16,
    ensures
        0 <= run_len(mask, v, from, b) <= 16 - from,
        forall|c: int|
            from <= c < from + run_len(mask, v, from, b) ==> mask[#[trigger] (c + 16 * v)] == b,
    decreases 16 - from,
{
    if from < 16 && mask[from + 16 * v] == b {
        lemma_run_len(mask, v, from + 1, b);
    }
}

/// The rows counted from `from` on each repeat the run, and the count ends
/// inside the slice.
pub proof fn lemma_rows_len(mask: Seq<Block>, u: int, width: int, from: int, b: Block)
    requires
        0 <= from <= 16,
    ensures
        0 <= rows_len(mask, u, width, from, b) <= 16 - from,
        forall|r: int|
            from <= r < from + rows_len(mask, u, width, from, b) ==> #[trigger] row_matches(
                mask,
                u,
                width,
                r,
                b,
            ),
    decreases 16 - from,
{
    if from < 16 && row_matches(mask, u, width, from, b) {
        lemma_rows_len(mask, u, width, from + 1, b);
    }
}

/// The rectangle grown from a cell that is not air fits the mask.
pub proof fn lemma_quad_at_fits(mask: Seq<Block>, dir: int, layer: int, idx: int)
    requires
        mask.len() == 256,
        0 <= idx < 256,
        0 <= dir < 6,
        0 <= layer < 16,
        mask[idx] != Block::Empty,
    ensures
        quad_fits(mask, dir, layer, quad_at(mask, dir, layer, idx)),
        quad_at(mask, dir, layer, idx).u == idx % 16,
        quad_at(mask, dir, layer, idx).v == idx / 16,
{
    let u = idx % 16;
    let v = idx / 16;
    let b = mask[idx];
    lemma_run_len(mask, v, u + 1, b);
    let width = 1 + run_len(mask, v, u + 1, b);
    lemma_rows_len(mask, u, width, v + 1, b);
    let height = 1 + rows_len(mask, u, width, v + 1, b);
    let q = quad_at(mask, dir, layer, idx);
    assert(q.width == width && q.height == height && q.u == u && q.v == v);
    assert forall|i: int| 0 <= i < 256 && in_rect(q, i) implies #[trigger] mask[i] == q.block by {
        let cu = i % 16;
        let cv = i / 16;
        assert(i == cu + 16 * cv);
        if cv == v {
            if cu > u {
                assert(mask[cu + 16 * v] == b);
            }
        } else {
            assert(row_matches(mask, u, width, cv, b));
            assert(mask[(u + (cu - u)) + 16 * cv] == b);
        }
    }
}

/// Every rectangle that greedy merging cuts from `mask` fits the mask
/// `full` that the merging began with, as long as `mask` is `full` with
/// some cells cleared.
pub proof fn lemma_greedy_fits(
    full: Seq<Block>,
    mask: Seq<Block>,
    dir: int,
    layer: int,
    idx: int,
)
    requires
        full.len() == 256,
        mask.len() == 256,
        0 <= idx <= 256,
        0 <= dir < 6,
        0 <= layer < 16,
        forall|i: int| 0 <= i < 256 ==> mask[i] == full[i] || mask[i] == Block::Empty,
    ensures
        forall|k: int|
            0 <= k < greedy_from(mask, dir, layer, idx).len() ==> quad_fits(
                full,
                dir,
                layer,
                #[trigger] greedy_from(mask, dir, layer, idx)[k],
            ),
    decreases 256 - idx,
{
    if idx < 256 {
        if mask[idx] == Block::Empty {
            lemma_greedy_fits(full, mask, dir, layer, idx + 1);
            assert(greedy_from(mask, dir, layer, idx) == greedy_from(mask, dir, layer, idx + 1));
        } else {
            let q = quad_at(mask, dir, layer, idx);
            lemma_quad_at_fits(mask, dir, layer, idx);
            let rest = greedy_from(clear_rect(mask, q), dir, layer, idx + 1);
            lemma_greedy_fits(full, clear_rect(mask, q), dir, layer, idx + 1);
            assert forall|k: int|
                0 <= k < greedy_from(mask, dir, layer, idx).len() implies quad_fits(
                full,
                dir,
                layer,
                #[trigger] greedy_from(mask, dir, layer, idx)[k],
            ) by {
                if k == 0 {
                    assert(greedy_from(mask, dir, layer, idx)[0] == q);
                    assert forall|i: int| 0 <= i < 256 && in_rect(q, i) implies #[trigger] full[i]
                        == q.block by {
                        assert(mask[i] == q.block);
                    }
                } else {
                    assert(greedy_from(mask, dir, layer, idx)[k] == rest[k - 1]);
                }
            }
        }
    } else {
        assert(greedy_from(mask, dir, layer, idx).len() == 0);
    }
}

/// Every rectangle of the first `n` slices of a direction is sound.
pub proof fn lemma_dir_quads_sound(blocks: Seq<Block>, dir: int, n: int)
    requires
        0 <= dir < 6,
        0 <= n <= 16,
    ensures
        forall|k: int|
            0 <= k < dir_quads(blocks, dir, n).len() ==> quad_sound(
                blocks,
                #[trigger] dir_quads(blocks, dir, n)[k],
            ),
    decreases n,
{
    if n > 0 {
        lemma_dir_quads_sound(blocks, dir, n - 1);
        let mask = face_mask(blocks, dir, n - 1);
        lemma_greedy_fits(mask, mask, dir, n - 1, 0);
        let head = dir_quads(blocks, dir, n - 1);
        let tail = layer_quads(blocks, dir, n - 1);
        assert forall|k: int| 0 <= k < dir_quads(blocks, dir, n).len() implies quad_sound(
            blocks,
            #[trigger] dir_quads(blocks, dir, n)[k],
        ) by {
            if k < head.len() {
                assert(dir_quads(blocks, dir, n)[k] == head[k]);
            } else {
                assert(dir_quads(blocks, dir, n)[k] == tail[k - head.len()]);
                assert(quad_fits(mask, dir, n - 1, tail[k - head.len()]));
            }
        }
    }
}

/// Every rectangle of the first `n` directions is sound.
pub proof fn lemma_quads_of_dirs_sound(blocks: Seq<Block>, n: int)
    requires
        0 <= n <= 6,
    ensures
        forall|k: int|
            0 <= k < quads_of_dirs(blocks, n).len() ==> quad_sound(
                blocks,
                #[trigger] quads_of_dirs(blocks, n)[k],
            ),
    decreases n,
{
    if n > 0 {
        lemma_quads_of_dirs_sound(blocks, n - 1);
        lemma_dir_quads_sound(blocks, n - 1, 16);
        let head = quads_of_dirs(blocks, n - 1);
        let tail = dir_quads(blocks, n - 1, 16);
        assert forall|k: int| 0 <= k < quads_of_dirs(blocks, n).len() implies quad_sound(
            blocks,
            #[trigger] quads_of_dirs(blocks, n)[k],
        ) by {
            if k < head.len() {
                assert(quads_of_dirs(blocks, n)[k] == head[k]);
            } else {
                assert(quads_of_dirs(blocks, n)[k] == tail[k - head.len()]);
            }
        }
    }
}

/// Every rectangle of a chunk's mesh lies inside one slice, has a material
/// other than air, and covers only drawn faces of blocks of that material.
pub proof fn lemma_mesh_sound(blocks: Seq<Block>, k: int)
    requires
        0 <= k < chunk_quads(blocks).len(),
    ensures
        quad_sound(blocks, chunk_quads(blocks)[k]),
{
    lemma_quads_of_dirs_sound(blocks, 6);
}

/// A face that is not to be drawn lies in no rectangle of the mesh.
pub proof fn lemma_hidden_face_not_drawn(
    blocks: Seq<Block>,
    dir: int,
    x: int,
    y: int,
    z: int,
    k: int,
)
    requires
        0 <= dir < 6,
        0 <= x < 16,
        0 <= y < 16,
        0 <= z < 16,
        !face_visible(blocks, dir, x, y, z),
        0 <= k < chunk_quads(blocks).len(),
    ensures
        !quad_covers(chunk_quads(blocks)[k], dir, x, y, z),
{
    let q = chunk_quads(blocks)[k];
    lemma_mesh_sound(blocks, k);
    if quad_covers(q, dir, x, y, z) {
        let u = sweep_u(dir, x, y, z);
        let v = sweep_v(dir, x, y, z);
        let w = sweep_w(dir, x, y, z);
        let i = u + 16 * v;
        assert(in_rect(q, i));
        assert(face_mask(blocks, dir, w)[i] == q.block);
        assert(sweep_x(dir, w, i % 16, i / 16) == x);
        assert(sweep_y(dir, w, i % 16, i / 16) == y);
        assert(sweep_z(dir, w, i % 16, i / 16) == z);
    }
}

/// Two neighbouring blocks of the same material show no face where they
/// touch: no rectangle of the mesh contains the face of `(x, y, z)` that
/// looks at its neighbour in direction `dir`.
pub proof fn lemma_shared_face_culled(
    blocks: Seq<Block>,
    dir: int,
    x: int,
    y: int,
    z: int,
    k: int,
)
    requires
        0 <= dir < 6,
        0 <= x < 16,
        0 <= y < 16,
        0 <= z < 16,
        0 <= sweep_w(dir, x, y, z) + face_step(dir) < 16,
        neighbor_at(blocks, dir, x, y, z) == block_at(blocks, x, y, z),
        0 <= k < chunk_quads(blocks).len(),
    ensures
        !quad_covers(chunk_quads(blocks)[k], dir, x, y, z),
{
    lemma_hidden_face_not_drawn(blocks, dir, x, y, z, k);
}

/// A block whose six neighbours all lie in the chunk and are of its own
/// material shows no face at all.
pub proof fn lemma_enclosed_block_not_drawn(
    blocks: Seq<Block>,
    x: int,
    y: int,
    z: int,
    dir: int,
    k: int,
)
    requires
        1 <= x < 15,
        1 <= y < 15,
        1 <= z < 15,
        0 <= dir < 6,
        forall|d: int|
            0 <= d < 6 ==> #[trigger] neighbor_at(blocks, d, x, y, z) == block_at(blocks, x, y, z),
        0 <= k < chunk_quads(blocks).len(),
    ensures
        !quad_covers(chunk_quads(blocks)[k], dir, x, y, z),
{
    assert(neighbor_at(blocks, dir, x, y, z) == block_at(blocks, x, y, z));
    lemma_hidden_face_not_drawn(blocks, dir, x, y, z, k);
}

/// Slice of the chunk's surface that direction `dir` looks out of.
pub open spec fn outer_layer(dir: int) -> int {
    if face_is_back(dir) {
        0
    } else {
        15
    }
}

/// The rectangle that covers a whole slice.
pub open spec fn full_quad(dir: int, layer: int, m: Block) -> Quad {
    Quad { dir: dir as u8, layer: layer as usize, u: 0, v: 0, width: 16, height: 16, block: m }
}

/// In a chunk filled with one material, a slice's mask is full on the
/// chunk's surface and empty inside.
proof fn lemma_uniform_mask(blocks: Seq<Block>, m: Block, dir: int, w: int)
    requires
        blocks.len() == 4096,
        forall|i: int| 0 <= i < 4096 ==> blocks[i] == m,
        m != Block::Empty,
        0 <= dir < 6,
        0 <= w < 16,
    ensures
        forall|i: int|
            0 <= i < 256 ==> #[trigger] face_mask(blocks, dir, w)[i] == if w == outer_layer(dir) {
                m
            } else {
                Block::Empty
            },
{
    assert forall|i: int| 0 <= i < 256 implies #[trigger] face_mask(blocks, dir, w)[i] == if w
        == outer_layer(dir) {
        m
    } else {
        Block::Empty
    } by {
        let u = i % 16;
        let v = i / 16;
        let x = sweep_x(dir, w, u, v);
        let y = sweep_y(dir, w, u, v);
        let z = sweep_z(dir, w, u, v);
        assert(0 <= linear_index(x, y, z) < 4096);
        assert(block_at(blocks, x, y, z) == m);
        if w == outer_layer(dir) {
            assert(neighbor_at(blocks, dir, x, y, z) == Block::Empty);
        } else {
            if face_axis(dir) == 0 {
                assert(0 <= linear_index(x + face_step(dir), y, z) < 4096);
            } else if face_axis(dir) == 1 {
                assert(0 <= linear_index(x, y + face_step(dir), z) < 4096);
            } else {
                assert(0 <= linear_index(x, y, z + face_step(dir)) < 4096);
            }
            assert(neighbor_at(blocks, dir, x, y, z) == m);
        }
    }
}

/// Greedy merging cuts nothing from cells that are all air.
proof fn lemma_greedy_all_air(mask: Seq<Block>, dir: int, layer: int, idx: int)
    requires
        0 <= idx <= 256,
        forall|i: int| idx <= i < 256 ==> mask[i] == Block::Empty,
    ensures
        greedy_from(mask, dir, layer, idx) == Seq::<Quad>::empty(),
    decreases 256 - idx,
{
    if idx < 256 {
        lemma_greedy_all_air(mask, dir, layer, idx + 1);
    }
}

proof fn lemma_run_len_uniform(mask: Seq<Block>, v: int, from: int, b: Block)
    requires
        0 <= from <= 16,
        forall|c: int| from <= c < 16 ==> mask[#[trigger] (c + 16 * v)] == b,
    ensures
        run_len(mask, v, from, b) == 16 - from,
    decreases 16 - from,
{
    if from < 16 {
        assert(mask[from + 16 * v] == b);
        lemma_run_len_uniform(mask, v, from + 1, b);
    }
}

proof fn lemma_rows_len_uniform(mask: Seq<Block>, u: int, width: int, from: int, b: Block)
    requires
        0 <= from <= 16,
        forall|r: int| from <= r < 16 ==> #[trigger] row_matches(mask, u, width, r, b),
    ensures
        rows_len(mask, u, width, from, b) == 16 - from,
    decreases 16 - from,
{
    if from < 16 {
        assert(row_matches(mask, u, width, from, b));
        lemma_rows_len_uniform(mask, u, width, from + 1, b);
    }
}

/// Greedy merging turns a mask full of one material into the one rectangle
/// that covers the slice.
proof fn lemma_greedy_full(mask: Seq<Block>, dir: int, layer: int, m: Block)
    requires
        mask.len() == 256,
        forall|i: int| 0 <= i < 256 ==> mask[i] == m,
        m != Block::Empty,
        0 <= dir < 6,
        0 <= layer < 16,
    ensures
        greedy_from(mask, dir, layer, 0) == seq![full_quad(dir, layer, m)],
{
    lemma_run_len_uniform(mask, 0, 1, m);
    assert forall|r: int| 1 <= r < 16 implies #[trigger] row_matches(mask, 0, 16, r, m) by {
        assert forall|du: int| 0 <= du < 16 implies mask[#[trigger] (0 + du) + 16 * r] == m by {
            assert(0 <= (0 + du) + 16 * r < 256);
        }
    }
    lemma_rows_len_uniform(mask, 0, 16, 1, m);
    let q = quad_at(mask, dir, layer, 0);
    assert(q == full_quad(dir, layer, m));
    let cleared = clear_rect(mask, q);
    assert forall|i: int| 1 <= i < 256 implies cleared[i] == Block::Empty by {
        assert(in_rect(q, i));
    }
    lemma_greedy_all_air(cleared, dir, layer, 1);
    assert(greedy_from(mask, dir, layer, 0) =~= seq![q] + Seq::<Quad>::empty());
    assert(seq![q] + Seq::<Quad>::empty() =~= seq![q]);
}

/// In a chunk filled with one material, the slices of one direction hold a
/// single rectangle: the whole outer slice.
proof fn lemma_uniform_dir(blocks: Seq<Block>, m: Block, dir: int, n: int)
    requires
        blocks.len() == 4096,
        forall|i: int| 0 <= i < 4096 ==> blocks[i] == m,
        m != Block::Empty,
        0 <= dir < 6,
        0 <= n <= 16,
    ensures
        dir_quads(blocks, dir, n) == if n > outer_layer(dir) {
            seq![full_quad(dir, outer_layer(dir), m)]
        } else {
            Seq::<Quad>::empty()
        },
    decreases n,
{
    if n > 0 {
        lemma_uniform_dir(blocks, m, dir, n - 1);
        lemma_uniform_mask(blocks, m, dir, n - 1);
        let mask = face_mask(blocks, dir, n - 1);
        if n - 1 == outer_layer(dir) {
            lemma_greedy_full(mask, dir, n - 1, m);
            assert(dir_quads(blocks, dir, n) =~= seq![full_quad(dir, outer_layer(dir), m)]);
        } else {
            lemma_greedy_all_air(mask, dir, n - 1, 0);
            assert(dir_quads(blocks, dir, n) =~= dir_quads(blocks, dir, n - 1));
        }
    }
}

/// A chunk filled entirely with one material other than air is drawn as
/// exactly six rectangles, one for each direction, each covering the
/// whole 16 by 16 face of the chunk that looks in that direction.
pub proof fn lemma_uniform_chunk_six_quads(blocks: Seq<Block>, m: Block)
    requires
        blocks.len() == 4096,
        forall|i: int| 0 <= i < 4096 ==> blocks[i] == m,
        m != Block::Empty,
    ensures
        chunk_quads(blocks) == seq![
            full_quad(0, 15, m),
            full_quad(1, 0, m),
            full_quad(2, 15, m),
            full_quad(3, 0, m),
            full_quad(4, 15, m),
            full_quad(5, 0, m),
        ],
{
    lemma_uniform_dir(blocks, m, 0, 16);
    lemma_uniform_dir(blocks, m, 1, 16);
    lemma_uniform_dir(blocks, m, 2, 16);
    lemma_uniform_dir(blocks, m, 3, 16);
    lemma_uniform_dir(blocks, m, 4, 16);
    lemma_uniform_dir(blocks, m, 5, 16);
    assert(quads_of_dirs(blocks, 0) =~= Seq::<Quad>::empty());
    assert(quads_of_dirs(blocks, 1) =~= seq![full_quad(0, 15, m)]);
    assert(quads_of_dirs(blocks, 2) =~= seq![full_quad(0, 15, m), full_quad(1, 0, m)]);
    assert(quads_of_dirs(blocks, 3) =~= seq![
        full_quad(0, 15, m),
        full_quad(1, 0, m),
        full_quad(2, 15, m),
    ]);
    assert(quads_of_dirs(blocks, 4) =~= seq![
        full_quad(0, 15, m),
        full_quad(1, 0, m),
        full_quad(2, 15, m),
        full_quad(3, 0, m),
    ]);
    assert(quads_of_dirs(blocks, 5) =~= seq![
        full_quad(0, 15, m),
        full_quad(1, 0, m),
        full_quad(2, 15, m),
        full_quad(3, 0, m),
        full_quad(4, 15, m),
    ]);
    assert(quads_of_dirs(blocks, 6) =~= seq![
        full_quad(0, 15, m),
        full_quad(1, 0, m),
        full_quad(2, 15, m),
        full_quad(3, 0, m),
        full_quad(4, 15, m),
        full_quad(5, 0, m),
    ]);
}

/// A chunk that holds only air is drawn as nothing.
pub proof fn lemma_air_chunk_no_quads(blocks: Seq<Block>)
    requires
        blocks.len() == 4096,
        forall|i: int| 0 <= i < 4096 ==> blocks[i] == Block::Empty,
    ensures
        chunk_quads(blocks) == Seq::<Quad>::empty(),
{
    lemma_air_dirs(blocks, 6);
}

proof fn lemma_air_layers(blocks: Seq<Block>, dir: int, n: int)
    requires
        blocks.len() == 4096,
        forall|i: int| 0 <= i < 4096 ==> blocks[i] == Block::Empty,
        0 <= dir < 6,
        0 <= n <= 16,
    ensures
        dir_quads(blocks, dir, n) == Seq::<Quad>::empty(),
    decreases n,
{
    if n > 0 {
        lemma_air_layers(blocks, dir, n - 1);
        let mask = face_mask(blocks, dir, n - 1);
        assert forall|i: int| 0 <= i < 256 implies mask[i] == Block::Empty by {
            let x = sweep_x(dir, n - 1, i % 16, i / 16);
            let y = sweep_y(dir, n - 1, i % 16, i / 16);
            let z = sweep_z(dir, n - 1, i % 16, i / 16);
            assert(0 <= linear_index(x, y, z) < 4096);
        }
        lemma_greedy_all_air(mask, dir, n - 1, 0);
        assert(dir_quads(blocks, dir, n) =~= Seq::<Quad>::empty());
    }
}

proof fn lemma_air_dirs(blocks: Seq<Block>, n: int)
    requires
        blocks.len() == 4096,
        forall|i: int| 0 <= i < 4096 ==> blocks[i] == Block::Empty,
        0 <= n <= 6,
    ensures
        quads_of_dirs(blocks, n) == Seq::<Quad>::empty(),
    decreases n,
{
    if n > 0 {
        lemma_air_dirs(blocks, n - 1);
        lemma_air_layers(blocks, n - 1, 16);
        assert(quads_of_dirs(blocks, n) =~= Seq::<Quad>::empty());
    }
}

/// Vertex `i` of a list of rectangles is corner `i % 4` of rectangle
/// `i / 4`.
pub proof fn lemma_quads_vertices_index(qs: Seq<Quad>, i: int)
    requires
        0 <= i < 4 * qs.len(),
    ensures
        quads_vertices(qs).len() == 4 * qs.len(),
        quads_vertices(qs)[i] == quad_vertex(qs[i / 4], i % 4),
    decreases qs.len(),
{
    crate::mesher::lemma_quads_mesh_len(qs);
    crate::mesher::lemma_quads_mesh_len(qs.drop_last());
    if i < 4 * (qs.len() - 1) {
        lemma_quads_vertices_index(qs.drop_last(), i);
    }
}

/// Whether a vertex lies within the cube of a chunk.
pub open spec fn vertex_in_chunk(v: Vertex) -> bool {
    0 <= v.pos[0] <= 16 && 0 <= v.pos[1] <= 16 && 0 <= v.pos[2] <= 16
}

/// Every vertex of a chunk's mesh lies within the cube of the chunk.
pub proof fn lemma_mesh_vertices_in_chunk(blocks: Seq<Block>, i: int)
    requires
        0 <= i < quads_vertices(chunk_quads(blocks)).len(),
    ensures
        vertex_in_chunk(quads_vertices(chunk_quads(blocks))[i]),
{
    let qs = chunk_quads(blocks);
    crate::mesher::lemma_quads_mesh_len(qs);
    lemma_quads_vertices_index(qs, i);
    lemma_mesh_sound(blocks, i / 4);
}

/// Greedy merging takes every cell that is not air into some rectangle.
pub proof fn lemma_greedy_covers(mask: Seq<Block>, dir: int, layer: int, idx: int, i: int)
    requires
        mask.len() == 256,
        0 <= idx <= i < 256,
        0 <= dir < 6,
        0 <= layer < 16,
        mask[i] != Block::Empty,
    ensures
        exists|k: int|
            0 <= k < greedy_from(mask, dir, layer, idx).len() && in_rect(
                #[trigger] greedy_from(mask, dir, layer, idx)[k],
                i,
            ),
    decreases 256 - idx,
{
    let all = greedy_from(mask, dir, layer, idx);
    if mask[idx] == Block::Empty {
        lemma_greedy_covers(mask, dir, layer, idx + 1, i);
        let k = choose|k: int|
            0 <= k < greedy_from(mask, dir, layer, idx + 1).len() && in_rect(
                #[trigger] greedy_from(mask, dir, layer, idx + 1)[k],
                i,
            );
        assert(in_rect(all[k], i));
    } else {
        let q = quad_at(mask, dir, layer, idx);
        lemma_quad_at_fits(mask, dir, layer, idx);
        let rest = greedy_from(clear_rect(mask, q), dir, layer, idx + 1);
        assert(all[0] == q);
        if in_rect(q, i) {
            assert(in_rect(all[0], i));
        } else {
            assert(in_rect(q, idx));
            lemma_greedy_covers(clear_rect(mask, q), dir, layer, idx + 1, i);
            let k = choose|k: int| 0 <= k < rest.len() && in_rect(#[trigger] rest[k], i);
            assert(all[k + 1] == rest[k]);
            assert(in_rect(all[k + 1], i));
        }
    }
}

/// No two rectangles that greedy merging cuts from a mask share a cell.
pub proof fn lemma_greedy_disjoint(
    mask: Seq<Block>,
    dir: int,
    layer: int,
    idx: int,
    k1: int,
    k2: int,
    i: int,
)
    requires
        mask.len() == 256,
        0 <= idx <= 256,
        0 <= dir < 6,
        0 <= layer < 16,
        0 <= k1 < k2 < greedy_from(mask, dir, layer, idx).len(),
        0 <= i < 256,
    ensures
        !(in_rect(greedy_from(mask, dir, layer, idx)[k1], i) && in_rect(
            greedy_from(mask, dir, layer, idx)[k2],
            i,
        )),
    decreases 256 - idx,
{
    let all = greedy_from(mask, dir, layer, idx);
    if idx < 256 {
        if mask[idx] == Block::Empty {
            lemma_greedy_disjoint(mask, dir, layer, idx + 1, k1, k2, i);
        } else {
            let q = quad_at(mask, dir, layer, idx);
            let cleared = clear_rect(mask, q);
            let rest = greedy_from(cleared, dir, layer, idx + 1);
            assert(all[k2] == rest[k2 - 1]);
            if k1 == 0 {
                assert(all[0] == q);
                lemma_greedy_fits(cleared, cleared, dir, layer, idx + 1);
                assert(quad_fits(cleared, dir, layer, rest[k2 - 1]));
                if in_rect(q, i) && in_rect(rest[k2 - 1], i) {
                    assert(cleared[i] == rest[k2 - 1].block);
                    assert(cleared[i] == Block::Empty);
                }
            } else {
                assert(all[k1] == rest[k1 - 1]);
                lemma_greedy_disjoint(cleared, dir, layer, idx + 1, k1 - 1, k2 - 1, i);
            }
        }
    }
}

/// Every face that is to be drawn lies in a rectangle of its slice.
pub proof fn lemma_layer_covers(blocks: Seq<Block>, dir: int, x: int, y: int, z: int)
    requires
        0 <= dir < 6,
        0 <= x < 16,
        0 <= y < 16,
        0 <= z < 16,
        face_visible(blocks, dir, x, y, z),
    ensures
        exists|k: int|
            0 <= k < layer_quads(blocks, dir, sweep_w(dir, x, y, z)).len() && quad_covers(
                #[trigger] layer_quads(blocks, dir, sweep_w(dir, x, y, z))[k],
                dir,
                x,
                y,
                z,
            ),
{
    let w = sweep_w(dir, x, y, z);
    let u = sweep_u(dir, x, y, z);
    let v = sweep_v(dir, x, y, z);
    let i = u + 16 * v;
    let mask = face_mask(blocks, dir, w);
    assert(sweep_x(dir, w, i % 16, i / 16) == x);
    assert(sweep_y(dir, w, i % 16, i / 16) == y);
    assert(sweep_z(dir, w, i % 16, i / 16) == z);
    assert(mask[i] != Block::Empty);
    lemma_greedy_covers(mask, dir, w, 0, i);
    lemma_greedy_fits(mask, mask, dir, w, 0);
    let qs = layer_quads(blocks, dir, w);
    let k = choose|k: int| 0 <= k < qs.len() && in_rect(#[trigger] qs[k], i);
    assert(quad_fits(mask, dir, w, qs[k]));
    assert(quad_covers(qs[k], dir, x, y, z));
}

/// The rectangles of slice `w` stand in the list of the first `n` slices
/// once `n` exceeds `w`.
proof fn lemma_layer_in_dir(blocks: Seq<Block>, dir: int, w: int, n: int, k: int)
    requires
        0 <= w < n <= 16,
        0 <= k < layer_quads(blocks, dir, w).len(),
    ensures
        dir_quads(blocks, dir, w).len() + k < dir_quads(blocks, dir, n).len(),
        dir_quads(blocks, dir, n)[dir_quads(blocks, dir, w).len() + k] == layer_quads(
            blocks,
            dir,
            w,
        )[k],
    decreases n,
{
    if n - 1 > w {
        lemma_layer_in_dir(blocks, dir, w, n - 1, k);
    }
}

/// The rectangles of direction `dir` stand in the list of the first `n`
/// directions once `n` exceeds `dir`.
proof fn lemma_dir_in_chunk(blocks: Seq<Block>, dir: int, n: int, k: int)
    requires
        0 <= dir < n <= 6,
        0 <= k < dir_quads(blocks, dir, 16).len(),
    ensures
        quads_of_dirs(blocks, dir).len() + k < quads_of_dirs(blocks, n).len(),
        quads_of_dirs(blocks, n)[quads_of_dirs(blocks, dir).len() + k] == dir_quads(
            blocks,
            dir,
            16,
        )[k],
    decreases n,
{
    if n - 1 > dir {
        lemma_dir_in_chunk(blocks, dir, n - 1, k);
    }
}

/// Every face that is to be drawn lies in a rectangle of the mesh: the
/// mesh leaves no hole.
pub proof fn lemma_visible_face_drawn(blocks: Seq<Block>, dir: int, x: int, y: int, z: int)
    requires
        0 <= dir < 6,
        0 <= x < 16,
        0 <= y < 16,
        0 <= z < 16,
        face_visible(blocks, dir, x, y, z),
    ensures
        exists|k: int|
            0 <= k < chunk_quads(blocks).len() && quad_covers(
                #[trigger] chunk_quads(blocks)[k],
                dir,
                x,
                y,
                z,
            ),
{
    let w = sweep_w(dir, x, y, z);
    lemma_layer_covers(blocks, dir, x, y, z);
    let qs = layer_quads(blocks, dir, w);
    let k = choose|k: int| 0 <= k < qs.len() && quad_covers(#[trigger] qs[k], dir, x, y, z);
    lemma_layer_in_dir(blocks, dir, w, 16, k);
    let kd = dir_quads(blocks, dir, w).len() + k;
    lemma_dir_in_chunk(blocks, dir, 6, kd);
    let kc = quads_of_dirs(blocks, dir).len() + kd;
    assert(quad_covers(chunk_quads(blocks)[kc], dir, x, y, z));
}

/// Place of a rectangle in the order of drawing: its direction, its
/// slice, and its number among the rectangles of that slice.
pub struct QuadPlace {
    pub dir: int,
    pub layer: int,
    pub k: int,
}

/// Where rectangle `k` of the first `n` slices of a direction comes from.
proof fn lemma_place_in_dir(blocks: Seq<Block>, dir: int, n: int, k: int) -> (p: QuadPlace)
    requires
        0 <= dir < 6,
        0 <= n <= 16,
        0 <= k < dir_quads(blocks, dir, n).len(),
    ensures
        p.dir == dir,
        0 <= p.layer < n,
        0 <= p.k < layer_quads(blocks, dir, p.layer).len(),
        k == dir_quads(blocks, dir, p.layer).len() + p.k,
        dir_quads(blocks, dir, n)[k] == layer_quads(blocks, dir, p.layer)[p.k],
        dir_quads(blocks, dir, n)[k].dir == dir,
        dir_quads(blocks, dir, n)[k].layer == p.layer,
    decreases n,
{
    let head = dir_quads(blocks, dir, n - 1);
    if k < head.len() {
        lemma_place_in_dir(blocks, dir, n - 1, k)
    } else {
        let mask = face_mask(blocks, dir, n - 1);
        lemma_greedy_fits(mask, mask, dir, n - 1, 0);
        assert(quad_fits(mask, dir, n - 1, layer_quads(blocks, dir, n - 1)[k - head.len()]));
        QuadPlace { dir, layer: n - 1, k: k - head.len() }
    }
}

/// Where rectangle `k` of the first `n` directions comes from.
proof fn lemma_place_in_chunk(blocks: Seq<Block>, n: int, k: int) -> (p: QuadPlace)
    requires
        0 <= n <= 6,
        0 <= k < quads_of_dirs(blocks, n).len(),
    ensures
        0 <= p.dir < n,
        0 <= p.layer < 16,
        0 <= p.k < layer_quads(blocks, p.dir, p.layer).len(),
        k == quads_of_dirs(blocks, p.dir).len() + dir_quads(blocks, p.dir, p.layer).len() + p.k,
        quads_of_dirs(blocks, n)[k] == layer_quads(blocks, p.dir, p.layer)[p.k],
        quads_of_dirs(blocks, n)[k].dir == p.dir,
        quads_of_dirs(blocks, n)[k].layer == p.layer,
    decreases n,
{
    let head = quads_of_dirs(blocks, n - 1);
    if k < head.len() {
        lemma_place_in_chunk(blocks, n - 1, k)
    } else {
        lemma_place_in_dir(blocks, n - 1, 16, k - head.len())
    }
}

/// Two rectangles of one slice that hold the same cell are the same
/// rectangle.
proof fn lemma_layer_drawn_once(blocks: Seq<Block>, dir: int, w: int, k1: int, k2: int, i: int)
    requires
        0 <= dir < 6,
        0 <= w < 16,
        0 <= k1 < layer_quads(blocks, dir, w).len(),
        0 <= k2 < layer_quads(blocks, dir, w).len(),
        0 <= i < 256,
        in_rect(layer_quads(blocks, dir, w)[k1], i),
        in_rect(layer_quads(blocks, dir, w)[k2], i),
    ensures
        k1 == k2,
{
    let mask = face_mask(blocks, dir, w);
    if k1 < k2 {
        lemma_greedy_disjoint(mask, dir, w, 0, k1, k2, i);
    } else if k2 < k1 {
        lemma_greedy_disjoint(mask, dir, w, 0, k2, k1, i);
    }
}

/// No face lies in two rectangles of the mesh: nothing is drawn twice.
pub proof fn lemma_face_drawn_once(
    blocks: Seq<Block>,
    k1: int,
    k2: int,
    dir: int,
    x: int,
    y: int,
    z: int,
)
    requires
        0 <= k1 < chunk_quads(blocks).len(),
        0 <= k2 < chunk_quads(blocks).len(),
        k1 != k2,
        0 <= x < 16,
        0 <= y < 16,
        0 <= z < 16,
    ensures
        !(quad_covers(chunk_quads(blocks)[k1], dir, x, y, z) && quad_covers(
            chunk_quads(blocks)[k2],
            dir,
            x,
            y,
            z,
        )),
{
    let q1 = chunk_quads(blocks)[k1];
    let q2 = chunk_quads(blocks)[k2];
    if quad_covers(q1, dir, x, y, z) && quad_covers(q2, dir, x, y, z) {
        let p1 = lemma_place_in_chunk(blocks, 6, k1);
        let p2 = lemma_place_in_chunk(blocks, 6, k2);
        let w = sweep_w(dir, x, y, z);
        assert(p1.dir == dir && p2.dir == dir);
        assert(p1.layer == w && p2.layer == w);
        let i = sweep_u(dir, x, y, z) + 16 * sweep_v(dir, x, y, z);
        assert(i % 16 == sweep_u(dir, x, y, z) && i / 16 == sweep_v(dir, x, y, z));
        assert(in_rect(q1, i) && in_rect(q2, i));
        lemma_layer_drawn_once(blocks, dir, w, p1.k, p2.k, i);
    }
}

/// Component `k` of the cross product of the edges from `a` to `b` and
/// from `a` to `c`.
pub open spec fn edge_cross(a: [isize; 3], b: [isize; 3], c: [isize; 3], k: int) -> int {
    let u = (b[0] - a[0], b[1] - a[1], b[2] - a[2]);
    let v = (c[0] - a[0], c[1] - a[1], c[2] - a[2]);
    if k == 0 {
        u.1 * v.2 - u.2 * v.1
    } else if k == 1 {
        u.2 * v.0 - u.0 * v.2
    } else {
        u.0 * v.1 - u.1 * v.0
    }
}

/// Both triangles of a rectangle wind the same way, and the way of the
/// face's normal: seen from outside the block they run counter-clockwise.
/// The triangles join the corners 0, 2, 1 and 0, 3, 2, and the cross product
/// of the edges of each is the normal times the area of the rectangle.
pub proof fn lemma_quad_winds_outward(q: Quad, k: int)
    requires
        quad_in_bounds(q),
        0 <= k < 3,
    ensures
        edge_cross(quad_corner(q, 0), quad_corner(q, 2), quad_corner(q, 1), k) == q.width
            * q.height * normal_spec(q.dir)[k],
        edge_cross(quad_corner(q, 0), quad_corner(q, 3), quad_corner(q, 2), k) == q.width
            * q.height * normal_spec(q.dir)[k],
{
    let w = q.width as int;
    let h = q.height as int;
    assert(w * h * 1 == w * h && w * h * 0 == 0 && w * h * (-1) == -(w * h) && 0 * h == 0 && w * 0
        == 0 && 0 * w == 0 && h * 0 == 0 && h * w == w * h && (-w) * h == -(w * h) && w * (-h) == -(
    w * h) && (-h) * w == -(w * h) && (-w) * (-h) == w * h && (-h) * (-w) == w * h && h * (-w) == -(
    w * h) && 0 * 0 == 0 && 0 * (-h) == 0 && 0 * (-w) == 0 && (-h) * 0 == 0 && (-w) * 0 == 0)
        by (nonlinear_arith);
}

} // verus!
