use crate::block::{face_dir_to_normal, normal_spec, Block};
use crate::coords::linear_index;
use crate::mesh::{Mesh, Vertex};
use vstd::prelude::*;

verus! {

/// One merged rectangle of visible faces: all faces look in direction
/// `dir`, lie in slice `layer` along that direction's axis, and cover the
/// cells `u .. u + width` by `v .. v + height` of the slice.
#[derive(Debug, Clone, Copy, PartialEq, Eq)]
pub struct Quad {
    pub dir: u8,
    pub layer: usize,
    pub u: usize,
    pub v: usize,
    pub width: usize,
    pub height: usize,
    pub block: Block,
}

/// Block at `(x, y, z)`; everything outside the chunk counts as air.
pub open spec fn block_at(blocks: Seq<Block>, x: int, y: int, z: int) -> Block {
    if 0 <= x < 16 && 0 <= y < 16 && 0 <= z < 16 {
        blocks[linear_index(x, y, z)]
    } else {
        Block::Empty
    }
}

/// Axis along which direction `dir` looks: 0 is X, 1 is Y, 2 is Z.
pub open spec fn face_axis(dir: int) -> int {
    dir / 2
}

/// Whether direction `dir` looks toward smaller coordinates.
pub open spec fn face_is_back(dir: int) -> bool {
    dir % 2 == 1
}

/// Signed unit step in which direction `dir` looks.
pub open spec fn face_step(dir: int) -> int {
    if face_is_back(dir) {
        -1
    } else {
        1
    }
}

/// X coordinate of cell `(u, v)` of slice `w` of the sweep along `dir`.
pub open spec fn sweep_x(dir: int, w: int, u: int, v: int) -> int {
    if face_axis(dir) == 0 {
        w
    } else {
        u
    }
}

/// Y coordinate of cell `(u, v)` of slice `w` of the sweep along `dir`.
pub open spec fn sweep_y(dir: int, w: int, u: int, v: int) -> int {
    if face_axis(dir) == 0 {
        u
    } else if face_axis(dir) == 1 {
        w
    } else {
        v
    }
}

/// Z coordinate of cell `(u, v)` of slice `w` of the sweep along `dir`.
pub open spec fn sweep_z(dir: int, w: int, u: int, v: int) -> int {
    if face_axis(dir) == 2 {
        w
    } else {
        v
    }
}

/// Block that the face of `(x, y, z)` in direction `dir` looks at.
pub open spec fn neighbor_at(blocks: Seq<Block>, dir: int, x: int, y: int, z: int) -> Block {
    if face_axis(dir) == 0 {
        block_at(blocks, x + face_step(dir), y, z)
    } else if face_axis(dir) == 1 {
        block_at(blocks, x, y + face_step(dir), z)
    } else {
        block_at(blocks, x, y, z + face_step(dir))
    }
}

/// A face is drawn when its block is not air and it looks at air (the
/// outside of the chunk included) or across a boundary between water and
/// anything that is not water.
pub open spec fn face_visible(blocks: Seq<Block>, dir: int, x: int, y: int, z: int) -> bool {
    let b = block_at(blocks, x, y, z);
    let n = neighbor_at(blocks, dir, x, y, z);
    b != Block::Empty && (n == Block::Empty || ((b == Block::Water) != (n == Block::Water)))
}

/// Material of cell `(u, v)` of the mask of slice `w`: the block there if
/// its face in direction `dir` is drawn, else air.
pub open spec fn mask_cell(blocks: Seq<Block>, dir: int, w: int, u: int, v: int) -> Block {
    let x = sweep_x(dir, w, u, v);
    let y = sweep_y(dir, w, u, v);
    let z = sweep_z(dir, w, u, v);
    if face_visible(blocks, dir, x, y, z) {
        block_at(blocks, x, y, z)
    } else {
        Block::Empty
    }
}

/// The 16 by 16 mask of slice `w` for direction `dir`, row by row.
pub open spec fn face_mask(blocks: Seq<Block>, dir: int, w: int) -> Seq<Block> {
    Seq::new(256, |i: int| mask_cell(blocks, dir, w, i % 16, i / 16))
}

/// Number of consecutive cells of row `v`, from column `from` on, that
/// hold `b`.
pub open spec fn run_len(mask: Seq<Block>, v: int, from: int, b: Block) -> int
    decreases 16 - from,
{
    if 0 <= from < 16 && mask[from + 16 * v] == b {
        1 + run_len(mask, v, from + 1, b)
    } else {
        0
    }
}

/// Whether the cells `u .. u + width` of row `row` all hold `b`.
pub open spec fn row_matches(mask: Seq<Block>, u: int, width: int, row: int, b: Block) -> bool {
    forall|du: int| 0 <= du < width ==> mask[#[trigger] (u + du) + 16 * row] == b
}

/// Number of consecutive rows, from row `from` on, whose cells
/// `u .. u + width` all hold `b`.
pub open spec fn rows_len(mask: Seq<Block>, u: int, width: int, from: int, b: Block) -> int
    decreases 16 - from,
{
    if 0 <= from < 16 && row_matches(mask, u, width, from, b) {
        1 + rows_len(mask, u, width, from + 1, b)
    } else {
        0
    }
}

/// The rectangle that greedy merging grows from cell `idx`: as wide as the
/// run of the same material in its row, then as tall as the rows below
/// repeat that whole run.
pub open spec fn quad_at(mask: Seq<Block>, dir: int, layer: int, idx: int) -> Quad {
    let u = idx % 16;
    let v = idx / 16;
    let b = mask[idx];
    let width = 1 + run_len(mask, v, u + 1, b);
    let height = 1 + rows_len(mask, u, width, v + 1, b);
    Quad {
        dir: dir as u8,
        layer: layer as usize,
        u: u as usize,
        v: v as usize,
        width: width as usize,
        height: height as usize,
        block: b,
    }
}

/// Whether mask cell `i` lies inside the rectangle of `q`.
pub open spec fn in_rect(q: Quad, i: int) -> bool {
    q.u <= i % 16 < q.u + q.width && q.v <= i / 16 < q.v + q.height
}

/// `mask` with the cells of `q` set to air.
pub open spec fn clear_rect(mask: Seq<Block>, q: Quad) -> Seq<Block> {
    Seq::new(
        256,
        |i: int|
            if in_rect(q, i) {
                Block::Empty
            } else {
                mask[i]
            },
    )
}

/// Rectangles that greedy merging cuts from `mask`, scanning the cells
/// from `idx` on row by row: air is skipped, any other cell starts a
/// rectangle whose cells are then taken out of the mask.
pub open spec fn greedy_from(mask: Seq<Block>, dir: int, layer: int, idx: int) -> Seq<Quad>
    decreases 256 - idx,
{
    if idx < 0 || idx >= 256 {
        Seq::empty()
    } else if mask[idx] == Block::Empty {
        greedy_from(mask, dir, layer, idx + 1)
    } else {
        let q = quad_at(mask, dir, layer, idx);
        seq![q] + greedy_from(clear_rect(mask, q), dir, layer, idx + 1)
    }
}

/// Rectangles of slice `w` for direction `dir`.
pub open spec fn layer_quads(blocks: Seq<Block>, dir: int, w: int) -> Seq<Quad> {
    greedy_from(face_mask(blocks, dir, w), dir, w, 0)
}

/// Rectangles of the first `n` slices for direction `dir`.
pub open spec fn dir_quads(blocks: Seq<Block>, dir: int, n: int) -> Seq<Quad>
    decreases n,
{
    if n <= 0 {
        Seq::empty()
    } else {
        dir_quads(blocks, dir, n - 1) + layer_quads(blocks, dir, n - 1)
    }
}

/// Rectangles of all slices for the first `n` directions.
pub open spec fn quads_of_dirs(blocks: Seq<Block>, n: int) -> Seq<Quad>
    decreases n,
{
    if n <= 0 {
        Seq::empty()
    } else {
        quads_of_dirs(blocks, n - 1) + dir_quads(blocks, n - 1, 16)
    }
}

/// All rectangles of a chunk, in the order in which they are drawn.
pub open spec fn chunk_quads(blocks: Seq<Block>) -> Seq<Quad> {
    quads_of_dirs(blocks, 6)
}

/// Whether corner `k` sits at the far end of the rectangle along `u`. The
/// order of the corners depends on the direction, so that every face winds
/// the same way when seen from outside.
pub open spec fn corner_far_u(dir: int, k: int) -> bool {
    if dir == 0 || dir == 1 || dir == 5 {
        k == 1 || k == 2
    } else if dir == 3 {
        k >= 2
    } else if dir == 2 {
        k <= 1
    } else {
        k == 0 || k == 3
    }
}

/// Whether corner `k` sits at the far end of the rectangle along `v`.
pub open spec fn corner_far_v(dir: int, k: int) -> bool {
    if dir == 0 {
        k <= 1
    } else if dir == 2 || dir == 3 {
        k == 1 || k == 2
    } else {
        k >= 2
    }
}

/// Position of corner `k` of the face that `q` stands for.
pub open spec fn quad_corner(q: Quad, k: int) -> [isize; 3] {
    let cu = if corner_far_u(q.dir as int, k) {
        q.u + q.width
    } else {
        q.u as int
    };
    let cv = if corner_far_v(q.dir as int, k) {
        q.v + q.height
    } else {
        q.v as int
    };
    let cw = if face_is_back(q.dir as int) {
        q.layer as int
    } else {
        q.layer + 1
    };
    if face_axis(q.dir as int) == 0 {
        [cw as isize, cu as isize, cv as isize]
    } else if face_axis(q.dir as int) == 1 {
        [cu as isize, cw as isize, cv as isize]
    } else {
        [cu as isize, cv as isize, cw as isize]
    }
}

/// Texture coordinates of corner `k`: the texture repeats once per block
/// over the width and height of the rectangle.
pub open spec fn quad_uv(q: Quad, k: int) -> [u8; 2] {
    [
        if k >= 2 {
            q.width as u8
        } else {
            0u8
        },
        if k == 1 || k == 2 {
            q.height as u8
        } else {
            0u8
        },
    ]
}

/// Corner `k` of the face that `q` stands for, as a vertex.
pub open spec fn quad_vertex(q: Quad, k: int) -> Vertex {
    let c = q.block.color_spec(q.dir);
    let n = normal_spec(q.dir);
    Vertex {
        pos: quad_corner(q, k),
        normal: [n[0], n[1], n[2]],
        color: [c[0], c[1], c[2], c[3]],
        uv: quad_uv(q, k),
    }
}

/// The four vertices of one rectangle.
pub open spec fn quad_vertices(q: Quad) -> Seq<Vertex> {
    seq![quad_vertex(q, 0), quad_vertex(q, 1), quad_vertex(q, 2), quad_vertex(q, 3)]
}

/// The two triangles of the rectangle whose first vertex has number
/// `base`.
pub open spec fn quad_indices(base: int) -> Seq<u32> {
    seq![
        base as u32,
        (base + 2) as u32,
        (base + 1) as u32,
        base as u32,
        (base + 3) as u32,
        (base + 2) as u32,
    ]
}

/// Vertices of a list of rectangles: four for each, in order.
pub open spec fn quads_vertices(qs: Seq<Quad>) -> Seq<Vertex>
    decreases qs.len(),
{
    if qs.len() == 0 {
        Seq::empty()
    } else {
        quads_vertices(qs.drop_last()) + quad_vertices(qs.last())
    }
}

/// Indices of a list of rectangles: six for each, in order.
pub open spec fn quads_indices(qs: Seq<Quad>) -> Seq<u32>
    decreases qs.len(),
{
    if qs.len() == 0 {
        Seq::empty()
    } else {
        quads_indices(qs.drop_last()) + quad_indices(4 * (qs.len() - 1))
    }
}

/// A rectangle that lies inside its slice and is not degenerate.
pub open spec fn quad_in_bounds(q: Quad) -> bool {
    &&& q.dir < 6
    &&& q.layer < 16
    &&& 1 <= q.width
    &&& 1 <= q.height
    &&& q.u + q.width <= 16
    &&& q.v + q.height <= 16
}

/// Greedy merging cuts at most one rectangle per cell.
pub proof fn lemma_greedy_len(mask: Seq<Block>, dir: int, layer: int, idx: int)
    requires
        0 <= idx <= 256,
    ensures
        greedy_from(mask, dir, layer, idx).len() <= 256 - idx,
    decreases 256 - idx,
{
    if idx < 256 {
        if mask[idx] == Block::Empty {
            lemma_greedy_len(mask, dir, layer, idx + 1);
        } else {
            lemma_greedy_len(clear_rect(mask, quad_at(mask, dir, layer, idx)), dir, layer, idx + 1);
        }
    }
}

/// The first `n` slices of one direction hold at most `256 * n`
/// rectangles.
pub proof fn lemma_dir_quads_len(blocks: Seq<Block>, dir: int, n: int)
    requires
        0 <= n,
    ensures
        dir_quads(blocks, dir, n).len() <= 256 * n,
    decreases n,
{
    if n > 0 {
        lemma_dir_quads_len(blocks, dir, n - 1);
        lemma_greedy_len(face_mask(blocks, dir, n - 1), dir, n - 1, 0);
    }
}

/// The first `n` directions hold at most `4096 * n` rectangles.
pub proof fn lemma_quads_of_dirs_len(blocks: Seq<Block>, n: int)
    requires
        0 <= n,
    ensures
        quads_of_dirs(blocks, n).len() <= 4096 * n,
    decreases n,
{
    if n > 0 {
        lemma_quads_of_dirs_len(blocks, n - 1);
        lemma_dir_quads_len(blocks, n - 1, 16);
    }
}

/// A list of rectangles has four vertices and six indices for each.
pub proof fn lemma_quads_mesh_len(qs: Seq<Quad>)
    ensures
        quads_vertices(qs).len() == 4 * qs.len(),
        quads_indices(qs).len() == 6 * qs.len(),
    decreases qs.len(),
{
    if qs.len() > 0 {
        lemma_quads_mesh_len(qs.drop_last());
    }
}

fn block_or_air(blocks: &[Block; 4096], x: isize, y: isize, z: isize) -> (b: Block)
    ensures
        b == block_at(blocks@, x as int, y as int, z as int),
{
    if 0 <= x && x < 16 && 0 <= y && y < 16 && 0 <= z && z < 16 {
        blocks[(x + y * 16 + z * 256) as usize]
    } else {
        Block::Empty  // Out of bounds = air
    }
}

fn build_face_mask(blocks: &[Block; 4096], dir: u8, w: usize) -> (mask: [Block; 256])
    requires
        dir < 6,
        w < 16,
    ensures
        mask@ == face_mask(blocks@, dir as int, w as int),
{
    let axis = dir / 2;
    let step: isize = if dir % 2 == 1 {
        -1
    } else {
        1
    };
    let mut mask = [Block::Empty;256];
    let mut i: usize = 0;
    while i < 256
        invariant
            i <= 256,
            dir < 6,
            w < 16,
            axis == dir / 2,
            step == face_step(dir as int),
            forall|j: int|
                0 <= j < i ==> mask@[j] == mask_cell(blocks@, dir as int, w as int, j % 16, j / 16),
        decreases 256 - i,
    {
        let u = i % 16;
        let v = i / 16;
        // Convert u,v,w back to x,y,z based on axis
        let (x, y, z): (isize, isize, isize) = if axis == 0 {
            (w as isize, u as isize, v as isize)
        } else if axis == 1 {
            (u as isize, w as isize, v as isize)
        } else {
            (u as isize, v as isize, w as isize)
        };
        let block = block_or_air(blocks, x, y, z);
        let mut cell = Block::Empty;
        // Render water and solid blocks, skip air
        if !block.is_empty() {
            let neighbor = if axis == 0 {
                block_or_air(blocks, x + step, y, z)
            } else if axis == 1 {
                block_or_air(blocks, x, y + step, z)
            } else {
                block_or_air(blocks, x, y, z + step)
            };
            // Face is visible if neighbor is air or across a water surface
            let should_render = neighbor == Block::Empty || (block == Block::Water && neighbor
                != Block::Water) || (block != Block::Water && neighbor == Block::Water);
            if should_render {
                cell = block;
            }
        }
        mask[i] = cell;
        i += 1;
    }
    assert(mask@ =~= face_mask(blocks@, dir as int, w as int));
    mask
}

fn grow_width(mask: &[Block; 256], u: usize, v: usize, block: Block) -> (width: usize)
    requires
        u < 16,
        v < 16,
    ensures
        width == 1 + run_len(mask@, v as int, u + 1, block),
        1 <= width,
        u + width <= 16,
{
    let mut width: usize = 1;
    while u + width < 16 && mask[u + width + v * 16] == block
        invariant
            u < 16,
            v < 16,
            1 <= width,
            u + width <= 16,
            width + run_len(mask@, v as int, u + width, block) == 1 + run_len(
                mask@,
                v as int,
                u + 1,
                block,
            ),
        decreases 16 - width,
    {
        width += 1;
    }
    width
}

fn row_is(mask: &[Block; 256], u: usize, width: usize, row: usize, block: Block) -> (ok: bool)
    requires
        u + width <= 16,
        row < 16,
    ensures
        ok == row_matches(mask@, u as int, width as int, row as int, block),
{
    let mut du: usize = 0;
    let mut ok = true;
    while ok && du < width
        invariant
            u + width <= 16,
            row < 16,
            du <= width,
            ok ==> forall|d: int| 0 <= d < du ==> mask@[#[trigger] (u + d) + 16 * row] == block,
            !ok ==> !row_matches(mask@, u as int, width as int, row as int, block),
        decreases width - du + if ok { 1int } else { 0int },
    {
        if mask[u + du + row * 16] != block {
            assert(mask@[(u + du) + 16 * row] != block);
            ok = false;
        } else {
            du += 1;
        }
    }
    ok
}

fn grow_height(mask: &[Block; 256], u: usize, v: usize, width: usize, block: Block) -> (height:
    usize)
    requires
        u + width <= 16,
        v < 16,
    ensures
        height == 1 + rows_len(mask@, u as int, width as int, v + 1, block),
        1 <= height,
        v + height <= 16,
{
    let mut height: usize = 1;
    let mut growing = true;
    while growing && v + height < 16
        invariant
            u + width <= 16,
            v < 16,
            1 <= height,
            v + height <= 16,
            growing ==> height + rows_len(mask@, u as int, width as int, v + height, block) == 1
                + rows_len(mask@, u as int, width as int, v + 1, block),
            !growing ==> height == 1 + rows_len(mask@, u as int, width as int, v + 1, block),
        decreases 16 - height + if growing { 1int } else { 0int },
    {
        if row_is(mask, u, width, v + height, block) {
            height += 1;
        } else {
            growing = false;
        }
    }
    height
}

fn clear_quad(mask: [Block; 256], q: &Quad) -> (cleared: [Block; 256])
    requires
        quad_in_bounds(*q),
    ensures
        cleared@ == clear_rect(mask@, *q),
{
    let mut cleared = mask;
    let mut i: usize = 0;
    while i < 256
        invariant
            i <= 256,
            quad_in_bounds(*q),
            forall|j: int| 0 <= j < i ==> cleared@[j] == clear_rect(mask@, *q)[j],
            forall|j: int| i <= j < 256 ==> cleared@[j] == mask@[j],
        decreases 256 - i,
    {
        let cu = i % 16;
        let cv = i / 16;
        if q.u <= cu && cu < q.u + q.width && q.v <= cv && cv < q.v + q.height {
            cleared[i] = Block::Empty;
        }
        i += 1;
    }
    assert(cleared@ =~= clear_rect(mask@, *q));
    cleared
}

fn corner_of(q: &Quad, k: u8) -> (p: [isize; 3])
    requires
        quad_in_bounds(*q),
        k < 4,
    ensures
        p == quad_corner(*q, k as int),
{
    let dir = q.dir;
    let far_u = if dir == 0 || dir == 1 || dir == 5 {
        k == 1 || k == 2
    } else if dir == 3 {
        k >= 2
    } else if dir == 2 {
        k <= 1
    } else {
        k == 0 || k == 3
    };
    let far_v = if dir == 0 {
        k <= 1
    } else if dir == 2 || dir == 3 {
        k == 1 || k == 2
    } else {
        k >= 2
    };
    let cu = if far_u {
        q.u + q.width
    } else {
        q.u
    };
    let cv = if far_v {
        q.v + q.height
    } else {
        q.v
    };
    let cw = if dir % 2 == 1 {
        q.layer
    } else {
        q.layer + 1
    };
    if dir / 2 == 0 {
        [cw as isize, cu as isize, cv as isize]
    } else if dir / 2 == 1 {
        [cu as isize, cw as isize, cv as isize]
    } else {
        [cu as isize, cv as isize, cw as isize]
    }
}

fn emit_quad(mesh: &mut Mesh, q: &Quad, Ghost(done): Ghost<Seq<Quad>>)
    requires
        quad_in_bounds(*q),
        old(mesh).vertices@ == quads_vertices(done),
        old(mesh).indices@ == quads_indices(done),
        done.len() < 24576,
    ensures
        final(mesh).vertices@ == quads_vertices(done.push(*q)),
        final(mesh).indices@ == quads_indices(done.push(*q)),
{
    proof {
        lemma_quads_mesh_len(done);
    }
    let index = mesh.vertices.len() as u32;
    let color = q.block.color(q.dir);
    let normal = face_dir_to_normal(q.dir);
    // UV coordinates scaled by quad size
    let uv_scale_u = q.width as u8;
    let uv_scale_v = q.height as u8;
    mesh.vertices.push(Vertex { pos: corner_of(q, 0), normal, color, uv: [0, 0] });
    mesh.vertices.push(Vertex { pos: corner_of(q, 1), normal, color, uv: [0, uv_scale_v] });
    mesh.vertices.push(
        Vertex { pos: corner_of(q, 2), normal, color, uv: [uv_scale_u, uv_scale_v] },
    );
    mesh.vertices.push(Vertex { pos: corner_of(q, 3), normal, color, uv: [uv_scale_u, 0] });
    // Reverse winding order to match CCW front face
    mesh.indices.push(index);
    mesh.indices.push(index + 2);
    mesh.indices.push(index + 1);
    mesh.indices.push(index);
    mesh.indices.push(index + 3);
    mesh.indices.push(index + 2);
    proof {
        let after = done.push(*q);
        assert(after.drop_last() =~= done);
        assert(after.last() == *q);
        assert(normal == [normal_spec(q.dir)[0], normal_spec(q.dir)[1], normal_spec(q.dir)[2]]);
        assert(color == [
            q.block.color_spec(q.dir)[0],
            q.block.color_spec(q.dir)[1],
            q.block.color_spec(q.dir)[2],
            q.block.color_spec(q.dir)[3],
        ]);
        assert(mesh.vertices@ =~= quads_vertices(done) + quad_vertices(*q));
        assert(mesh.indices@ =~= quads_indices(done) + quad_indices(4 * (done.len() as int)));
    }
}

fn merge_layer(
    layer_mask: [Block; 256],
    dir: u8,
    w: usize,
    mesh: &mut Mesh,
    Ghost(done): Ghost<Seq<Quad>>,
)
    requires
        dir < 6,
        w < 16,
        old(mesh).vertices@ == quads_vertices(done),
        old(mesh).indices@ == quads_indices(done),
        done.len() + 256 <= 24576,
    ensures
        final(mesh).vertices@ == quads_vertices(
            done + greedy_from(layer_mask@, dir as int, w as int, 0),
        ),
        final(mesh).indices@ == quads_indices(
            done + greedy_from(layer_mask@, dir as int, w as int, 0),
        ),
{
    let mut mask = layer_mask;
    let ghost mut emitted = done;
    let mut idx: usize = 0;
    while idx < 256
        invariant
            idx <= 256,
            dir < 6,
            w < 16,
            mesh.vertices@ == quads_vertices(emitted),
            mesh.indices@ == quads_indices(emitted),
            emitted + greedy_from(mask@, dir as int, w as int, idx as int) == done + greedy_from(
                layer_mask@,
                dir as int,
                w as int,
                0,
            ),
            emitted.len() <= done.len() + idx,
            done.len() + 256 <= 24576,
        decreases 256 - idx,
    {
        let block = mask[idx];
        if block != Block::Empty {
            let u = idx % 16;
            let v = idx / 16;
            // Find width (u direction), then height (v direction)
            let width = grow_width(&mask, u, v, block);
            let height = grow_height(&mask, u, v, width, block);
            let q = Quad { dir, layer: w, u, v, width, height, block };
            assert(q == quad_at(mask@, dir as int, w as int, idx as int));
            let ghost before = mask@;
            // Clear merged area from mask
            mask = clear_quad(mask, &q);
            // Generate quad for this merged rectangle
            emit_quad(mesh, &q, Ghost(emitted));
            proof {
                assert(greedy_from(before, dir as int, w as int, idx as int) == seq![q]
                    + greedy_from(mask@, dir as int, w as int, idx + 1));
                assert(emitted.push(q) + greedy_from(mask@, dir as int, w as int, idx + 1)
                    =~= emitted + greedy_from(before, dir as int, w as int, idx as int));
                emitted = emitted.push(q);
            }
        }
        idx += 1;
    }
    assert(emitted =~= emitted + greedy_from(mask@, dir as int, w as int, 256));
}

/// Greedy meshing with face culling - merges adjacent faces of same block type
pub fn compute_mesh(blocks: &[Block; 4096]) -> (m: Mesh)
    ensures
        m.vertices@ == quads_vertices(chunk_quads(blocks@)),
        m.indices@ == quads_indices(chunk_quads(blocks@)),
{
    let mut mesh = Mesh { vertices: Vec::new(), indices: Vec::new() };
    let ghost mut emitted: Seq<Quad> = Seq::empty();
    // Process each of the 6 face directions
    let mut dir: u8 = 0;
    while dir < 6
        invariant
            dir <= 6,
            mesh.vertices@ == quads_vertices(emitted),
            mesh.indices@ == quads_indices(emitted),
            emitted == quads_of_dirs(blocks@, dir as int),
        decreases 6 - dir,
    {
        // Sweep through each slice along the axis
        let mut w: usize = 0;
        while w < 16
            invariant
                dir < 6,
                w <= 16,
                mesh.vertices@ == quads_vertices(emitted),
                mesh.indices@ == quads_indices(emitted),
                emitted == quads_of_dirs(blocks@, dir as int) + dir_quads(
                    blocks@,
                    dir as int,
                    w as int,
                ),
            decreases 16 - w,
        {
            proof {
                lemma_quads_of_dirs_len(blocks@, dir as int);
                lemma_dir_quads_len(blocks@, dir as int, w as int);
            }
            // Create a mask for this slice (stores block or air for culled)
            let mask = build_face_mask(blocks, dir, w);
            // Greedy meshing: merge adjacent faces into rectangles
            merge_layer(mask, dir, w, &mut mesh, Ghost(emitted));
            proof {
                let added = layer_quads(blocks@, dir as int, w as int);
                assert(emitted + added =~= quads_of_dirs(blocks@, dir as int) + dir_quads(
                    blocks@,
                    dir as int,
                    w + 1,
                ));
                emitted = emitted + added;
            }
            w += 1;
        }
        proof {
            assert(emitted =~= quads_of_dirs(blocks@, dir + 1));
        }
        dir += 1;
    }
    mesh
}

} // verus!
