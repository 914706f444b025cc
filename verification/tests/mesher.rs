use woxel::{compute_mesh, Block, BlockCoord, Mesh};

fn idx(x: usize, y: usize, z: usize) -> usize {
    BlockCoord(x, y, z).get_block_idx()
}

fn quad_count(mesh: &Mesh) -> usize {
    assert_eq!(mesh.vertices.len() % 4, 0);
    assert_eq!(mesh.indices.len(), mesh.vertices.len() / 4 * 6);
    mesh.vertices.len() / 4
}

/// Cross product of the first triangle of quad `q`, which must point the way of the normal.
fn winding(mesh: &Mesh, q: usize) -> [isize; 3] {
    let i0 = mesh.indices[q * 6] as usize;
    let i1 = mesh.indices[q * 6 + 1] as usize;
    let i2 = mesh.indices[q * 6 + 2] as usize;
    let a = mesh.vertices[i0].pos;
    let b = mesh.vertices[i1].pos;
    let c = mesh.vertices[i2].pos;
    let u = [b[0] - a[0], b[1] - a[1], b[2] - a[2]];
    let v = [c[0] - a[0], c[1] - a[1], c[2] - a[2]];
    [u[1] * v[2] - u[2] * v[1], u[2] * v[0] - u[0] * v[2], u[0] * v[1] - u[1] * v[0]]
}

#[test]
fn empty_chunk_has_no_mesh() {
    let mesh = compute_mesh(&[Block::Empty; 4096]);
    assert!(mesh.is_empty());
}

#[test]
fn full_chunk_is_six_quads_that_cover_its_faces() {
    for material in [Block::Stone, Block::Grass, Block::Water] {
        let mesh = compute_mesh(&[material; 4096]);
        assert_eq!(quad_count(&mesh), 6);
        for q in 0..6 {
            let vs = &mesh.vertices[q * 4..q * 4 + 4];
            let axis = q / 2;
            let plane = if q % 2 == 0 { 16 } else { 0 };
            for v in vs {
                assert_eq!(v.pos[axis], plane);
                assert_eq!(v.color, material.color(q as u8));
                assert_eq!(v.normal, woxel::face_dir_to_normal(q as u8));
                for k in 0..3 {
                    assert!(v.pos[k] == 0 || v.pos[k] == 16);
                }
            }
            // the four corners are all different: the quad spans 16 by 16
            for i in 0..4 {
                for j in 0..i {
                    assert_ne!(vs[i].pos, vs[j].pos);
                }
            }
            assert_eq!(vs[0].uv, [0, 0]);
            assert_eq!(vs[1].uv, [0, 16]);
            assert_eq!(vs[2].uv, [16, 16]);
            assert_eq!(vs[3].uv, [16, 0]);
        }
        assert_eq!(&mesh.indices[0..6], &[0, 2, 1, 0, 3, 2]);
        assert_eq!(&mesh.indices[30..36], &[20, 22, 21, 20, 23, 22]);
    }
}

#[test]
fn single_block_has_six_unit_faces_that_look_outward() {
    let mut blocks = [Block::Empty; 4096];
    blocks[idx(5, 6, 7)] = Block::Stone;
    let mesh = compute_mesh(&blocks);
    assert_eq!(quad_count(&mesh), 6);
    for q in 0..6 {
        let n = mesh.vertices[q * 4].normal;
        let w = winding(&mesh, q);
        // one unit square: the cross product has length one and points along the normal
        assert_eq!(w, [n[0] as isize, n[1] as isize, n[2] as isize]);
        for v in &mesh.vertices[q * 4..q * 4 + 4] {
            assert!(v.pos[0] == 5 || v.pos[0] == 6);
            assert!(v.pos[1] == 6 || v.pos[1] == 7);
            assert!(v.pos[2] == 7 || v.pos[2] == 8);
        }
    }
    // +X face first: it lies in the plane x = 6
    for v in &mesh.vertices[0..4] {
        assert_eq!(v.pos[0], 6);
    }
    assert_eq!(mesh.vertices[0].pos, [6, 6, 8]);
    assert_eq!(mesh.vertices[1].pos, [6, 7, 8]);
    assert_eq!(mesh.vertices[2].pos, [6, 7, 7]);
    assert_eq!(mesh.vertices[3].pos, [6, 6, 7]);
}

#[test]
fn neighbours_of_one_material_share_no_face() {
    let mut blocks = [Block::Empty; 4096];
    blocks[idx(5, 5, 5)] = Block::Stone;
    blocks[idx(6, 5, 5)] = Block::Stone;
    let mesh = compute_mesh(&blocks);
    // the bar of two blocks has six faces, each merged into one quad
    assert_eq!(quad_count(&mesh), 6);
    for v in &mesh.vertices {
        // no vertex lies strictly inside the bar along x but on a face that looks along x
        if v.normal == [1, 0, 0] {
            assert_eq!(v.pos[0], 7);
        }
        if v.normal == [-1, 0, 0] {
            assert_eq!(v.pos[0], 5);
        }
    }
    // two blocks that do not touch have twelve faces
    let mut apart = [Block::Empty; 4096];
    apart[idx(5, 5, 5)] = Block::Stone;
    apart[idx(7, 5, 5)] = Block::Stone;
    assert_eq!(quad_count(&compute_mesh(&apart)), 12);
}

#[test]
fn enclosed_block_has_no_face() {
    let mut blocks = [Block::Empty; 4096];
    for z in 4..7 {
        for y in 4..7 {
            for x in 4..7 {
                blocks[idx(x, y, z)] = Block::Dirt;
            }
        }
    }
    let with_core = compute_mesh(&blocks);
    assert_eq!(quad_count(&with_core), 6);
    for v in &with_core.vertices {
        for k in 0..3 {
            assert!(v.pos[k] == 4 || v.pos[k] == 7);
        }
    }
}

#[test]
fn different_solid_neighbours_hide_their_shared_face_but_do_not_merge() {
    let mut blocks = [Block::Empty; 4096];
    blocks[idx(5, 5, 5)] = Block::Stone;
    blocks[idx(6, 5, 5)] = Block::Dirt;
    let mesh = compute_mesh(&blocks);
    // five faces each: the faces between them are hidden, the others differ in material
    assert_eq!(quad_count(&mesh), 10);
}

#[test]
fn water_shows_its_surface_against_land_on_both_sides() {
    let mut blocks = [Block::Empty; 4096];
    blocks[idx(5, 5, 5)] = Block::Water;
    blocks[idx(6, 5, 5)] = Block::Stone;
    let mesh = compute_mesh(&blocks);
    assert_eq!(quad_count(&mesh), 12);
    let mut two_water = [Block::Empty; 4096];
    two_water[idx(5, 5, 5)] = Block::Water;
    two_water[idx(6, 5, 5)] = Block::Water;
    assert_eq!(quad_count(&compute_mesh(&two_water)), 6);
}

#[test]
fn greedy_merge_grows_width_first_then_height() {
    // an L of three blocks in the plane y = 0: (0,0,0), (1,0,0), (0,0,1)
    let mut blocks = [Block::Empty; 4096];
    blocks[idx(0, 0, 0)] = Block::Stone;
    blocks[idx(1, 0, 0)] = Block::Stone;
    blocks[idx(0, 0, 1)] = Block::Stone;
    let mesh = compute_mesh(&blocks);
    // top faces: one quad 2 by 1 and one quad 1 by 1
    let tops: Vec<_> =
        (0..quad_count(&mesh)).filter(|q| mesh.vertices[q * 4].normal == [0, 1, 0]).collect();
    assert_eq!(tops.len(), 2);
    assert_eq!(mesh.vertices[tops[0] * 4 + 2].uv, [2, 1]);
    assert_eq!(mesh.vertices[tops[1] * 4 + 2].uv, [1, 1]);
    // +Y quad: corners in the order that the winding asks for
    assert_eq!(mesh.vertices[tops[0] * 4].pos, [2, 1, 0]);
    assert_eq!(mesh.vertices[tops[0] * 4 + 1].pos, [2, 1, 1]);
    assert_eq!(mesh.vertices[tops[0] * 4 + 2].pos, [0, 1, 1]);
    assert_eq!(mesh.vertices[tops[0] * 4 + 3].pos, [0, 1, 0]);
    for q in 0..quad_count(&mesh) {
        let n = mesh.vertices[q * 4].normal;
        let w = winding(&mesh, q);
        let dot = w[0] * n[0] as isize + w[1] * n[1] as isize + w[2] * n[2] as isize;
        assert!(dot > 0);
    }
}

#[test]
fn mesh_offset_moves_every_vertex() {
    let mut blocks = [Block::Empty; 4096];
    blocks[idx(0, 0, 0)] = Block::Stone;
    let mut mesh = compute_mesh(&blocks);
    let local = mesh.clone();
    mesh.offset_vertices_by(&woxel::ChunkCoord(2, -1, 0));
    assert_eq!(mesh.indices, local.indices);
    for (moved, v) in mesh.vertices.iter().zip(local.vertices.iter()) {
        assert_eq!(moved.pos, [v.pos[0] + 32, v.pos[1] - 16, v.pos[2]]);
        assert_eq!(moved.normal, v.normal);
        assert_eq!(moved.color, v.color);
        assert_eq!(moved.uv, v.uv);
    }
}

#[test]
fn wireframes_have_eight_corners_and_twelve_edges() {
    let outline = woxel::create_outline_mesh();
    assert_eq!(outline.vertices.len(), 8);
    assert_eq!(outline.indices.len(), 24);
    assert_eq!(outline.vertices[0].pos, [0, 0, 0]);
    assert_eq!(outline.vertices[2].pos, [1, 1, 0]);
    assert_eq!(outline.vertices[6].pos, [1, 1, 1]);
    assert_eq!(outline.vertices[7].pos, [0, 1, 1]);
    assert_eq!(outline.vertices[6].color, [100, 100, 30, 100]);
    assert_eq!(outline.vertices[6].uv, [1, 1]);
    assert_eq!(&outline.indices[0..8], &[0, 1, 1, 2, 2, 3, 3, 0]);
    assert_eq!(&outline.indices[16..24], &[0, 4, 1, 5, 2, 6, 3, 7]);
    let border = woxel::create_chunk_border_mesh(16);
    assert_eq!(border.vertices.len(), 8);
    assert_eq!(border.vertices[1].pos, [16, 0, 0]);
    assert_eq!(border.vertices[2].pos, [16, 0, 16]);
    assert_eq!(border.vertices[3].pos, [0, 0, 16]);
    assert_eq!(border.vertices[4].pos, [0, 16, 0]);
    assert_eq!(border.vertices[6].pos, [16, 16, 16]);
    assert_eq!(border.vertices[0].color, [20, 80, 20, 100]);
    assert_eq!(border.indices, outline.indices);
}
