use crate::coords::ChunkCoord;
use vstd::prelude::*;

verus! {

/// One corner of a face. Positions are in blocks, colours in hundredths,
/// texture coordinates in blocks along the face.
#[derive(Debug, Clone, Copy, PartialEq, Eq)]
pub struct Vertex {
    pub pos: [isize; 3],
    pub normal: [i8; 3],
    pub color: [u8; 4],
    pub uv: [u8; 2],
}

/// Vertices and the index list that joins them.
#[derive(Debug, Clone, PartialEq, Eq)]
pub struct Mesh {
    pub vertices: Vec<Vertex>,
    pub indices: Vec<u32>,
}

/// `v` moved by `(dx, dy, dz)`.
pub open spec fn shift_vertex(v: Vertex, dx: int, dy: int, dz: int) -> Vertex {
    Vertex {
        pos: [(v.pos[0] + dx) as isize, (v.pos[1] + dy) as isize, (v.pos[2] + dz) as isize],
        normal: v.normal,
        color: v.color,
        uv: v.uv,
    }
}

/// Every vertex of `vs` moved by `(dx, dy, dz)`.
pub open spec fn shift_vertices(vs: Seq<Vertex>, dx: int, dy: int, dz: int) -> Seq<Vertex> {
    Seq::new(vs.len(), |i: int| shift_vertex(vs[i], dx, dy, dz))
}

/// Moving every vertex of `vs` by `(dx, dy, dz)` stays within the machine's
/// integers.
pub open spec fn shift_fits(vs: Seq<Vertex>, dx: int, dy: int, dz: int) -> bool {
    forall|i: int|
        0 <= i < vs.len() ==> {
            &&& isize::MIN <= (#[trigger] vs[i]).pos[0] + dx <= isize::MAX
            &&& isize::MIN <= vs[i].pos[1] + dy <= isize::MAX
            &&& isize::MIN <= vs[i].pos[2] + dz <= isize::MAX
        }
}

/// Corner `k` of the wireframe box with side `s`: corners 0 to 3 run
/// around one face, corners 4 to 7 around the opposite one. With `flat`
/// the two faces lie `s` apart along Y, else along Z.
pub open spec fn wire_corner(k: int, s: int, flat: bool, color: [u8; 4]) -> Vertex {
    let a = if k % 4 == 1 || k % 4 == 2 {
        s
    } else {
        0
    };
    let b = if k % 4 >= 2 {
        s
    } else {
        0
    };
    let c = if k >= 4 {
        s
    } else {
        0
    };
    Vertex {
        pos: if flat {
            [a as isize, c as isize, b as isize]
        } else {
            [a as isize, b as isize, c as isize]
        },
        normal: [0i8, 1i8, 0i8],
        color,
        uv: [
            if k % 4 == 1 || k % 4 == 2 {
                1u8
            } else {
                0u8
            },
            if k % 4 >= 2 {
                1u8
            } else {
                0u8
            },
        ],
    }
}

/// The twelve edges of the wireframe box as pairs of corner numbers: the
/// four edges of each face, then the four edges that join the faces.
pub open spec fn wire_indices() -> Seq<u32> {
    seq![
        0u32, 1u32, 1u32, 2u32, 2u32, 3u32, 3u32, 0u32,
        4u32, 5u32, 5u32, 6u32, 6u32, 7u32, 7u32, 4u32,
        0u32, 4u32, 1u32, 5u32, 2u32, 6u32, 3u32, 7u32,
    ]
}

/// The wireframe box of side `s` as a whole.
pub open spec fn wire_vertices(s: int, flat: bool, color: [u8; 4]) -> Seq<Vertex> {
    Seq::new(8, |k: int| wire_corner(k, s, flat, color))
}

fn wire_box(s: isize, flat: bool, color: [u8; 4]) -> (m: Mesh)
    ensures
        m.vertices@ == wire_vertices(s as int, flat, color),
        m.indices@ == wire_indices(),
{
    let normal: [i8; 3] = [0, 1, 0];
    let mut vertices: Vec<Vertex> = Vec::new();
    let mut k: usize = 0;
    while k < 8
        invariant
            k <= 8,
            normal == [0i8, 1i8, 0i8],
            vertices@.len() == k,
            forall|j: int| 0 <= j < k ==> vertices@[j] == wire_corner(j, s as int, flat, color),
        decreases 8 - k,
    {
        let a: isize = if k % 4 == 1 || k % 4 == 2 {
            s
        } else {
            0
        };
        let b: isize = if k % 4 >= 2 {
            s
        } else {
            0
        };
        let c: isize = if k >= 4 {
            s
        } else {
            0
        };
        let pos: [isize; 3] = if flat {
            [a, c, b]
        } else {
            [a, b, c]
        };
        let uv: [u8; 2] = [
            if k % 4 == 1 || k % 4 == 2 {
                1
            } else {
                0
            },
            if k % 4 >= 2 {
                1
            } else {
                0
            },
        ];
        vertices.push(Vertex { pos, normal, color, uv });
        k += 1;
    }
    let indices: Vec<u32> = vec![
        0, 1, 1, 2, 2, 3, 3, 0,
        4, 5, 5, 6, 6, 7, 7, 4,
        0, 4, 1, 5, 2, 6, 3, 7,
    ];
    assert(vertices@ =~= wire_vertices(s as int, flat, color));
    assert(indices@ =~= wire_indices());
    Mesh { vertices, indices }
}

/// Create outline mesh for block targeting (unit cube at origin)
pub fn create_outline_mesh() -> (m: Mesh)
    ensures
        m.vertices@ == wire_vertices(1, false, [100u8, 100u8, 30u8, 100u8]),
        m.indices@ == wire_indices(),
{
    wire_box(1, false, [100, 100, 30, 100])
}

/// Create chunk border mesh (edges of a chunk in world space)
pub fn create_chunk_border_mesh(chunk_size: i32) -> (m: Mesh)
    ensures
        m.vertices@ == wire_vertices(chunk_size as int, true, [20u8, 80u8, 20u8, 100u8]),
        m.indices@ == wire_indices(),
{
    wire_box(chunk_size as isize, true, [20, 80, 20, 100])
}

impl Mesh {
    pub fn empty() -> (m: Mesh)
        ensures
            m.vertices@.len() == 0,
            m.indices@.len() == 0,
    {
        Self { vertices: Vec::new(), indices: Vec::new() }
    }

    pub fn is_empty(&self) -> (e: bool)
        ensures
            e == (self.vertices@.len() == 0 && self.indices@.len() == 0),
    {
        self.vertices.len() == 0 && self.indices.len() == 0
    }

    /// Moves the mesh from chunk-local space to the place of chunk `coord`
    /// in the world.
    pub fn offset_vertices_by(&mut self, coord: &ChunkCoord)
        requires
            coord.has_origin(),
            shift_fits(
                old(self).vertices@,
                coord.origin().0 as int,
                coord.origin().1 as int,
                coord.origin().2 as int,
            ),
        ensures
            final(self).vertices@ == shift_vertices(
                old(self).vertices@,
                coord.origin().0 as int,
                coord.origin().1 as int,
                coord.origin().2 as int,
            ),
            final(self).indices@ == old(self).indices@,
    {
        let origin = coord.to_world_coord();
        let n = self.vertices.len();
        let mut i: usize = 0;
        while i < n
            invariant
                i <= n,
                n == self.vertices@.len(),
                n == old(self).vertices@.len(),
                self.indices@ == old(self).indices@,
                origin == coord.origin(),
                shift_fits(
                    old(self).vertices@,
                    origin.0 as int,
                    origin.1 as int,
                    origin.2 as int,
                ),
                forall|j: int|
                    0 <= j < i ==> self.vertices@[j] == shift_vertex(
                        old(self).vertices@[j],
                        origin.0 as int,
                        origin.1 as int,
                        origin.2 as int,
                    ),
                forall|j: int| i <= j < n ==> self.vertices@[j] == old(self).vertices@[j],
            decreases n - i,
        {
            let v = self.vertices[i];
            assert(v == old(self).vertices@[i as int]);
            let moved = Vertex {
                pos: [origin.0 + v.pos[0], origin.1 + v.pos[1], origin.2 + v.pos[2]],
                normal: v.normal,
                color: v.color,
                uv: v.uv,
            };
            self.vertices.set(i, moved);
            i += 1;
        }
        assert(self.vertices@ =~= shift_vertices(
            old(self).vertices@,
            origin.0 as int,
            origin.1 as int,
            origin.2 as int,
        ));
    }
}

} // verus!
