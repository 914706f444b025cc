//! A world of blocks: terrain that is generated chunk by chunk, a window of
//! loaded chunks that follows the player, and meshes of the chunks at
//! several levels of detail.
//!
//! - `coords`: world, chunk and block coordinates and the conversions
//!   between them.
//! - `block`: the materials, their colours and the normals of their faces.
//! - `chunk`, `downsample`, `number_chunk`: a cube of 16 by 16 by 16 blocks,
//!   its coarser versions, and a chunk that shows its own coordinate.
//! - `mesh`, `mesher`, `mesh_laws`: vertices and indices, greedy meshing,
//!   and what is proved of the meshes.
//! - `noise`, `terrain`, `trees`, `populate`: the generator, in fixed point.
//! - `visit_order`, `scene`: the window of loaded chunks.
//! - `input`: keys and buttons.
//!
//! Every quantity is an integer. Positions of the generator, its noise and
//! its thresholds are counted in millionths, colours in hundredths.

use vstd::prelude::*;

pub mod block;
pub mod chunk;
pub mod coords;
pub mod downsample;
pub mod input;
pub mod mesh;
pub mod mesh_laws;
pub mod mesher;
pub mod noise;
pub mod number_chunk;
pub mod populate;
pub mod scene;
pub mod terrain;
pub mod trees;
pub mod visit_order;

pub use block::{face_dir_to_normal, Block};
pub use chunk::Chunk;
pub use coords::{BlockCoord, ChunkCoord, WorldCoord, CHUNK_SIZE};
pub use input::{cycle_selected_block, InputProcessor, KeyBindings, MouseButton};
pub use mesh::{create_chunk_border_mesh, create_outline_mesh, Mesh, Vertex};
pub use mesher::{compute_mesh, Quad};
pub use noise::{fbm, fbm_3d, noise2d, noise3d, ONE};
pub use scene::{ActiveEntry, Scene};
pub use terrain::{BiomeType, TerrainConfig, Tree, TreeData, TreeType, VoxelDensityGenerator};
pub use visit_order::{generate_qube_offset_in_spherical_order, select_lod, LOD};
