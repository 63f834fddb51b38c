//! The mesher: converts a chunk's dense voxel grid into the list of exposed
//! unit-cube faces. A face is emitted for a solid voxel in a direction
//! exactly when the neighboring cell in that direction is empty or lies
//! outside the generated world; the shared face between two adjacent solid
//! voxels is emitted by neither side. Neighbors across a chunk boundary are
//! resolved through a one-voxel halo sampled from the adjacent chunk; a
//! missing halo means no neighbor chunk exists there, and the boundary
//! counts as exposed.

use vstd::prelude::*;

verus! {

use vstd::arithmetic::div_mod::{lemma_fundamental_div_mod, lemma_fundamental_div_mod_converse};

use crate::block::{BlockMaterialStore, BlockType, Color};
use crate::chunk::{Chunk, chunk_index, lemma_chunk_index_bounds};
use crate::config::{MAX_CHUNK_DIM, MAX_WORLD_HEIGHT};
use crate::terrain::lemma_chunk_index_decode;

/// The six face directions of a unit cube, named by the axis and sign of
/// their outward normal.
#[derive(Clone, Copy, Debug, PartialEq, Eq, Structural)]
pub enum Direction {
    XNeg,
    XPos,
    YNeg,
    YPos,
    ZNeg,
    ZPos,
}

/// The x component of a direction's outward normal.
pub open spec fn dir_dx(dir: Direction) -> int {
    match dir {
        Direction::XNeg => -1,
        Direction::XPos => 1,
        _ => 0,
    }
}

/// The y component of a direction's outward normal.
pub open spec fn dir_dy(dir: Direction) -> int {
    match dir {
        Direction::YNeg => -1,
        Direction::YPos => 1,
        _ => 0,
    }
}

/// The z component of a direction's outward normal.
pub open spec fn dir_dz(dir: Direction) -> int {
    match dir {
        Direction::ZNeg => -1,
        Direction::ZPos => 1,
        _ => 0,
    }
}

/// The direction with the opposite outward normal.
pub open spec fn opposite(dir: Direction) -> Direction {
    match dir {
        Direction::XNeg => Direction::XPos,
        Direction::XPos => Direction::XNeg,
        Direction::YNeg => Direction::YPos,
        Direction::YPos => Direction::YNeg,
        Direction::ZNeg => Direction::ZPos,
        Direction::ZPos => Direction::ZNeg,
    }
}

/// The enumeration order of the six directions.
pub open spec fn dir_of(d: int) -> Direction {
    if d == 0 {
        Direction::XNeg
    } else if d == 1 {
        Direction::XPos
    } else if d == 2 {
        Direction::YNeg
    } else if d == 3 {
        Direction::YPos
    } else if d == 4 {
        Direction::ZNeg
    } else {
        Direction::ZPos
    }
}

/// One emitted face: the world coordinates of its owning voxel, its outward
/// direction, and the resolved display color.
#[derive(Clone, Copy, Debug, PartialEq, Eq, Structural)]
pub struct Face {
    pub x: i64,
    pub y: i64,
    pub z: i64,
    pub direction: Direction,
    pub color: Color,
}

impl Face {
    /// The outward unit normal of the face.
    pub fn normal(&self) -> (n: (i32, i32, i32))
        ensures
            n.0 == dir_dx(self.direction),
            n.1 == dir_dy(self.direction),
            n.2 == dir_dz(self.direction),
    {
        match self.direction {
            Direction::XNeg => (-1, 0, 0),
            Direction::XPos => (1, 0, 0),
            Direction::YNeg => (0, -1, 0),
            Direction::YPos => (0, 1, 0),
            Direction::ZNeg => (0, 0, -1),
            Direction::ZPos => (0, 0, 1),
        }
    }

    /// The world-space coordinates of the face's four corners, in the order
    /// the quad is wound: the corners of the owning unit cube's side that
    /// faces the direction. The voxel occupies the unit cube from its world
    /// coordinates to one more on each axis.
    pub fn corners(&self) -> (cs: Vec<(i64, i64, i64)>)
        requires
            self.x < i64::MAX,
            self.y < i64::MAX,
            self.z < i64::MAX,
        ensures
            cs@.len() == 4,
            forall|i: int|
                0 <= i < 4 ==> #[trigger] cs@[i] == spec_corner(*self, i),
    {
        let x0: i64 = self.x;
        let y0: i64 = self.y;
        let z0: i64 = self.z;
        let x1: i64 = x0 + 1;
        let y1: i64 = y0 + 1;
        let z1: i64 = z0 + 1;
        let cs: Vec<(i64, i64, i64)> = match self.direction {
            Direction::XNeg => vec![(x0, y0, z0), (x0, y0, z1), (x0, y1, z1), (x0, y1, z0)],
            Direction::XPos => vec![(x1, y0, z0), (x1, y1, z0), (x1, y1, z1), (x1, y0, z1)],
            Direction::YNeg => vec![(x0, y0, z0), (x1, y0, z0), (x1, y0, z1), (x0, y0, z1)],
            Direction::YPos => vec![(x0, y1, z0), (x0, y1, z1), (x1, y1, z1), (x1, y1, z0)],
            Direction::ZNeg => vec![(x0, y0, z0), (x0, y1, z0), (x1, y1, z0), (x1, y0, z0)],
            Direction::ZPos => vec![(x0, y0, z1), (x1, y0, z1), (x1, y1, z1), (x0, y1, z1)],
        };
        proof {
            assert forall|i: int| 0 <= i < 4 implies #[trigger] cs@[i] == spec_corner(*self, i) by {
            }
        }
        cs
    }
}

/// The `i`-th corner of a face, world space: the corners of the owning
/// unit cube's side facing the direction, wound in quad order.
pub open spec fn spec_corner(f: Face, i: int) -> (i64, i64, i64) {
    let x0 = f.x;
    let y0 = f.y;
    let z0 = f.z;
    let x1 = (f.x + 1) as i64;
    let y1 = (f.y + 1) as i64;
    let z1 = (f.z + 1) as i64;
    match f.direction {
        Direction::XNeg => if i == 0 {
            (x0, y0, z0)
        } else if i == 1 {
            (x0, y0, z1)
        } else if i == 2 {
            (x0, y1, z1)
        } else {
            (x0, y1, z0)
        },
        Direction::XPos => if i == 0 {
            (x1, y0, z0)
        } else if i == 1 {
            (x1, y1, z0)
        } else if i == 2 {
            (x1, y1, z1)
        } else {
            (x1, y0, z1)
        },
        Direction::YNeg => if i == 0 {
            (x0, y0, z0)
        } else if i == 1 {
            (x1, y0, z0)
        } else if i == 2 {
            (x1, y0, z1)
        } else {
            (x0, y0, z1)
        },
        Direction::YPos => if i == 0 {
            (x0, y1, z0)
        } else if i == 1 {
            (x0, y1, z1)
        } else if i == 2 {
            (x1, y1, z1)
        } else {
            (x1, y1, z0)
        },
        Direction::ZNeg => if i == 0 {
            (x0, y0, z0)
        } else if i == 1 {
            (x0, y1, z0)
        } else if i == 2 {
            (x1, y1, z0)
        } else {
            (x1, y0, z0)
        },
        Direction::ZPos => if i == 0 {
            (x0, y0, z1)
        } else if i == 1 {
            (x1, y0, z1)
        } else if i == 2 {
            (x1, y1, z1)
        } else {
            (x0, y1, z1)
        },
    }
}

/// A one-voxel halo: for each horizontal boundary of a chunk, the solidity
/// plane of the adjacent chunk's facing cells, or nothing where no neighbor
/// chunk exists (the edge of the generated world). Vertical neighbors need
/// no halo: chunking is horizontal only, and the world ends above and below.
pub struct Halo {
    pub x_neg: Option<Vec<bool>>,
    pub x_pos: Option<Vec<bool>>,
    pub z_neg: Option<Vec<bool>>,
    pub z_pos: Option<Vec<bool>>,
}

impl Halo {
    /// Well-formedness against a chunk's extents: every plane that is
    /// present holds one flag per boundary cell, indexed by `y * dim + i`.
    pub open spec fn wf(self, dim: int, height: int) -> bool {
        &&& (self.x_neg matches Some(p) ==> p@.len() == height * dim)
        &&& (self.x_pos matches Some(p) ==> p@.len() == height * dim)
        &&& (self.z_neg matches Some(p) ==> p@.len() == height * dim)
        &&& (self.z_pos matches Some(p) ==> p@.len() == height * dim)
    }

    /// A halo with no neighbor on any side: every boundary face of the
    /// chunk counts as exposed. This is the halo of a world of one chunk.
    pub fn empty() -> (h: Halo)
        ensures
            h.x_neg is None,
            h.x_pos is None,
            h.z_neg is None,
            h.z_pos is None,
    {
        Halo { x_neg: None, x_pos: None, z_neg: None, z_pos: None }
    }
}

/// Whether the cell one step in direction `dir` from in-bounds local cell
/// `(lx, y, lz)` is solid: inside the chunk by the chunk's own grid, across
/// a horizontal boundary by the halo plane, and empty above the world's
/// top, below its bottom, or where no halo plane exists.
pub open spec fn neighbor_solid(
    c: Chunk,
    halo: Halo,
    lx: int,
    y: int,
    lz: int,
    dir: Direction,
) -> bool {
    let nx = lx + dir_dx(dir);
    let ny = y + dir_dy(dir);
    let nz = lz + dir_dz(dir);
    if ny < 0 || ny >= c.height {
        false
    } else if nx < 0 {
        match halo.x_neg {
            Some(p) => p@[ny * c.dim + lz],
            None => false,
        }
    } else if nx >= c.dim {
        match halo.x_pos {
            Some(p) => p@[ny * c.dim + lz],
            None => false,
        }
    } else if nz < 0 {
        match halo.z_neg {
            Some(p) => p@[ny * c.dim + lx],
            None => false,
        }
    } else if nz >= c.dim {
        match halo.z_pos {
            Some(p) => p@[ny * c.dim + lx],
            None => false,
        }
    } else {
        c.solid_at(nx, ny, nz)
    }
}

/// Whether the face of cell `(lx, y, lz)` in direction `dir` is exposed:
/// the cell is solid and its neighbor in that direction is not.
pub open spec fn exposed(c: Chunk, halo: Halo, lx: int, y: int, lz: int, dir: Direction) -> bool {
    c.solid_at(lx, y, lz) && !neighbor_solid(c, halo, lx, y, lz, dir)
}

/// The color a face carries: the owning voxel's registry color, except the
/// two-tone grass rule — a grass voxel keeps the grass tint on its top face
/// only, and shows the base soil tint on its side and bottom faces.
pub open spec fn spec_face_color(
    store: BlockMaterialStore,
    block_type: BlockType,
    dir: Direction,
) -> Color {
    if block_type == BlockType::Grass {
        if dir == Direction::YPos {
            store.grass
        } else {
            store.soil
        }
    } else {
        store.spec_color(block_type)
    }
}

/// The face emitted for cell `(lx, y, lz)` of the chunk in direction `dir`:
/// world coordinates of the voxel, the direction, and the resolved color.
pub open spec fn face_at(
    c: Chunk,
    store: BlockMaterialStore,
    lx: int,
    y: int,
    lz: int,
    dir: Direction,
) -> Face {
    Face {
        x: (c.position.x * c.dim + lx) as i64,
        y: (c.position.y * c.height + y) as i64,
        z: (c.position.z * c.dim + lz) as i64,
        direction: dir,
        color: spec_face_color(store, c.type_at(lx, y, lz), dir),
    }
}

/// The enumeration of (cell, direction) pairs the mesher walks: pair `t`
/// covers cell `t / 6` in row-major order and direction `t % 6`.
pub open spec fn flat_lx(c: Chunk, t: int) -> int {
    (t / 6) / ((c.height * c.dim) as int)
}

/// The y coordinate of the cell of pair `t`.
pub open spec fn flat_y(c: Chunk, t: int) -> int {
    ((t / 6) % (c.height * c.dim)) / (c.dim as int)
}

/// The local z coordinate of the cell of pair `t`.
pub open spec fn flat_lz(c: Chunk, t: int) -> int {
    ((t / 6) % (c.height * c.dim)) % (c.dim as int)
}

/// The direction of pair `t`.
pub open spec fn flat_dir(t: int) -> Direction {
    dir_of(t % 6)
}

/// Whether pair `t`'s face is exposed.
#[verifier::opaque]
pub open spec fn flat_exposed(c: Chunk, halo: Halo, t: int) -> bool {
    exposed(c, halo, flat_lx(c, t), flat_y(c, t), flat_lz(c, t), flat_dir(t))
}

/// The face of pair `t`.
#[verifier::opaque]
pub open spec fn flat_face(c: Chunk, store: BlockMaterialStore, t: int) -> Face {
    face_at(c, store, flat_lx(c, t), flat_y(c, t), flat_lz(c, t), flat_dir(t))
}

/// The number of (cell, direction) pairs of a chunk.
pub open spec fn pair_total(c: Chunk) -> int {
    c.dim * c.height * c.dim * 6
}

/// The face list after walking the first `t` pairs: the faces of the
/// exposed pairs, in enumeration order.
pub open spec fn mesh_upto(c: Chunk, halo: Halo, store: BlockMaterialStore, t: nat) -> Seq<Face>
    decreases t,
{
    if t == 0 {
        Seq::empty()
    } else {
        let p = mesh_upto(c, halo, store, (t - 1) as nat);
        if flat_exposed(c, halo, t - 1) {
            p.push(flat_face(c, store, t - 1))
        } else {
            p
        }
    }
}

/// The number of exposed pairs among the first `t`.
pub open spec fn exposed_count_upto(c: Chunk, halo: Halo, t: nat) -> nat
    decreases t,
{
    if t == 0 {
        0
    } else {
        exposed_count_upto(c, halo, (t - 1) as nat) + if flat_exposed(c, halo, t - 1) {
            1nat
        } else {
            0nat
        }
    }
}

/// The complete face list of a chunk against a halo: the mesher's output.
pub open spec fn spec_mesh(c: Chunk, halo: Halo, store: BlockMaterialStore) -> Seq<Face> {
    mesh_upto(c, halo, store, pair_total(c) as nat)
}

/// The number of exposed (solid voxel, direction) pairs of a chunk: what
/// the face count must equal.
pub open spec fn spec_exposed_count(c: Chunk, halo: Halo) -> nat {
    exposed_count_upto(c, halo, pair_total(c) as nat)
}

/// A halo plane index stays inside the plane, and the plane stays small
/// enough for the index arithmetic never to overflow.
pub(crate) proof fn lemma_plane_index_bounds(y: int, j: int, dim: int, height: int)
    by (nonlinear_arith)
    requires
        0 <= y < height,
        0 <= j < dim,
        dim <= MAX_CHUNK_DIM,
        height <= MAX_WORLD_HEIGHT,
    ensures
        0 <= y * dim + j < height * dim,
        height * dim <= MAX_WORLD_HEIGHT * MAX_CHUNK_DIM,
{
}

/// Walking a cell's directions lands on the pair enumeration: pair
/// `cell * 6 + k` decodes back to the cell's coordinates and direction `k`.
pub(crate) proof fn lemma_flat_encode(c: Chunk, lx: int, y: int, lz: int, k: int)
    requires
        c.wf(),
        c.in_bounds(lx, y, lz),
        0 <= k < 6,
    ensures
        ({
            let t = chunk_index(c.dim as int, c.height as int, lx, y, lz) * 6 + k;
            &&& 0 <= t < pair_total(c)
            &&& flat_lx(c, t) == lx
            &&& flat_y(c, t) == y
            &&& flat_lz(c, t) == lz
            &&& flat_dir(t) == dir_of(k)
        }),
{
    let dim = c.dim as int;
    let height = c.height as int;
    let cell = chunk_index(dim, height, lx, y, lz);
    lemma_chunk_index_bounds(dim, height, lx, y, lz);
    let t = cell * 6 + k;
    lemma_fundamental_div_mod_converse(t, 6, cell, k);
    assert(cell == lx * (height * dim) + (y * dim + lz)) by (nonlinear_arith)
        requires
            cell == (lx * height + y) * dim + lz,
    ;
    assert(0 <= y * dim + lz < height * dim) by (nonlinear_arith)
        requires
            0 <= y < height,
            0 <= lz < dim,
    ;
    lemma_fundamental_div_mod_converse(cell, height * dim, lx, y * dim + lz);
    lemma_fundamental_div_mod_converse(y * dim + lz, dim, y, lz);
}

/// Every pair index decodes to an in-bounds cell and a direction index,
/// and encodes back to itself: the pair enumeration is a bijection.
pub(crate) proof fn lemma_flat_decode(c: Chunk, t: int)
    requires
        c.wf(),
        0 <= t < pair_total(c),
    ensures
        c.in_bounds(flat_lx(c, t), flat_y(c, t), flat_lz(c, t)),
        0 <= t % 6 < 6,
        flat_dir(t) == dir_of(t % 6),
        t == chunk_index(c.dim as int, c.height as int, flat_lx(c, t), flat_y(c, t), flat_lz(c, t))
            * 6 + t % 6,
{
    let dim = c.dim as int;
    let height = c.height as int;
    lemma_fundamental_div_mod(t, 6);
    vstd::arithmetic::div_mod::lemma_mod_pos_bound(t, 6);
    vstd::arithmetic::div_mod::lemma_div_pos_is_pos(t, 6);
    let cell = t / 6;
    assert(6 * cell <= t);
    assert(cell < dim * height * dim);
    lemma_chunk_index_decode(dim, height, cell);
}

/// Faces of distinct in-bounds (cell, direction) pairs of one chunk are
/// distinct: the world coordinates pin the cell and the direction field
/// pins the direction.
pub(crate) proof fn lemma_face_at_injective(
    c: Chunk,
    store: BlockMaterialStore,
    lx1: int,
    y1: int,
    lz1: int,
    dir1: Direction,
    lx2: int,
    y2: int,
    lz2: int,
    dir2: Direction,
)
    requires
        c.wf(),
        c.in_bounds(lx1, y1, lz1),
        c.in_bounds(lx2, y2, lz2),
        face_at(c, store, lx1, y1, lz1, dir1) == face_at(c, store, lx2, y2, lz2, dir2),
    ensures
        lx1 == lx2,
        y1 == y2,
        lz1 == lz2,
        dir1 == dir2,
{
    assert((-0x80000000 * 128 <= (c.position.x as int) * (c.dim as int) <= 0x80000000 * 128) && (
    -0x80000000 * 4096 <= (c.position.y as int) * (c.height as int) <= 0x80000000 * 4096) && (
    -0x80000000 * 128 <= (c.position.z as int) * (c.dim as int) <= 0x80000000 * 128))
        by (nonlinear_arith)
        requires
            -0x80000000 <= c.position.x < 0x80000000,
            -0x80000000 <= c.position.y < 0x80000000,
            -0x80000000 <= c.position.z < 0x80000000,
            0 <= c.dim <= 128,
            0 <= c.height <= 4096,
    ;
}

/// The direction at index `k` of the enumeration order.
fn direction_of_index(k: usize) -> (r: Direction)
    requires
        k < 6,
    ensures
        r == dir_of(k as int),
{
    if k == 0 {
        Direction::XNeg
    } else if k == 1 {
        Direction::XPos
    } else if k == 2 {
        Direction::YNeg
    } else if k == 3 {
        Direction::YPos
    } else if k == 4 {
        Direction::ZNeg
    } else {
        Direction::ZPos
    }
}

/// Resolves the display color a face carries, applying the two-tone grass
/// rule: grass tint on a grass voxel's top face, base soil tint on its
/// other faces, and the registry color everywhere else.
pub fn face_color(store: &BlockMaterialStore, block_type: BlockType, dir: Direction) -> (c: Color)
    ensures
        c == spec_face_color(*store, block_type, dir),
{
    if block_type == BlockType::Grass {
        if dir == Direction::YPos {
            store.get_color(BlockType::Grass)
        } else {
            store.get_color(BlockType::Soil)
        }
    } else {
        store.get_color(block_type)
    }
}

/// Whether the neighbor of an in-bounds cell in the given direction is
/// solid, resolving chunk-boundary neighbors through the halo.
fn neighbor_is_solid(
    chunk: &Chunk,
    halo: &Halo,
    lx: usize,
    y: usize,
    lz: usize,
    dir: Direction,
) -> (r: bool)
    requires
        chunk.wf(),
        halo.wf(chunk.dim as int, chunk.height as int),
        chunk.in_bounds(lx as int, y as int, lz as int),
    ensures
        r == neighbor_solid(*chunk, *halo, lx as int, y as int, lz as int, dir),
{
    proof {
        lemma_plane_index_bounds(y as int, lz as int, chunk.dim as int, chunk.height as int);
        lemma_plane_index_bounds(y as int, lx as int, chunk.dim as int, chunk.height as int);
    }
    match dir {
        Direction::XNeg => {
            if lx == 0 {
                match &halo.x_neg {
                    Some(p) => p[y * chunk.dim + lz],
                    None => false,
                }
            } else {
                chunk.solid(lx - 1, y, lz)
            }
        },
        Direction::XPos => {
            if lx + 1 == chunk.dim {
                match &halo.x_pos {
                    Some(p) => p[y * chunk.dim + lz],
                    None => false,
                }
            } else {
                chunk.solid(lx + 1, y, lz)
            }
        },
        Direction::YNeg => {
            if y == 0 {
                false
            } else {
                chunk.solid(lx, y - 1, lz)
            }
        },
        Direction::YPos => {
            if y + 1 == chunk.height {
                false
            } else {
                chunk.solid(lx, y + 1, lz)
            }
        },
        Direction::ZNeg => {
            if lz == 0 {
                match &halo.z_neg {
                    Some(p) => p[y * chunk.dim + lx],
                    None => false,
                }
            } else {
                chunk.solid(lx, y, lz - 1)
            }
        },
        Direction::ZPos => {
            if lz + 1 == chunk.dim {
                match &halo.z_pos {
                    Some(p) => p[y * chunk.dim + lx],
                    None => false,
                }
            } else {
                chunk.solid(lx, y, lz + 1)
            }
        },
    }
}

/// Builds the face an in-bounds cell emits in the given direction: the
/// voxel's world coordinates, the direction, and the resolved color.
fn make_face(
    chunk: &Chunk,
    store: &BlockMaterialStore,
    lx: usize,
    y: usize,
    lz: usize,
    dir: Direction,
) -> (f: Face)
    requires
        chunk.wf(),
        chunk.in_bounds(lx as int, y as int, lz as int),
    ensures
        f == face_at(*chunk, *store, lx as int, y as int, lz as int, dir),
{
    proof {
        assert((-0x80000000 * 128 <= (chunk.position.x as int) * (chunk.dim as int) <= 0x80000000
            * 128) && (-0x80000000 * 4096 <= (chunk.position.y as int) * (chunk.height as int)
            <= 0x80000000 * 4096) && (-0x80000000 * 128 <= (chunk.position.z as int) * (
        chunk.dim as int) <= 0x80000000 * 128)) by (nonlinear_arith)
            requires
                -0x80000000 <= chunk.position.x < 0x80000000,
                -0x80000000 <= chunk.position.y < 0x80000000,
                -0x80000000 <= chunk.position.z < 0x80000000,
                0 <= chunk.dim <= 128,
                0 <= chunk.height <= 4096,
        ;
        lemma_chunk_index_bounds(
            chunk.dim as int,
            chunk.height as int,
            lx as int,
            y as int,
            lz as int,
        );
    }
    let wx: i64 = (chunk.position.x as i64) * (chunk.dim as i64) + (lx as i64);
    let wy: i64 = (chunk.position.y as i64) * (chunk.height as i64) + (y as i64);
    let wz: i64 = (chunk.position.z as i64) * (chunk.dim as i64) + (lz as i64);
    let block_type: BlockType = chunk.blocks[(lx * chunk.height + y) * chunk.dim + lz].block_type;
    let color = face_color(store, block_type, dir);
    Face { x: wx, y: wy, z: wz, direction: dir, color }
}

/// Meshes a chunk against its halo: emits, in a fixed walk order, one face
/// for every (solid voxel, direction) pair whose neighbor in that direction
/// is empty or outside the generated world, and nothing else.
pub fn mesh_chunk(chunk: &Chunk, halo: &Halo, store: &BlockMaterialStore) -> (faces: Vec<Face>)
    requires
        chunk.wf(),
        halo.wf(chunk.dim as int, chunk.height as int),
    ensures
        faces@ == spec_mesh(*chunk, *halo, *store),
{
    let dim: usize = chunk.dim;
    let height: usize = chunk.height;
    let mut faces: Vec<Face> = Vec::new();
    let mut lx: usize = 0;
    proof {
        assert((((0 * (height as int)) * (dim as int)) * 6) == 0) by (nonlinear_arith);
    }
    while lx < dim
        invariant
            chunk.wf(),
            halo.wf(chunk.dim as int, chunk.height as int),
            dim == chunk.dim,
            height == chunk.height,
            lx <= dim,
            faces@ == mesh_upto(*chunk, *halo, *store, (((lx * height) * dim) * 6) as nat),
        decreases dim - lx,
    {
        let mut y: usize = 0;
        while y < height
            invariant
                chunk.wf(),
                halo.wf(chunk.dim as int, chunk.height as int),
                dim == chunk.dim,
                height == chunk.height,
                lx < dim,
                y <= height,
                faces@ == mesh_upto(*chunk, *halo, *store, (((lx * height + y) * dim) * 6) as nat),
            decreases height - y,
        {
            let mut lz: usize = 0;
            while lz < dim
                invariant
                    chunk.wf(),
                    halo.wf(chunk.dim as int, chunk.height as int),
                    dim == chunk.dim,
                    height == chunk.height,
                    lx < dim,
                    y < height,
                    lz <= dim,
                    faces@ == mesh_upto(
                        *chunk,
                        *halo,
                        *store,
                        (((lx * height + y) * dim + lz) * 6) as nat,
                    ),
                decreases dim - lz,
            {
                let mut k: usize = 0;
                while k < 6
                    invariant
                        chunk.wf(),
                        halo.wf(chunk.dim as int, chunk.height as int),
                        dim == chunk.dim,
                        height == chunk.height,
                        lx < dim,
                        y < height,
                        lz < dim,
                        k <= 6,
                        faces@ == mesh_upto(
                            *chunk,
                            *halo,
                            *store,
                            (((lx * height + y) * dim + lz) * 6 + k) as nat,
                        ),
                    decreases 6 - k,
                {
                    let ghost t = ((lx * height + y) * dim + lz) * 6 + k;
                    proof {
                        reveal(flat_exposed);
                        reveal(flat_face);
                        lemma_flat_encode(*chunk, lx as int, y as int, lz as int, k as int);
                        assert(flat_lx(*chunk, t) == lx && flat_y(*chunk, t) == y && flat_lz(
                            *chunk,
                            t,
                        ) == lz && flat_dir(t) == dir_of(k as int));
                    }
                    let dir = direction_of_index(k);
                    let is_solid = chunk.solid(lx, y, lz);
                    let emit: bool = if is_solid {
                        !neighbor_is_solid(chunk, halo, lx, y, lz, dir)
                    } else {
                        false
                    };
                    assert(emit == flat_exposed(*chunk, *halo, t));
                    if emit {
                        let f = make_face(chunk, store, lx, y, lz, dir);
                        assert(f == flat_face(*chunk, *store, t));
                        faces.push(f);
                    }
                    assert(faces@ == mesh_upto(*chunk, *halo, *store, (t + 1) as nat));
                    k = k + 1;
                }
                lz = lz + 1;
            }
            proof {
                assert(((lx * height + y) * dim + dim) * 6 == (((lx * height + (y + 1)) * dim))
                    * 6) by (nonlinear_arith);
            }
            y = y + 1;
        }
        proof {
            assert(((lx * height + height) * dim) * 6 == ((((lx + 1) * height) * dim)) * 6)
                by (nonlinear_arith);
        }
        lx = lx + 1;
    }
    proof {
        assert((((dim * height) * dim) * 6) as nat == pair_total(*chunk) as nat);
    }
    faces
}

/// The face list of the first `t` pairs is exactly as long as the number
/// of exposed pairs among them.
proof fn lemma_mesh_upto_len(c: Chunk, halo: Halo, store: BlockMaterialStore, t: nat)
    ensures
        mesh_upto(c, halo, store, t).len() == exposed_count_upto(c, halo, t),
    decreases t,
{
    if t > 0 {
        lemma_mesh_upto_len(c, halo, store, (t - 1) as nat);
    }
}

/// The solidity of a chunk's boundary layer facing direction `dir`, read
/// at vertical level `y` and lateral index `j`: what the neighbor on that
/// side needs as its halo plane. Vertical directions have no plane.
pub open spec fn boundary_solid(c: Chunk, dir: Direction, y: int, j: int) -> bool {
    match dir {
        Direction::XNeg => c.solid_at(0, y, j),
        Direction::XPos => c.solid_at(c.dim - 1, y, j),
        Direction::ZNeg => c.solid_at(j, y, 0),
        Direction::ZPos => c.solid_at(j, y, c.dim - 1),
        _ => false,
    }
}

/// Extracts the solidity plane of the chunk's boundary layer facing a
/// horizontal direction `dir`: one flag per boundary cell, indexed by
/// `y * dim + j`. This is the halo plane the adjacent chunk on that side
/// meshes against.
pub fn boundary_plane(chunk: &Chunk, dir: Direction) -> (p: Vec<bool>)
    requires
        chunk.wf(),
        dir_dy(dir) == 0,
    ensures
        p@.len() == chunk.height * chunk.dim,
        forall|y: int, j: int|
            0 <= y < chunk.height && 0 <= j < chunk.dim ==> #[trigger] p@[y * chunk.dim + j]
                == boundary_solid(*chunk, dir, y, j),
{
    let dim: usize = chunk.dim;
    let height: usize = chunk.height;
    let mut p: Vec<bool> = Vec::new();
    let mut y: usize = 0;
    while y < height
        invariant
            chunk.wf(),
            dim == chunk.dim,
            height == chunk.height,
            dir_dy(dir) == 0,
            y <= height,
            p@.len() == y * dim,
            forall|b: int, i: int|
                0 <= b < y && 0 <= i < dim ==> #[trigger] p@[b * dim + i] == boundary_solid(
                    *chunk,
                    dir,
                    b,
                    i,
                ),
        decreases height - y,
    {
        let mut j: usize = 0;
        while j < dim
            invariant
                chunk.wf(),
                dim == chunk.dim,
                height == chunk.height,
                dir_dy(dir) == 0,
                y < height,
                j <= dim,
                p@.len() == y * dim + j,
                forall|b: int, i: int|
                    0 <= b < y && 0 <= i < dim ==> #[trigger] p@[b * dim + i] == boundary_solid(
                        *chunk,
                        dir,
                        b,
                        i,
                    ),
                forall|i: int|
                    0 <= i < j ==> #[trigger] p@[y * dim + i] == boundary_solid(
                        *chunk,
                        dir,
                        y as int,
                        i,
                    ),
            decreases dim - j,
        {
            let s: bool = match dir {
                Direction::XNeg => chunk.solid(0, y, j),
                Direction::XPos => chunk.solid(dim - 1, y, j),
                Direction::ZNeg => chunk.solid(j, y, 0),
                Direction::ZPos => chunk.solid(j, y, dim - 1),
                Direction::YNeg => false,
                Direction::YPos => false,
            };
            let ghost p0 = p@;
            p.push(s);
            proof {
                assert(s == boundary_solid(*chunk, dir, y as int, j as int));
                assert forall|b: int, i: int|
                    0 <= b < y && 0 <= i < dim implies #[trigger] p@[b * dim + i]
                    == boundary_solid(*chunk, dir, b, i) by {
                    lemma_plane_index_bounds(b, i, dim as int, y as int);
                    assert(b * dim + i < y * dim);
                    assert(p@[b * dim + i] == p0[b * dim + i]);
                }
            }
            j = j + 1;
        }
        proof {
            assert(y * dim + dim == (y + 1) * dim) by (nonlinear_arith);
        }
        y = y + 1;
    }
    p
}

/// The position of a direction in the enumeration order.
pub open spec fn dir_index(dir: Direction) -> int {
    match dir {
        Direction::XNeg => 0,
        Direction::XPos => 1,
        Direction::YNeg => 2,
        Direction::YPos => 3,
        Direction::ZNeg => 4,
        Direction::ZPos => 5,
    }
}

/// An exposed pair among the first `t` has its face in their face list.
proof fn lemma_mesh_upto_has(c: Chunk, halo: Halo, store: BlockMaterialStore, t: nat, n: int)
    requires
        0 <= n < t,
        flat_exposed(c, halo, n),
    ensures
        exists|i: int|
            0 <= i < mesh_upto(c, halo, store, t).len() && mesh_upto(c, halo, store, t)[i]
                == flat_face(c, store, n),
    decreases t,
{
    let t1 = (t - 1) as nat;
    let p = mesh_upto(c, halo, store, t1);
    let m = mesh_upto(c, halo, store, t);
    if n == t - 1 {
        let i0 = m.len() - 1;
        assert(0 <= i0 < m.len() && m[i0] == flat_face(c, store, n));
    } else {
        lemma_mesh_upto_has(c, halo, store, t1, n);
        let i0 = choose|i: int| 0 <= i < p.len() && p[i] == flat_face(c, store, n);
        assert(m[i0] == p[i0]);
        assert(0 <= i0 < m.len() && m[i0] == flat_face(c, store, n));
    }
}

/// Every face in the face list of the first `t` pairs comes from an
/// exposed pair among them.
proof fn lemma_mesh_upto_member_origin(
    c: Chunk,
    halo: Halo,
    store: BlockMaterialStore,
    t: nat,
    i: int,
)
    requires
        0 <= i < mesh_upto(c, halo, store, t).len(),
    ensures
        exists|n: int|
            0 <= n < t && flat_exposed(c, halo, n) && mesh_upto(c, halo, store, t)[i]
                == #[trigger] flat_face(c, store, n),
    decreases t,
{
    let t1 = (t - 1) as nat;
    let p = mesh_upto(c, halo, store, t1);
    let m = mesh_upto(c, halo, store, t);
    if flat_exposed(c, halo, t - 1) && i == p.len() {
        assert(m[i] == flat_face(c, store, t - 1));
    } else {
        assert(m[i] == p[i]);
        lemma_mesh_upto_member_origin(c, halo, store, t1, i);
        let n0 = choose|n: int|
            0 <= n < t1 && flat_exposed(c, halo, n) && p[i] == flat_face(c, store, n);
        assert(0 <= n0 < t && flat_exposed(c, halo, n0) && m[i] == flat_face(c, store, n0));
    }
}

/// Two positions of the face list of the first `t` pairs never hold the
/// same face.
proof fn lemma_mesh_upto_distinct_at(
    c: Chunk,
    halo: Halo,
    store: BlockMaterialStore,
    t: nat,
    i: int,
    j: int,
)
    requires
        c.wf(),
        t <= pair_total(c),
        0 <= i < j < mesh_upto(c, halo, store, t).len(),
    ensures
        mesh_upto(c, halo, store, t)[i] != mesh_upto(c, halo, store, t)[j],
    decreases t,
{
    let t1 = (t - 1) as nat;
    let p = mesh_upto(c, halo, store, t1);
    let m = mesh_upto(c, halo, store, t);
    if flat_exposed(c, halo, t - 1) && j == p.len() {
        assert(m[i] == p[i]);
        assert(m[j] == flat_face(c, store, t - 1));
        lemma_mesh_upto_member_origin(c, halo, store, t1, i);
        let n0 = choose|n: int|
            0 <= n < t1 && flat_exposed(c, halo, n) && p[i] == flat_face(c, store, n);
        if m[i] == m[j] {
            reveal(flat_face);
            lemma_flat_decode(c, n0);
            lemma_flat_decode(c, t - 1);
            lemma_face_at_injective(
                c,
                store,
                flat_lx(c, n0),
                flat_y(c, n0),
                flat_lz(c, n0),
                flat_dir(n0),
                flat_lx(c, t - 1),
                flat_y(c, t - 1),
                flat_lz(c, t - 1),
                flat_dir(t - 1),
            );
            assert(n0 % 6 == (t - 1) % 6);
            assert(n0 == t - 1);
            assert(false);
        }
    } else {
        assert(m[i] == p[i] && m[j] == p[j]);
        lemma_mesh_upto_distinct_at(c, halo, store, t1, i, j);
    }
}

/// No double culling, counted: the mesh holds exactly one face per exposed
/// (solid voxel, direction) pair — its length equals the number of pairs
/// whose neighbor in that direction is empty or out of bounds — and no
/// face appears twice in it.
pub proof fn lemma_mesh_count(c: Chunk, halo: Halo, store: BlockMaterialStore)
    requires
        c.wf(),
    ensures
        spec_mesh(c, halo, store).len() == spec_exposed_count(c, halo),
        forall|i: int, j: int|
            #![trigger spec_mesh(c, halo, store)[i], spec_mesh(c, halo, store)[j]]
            0 <= i < j < spec_mesh(c, halo, store).len() ==> spec_mesh(c, halo, store)[i]
                != spec_mesh(c, halo, store)[j],
{
    let total = pair_total(c) as nat;
    lemma_mesh_upto_len(c, halo, store, total);
    assert forall|i: int, j: int|
        #![trigger spec_mesh(c, halo, store)[i], spec_mesh(c, halo, store)[j]]
        0 <= i < j < spec_mesh(c, halo, store).len() implies spec_mesh(c, halo, store)[i]
        != spec_mesh(c, halo, store)[j] by {
        lemma_mesh_upto_distinct_at(c, halo, store, total, i, j);
    }
}

/// Membership, exactly: the mesh holds the face of an in-bounds
/// (cell, direction) pair if and only if that pair is exposed.
pub proof fn lemma_mesh_contains_iff(
    c: Chunk,
    halo: Halo,
    store: BlockMaterialStore,
    lx: int,
    y: int,
    lz: int,
    dir: Direction,
)
    requires
        c.wf(),
        c.in_bounds(lx, y, lz),
    ensures
        exposed(c, halo, lx, y, lz, dir) <==> exists|i: int|
            0 <= i < spec_mesh(c, halo, store).len() && spec_mesh(c, halo, store)[i] == face_at(
                c,
                store,
                lx,
                y,
                lz,
                dir,
            ),
{
    reveal(flat_exposed);
    reveal(flat_face);
    let total = pair_total(c) as nat;
    let k = dir_index(dir);
    lemma_flat_encode(c, lx, y, lz, k);
    let t = chunk_index(c.dim as int, c.height as int, lx, y, lz) * 6 + k;
    assert(dir_of(k) == dir);
    assert(flat_exposed(c, halo, t) == exposed(c, halo, lx, y, lz, dir));
    assert(flat_face(c, store, t) == face_at(c, store, lx, y, lz, dir));
    if exposed(c, halo, lx, y, lz, dir) {
        lemma_mesh_upto_has(c, halo, store, total, t);
    }
    if exists|i: int|
        0 <= i < spec_mesh(c, halo, store).len() && spec_mesh(c, halo, store)[i] == face_at(
            c,
            store,
            lx,
            y,
            lz,
            dir,
        ) {
        let i0 = choose|i: int|
            0 <= i < spec_mesh(c, halo, store).len() && spec_mesh(c, halo, store)[i] == face_at(
                c,
                store,
                lx,
                y,
                lz,
                dir,
            );
        lemma_mesh_upto_member_origin(c, halo, store, total, i0);
        let n0 = choose|n: int|
            0 <= n < total && flat_exposed(c, halo, n) && mesh_upto(c, halo, store, total)[i0]
                == flat_face(c, store, n);
        lemma_flat_decode(c, n0);
        lemma_face_at_injective(
            c,
            store,
            flat_lx(c, n0),
            flat_y(c, n0),
            flat_lz(c, n0),
            flat_dir(n0),
            lx,
            y,
            lz,
            dir,
        );
        assert(exposed(c, halo, lx, y, lz, dir));
    }
}

/// No double culling, pairwise: when two adjacent in-chunk voxels are both
/// solid, the face they share is emitted from neither side.
pub proof fn lemma_no_double_culling(
    c: Chunk,
    halo: Halo,
    store: BlockMaterialStore,
    lx: int,
    y: int,
    lz: int,
    dir: Direction,
)
    requires
        c.wf(),
        c.in_bounds(lx, y, lz),
        c.in_bounds(lx + dir_dx(dir), y + dir_dy(dir), lz + dir_dz(dir)),
        c.solid_at(lx, y, lz),
        c.solid_at(lx + dir_dx(dir), y + dir_dy(dir), lz + dir_dz(dir)),
    ensures
        !exists|i: int|
            0 <= i < spec_mesh(c, halo, store).len() && spec_mesh(c, halo, store)[i] == face_at(
                c,
                store,
                lx,
                y,
                lz,
                dir,
            ),
        !exists|i: int|
            0 <= i < spec_mesh(c, halo, store).len() && spec_mesh(c, halo, store)[i] == face_at(
                c,
                store,
                lx + dir_dx(dir),
                y + dir_dy(dir),
                lz + dir_dz(dir),
                opposite(dir),
            ),
{
    let nx = lx + dir_dx(dir);
    let ny = y + dir_dy(dir);
    let nz = lz + dir_dz(dir);
    assert(neighbor_solid(c, halo, lx, y, lz, dir));
    assert(!exposed(c, halo, lx, y, lz, dir));
    assert(nx + dir_dx(opposite(dir)) == lx);
    assert(ny + dir_dy(opposite(dir)) == y);
    assert(nz + dir_dz(opposite(dir)) == lz);
    assert(neighbor_solid(c, halo, nx, ny, nz, opposite(dir)));
    assert(!exposed(c, halo, nx, ny, nz, opposite(dir)));
    lemma_mesh_contains_iff(c, halo, store, lx, y, lz, dir);
    lemma_mesh_contains_iff(c, halo, store, nx, ny, nz, opposite(dir));
}

/// Whether a cell's face in a direction looks out of the generated world:
/// the neighbor lies outside the chunk, and no neighbor chunk covers it —
/// above and below the world there is never one, sideways there is none
/// exactly when the matching halo plane is absent.
pub open spec fn at_world_edge(
    c: Chunk,
    halo: Halo,
    lx: int,
    y: int,
    lz: int,
    dir: Direction,
) -> bool {
    match dir {
        Direction::XNeg => lx == 0 && halo.x_neg is None,
        Direction::XPos => lx == c.dim - 1 && halo.x_pos is None,
        Direction::YNeg => y == 0,
        Direction::YPos => y == c.height - 1,
        Direction::ZNeg => lz == 0 && halo.z_neg is None,
        Direction::ZPos => lz == c.dim - 1 && halo.z_pos is None,
    }
}

/// Boundary exposure: a solid voxel whose face looks out of the generated
/// world always has that face emitted.
pub proof fn lemma_boundary_exposure(
    c: Chunk,
    halo: Halo,
    store: BlockMaterialStore,
    lx: int,
    y: int,
    lz: int,
    dir: Direction,
)
    requires
        c.wf(),
        c.in_bounds(lx, y, lz),
        c.solid_at(lx, y, lz),
        at_world_edge(c, halo, lx, y, lz, dir),
    ensures
        exists|i: int|
            0 <= i < spec_mesh(c, halo, store).len() && spec_mesh(c, halo, store)[i] == face_at(
                c,
                store,
                lx,
                y,
                lz,
                dir,
            ),
{
    assert(!neighbor_solid(c, halo, lx, y, lz, dir));
    assert(exposed(c, halo, lx, y, lz, dir));
    lemma_mesh_contains_iff(c, halo, store, lx, y, lz, dir);
}

} // verus!
