use crate::error::VoxelError;
use crate::mesh::Mesh;
use crate::mesh::MeshView;
use crate::palette::Color;
use crate::palette::Palette;
use crate::vertex::Vertex;
use crate::voxelblock::faces::lemma_mesh_push;
use vstd::prelude::*;

pub mod faces;
pub mod geometry;

verus! {

/// The number of cells along each edge of a block.
pub const BLOCK_SIZE: usize = 16;

/// One of the six directions along the axes.
#[derive(Clone, Copy, PartialEq, Eq, Structural, Debug)]
pub enum Direction {
    XPlus,
    XMinus,
    YPlus,
    YMinus,
    ZPlus,
    ZMinus,
}

/// The directions in the order in which the faces of a cell are written.
pub const DIRECTION_ORDERING: [Direction; 6] = [
    Direction::XPlus,
    Direction::XMinus,
    Direction::YPlus,
    Direction::YMinus,
    Direction::ZPlus,
    Direction::ZMinus,
];

impl Direction {
    /// The directions in the order in which the faces of a cell are written.
    pub open spec fn order() -> Seq<Direction> {
        seq![
            Direction::XPlus,
            Direction::XMinus,
            Direction::YPlus,
            Direction::YMinus,
            Direction::ZPlus,
            Direction::ZMinus,
        ]
    }

    /// The place of the direction in `order`.
    pub open spec fn rank(self) -> int {
        match self {
            Direction::XPlus => 0,
            Direction::XMinus => 1,
            Direction::YPlus => 2,
            Direction::YMinus => 3,
            Direction::ZPlus => 4,
            Direction::ZMinus => 5,
        }
    }

    /// The unit vector of the direction.
    pub open spec fn normal(self) -> (int, int, int) {
        match self {
            Direction::XPlus => (1, 0, 0),
            Direction::XMinus => (-1, 0, 0),
            Direction::YPlus => (0, 1, 0),
            Direction::YMinus => (0, -1, 0),
            Direction::ZPlus => (0, 0, 1),
            Direction::ZMinus => (0, 0, -1),
        }
    }

    /// The axis along which the second corner of a face lies from the first.
    pub open spec fn first_edge(self) -> (int, int, int) {
        match self {
            Direction::XPlus => (0, 1, 0),
            Direction::XMinus => (0, 0, 1),
            Direction::YPlus => (0, 0, 1),
            Direction::YMinus => (1, 0, 0),
            Direction::ZPlus => (1, 0, 0),
            Direction::ZMinus => (0, 1, 0),
        }
    }

    /// The axis along which the last corner of a face lies from the first. Seen from
    /// outside the cell, it is a quarter turn against the clock from the first edge.
    pub open spec fn second_edge(self) -> (int, int, int) {
        match self {
            Direction::XPlus => (0, 0, 1),
            Direction::XMinus => (0, 1, 0),
            Direction::YPlus => (1, 0, 0),
            Direction::YMinus => (0, 0, 1),
            Direction::ZPlus => (0, 1, 0),
            Direction::ZMinus => (1, 0, 0),
        }
    }

    /// Whether the cell `(x, y, z)` has a neighbour in this direction: the step does
    /// not pass the first or the last cell of its axis.
    pub open spec fn stays(self, x: int, y: int, z: int) -> bool {
        match self {
            Direction::XPlus => x < BLOCK_SIZE - 1,
            Direction::XMinus => x > 0,
            Direction::YPlus => y < BLOCK_SIZE - 1,
            Direction::YMinus => y > 0,
            Direction::ZPlus => z < BLOCK_SIZE - 1,
            Direction::ZMinus => z > 0,
        }
    }

    /// The neighbour of the cell `(x, y, z)` one step in this direction, if the block
    /// has one.
    pub open spec fn neighbor(self, x: int, y: int, z: int) -> Option<(int, int, int)> {
        if self.stays(x, y, z) {
            Some((x + self.normal().0, y + self.normal().1, z + self.normal().2))
        } else {
            None
        }
    }

    /// The neighbour of the cell `(x, y, z)` one step in this direction, or `None`
    /// where the step leaves the block.
    pub fn shift_pos(&self, x: usize, y: usize, z: usize) -> (r: Option<(usize, usize, usize)>)
        ensures
            r == match self.neighbor(x as int, y as int, z as int) {
                Some((nx, ny, nz)) => Some((nx as usize, ny as usize, nz as usize)),
                None => None,
            },
    {
        match *self {
            Direction::XPlus if x < BLOCK_SIZE - 1 => Some((x + 1, y, z)),
            Direction::XMinus if x > 0 => Some((x - 1, y, z)),
            Direction::YPlus if y < BLOCK_SIZE - 1 => Some((x, y + 1, z)),
            Direction::YMinus if y > 0 => Some((x, y - 1, z)),
            Direction::ZPlus if z < BLOCK_SIZE - 1 => Some((x, y, z + 1)),
            Direction::ZMinus if z > 0 => Some((x, y, z - 1)),
            _ => None,
        }
    }

    /// The six directions, in the order in which the faces of a cell are written.
    pub fn iter_values() -> (directions: [Direction; 6])
        ensures
            directions@ == Direction::order(),
    {
        DIRECTION_ORDERING
    }
}

/// A face of a cell: the cell, the direction that the face looks along, and the
/// handle of the cell's colour.
pub struct Face {
    pub x: int,
    pub y: int,
    pub z: int,
    pub dir: Direction,
    pub handle: u8,
}

/// On which side of the centre of a face corner `k` lies, along the first and along
/// the second edge of the face: the corners go round the face from the side that
/// is low along both edges, first along the first edge.
pub open spec fn corner_sides(k: int) -> (bool, bool) {
    if k == 0 {
        (false, false)
    } else if k == 1 {
        (true, false)
    } else if k == 2 {
        (true, true)
    } else {
        (false, true)
    }
}

/// One step along `axis`, forward where `high` holds and backward where not.
pub open spec fn step_along(axis: (int, int, int), high: bool) -> (int, int, int) {
    if high {
        axis
    } else {
        (-axis.0, -axis.1, -axis.2)
    }
}

/// Corner `k` of the face of the cell `(x, y, z)` in the direction `dir`.
///
/// In half cells from the origin, the centre of the cell lies at `2 * x - BLOCK_SIZE`
/// (likewise for y and z), the face one half cell from it along the normal, and the
/// corner one half cell from the centre of the face along each of the face's edges.
pub open spec fn corner(x: int, y: int, z: int, dir: Direction, k: int, color: Color) -> Vertex {
    let n = dir.normal();
    let a = step_along(dir.first_edge(), corner_sides(k).0);
    let b = step_along(dir.second_edge(), corner_sides(k).1);
    Vertex {
        position: [
            (2 * x - BLOCK_SIZE + n.0 + a.0 + b.0) as i32,
            (2 * y - BLOCK_SIZE + n.1 + a.1 + b.1) as i32,
            (2 * z - BLOCK_SIZE + n.2 + a.2 + b.2) as i32,
        ],
        color,
        normal: [n.0 as i32, n.1 as i32, n.2 as i32],
    }
}

/// The four corners of a face.
pub open spec fn quad_vertices(x: int, y: int, z: int, dir: Direction, color: Color) -> Seq<
    Vertex,
> {
    Seq::new(4, |k: int| corner(x, y, z, dir, k, color))
}

/// The two triangles of a face whose first corner has the index `base`: corners 0, 1,
/// 2 and corners 2, 3, 0.
pub open spec fn quad_indices(base: int) -> Seq<u32> {
    seq![
        base as u32,
        (base + 1) as u32,
        (base + 2) as u32,
        (base + 2) as u32,
        (base + 3) as u32,
        base as u32,
    ]
}

/// A cell of a block, by its coordinates.
pub struct Cube {
    pub x: usize,
    pub y: usize,
    pub z: usize,
}

impl Cube {
    /// Appends to `mesh` the face of this cell that looks along `dir`, in the colour
    /// that `palette` has for the handle `cell`: four new vertices and two triangles.
    /// Fails with the handle, and appends nothing, where the palette has no colour
    /// for it.
    pub fn write_face(&self, mesh: &mut Mesh, dir: Direction, palette: &Palette, cell: u8) -> (r:
        Result<(), VoxelError>)
        requires
            old(mesh).wf(),
            old(mesh)@.vertices.len() + 3 <= u32::MAX,
            self.x < BLOCK_SIZE,
            self.y < BLOCK_SIZE,
            self.z < BLOCK_SIZE,
        ensures
            final(mesh).wf(),
            1 <= cell <= palette@.len() ==> r is Ok && final(mesh)@.vertices == old(mesh)@.vertices + quad_vertices(
                self.x as int,
                self.y as int,
                self.z as int,
                dir,
                palette@[cell - 1],
            ) && final(mesh)@.indices == old(mesh)@.indices + quad_indices(
                old(mesh)@.vertices.len() as int,
            ),
            !(1 <= cell <= palette@.len()) ==> r == Err::<(), VoxelError>(
                VoxelError::Reference(cell),
            ) && final(mesh)@.vertices == old(mesh)@.vertices && final(mesh)@.indices
                == old(mesh)@.indices,
    {
        let color = match palette.get_color(cell) {
            Ok(color) => color,
            Err(_) => {
                return Err(VoxelError::Reference(cell));
            },
        };
        let x: i32 = 2 * (self.x as i32) - (BLOCK_SIZE as i32);
        let y: i32 = 2 * (self.y as i32) - (BLOCK_SIZE as i32);
        let z: i32 = 2 * (self.z as i32) - (BLOCK_SIZE as i32);
        let size: i32 = 1;
        let ghost quad = quad_vertices(self.x as int, self.y as int, self.z as int, dir, color);
        let ghost before = mesh@.vertices;
        match dir {
            Direction::XPlus => {
                let normal = [1i32, 0, 0];
                let v1 = mesh.add_vertex(Vertex::new([x + size, y - size, z - size], color, normal));
                let v2 = mesh.add_vertex(Vertex::new([x + size, y + size, z - size], color, normal));
                let v3 = mesh.add_vertex(Vertex::new([x + size, y + size, z + size], color, normal));
                let v4 = mesh.add_vertex(Vertex::new([x + size, y - size, z + size], color, normal));
                mesh.add_triangle(v1, v2, v3);
                mesh.add_triangle(v3, v4, v1);
            },
            Direction::XMinus => {
                let normal = [-1i32, 0, 0];
                let v1 = mesh.add_vertex(Vertex::new([x - size, y - size, z - size], color, normal));
                let v2 = mesh.add_vertex(Vertex::new([x - size, y - size, z + size], color, normal));
                let v3 = mesh.add_vertex(Vertex::new([x - size, y + size, z + size], color, normal));
                let v4 = mesh.add_vertex(Vertex::new([x - size, y + size, z - size], color, normal));
                mesh.add_triangle(v1, v2, v3);
                mesh.add_triangle(v3, v4, v1);
            },
            Direction::YPlus => {
                let normal = [0i32, 1, 0];
                let v1 = mesh.add_vertex(Vertex::new([x - size, y + size, z - size], color, normal));
                let v2 = mesh.add_vertex(Vertex::new([x - size, y + size, z + size], color, normal));
                let v3 = mesh.add_vertex(Vertex::new([x + size, y + size, z + size], color, normal));
                let v4 = mesh.add_vertex(Vertex::new([x + size, y + size, z - size], color, normal));
                mesh.add_triangle(v1, v2, v3);
                mesh.add_triangle(v3, v4, v1);
            },
            Direction::YMinus => {
                let normal = [0i32, -1, 0];
                let v1 = mesh.add_vertex(Vertex::new([x - size, y - size, z - size], color, normal));
                let v2 = mesh.add_vertex(Vertex::new([x + size, y - size, z - size], color, normal));
                let v3 = mesh.add_vertex(Vertex::new([x + size, y - size, z + size], color, normal));
                let v4 = mesh.add_vertex(Vertex::new([x - size, y - size, z + size], color, normal));
                mesh.add_triangle(v1, v2, v3);
                mesh.add_triangle(v3, v4, v1);
            },
            Direction::ZPlus => {
                let normal = [0i32, 0, 1];
                let v1 = mesh.add_vertex(Vertex::new([x - size, y - size, z + size], color, normal));
                let v2 = mesh.add_vertex(Vertex::new([x + size, y - size, z + size], color, normal));
                let v3 = mesh.add_vertex(Vertex::new([x + size, y + size, z + size], color, normal));
                let v4 = mesh.add_vertex(Vertex::new([x - size, y + size, z + size], color, normal));
                mesh.add_triangle(v1, v2, v3);
                mesh.add_triangle(v3, v4, v1);
            },
            Direction::ZMinus => {
                let normal = [0i32, 0, -1];
                let v1 = mesh.add_vertex(Vertex::new([x - size, y - size, z - size], color, normal));
                let v2 = mesh.add_vertex(Vertex::new([x - size, y + size, z - size], color, normal));
                let v3 = mesh.add_vertex(Vertex::new([x + size, y + size, z - size], color, normal));
                let v4 = mesh.add_vertex(Vertex::new([x + size, y - size, z - size], color, normal));
                mesh.add_triangle(v1, v2, v3);
                mesh.add_triangle(v3, v4, v1);
            },
        }
        proof {
            let after = mesh@.vertices;
            let base = before.len() as int;
            assert(after.len() == base + 4);
            assert(after[base] == quad[0]);
            assert(after[base + 1] == quad[1]);
            assert(after[base + 2] == quad[2]);
            assert(after[base + 3] == quad[3]);
            assert(after =~= before + quad);
            assert(mesh@.indices =~= old(mesh)@.indices + quad_indices(before.len() as int));
        }
        Ok(())
    }
}

/// Whether `(x, y, z)` are the coordinates of a cell.
pub open spec fn in_block(x: int, y: int, z: int) -> bool {
    0 <= x < BLOCK_SIZE && 0 <= y < BLOCK_SIZE && 0 <= z < BLOCK_SIZE
}

/// The place of the cell `(x, y, z)` in the order in which the cells are visited: x
/// first, then y, then z.
pub open spec fn cell_rank(x: int, y: int, z: int) -> int {
    (x * BLOCK_SIZE + y) * BLOCK_SIZE + z
}

/// The place of a face in the order in which the faces are written: the faces of a
/// cell follow those of the cells before it, in the order of the directions.
pub open spec fn face_rank(face: Face) -> int {
    6 * cell_rank(face.x, face.y, face.z) + face.dir.rank()
}

/// The vertices of a mesh that holds `faces` in their order, four to a face, each
/// face in the colour that `colors` has for its handle.
pub open spec fn mesh_vertices(faces: Seq<Face>, colors: Seq<Color>) -> Seq<Vertex> {
    Seq::new(
        4 * faces.len(),
        |i: int|
            corner(
                faces[i / 4].x,
                faces[i / 4].y,
                faces[i / 4].z,
                faces[i / 4].dir,
                i % 4,
                colors[faces[i / 4].handle - 1],
            ),
    )
}

/// The indices of a mesh that holds `count` faces, six to a face: face `f` has the
/// vertices from `4 * f` on.
pub open spec fn mesh_indices(count: nat) -> Seq<u32> {
    Seq::new(6 * count, |i: int| quad_indices(4 * (i / 6))[i % 6])
}

/// A cube of `BLOCK_SIZE` cells along each edge. A cell holds the handle of its
/// colour, or 0 where it is empty.
pub struct VoxelBlock {
    pub data: [[[u8; BLOCK_SIZE]; BLOCK_SIZE]; BLOCK_SIZE],
}

impl VoxelBlock {
    /// The handle in the cell `(x, y, z)`.
    pub open spec fn cell(&self, x: int, y: int, z: int) -> u8 {
        self.data[x][y][z]
    }

    /// Whether the cell `(x, y, z)` holds a colour.
    pub open spec fn occupied(&self, x: int, y: int, z: int) -> bool {
        self.cell(x, y, z) > 0
    }

    /// Whether the face of the cell `(x, y, z)` in the direction `dir` can be seen:
    /// it lies on the boundary of the block, or the neighbour behind it is empty.
    pub open spec fn exposed(&self, x: int, y: int, z: int, dir: Direction) -> bool {
        match dir.neighbor(x, y, z) {
            Some((nx, ny, nz)) => !self.occupied(nx, ny, nz),
            None => true,
        }
    }

    /// The faces of the cell `(x, y, z)` that can be seen, among the first `d`
    /// directions.
    pub open spec fn cell_faces(&self, x: int, y: int, z: int, d: nat) -> Seq<Face>
        decreases d,
    {
        if d == 0 {
            Seq::empty()
        } else {
            let before = self.cell_faces(x, y, z, (d - 1) as nat);
            let dir = Direction::order()[d - 1];
            if self.exposed(x, y, z, dir) {
                before.push(Face { x, y, z, dir, handle: self.cell(x, y, z) })
            } else {
                before
            }
        }
    }

    /// The faces of the first `z` cells of the row `(x, y)`.
    pub open spec fn row_faces(&self, x: int, y: int, z: nat) -> Seq<Face>
        decreases z,
    {
        if z == 0 {
            Seq::empty()
        } else {
            let before = self.row_faces(x, y, (z - 1) as nat);
            if self.occupied(x, y, z - 1) {
                before + self.cell_faces(x, y, z - 1, 6)
            } else {
                before
            }
        }
    }

    /// The faces of the first `y` rows of the layer `x`.
    pub open spec fn layer_faces(&self, x: int, y: nat) -> Seq<Face>
        decreases y,
    {
        if y == 0 {
            Seq::empty()
        } else {
            self.layer_faces(x, (y - 1) as nat) + self.row_faces(x, y - 1, BLOCK_SIZE as nat)
        }
    }

    /// The faces of the first `x` layers.
    pub open spec fn block_faces(&self, x: nat) -> Seq<Face>
        decreases x,
    {
        if x == 0 {
            Seq::empty()
        } else {
            self.block_faces((x - 1) as nat) + self.layer_faces(x - 1, BLOCK_SIZE as nat)
        }
    }

    /// The faces that can be seen: those of the occupied cells that lie on the
    /// boundary of the block or before an empty cell. They stand in the order of their
    /// cells, x first, then y, then z, and those of one cell in the order of the
    /// directions.
    pub open spec fn faces(&self) -> Seq<Face> {
        self.block_faces(BLOCK_SIZE as nat)
    }

    /// What the mesh of the block holds, with the colours `colors`: the corners and
    /// the triangles of the faces that can be seen.
    pub open spec fn mesh_of(&self, colors: Seq<Color>) -> MeshView {
        MeshView {
            vertices: mesh_vertices(self.faces(), colors),
            indices: mesh_indices(self.faces().len()),
        }
    }

    /// Whether the block shows `face`: it is the face of an occupied cell, carries the
    /// handle of that cell, and lies on the boundary of the block or before an empty
    /// cell.
    pub open spec fn shows(&self, face: Face) -> bool {
        &&& in_block(face.x, face.y, face.z)
        &&& self.occupied(face.x, face.y, face.z)
        &&& self.exposed(face.x, face.y, face.z, face.dir)
        &&& face.handle == self.cell(face.x, face.y, face.z)
    }

    /// Whether every handle in the block is at most `n_colors`.
    pub open spec fn handles_within(&self, n_colors: nat) -> bool {
        forall|x: int, y: int, z: int| in_block(x, y, z) ==> #[trigger] self.cell(x, y, z) <= n_colors
    }

    /// Whether `(x, y, z)` is the first cell, in the order of `cell_rank`, whose handle
    /// is above `n_colors`.
    pub open spec fn first_foreign(&self, x: int, y: int, z: int, n_colors: nat) -> bool {
        &&& in_block(x, y, z)
        &&& self.cell(x, y, z) > n_colors
        &&& forall|a: int, b: int, c: int|
            in_block(a, b, c) && cell_rank(a, b, c) < cell_rank(x, y, z) ==> #[trigger] self.cell(
                a,
                b,
                c,
            ) <= n_colors
    }

    /// Whether `r` is what `to_mesh` returns for this block and a palette that holds
    /// `colors`: the mesh of the faces that can be seen where the palette has a colour
    /// for every handle in the block, else the handle of the first cell for which it
    /// has none.
    pub open spec fn meshed(&self, colors: Seq<Color>, r: Result<Mesh, VoxelError>) -> bool {
        match r {
            Ok(mesh) => {
                &&& self.handles_within(colors.len())
                &&& mesh.wf()
                &&& mesh@ == self.mesh_of(colors)
            },
            Err(e) => exists|x: int, y: int, z: int|
                #![trigger self.cell(x, y, z)]
                self.first_foreign(x, y, z, colors.len()) && e == VoxelError::Reference(
                    self.cell(x, y, z),
                ),
        }
    }

    /// A block whose cells are all empty.
    pub fn new() -> (block: VoxelBlock)
        ensures
            forall|x: int, y: int, z: int| in_block(x, y, z) ==> #[trigger] block.cell(x, y, z) == 0,
    {
        VoxelBlock { data: [[[0u8; BLOCK_SIZE]; BLOCK_SIZE]; BLOCK_SIZE] }
    }

    /// Whether `(x, y, z)` is a cell of the block that holds a colour.
    pub fn is_occupied(&self, x: usize, y: usize, z: usize) -> (r: bool)
        ensures
            r == (in_block(x as int, y as int, z as int) && self.occupied(
                x as int,
                y as int,
                z as int,
            )),
    {
        x < BLOCK_SIZE && y < BLOCK_SIZE && z < BLOCK_SIZE && self.data[x][y][z] > 0
    }

    /// The handle in the cell `(x, y, z)`, which must lie in the block.
    pub fn get(&self, x: usize, y: usize, z: usize) -> (r: Result<u8, VoxelError>)
        ensures
            in_block(x as int, y as int, z as int) ==> r == Ok::<u8, VoxelError>(
                self.cell(x as int, y as int, z as int),
            ),
            !in_block(x as int, y as int, z as int) ==> r == Err::<u8, VoxelError>(
                VoxelError::Range,
            ),
    {
        if x < BLOCK_SIZE && y < BLOCK_SIZE && z < BLOCK_SIZE {
            Ok(self.data[x][y][z])
        } else {
            Err(VoxelError::Range)
        }
    }

    /// Puts `handle` into the cell `(x, y, z)`, which must lie in the block, and
    /// leaves every other cell as it was.
    pub fn set(&mut self, x: usize, y: usize, z: usize, handle: u8) -> (r: Result<(), VoxelError>)
        ensures
            in_block(x as int, y as int, z as int) ==> r == Ok::<(), VoxelError>(()) && forall|
                a: int,
                b: int,
                c: int,
            |
                in_block(a, b, c) ==> #[trigger] final(self).cell(a, b, c) == if a == x && b == y
                    && c == z {
                    handle
                } else {
                    old(self).cell(a, b, c)
                },
            !in_block(x as int, y as int, z as int) ==> r == Err::<(), VoxelError>(
                VoxelError::Range,
            ) && *final(self) == *old(self),
    {
        if x < BLOCK_SIZE && y < BLOCK_SIZE && z < BLOCK_SIZE {
            self.data[x][y][z] = handle;
            Ok(())
        } else {
            Err(VoxelError::Range)
        }
    }

    /// The mesh of the faces that can be seen, in their order: four vertices and two
    /// triangles for each, in the colour that `palette` has for the handle of the
    /// cell. Fails where a cell holds a handle that `palette` has no colour for, with
    /// the handle of the first such cell.
    pub fn to_mesh(&self, palette: &Palette) -> (r: Result<Mesh, VoxelError>)
        ensures
            self.meshed(palette@, r),
    {
        let mut mesh = Mesh::empty();
        let n_colors = palette.len();
        let directions = Direction::iter_values();
        let ghost colors = palette@;
        let ghost mut faces: Seq<Face> = Seq::empty();

        let mut x: usize = 0;
        while x < BLOCK_SIZE
            invariant
                x <= BLOCK_SIZE,
                n_colors == colors.len(),
                colors == palette@,
                directions@ == Direction::order(),
                mesh.wf(),
                faces == self.block_faces(x as nat),
                mesh@.vertices == mesh_vertices(faces, colors),
                mesh@.indices == mesh_indices(faces.len()),
                forall|a: int, b: int, c: int|
                    in_block(a, b, c) && cell_rank(a, b, c) < cell_rank(x as int, 0, 0)
                        ==> #[trigger] self.cell(a, b, c) <= n_colors,
            decreases BLOCK_SIZE - x,
        {
            let mut y: usize = 0;
            while y < BLOCK_SIZE
                invariant
                    x < BLOCK_SIZE,
                    y <= BLOCK_SIZE,
                    n_colors == colors.len(),
                    colors == palette@,
                    directions@ == Direction::order(),
                    mesh.wf(),
                    faces == self.block_faces(x as nat) + self.layer_faces(x as int, y as nat),
                    mesh@.vertices == mesh_vertices(faces, colors),
                    mesh@.indices == mesh_indices(faces.len()),
                    forall|a: int, b: int, c: int|
                        in_block(a, b, c) && cell_rank(a, b, c) < cell_rank(x as int, y as int, 0)
                            ==> #[trigger] self.cell(a, b, c) <= n_colors,
                decreases BLOCK_SIZE - y,
            {
                let mut z: usize = 0;
                while z < BLOCK_SIZE
                    invariant
                        x < BLOCK_SIZE,
                        y < BLOCK_SIZE,
                        z <= BLOCK_SIZE,
                        n_colors == colors.len(),
                        colors == palette@,
                        directions@ == Direction::order(),
                        mesh.wf(),
                        faces == self.block_faces(x as nat) + self.layer_faces(x as int, y as nat)
                            + self.row_faces(x as int, y as int, z as nat),
                        mesh@.vertices == mesh_vertices(faces, colors),
                        mesh@.indices == mesh_indices(faces.len()),
                        forall|a: int, b: int, c: int|
                            in_block(a, b, c) && cell_rank(a, b, c) < cell_rank(
                                x as int,
                                y as int,
                                z as int,
                            ) ==> #[trigger] self.cell(a, b, c) <= n_colors,
                    decreases BLOCK_SIZE - z,
                {
                    let current = self.data[x][y][z];
                    if current > 0 {
                        if current as usize > n_colors {
                            assert(self.first_foreign(x as int, y as int, z as int, colors.len()));
                            return Err(VoxelError::Reference(current));
                        }
                        let cube = Cube { x: x, y: y, z: z };
                        let ghost row = faces;
                        let mut d: usize = 0;
                        while d < 6
                            invariant
                                in_block(x as int, y as int, z as int),
                                cube.x == x,
                                cube.y == y,
                                cube.z == z,
                                d <= 6,
                                current == self.cell(x as int, y as int, z as int),
                                1 <= current <= colors.len(),
                                colors == palette@,
                                directions@ == Direction::order(),
                                mesh.wf(),
                                row == self.block_faces(x as nat) + self.layer_faces(
                                    x as int,
                                    y as nat,
                                ) + self.row_faces(x as int, y as int, z as nat),
                                faces == row + self.cell_faces(x as int, y as int, z as int, d as nat),
                                mesh@.vertices == mesh_vertices(faces, colors),
                                mesh@.indices == mesh_indices(faces.len()),
                            decreases 6 - d,
                        {
                            let dir = directions[d];
                            let seen = match dir.shift_pos(x, y, z) {
                                Some((nx, ny, nz)) => !self.is_occupied(nx, ny, nz),
                                None => true,
                            };
                            if seen {
                                let ghost face = Face {
                                    x: x as int,
                                    y: y as int,
                                    z: z as int,
                                    dir,
                                    handle: current,
                                };
                                proof {
                                    self.lemma_cell_faces_bounded(x as int, y as int, z as int, d as nat);
                                    self.lemma_row_faces_bounded(x as int, y as int, z as nat);
                                    self.lemma_layer_faces_bounded(x as int, y as nat);
                                    self.lemma_block_faces_bounded(x as nat);
                                    lemma_mesh_push(faces, face, colors);
                                }
                                match cube.write_face(&mut mesh, dir, palette, current) {
                                    Ok(()) => {},
                                    Err(e) => {
                                        return Err(e);
                                    },
                                }
                                proof {
                                    faces = faces.push(face);
                                }
                            }
                            d += 1;
                        }
                    }
                    z += 1;
                }
                y += 1;
            }
            x += 1;
        }
        proof {
            assert forall|a: int, b: int, c: int| in_block(a, b, c) implies #[trigger] self.cell(
                a,
                b,
                c,
            ) <= n_colors by {
                assert(cell_rank(a, b, c) < cell_rank(BLOCK_SIZE as int, 0, 0));
            }
        }
        Ok(mesh)
    }
}

} // verus!
