use crate::error::VoxelError;
use crate::mesh::Mesh;
use crate::palette::Color;
use crate::vertex::Vertex;
use crate::voxelblock::cell_rank;
use crate::voxelblock::face_rank;
use crate::voxelblock::in_block;
use crate::voxelblock::mesh_indices;
use crate::voxelblock::mesh_vertices;
use crate::voxelblock::quad_indices;
use crate::voxelblock::quad_vertices;
use crate::voxelblock::Direction;
use crate::voxelblock::Face;
use crate::voxelblock::VoxelBlock;
use crate::voxelblock::BLOCK_SIZE;
use vstd::prelude::*;

verus! {

/// One more face adds its four corners and its two triangles at the end.
pub proof fn lemma_mesh_push(faces: Seq<Face>, face: Face, colors: Seq<Color>)
    ensures
        mesh_vertices(faces.push(face), colors) == mesh_vertices(faces, colors) + quad_vertices(
            face.x,
            face.y,
            face.z,
            face.dir,
            colors[face.handle - 1],
        ),
        mesh_indices(faces.len() + 1) == mesh_indices(faces.len()) + quad_indices(
            4 * (faces.len() as int),
        ),
{
    let n = faces.len() as int;
    let longer = mesh_vertices(faces.push(face), colors);
    let joined = mesh_vertices(faces, colors) + quad_vertices(
        face.x,
        face.y,
        face.z,
        face.dir,
        colors[face.handle - 1],
    );
    assert forall|i: int| 0 <= i < 4 * n + 4 implies longer[i] == joined[i] by {
        if i < 4 * n {
            assert(i / 4 < n);
            assert(faces.push(face)[i / 4] == faces[i / 4]);
        } else {
            assert(i / 4 == n);
            assert(i % 4 == i - 4 * n);
        }
    }
    assert(longer =~= joined);
    let more = mesh_indices((n + 1) as nat);
    let both = mesh_indices(n as nat) + quad_indices(4 * n);
    assert forall|i: int| 0 <= i < 6 * n + 6 implies more[i] == both[i] by {
        if i >= 6 * n {
            assert(i / 6 == n);
            assert(i % 6 == i - 6 * n);
        }
    }
    assert(more =~= both);
}

/// How many sides of the block a cell with the coordinate `t` touches along that
/// axis: one where `t` is the first or the last coordinate.
spec fn boundary_sides(t: int) -> int {
    (if t == 0 {
        1int
    } else {
        0
    }) + (if t == BLOCK_SIZE - 1 {
        1int
    } else {
        0
    })
}

/// `k` times `n`, for the `k` that occur where faces are counted.
spec fn times(k: int, n: int) -> int {
    if k == 0 {
        0
    } else if k == 1 {
        n
    } else {
        2 * n
    }
}

/// How many of the first `n` coordinates of an axis are the first or the last one.
spec fn ends_within(n: int) -> int {
    (if n >= 1 {
        1int
    } else {
        0
    }) + (if n >= BLOCK_SIZE {
        1int
    } else {
        0
    })
}

impl VoxelBlock {
    /// Whether `faces` holds the faces that the block shows and whose places lie from
    /// `lo` up to, but not including, `hi`: each of them once, in the order of their
    /// places.
    spec fn shown_between(&self, faces: Seq<Face>, lo: int, hi: int) -> bool {
        &&& forall|i: int|
            0 <= i < faces.len() ==> self.shows(#[trigger] faces[i]) && lo <= face_rank(faces[i])
                < hi
        &&& forall|i: int, j: int|
            0 <= i < j < faces.len() ==> face_rank(#[trigger] faces[i]) < face_rank(
                #[trigger] faces[j],
            )
        &&& forall|face: Face|
            #[trigger] self.shows(face) && lo <= face_rank(face) < hi ==> faces.contains(face)
    }

    /// Two lists of shown faces, the places of the second following those of the
    /// first, make one.
    proof fn lemma_shown_join(&self, first: Seq<Face>, second: Seq<Face>, lo: int, mid: int, hi: int)
        requires
            lo <= mid <= hi,
            self.shown_between(first, lo, mid),
            self.shown_between(second, mid, hi),
        ensures
            self.shown_between(first + second, lo, hi),
    {
        let both = first + second;
        assert forall|i: int| 0 <= i < both.len() implies self.shows(#[trigger] both[i]) && lo
            <= face_rank(both[i]) < hi by {
            if i < first.len() {
                assert(both[i] == first[i]);
            } else {
                assert(both[i] == second[i - first.len()]);
            }
        }
        assert forall|i: int, j: int| 0 <= i < j < both.len() implies face_rank(
            #[trigger] both[i],
        ) < face_rank(#[trigger] both[j]) by {
            if j < first.len() {
                assert(both[i] == first[i] && both[j] == first[j]);
            } else if i < first.len() {
                assert(both[i] == first[i] && both[j] == second[j - first.len()]);
            } else {
                assert(both[i] == second[i - first.len()] && both[j] == second[j - first.len()]);
            }
        }
        assert forall|face: Face| #[trigger]
            self.shows(face) && lo <= face_rank(face) < hi implies both.contains(face) by {
            if face_rank(face) < mid {
                let k = choose|k: int| 0 <= k < first.len() && first[k] == face;
                assert(both[k] == face);
            } else {
                let k = choose|k: int| 0 <= k < second.len() && second[k] == face;
                assert(both[first.len() + k] == face);
            }
        }
    }

    /// Where the block shows no face with a place from `lo` to `hi`, the empty list
    /// holds them all.
    proof fn lemma_shown_none(&self, lo: int, hi: int)
        requires
            forall|face: Face| #[trigger] self.shows(face) ==> !(lo <= face_rank(face) < hi),
        ensures
            self.shown_between(Seq::empty(), lo, hi),
    {
    }

    /// The faces of a cell among the first `d` directions.
    proof fn lemma_cell_shown(&self, x: int, y: int, z: int, d: nat)
        requires
            in_block(x, y, z),
            self.occupied(x, y, z),
            d <= 6,
        ensures
            self.shown_between(
                self.cell_faces(x, y, z, d),
                6 * cell_rank(x, y, z),
                6 * cell_rank(x, y, z) + d,
            ),
        decreases d,
    {
        let start = 6 * cell_rank(x, y, z);
        if d > 0 {
            self.lemma_cell_shown(x, y, z, (d - 1) as nat);
            let before = self.cell_faces(x, y, z, (d - 1) as nat);
            let dir = Direction::order()[d - 1];
            assert(dir.rank() == d - 1);
            if self.exposed(x, y, z, dir) {
                let face = Face { x, y, z, dir, handle: self.cell(x, y, z) };
                let last = seq![face];
                assert forall|other: Face| #[trigger]
                    self.shows(other) && start + d - 1 <= face_rank(other) < start
                        + d implies last.contains(other) by {
                    assert(cell_rank(other.x, other.y, other.z) == cell_rank(x, y, z));
                    assert(other.dir.rank() == dir.rank());
                    assert(other == face);
                    assert(last[0] == other);
                }
                assert(self.shown_between(last, start + d - 1, start + d));
                self.lemma_shown_join(before, last, start, start + d - 1, start + d);
                assert(before + last == before.push(face));
            } else {
                assert forall|other: Face| #[trigger] self.shows(other) implies !(start + d - 1
                    <= face_rank(other) < start + d) by {
                    if start + d - 1 <= face_rank(other) < start + d {
                        assert(cell_rank(other.x, other.y, other.z) == cell_rank(x, y, z));
                        assert(other.dir.rank() == dir.rank());
                        assert(other.dir == dir);
                    }
                }
                self.lemma_shown_none(start + d - 1, start + d);
                self.lemma_shown_join(before, Seq::empty(), start, start + d - 1, start + d);
                assert(before + Seq::<Face>::empty() == before);
            }
        }
    }

    /// The faces of the first `z` cells of a row.
    proof fn lemma_row_shown(&self, x: int, y: int, z: nat)
        requires
            in_block(x, y, 0),
            z <= BLOCK_SIZE,
        ensures
            self.shown_between(
                self.row_faces(x, y, z),
                6 * cell_rank(x, y, 0),
                6 * cell_rank(x, y, z as int),
            ),
        decreases z,
    {
        if z > 0 {
            self.lemma_row_shown(x, y, (z - 1) as nat);
            let before = self.row_faces(x, y, (z - 1) as nat);
            let start = 6 * cell_rank(x, y, 0);
            let mid = 6 * cell_rank(x, y, z - 1);
            let end = 6 * cell_rank(x, y, z as int);
            if self.occupied(x, y, z - 1) {
                self.lemma_cell_shown(x, y, z - 1, 6);
                self.lemma_shown_join(before, self.cell_faces(x, y, z - 1, 6), start, mid, end);
            } else {
                assert forall|other: Face| #[trigger] self.shows(other) implies !(mid <= face_rank(
                    other,
                ) < end) by {
                    if mid <= face_rank(other) < end {
                        assert(cell_rank(other.x, other.y, other.z) == cell_rank(x, y, z - 1));
                    }
                }
                self.lemma_shown_none(mid, end);
                self.lemma_shown_join(before, Seq::empty(), start, mid, end);
                assert(before + Seq::<Face>::empty() == before);
            }
        }
    }

    /// The faces of the first `y` rows of a layer.
    proof fn lemma_layer_shown(&self, x: int, y: nat)
        requires
            in_block(x, 0, 0),
            y <= BLOCK_SIZE,
        ensures
            self.shown_between(
                self.layer_faces(x, y),
                6 * cell_rank(x, 0, 0),
                6 * cell_rank(x, y as int, 0),
            ),
        decreases y,
    {
        if y > 0 {
            self.lemma_layer_shown(x, (y - 1) as nat);
            self.lemma_row_shown(x, y - 1, BLOCK_SIZE as nat);
            self.lemma_shown_join(
                self.layer_faces(x, (y - 1) as nat),
                self.row_faces(x, y - 1, BLOCK_SIZE as nat),
                6 * cell_rank(x, 0, 0),
                6 * cell_rank(x, y - 1, 0),
                6 * cell_rank(x, y as int, 0),
            );
        }
    }

    /// The faces of the first `x` layers.
    proof fn lemma_block_shown(&self, x: nat)
        requires
            x <= BLOCK_SIZE,
        ensures
            self.shown_between(self.block_faces(x), 0, 6 * cell_rank(x as int, 0, 0)),
        decreases x,
    {
        if x > 0 {
            self.lemma_block_shown((x - 1) as nat);
            self.lemma_layer_shown(x - 1, BLOCK_SIZE as nat);
            self.lemma_shown_join(
                self.block_faces((x - 1) as nat),
                self.layer_faces(x - 1, BLOCK_SIZE as nat),
                0,
                6 * cell_rank(x - 1, 0, 0),
                6 * cell_rank(x as int, 0, 0),
            );
        }
    }

    /// `faces` holds the faces that the block shows, each of them once, and in the
    /// order in which the cells are visited and the directions tried.
    pub proof fn lemma_faces_in_order(&self)
        ensures
            forall|face: Face| self.faces().contains(face) <==> self.shows(face),
            forall|i: int, j: int|
                0 <= i < j < self.faces().len() ==> face_rank(#[trigger] self.faces()[i])
                    < face_rank(#[trigger] self.faces()[j]),
    {
        self.lemma_block_shown(BLOCK_SIZE as nat);
        let all = self.faces();
        assert forall|face: Face| all.contains(face) implies self.shows(face) by {
            let k = choose|k: int| 0 <= k < all.len() && all[k] == face;
            assert(self.shows(all[k]));
        }
        assert forall|face: Face| self.shows(face) implies all.contains(face) by {
            assert(0 <= face_rank(face) < 6 * cell_rank(BLOCK_SIZE as int, 0, 0));
        }
    }

    /// A cell shows at most one face in each direction.
    pub proof fn lemma_cell_faces_bounded(&self, x: int, y: int, z: int, d: nat)
        ensures
            self.cell_faces(x, y, z, d).len() <= d,
        decreases d,
    {
        if d > 0 {
            self.lemma_cell_faces_bounded(x, y, z, (d - 1) as nat);
        }
    }

    /// The first `z` cells of a row show at most six faces each.
    pub proof fn lemma_row_faces_bounded(&self, x: int, y: int, z: nat)
        ensures
            self.row_faces(x, y, z).len() <= 6 * cell_rank(0, 0, z as int),
        decreases z,
    {
        if z > 0 {
            self.lemma_row_faces_bounded(x, y, (z - 1) as nat);
            self.lemma_cell_faces_bounded(x, y, z - 1, 6);
        }
    }

    /// The first `y` rows of a layer show at most six faces for each cell.
    pub proof fn lemma_layer_faces_bounded(&self, x: int, y: nat)
        ensures
            self.layer_faces(x, y).len() <= 6 * cell_rank(0, y as int, 0),
        decreases y,
    {
        if y > 0 {
            self.lemma_layer_faces_bounded(x, (y - 1) as nat);
            self.lemma_row_faces_bounded(x, y - 1, BLOCK_SIZE as nat);
        }
    }

    /// The first `x` layers show at most six faces for each cell.
    pub proof fn lemma_block_faces_bounded(&self, x: nat)
        ensures
            self.block_faces(x).len() <= 6 * cell_rank(x as int, 0, 0),
        decreases x,
    {
        if x > 0 {
            self.lemma_block_faces_bounded((x - 1) as nat);
            self.lemma_layer_faces_bounded(x - 1, BLOCK_SIZE as nat);
        }
    }

    /// Empty cells at the end of a row add no faces.
    proof fn lemma_row_skip(&self, x: int, y: int, z1: nat, z2: nat)
        requires
            z1 <= z2,
            forall|k: int| z1 <= k < z2 ==> !#[trigger] self.occupied(x, y, k),
        ensures
            self.row_faces(x, y, z2) == self.row_faces(x, y, z1),
        decreases z2,
    {
        if z1 < z2 {
            self.lemma_row_skip(x, y, z1, (z2 - 1) as nat);
        }
    }

    /// Empty rows at the end of a layer add no faces.
    proof fn lemma_layer_skip(&self, x: int, y1: nat, y2: nat)
        requires
            y1 <= y2,
            forall|j: int, k: int|
                y1 <= j < y2 && 0 <= k < BLOCK_SIZE ==> !#[trigger] self.occupied(x, j, k),
        ensures
            self.layer_faces(x, y2) == self.layer_faces(x, y1),
        decreases y2,
    {
        if y1 < y2 {
            self.lemma_layer_skip(x, y1, (y2 - 1) as nat);
            self.lemma_row_skip(x, y2 - 1, 0, BLOCK_SIZE as nat);
        }
    }

    /// Empty layers at the end of a block add no faces.
    proof fn lemma_block_skip(&self, x1: nat, x2: nat)
        requires
            x1 <= x2,
            forall|i: int, j: int, k: int|
                x1 <= i < x2 && 0 <= j < BLOCK_SIZE && 0 <= k < BLOCK_SIZE ==> !#[trigger] self.occupied(
                    i,
                    j,
                    k,
                ),
        ensures
            self.block_faces(x2) == self.block_faces(x1),
        decreases x2,
    {
        if x1 < x2 {
            self.lemma_block_skip(x1, (x2 - 1) as nat);
            self.lemma_layer_skip(x2 - 1, 0, BLOCK_SIZE as nat);
        }
    }

    /// A block without an occupied cell shows no face, and its mesh is empty.
    pub proof fn lemma_empty_block(&self, colors: Seq<Color>)
        requires
            forall|x: int, y: int, z: int| in_block(x, y, z) ==> !#[trigger] self.occupied(x, y, z),
        ensures
            self.faces() == Seq::<Face>::empty(),
            self.mesh_of(colors).vertices == Seq::<Vertex>::empty(),
            self.mesh_of(colors).indices == Seq::<u32>::empty(),
    {
        self.lemma_block_skip(0, BLOCK_SIZE as nat);
    }

    /// A block with one occupied cell shows the six faces of that cell, wherever the
    /// cell lies: its mesh has 24 vertices and 12 triangles.
    pub proof fn lemma_single_cell(&self, x: int, y: int, z: int, colors: Seq<Color>)
        requires
            in_block(x, y, z),
            self.occupied(x, y, z),
            forall|a: int, b: int, c: int|
                in_block(a, b, c) && (a != x || b != y || c != z) ==> !#[trigger] self.occupied(
                    a,
                    b,
                    c,
                ),
        ensures
            self.faces() == Seq::new(
                6,
                |d: int|
                    Face { x, y, z, dir: Direction::order()[d], handle: self.cell(x, y, z) },
            ),
            self.faces().len() == 6,
            self.mesh_of(colors).vertices.len() == 24,
            self.mesh_of(colors).indices.len() == 3 * 12,
    {
        self.lemma_block_skip(0, x as nat);
        self.lemma_block_skip((x + 1) as nat, BLOCK_SIZE as nat);
        self.lemma_layer_skip(x, 0, y as nat);
        self.lemma_layer_skip(x, (y + 1) as nat, BLOCK_SIZE as nat);
        self.lemma_row_skip(x, y, 0, z as nat);
        self.lemma_row_skip(x, y, (z + 1) as nat, BLOCK_SIZE as nat);
        assert(self.block_faces((x + 1) as nat) == self.block_faces(x as nat) + self.layer_faces(
            x,
            BLOCK_SIZE as nat,
        ));
        assert(self.layer_faces(x, (y + 1) as nat) == self.layer_faces(x, y as nat)
            + self.row_faces(x, y, BLOCK_SIZE as nat));
        assert(self.row_faces(x, y, (z + 1) as nat) == self.row_faces(x, y, z as nat)
            + self.cell_faces(x, y, z, 6));
        assert(self.faces() =~= self.cell_faces(x, y, z, 6));
        assert forall|dir: Direction| self.exposed(x, y, z, dir) by {
            match dir.neighbor(x, y, z) {
                Some((nx, ny, nz)) => {
                    assert(in_block(nx, ny, nz));
                },
                None => {},
            }
        }
        reveal_with_fuel(VoxelBlock::cell_faces, 7);
        assert(self.cell_faces(x, y, z, 6) =~= Seq::new(
            6,
            |d: int| Face { x, y, z, dir: Direction::order()[d], handle: self.cell(x, y, z) },
        ));
    }

    /// Whether every cell is occupied.
    pub open spec fn solid(&self) -> bool {
        forall|x: int, y: int, z: int| in_block(x, y, z) ==> #[trigger] self.occupied(x, y, z)
    }

    /// A cell of a solid block shows one face for each of its coordinates that is the
    /// first or the last of its axis.
    proof fn lemma_solid_cell(&self, x: int, y: int, z: int)
        requires
            self.solid(),
            in_block(x, y, z),
        ensures
            self.cell_faces(x, y, z, 6).len() == boundary_sides(x) + boundary_sides(y)
                + boundary_sides(z),
    {
        assert forall|dir: Direction| self.exposed(x, y, z, dir) == !dir.stays(x, y, z) by {
            match dir.neighbor(x, y, z) {
                Some((nx, ny, nz)) => {
                    assert(in_block(nx, ny, nz));
                    assert(self.occupied(nx, ny, nz));
                },
                None => {},
            }
        }
        reveal_with_fuel(VoxelBlock::cell_faces, 7);
    }

    /// The first `z` cells of a row of a solid block show a face for each end of the
    /// row among them, and one for each side of the block that the row lies on.
    proof fn lemma_solid_row(&self, x: int, y: int, z: nat)
        requires
            self.solid(),
            in_block(x, y, 0),
            z <= BLOCK_SIZE,
        ensures
            self.row_faces(x, y, z).len() == times(boundary_sides(x) + boundary_sides(y), z as int)
                + ends_within(z as int),
        decreases z,
    {
        if z > 0 {
            self.lemma_solid_row(x, y, (z - 1) as nat);
            self.lemma_solid_cell(x, y, z - 1);
        }
    }

    /// The first `y` rows of a layer of a solid block: each row shows its two ends,
    /// the rows on a side of the block one face for each cell, and every row does so
    /// where the layer itself lies on a side.
    proof fn lemma_solid_layer(&self, x: int, y: nat)
        requires
            self.solid(),
            in_block(x, 0, 0),
            y <= BLOCK_SIZE,
        ensures
            self.layer_faces(x, y).len() == times(boundary_sides(x), 16 * (y as int)) + 2 * y + 16
                * ends_within(y as int),
        decreases y,
    {
        if y > 0 {
            self.lemma_solid_layer(x, (y - 1) as nat);
            self.lemma_solid_row(x, y - 1, BLOCK_SIZE as nat);
        }
    }

    /// The first `x` layers of a solid block: each layer shows its four edges, and
    /// the first and the last layer all their cells.
    proof fn lemma_solid_layers(&self, x: nat)
        requires
            self.solid(),
            x <= BLOCK_SIZE,
        ensures
            self.block_faces(x).len() == 64 * x + 256 * ends_within(x as int),
        decreases x,
    {
        if x > 0 {
            self.lemma_solid_layers((x - 1) as nat);
            self.lemma_solid_layer(x - 1, BLOCK_SIZE as nat);
        }
    }

    /// A block whose cells are all occupied shows its boundary and nothing else:
    /// `BLOCK_SIZE * BLOCK_SIZE` faces on each of its six sides, which makes four times
    /// as many vertices and twice as many triangles.
    pub proof fn lemma_solid_block(&self, colors: Seq<Color>)
        requires
            self.solid(),
        ensures
            self.faces().len() == 6 * BLOCK_SIZE * BLOCK_SIZE,
            self.mesh_of(colors).vertices.len() == 24 * BLOCK_SIZE * BLOCK_SIZE,
            self.mesh_of(colors).indices.len() == 3 * (12 * BLOCK_SIZE * BLOCK_SIZE),
    {
        self.lemma_solid_layers(BLOCK_SIZE as nat);
        assert(BLOCK_SIZE * BLOCK_SIZE == 256 && 4 * BLOCK_SIZE * BLOCK_SIZE == 1024 && 6
            * BLOCK_SIZE * BLOCK_SIZE == 1536 && 24 * BLOCK_SIZE * BLOCK_SIZE == 6144 && 12
            * BLOCK_SIZE * BLOCK_SIZE == 3072) by (nonlinear_arith)
            requires
                BLOCK_SIZE == 16,
        ;
    }

    /// Two runs of `to_mesh` on the same block and the same colours end alike: both
    /// with the same vertices and the same indices, or both with the same error.
    pub proof fn lemma_to_mesh_deterministic(
        &self,
        colors: Seq<Color>,
        first: Result<Mesh, VoxelError>,
        second: Result<Mesh, VoxelError>,
    )
        requires
            self.meshed(colors, first),
            self.meshed(colors, second),
        ensures
            match (first, second) {
                (Ok(mesh1), Ok(mesh2)) => mesh1@ == mesh2@,
                (Err(e1), Err(e2)) => e1 == e2,
                _ => false,
            },
    {
        if let Err(e1) = first {
            let (x1, y1, z1) = choose|x: int, y: int, z: int|
                #![trigger self.cell(x, y, z)]
                self.first_foreign(x, y, z, colors.len()) && e1 == VoxelError::Reference(
                    self.cell(x, y, z),
                );
            assert(self.cell(x1, y1, z1) > colors.len());
            if let Err(e2) = second {
                let (x2, y2, z2) = choose|x: int, y: int, z: int|
                    #![trigger self.cell(x, y, z)]
                    self.first_foreign(x, y, z, colors.len()) && e2 == VoxelError::Reference(
                        self.cell(x, y, z),
                    );
                assert(self.cell(x2, y2, z2) > colors.len());
                assert(cell_rank(x1, y1, z1) == cell_rank(x2, y2, z2));
                assert(x1 == x2 && y1 == y2 && z1 == z2);
            }
        } else if let Err(e2) = second {
            let (x2, y2, z2) = choose|x: int, y: int, z: int|
                #![trigger self.cell(x, y, z)]
                self.first_foreign(x, y, z, colors.len()) && e2 == VoxelError::Reference(
                    self.cell(x, y, z),
                );
            assert(self.cell(x2, y2, z2) > colors.len());
        }
    }
}

} // verus!
