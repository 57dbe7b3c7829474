use crate::palette::Color;
use crate::vertex::Vertex;
use crate::voxelblock::corner;
use crate::voxelblock::in_block;
use crate::voxelblock::Direction;
use crate::voxelblock::BLOCK_SIZE;
use vstd::prelude::*;

verus! {

/// The vector product of `a` and `b`.
pub open spec fn cross(a: (int, int, int), b: (int, int, int)) -> (int, int, int) {
    (a.1 * b.2 - a.2 * b.1, a.2 * b.0 - a.0 * b.2, a.0 * b.1 - a.1 * b.0)
}

/// The vector from the position of `from` to that of `to`.
pub open spec fn edge(from: Vertex, to: Vertex) -> (int, int, int) {
    (
        to.position[0] - from.position[0],
        to.position[1] - from.position[1],
        to.position[2] - from.position[2],
    )
}

/// The two edges of a face and its normal make a right-handed system.
pub proof fn lemma_edges_right_handed(dir: Direction)
    by (nonlinear_arith)
    ensures
        cross(dir.first_edge(), dir.second_edge()) == dir.normal(),
{
}

/// Both triangles of a face wind against the clock for someone who looks at the face
/// from outside the cell: the vector product of two successive edges of a triangle
/// points along the normal. Each corner carries that normal, and lies half a cell
/// from the centre of the cell in each of the three axes, on the side of the normal.
pub proof fn lemma_face_looks_outward(x: int, y: int, z: int, dir: Direction, color: Color)
    by (nonlinear_arith)
    requires
        in_block(x, y, z),
    ensures
        ({
            let n = dir.normal();
            let c0 = corner(x, y, z, dir, 0, color);
            let c1 = corner(x, y, z, dir, 1, color);
            let c2 = corner(x, y, z, dir, 2, color);
            let c3 = corner(x, y, z, dir, 3, color);
            &&& cross(edge(c0, c1), edge(c1, c2)) == (4 * n.0, 4 * n.1, 4 * n.2)
            &&& cross(edge(c2, c3), edge(c3, c0)) == (4 * n.0, 4 * n.1, 4 * n.2)
            &&& forall|k: int|
                0 <= k < 4 ==> {
                    let c = #[trigger] corner(x, y, z, dir, k, color);
                    &&& c.color == color
                    &&& c.normal[0] == n.0 && c.normal[1] == n.1 && c.normal[2] == n.2
                    &&& (c.position[0] - (2 * x - BLOCK_SIZE)) * n.0 + (c.position[1] - (2 * y
                        - BLOCK_SIZE)) * n.1 + (c.position[2] - (2 * z - BLOCK_SIZE)) * n.2 == 1
                    &&& c.position[0] - (2 * x - BLOCK_SIZE) == 1 || c.position[0] - (2 * x
                        - BLOCK_SIZE) == -1
                    &&& c.position[1] - (2 * y - BLOCK_SIZE) == 1 || c.position[1] - (2 * y
                        - BLOCK_SIZE) == -1
                    &&& c.position[2] - (2 * z - BLOCK_SIZE) == 1 || c.position[2] - (2 * z
                        - BLOCK_SIZE) == -1
                }
        }),
{
}

} // verus!
