use crate::palette::Color;
use vstd::prelude::*;

verus! {

/// A corner of a triangle.
///
/// `position` counts half cells from the origin along x, y and z, and `normal` is
/// the unit vector that the face of the corner looks along.
#[derive(Clone, Copy, PartialEq, Eq, Debug)]
pub struct Vertex {
    pub position: [i32; 3],
    pub color: Color,
    pub normal: [i32; 3],
}

impl Vertex {
    pub fn new(position: [i32; 3], color: Color, normal: [i32; 3]) -> (vertex: Vertex)
        ensures
            vertex == (Vertex { position, color, normal }),
    {
        Vertex { position: position, color: color, normal: normal }
    }
}

} // verus!
