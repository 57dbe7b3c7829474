use crate::vertex::Vertex;
use vstd::prelude::*;

verus! {

/// A list of vertices and a list of triangles over them. Three consecutive indices
/// make one triangle, each index the position of a vertex in the list.
pub struct Mesh {
    vertices: Vec<Vertex>,
    indices: Vec<u32>,
}

/// What a mesh holds: its vertices and its indices, each in the order in which they
/// were added.
#[verifier::ext_equal]
pub struct MeshView {
    pub vertices: Seq<Vertex>,
    pub indices: Seq<u32>,
}

impl Mesh {
    pub closed spec fn view(&self) -> MeshView {
        MeshView { vertices: self.vertices@, indices: self.indices@ }
    }

    /// The indices come in threes, and each one is the position of a vertex.
    pub open spec fn wf(&self) -> bool {
        &&& self@.indices.len() % 3 == 0
        &&& forall|i: int|
            0 <= i < self@.indices.len() ==> (#[trigger] self@.indices[i])
                < self@.vertices.len()
    }

    /// A mesh without vertices or triangles.
    pub fn empty() -> (mesh: Mesh)
        ensures
            mesh.wf(),
            mesh@.vertices == Seq::<Vertex>::empty(),
            mesh@.indices == Seq::<u32>::empty(),
    {
        Mesh { vertices: Vec::new(), indices: Vec::new() }
    }

    /// The vertices, for a backend to copy.
    pub fn vertices(&self) -> (vertices: &Vec<Vertex>)
        ensures
            vertices@ == self@.vertices,
    {
        &self.vertices
    }

    /// The indices, for a backend to copy: a list of triangles.
    pub fn indices(&self) -> (indices: &Vec<u32>)
        ensures
            indices@ == self@.indices,
    {
        &self.indices
    }

    /// Appends `vertex` and returns its index. The index must fit: the mesh holds at
    /// most `u32::MAX` vertices before the call.
    pub fn add_vertex(&mut self, vertex: Vertex) -> (index: u32)
        requires
            old(self).wf(),
            old(self)@.vertices.len() <= u32::MAX,
        ensures
            final(self).wf(),
            index == old(self)@.vertices.len(),
            final(self)@.vertices == old(self)@.vertices.push(vertex),
            final(self)@.indices == old(self)@.indices,
    {
        self.vertices.push(vertex);
        (self.vertices.len() - 1) as u32
    }

    /// Appends the triangle with the corners `index1`, `index2`, `index3`, each the
    /// index of a vertex of the mesh.
    pub fn add_triangle(&mut self, index1: u32, index2: u32, index3: u32)
        requires
            old(self).wf(),
            index1 < old(self)@.vertices.len(),
            index2 < old(self)@.vertices.len(),
            index3 < old(self)@.vertices.len(),
        ensures
            final(self).wf(),
            final(self)@.vertices == old(self)@.vertices,
            final(self)@.indices == old(self)@.indices + seq![index1, index2, index3],
    {
        self.indices.push(index1);
        self.indices.push(index2);
        self.indices.push(index3);
    }
}

} // verus!
