//! The mesh of a frame: one vertex buffer and one index buffer that grow as
//! primitives are rendered.

use vstd::prelude::*;
use crate::transform::Vec3;

verus! {

/// A colour with straight alpha, 8 bits for each channel.
#[derive(Clone, Copy, Debug, PartialEq, Eq, Hash, Structural)]
pub struct Rgba {
    pub r: u8,
    pub g: u8,
    pub b: u8,
    pub a: u8,
}

/// A position in a texture, in texels from its corner.
#[derive(Clone, Copy, Debug, PartialEq, Eq, Hash, Structural)]
pub struct TexCoords {
    pub u: u32,
    pub v: u32,
}

/// A vertex of the frame's mesh.
#[derive(Clone, Copy, Debug, PartialEq, Eq, Hash, Structural)]
pub struct Vertex {
    pub position: Vec3,
    pub color: Rgba,
    pub tex_coords: TexCoords,
}

/// How the renderer colours a vertex.
#[derive(Clone, Copy, Debug, PartialEq, Eq, Hash, Structural)]
pub enum VertexMode {
    /// The vertex colour alone.
    Color,
    /// The texture sampled at the vertex's coordinates.
    Texture,
    /// The vertex colour, its alpha multiplied by the glyph atlas's sample.
    Text,
}

/// A mesh as a value: its vertices and the indices into them.
pub struct MeshModel {
    pub points: Seq<Vertex>,
    pub indices: Seq<u32>,
}

impl MeshModel {
    pub open spec fn empty() -> MeshModel {
        MeshModel { points: Seq::empty(), indices: Seq::empty() }
    }

    /// Every index refers to a vertex, and both counts fit in 32 bits.
    pub open spec fn wf(self) -> bool {
        &&& self.points.len() <= u32::MAX
        &&& self.indices.len() <= u32::MAX
        &&& forall|i: int| 0 <= i < self.indices.len() ==> (#[trigger] self.indices[i]) < self.points.len()
    }

    /// Whether the piece given by `vertices` and `indices`, whose indices
    /// count from its own first vertex, can join the mesh: it has indices,
    /// each of them refers to one of its vertices, and the counts of the
    /// joined mesh fit in 32 bits.
    pub open spec fn accepts(self, vertices: Seq<Vertex>, indices: Seq<u32>) -> bool {
        &&& indices.len() > 0
        &&& forall|i: int| 0 <= i < indices.len() ==> (#[trigger] indices[i]) < vertices.len()
        &&& self.points.len() + vertices.len() <= u32::MAX
        &&& self.indices.len() + indices.len() <= u32::MAX
    }

    /// The mesh with the piece at its end, the piece's indices moved up by
    /// the number of vertices that the mesh had.
    pub open spec fn joined(self, vertices: Seq<Vertex>, indices: Seq<u32>) -> MeshModel {
        MeshModel {
            points: self.points + vertices,
            indices: self.indices + Seq::new(indices.len(), |i: int| (indices[i] + self.points.len()) as u32),
        }
    }

    /// The mesh after the piece was offered: joined where the mesh accepts
    /// it, unchanged where it does not.
    pub open spec fn offered(self, vertices: Seq<Vertex>, indices: Seq<u32>) -> MeshModel {
        if self.accepts(vertices, indices) {
            self.joined(vertices, indices)
        } else {
            self
        }
    }
}

/// The vertex and index buffers of one frame on one surface.
#[derive(Debug, Default)]
pub struct ViewMesh {
    points: Vec<Vertex>,
    indices: Vec<u32>,
}

impl View for ViewMesh {
    type V = MeshModel;

    closed spec fn view(&self) -> MeshModel {
        MeshModel { points: self.points@, indices: self.indices@ }
    }
}

impl ViewMesh {
    pub open spec fn wf(&self) -> bool {
        self@.wf()
    }

    pub fn new() -> (m: ViewMesh)
        ensures
            m@ == MeshModel::empty(),
            m.wf(),
    {
        ViewMesh { points: Vec::new(), indices: Vec::new() }
    }

    pub fn points(&self) -> (p: &Vec<Vertex>)
        ensures
            p@ == self@.points,
    {
        &self.points
    }

    pub fn indices(&self) -> (i: &Vec<u32>)
        ensures
            i@ == self@.indices,
    {
        &self.indices
    }

    pub fn vertex_count(&self) -> (n: u32)
        requires
            self.wf(),
        ensures
            n == self@.points.len(),
    {
        self.points.len() as u32
    }

    pub fn index_count(&self) -> (n: u32)
        requires
            self.wf(),
        ensures
            n == self@.indices.len(),
    {
        self.indices.len() as u32
    }

    /// Whether every index of the piece refers to one of its `count` vertices.
    fn indices_in_range(indices: &Vec<u32>, count: usize) -> (ok: bool)
        ensures
            ok == (forall|i: int| 0 <= i < indices@.len() ==> (#[trigger] indices@[i]) < count),
    {
        let mut i: usize = 0;
        while i < indices.len()
            invariant
                0 <= i <= indices@.len(),
                forall|j: int| 0 <= j < i ==> (#[trigger] indices@[j]) < count,
            decreases indices@.len() - i,
        {
            if indices[i] as usize >= count {
                return false;
            }
            i += 1;
        }
        true
    }

    /// Offers a piece to the mesh. The piece's indices count from its own
    /// first vertex. Returns whether the piece joined the mesh; where it did
    /// not, the mesh is unchanged. So vertices never join without indices.
    pub fn append(&mut self, vertices: &Vec<Vertex>, indices: &Vec<u32>) -> (joined: bool)
        requires
            old(self).wf(),
        ensures
            final(self).wf(),
            joined == old(self)@.accepts(vertices@, indices@),
            final(self)@ == old(self)@.offered(vertices@, indices@),
    {
        let limit: usize = 0xffff_ffff;
        if indices.len() == 0 || vertices.len() > limit - self.points.len() || indices.len() > limit
            - self.indices.len() || !Self::indices_in_range(indices, vertices.len()) {
            return false;
        }
        let base: u32 = self.points.len() as u32;
        let ghost before = self@;
        let mut i: usize = 0;
        while i < vertices.len()
            invariant
                0 <= i <= vertices@.len(),
                self.indices@ == before.indices,
                self.points@ == before.points + vertices@.take(i as int),
            decreases vertices@.len() - i,
        {
            self.points.push(vertices[i]);
            i += 1;
            assert(vertices@.take(i as int) =~= vertices@.take(i - 1).push(vertices@[i - 1]));
        }
        assert(vertices@.take(vertices@.len() as int) =~= vertices@);
        let mut k: usize = 0;
        while k < indices.len()
            invariant
                0 <= k <= indices@.len(),
                before.accepts(vertices@, indices@),
                base == before.points.len(),
                self.points@ == before.points + vertices@,
                self.indices@ == before.indices + Seq::new(k as nat, |j: int| (indices@[j] + base) as u32),
            decreases indices@.len() - k,
        {
            self.indices.push(indices[k] + base);
            k += 1;
            assert(self.indices@ =~= before.indices + Seq::new(k as nat, |j: int| (indices@[j] + base) as u32));
        }
        assert(self@.indices =~= before.joined(vertices@, indices@).indices);
        true
    }
}

/// A mesh that takes a piece gains indices; a mesh that gains vertices has
/// gained indices too; and a well-formed mesh stays well-formed.
pub proof fn lemma_offered(mesh: MeshModel, vertices: Seq<Vertex>, indices: Seq<u32>)
    requires
        mesh.wf(),
    ensures
        mesh.offered(vertices, indices).wf(),
        mesh.offered(vertices, indices).indices.len() > mesh.indices.len() <==> mesh.accepts(vertices, indices),
        mesh.offered(vertices, indices).points.len() > mesh.points.len() ==> mesh.offered(
            vertices,
            indices,
        ).indices.len() > mesh.indices.len(),
        mesh.offered(vertices, indices).indices.len() == mesh.indices.len() ==> mesh.offered(vertices, indices)
            == mesh,
        mesh.points.len() <= mesh.offered(vertices, indices).points.len(),
        mesh.indices.len() <= mesh.offered(vertices, indices).indices.len(),
        mesh.offered(vertices, indices).points.subrange(0, mesh.points.len() as int) == mesh.points,
        mesh.offered(vertices, indices).indices.subrange(0, mesh.indices.len() as int) == mesh.indices,
{
    let after = mesh.offered(vertices, indices);
    assert(after.points.subrange(0, mesh.points.len() as int) =~= mesh.points);
    assert(after.indices.subrange(0, mesh.indices.len() as int) =~= mesh.indices);
}

} // verus!
