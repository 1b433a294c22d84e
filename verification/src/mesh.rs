//! Triangle meshes: the buffers that hold one, and what they stand for.
//!
//! Every coordinate is a whole number of tenths, so that 25 stands for 2.5
//! and a normal of (0, 7, 7) for (0, 0.7, 0.7): a caller divides by ten.

use vstd::prelude::*;

verus! {

/// A point or a direction in space, as (x, y, z), in tenths.
pub type Vertex = (i64, i64, i64);

/// A texture coordinate, as (u, v), in tenths.
pub type Uv = (i64, i64);

/// The four buffers of a triangle mesh: positions, triangle indices (three
/// for each triangle), normals and texture coordinates. Normals and texture
/// coordinates run parallel to the positions.
pub type MeshBuffers = (Vec<Vertex>, Vec<u32>, Vec<Vertex>, Vec<Uv>);

/// What a triangle mesh holds, as mathematical sequences.
pub struct MeshModel {
    pub positions: Seq<(int, int, int)>,
    pub indices: Seq<int>,
    pub normals: Seq<(int, int, int)>,
    pub uvs: Seq<(int, int)>,
}

/// The point that a vertex stands for.
pub open spec fn vertex_model(v: Vertex) -> (int, int, int) {
    (v.0 as int, v.1 as int, v.2 as int)
}

/// The texture coordinate that a pair stands for.
pub open spec fn uv_model(t: Uv) -> (int, int) {
    (t.0 as int, t.1 as int)
}

/// The points that a sequence of vertices stands for.
pub open spec fn vertices_model(vertices: Seq<Vertex>) -> Seq<(int, int, int)> {
    vertices.map_values(|v: Vertex| vertex_model(v))
}

/// The texture coordinates that a sequence of pairs stands for.
pub open spec fn uvs_model(uvs: Seq<Uv>) -> Seq<(int, int)> {
    uvs.map_values(|t: Uv| uv_model(t))
}

/// What four buffers hold.
pub open spec fn buffers_model(
    positions: Seq<Vertex>,
    indices: Seq<u32>,
    normals: Seq<Vertex>,
    uvs: Seq<Uv>,
) -> MeshModel {
    MeshModel {
        positions: vertices_model(positions),
        indices: indices.map_values(|i: u32| i as int),
        normals: vertices_model(normals),
        uvs: uvs_model(uvs),
    }
}

/// A point turned about the vertical axis by a number of quarter turns: one
/// quarter turn carries the +z direction onto +x.
pub open spec fn turn(p: (int, int, int), quarters: int) -> (int, int, int) {
    if quarters == 1 {
        (p.2, p.1, -p.0)
    } else if quarters == 2 {
        (-p.0, p.1, -p.2)
    } else if quarters == 3 {
        (-p.2, p.1, p.0)
    } else {
        p
    }
}

/// A point moved in the horizontal plane.
pub open spec fn slide(p: (int, int, int), dx: int, dz: int) -> (int, int, int) {
    (p.0 + dx, p.1, p.2 + dz)
}

/// Every point of a sequence turned by the same number of quarter turns.
pub open spec fn turn_all(points: Seq<(int, int, int)>, quarters: int) -> Seq<(int, int, int)> {
    points.map_values(|p: (int, int, int)| turn(p, quarters))
}

/// Every point of a sequence moved by the same step.
pub open spec fn slide_all(points: Seq<(int, int, int)>, dx: int, dz: int) -> Seq<(int, int, int)> {
    points.map_values(|p: (int, int, int)| slide(p, dx, dz))
}

impl MeshModel {
    /// The mesh without a vertex.
    pub open spec fn empty() -> MeshModel {
        MeshModel { positions: seq![], indices: seq![], normals: seq![], uvs: seq![] }
    }

    /// Normals and texture coordinates run parallel to the positions, the
    /// indices come in triples, and each index names a vertex.
    pub open spec fn well_formed(self) -> bool {
        &&& self.normals.len() == self.positions.len()
        &&& self.uvs.len() == self.positions.len()
        &&& self.indices.len() % 3 == 0
        &&& forall|i: int|
            0 <= i < self.indices.len() ==> 0 <= #[trigger] self.indices[i] < self.positions.len()
    }

    /// This mesh followed by `other`, whose indices are renumbered to follow
    /// the vertices of this one.
    pub open spec fn append(self, other: MeshModel) -> MeshModel {
        MeshModel {
            positions: self.positions + other.positions,
            indices: self.indices + other.indices.map_values(
                |i: int| i + self.positions.len(),
            ),
            normals: self.normals + other.normals,
            uvs: self.uvs + other.uvs,
        }
    }

    /// This mesh, followed by `other` where `wanted` holds.
    pub open spec fn append_if(self, wanted: bool, other: MeshModel) -> MeshModel {
        if wanted {
            self.append(other)
        } else {
            self
        }
    }

    /// This mesh with positions and normals turned about the vertical axis.
    pub open spec fn turned(self, quarters: int) -> MeshModel {
        MeshModel {
            positions: turn_all(self.positions, quarters),
            normals: turn_all(self.normals, quarters),
            ..self
        }
    }

    /// This mesh with positions moved in the horizontal plane.
    pub open spec fn moved(self, dx: int, dz: int) -> MeshModel {
        MeshModel { positions: slide_all(self.positions, dx, dz), ..self }
    }
}

/// Two well-formed meshes, one after the other, are a well-formed mesh.
pub proof fn lemma_append_well_formed(first: MeshModel, second: MeshModel)
    requires
        first.well_formed(),
        second.well_formed(),
    ensures
        first.append(second).well_formed(),
{
    let joined = first.append(second);
    assert forall|i: int| 0 <= i < joined.indices.len() implies 0 <= #[trigger] joined.indices[i]
        < joined.positions.len() by {
        if i >= first.indices.len() {
            let k = i - first.indices.len();
            assert(joined.indices[i] == second.indices[k] + first.positions.len());
        }
    }
}

/// A triangle mesh that is being put together.
pub struct Mesh {
    pub positions: Vec<Vertex>,
    pub indices: Vec<u32>,
    pub normals: Vec<Vertex>,
    pub uvs: Vec<Uv>,
}

impl View for Mesh {
    type V = MeshModel;

    open spec fn view(&self) -> MeshModel {
        buffers_model(self.positions@, self.indices@, self.normals@, self.uvs@)
    }
}

impl Mesh {
    /// A mesh without a vertex.
    pub fn new() -> (mesh: Mesh)
        ensures
            mesh@ == MeshModel::empty(),
    {
        let mesh = Mesh {
            positions: Vec::new(),
            indices: Vec::new(),
            normals: Vec::new(),
            uvs: Vec::new(),
        };
        assert(mesh@.positions =~= MeshModel::empty().positions);
        assert(mesh@.indices =~= MeshModel::empty().indices);
        assert(mesh@.normals =~= MeshModel::empty().normals);
        assert(mesh@.uvs =~= MeshModel::empty().uvs);
        mesh
    }

    /// Adds the content of `other` at the end and renumbers its indices. A
    /// `u32` must be able to number the vertices of both.
    pub fn append(&mut self, other: &Mesh)
        requires
            other@.well_formed(),
            old(self)@.positions.len() + other@.positions.len() <= u32::MAX,
        ensures
            final(self)@ == old(self)@.append(other@),
            old(self)@.well_formed() ==> final(self)@.well_formed(),
    {
        proof {
            if old(self)@.well_formed() {
                lemma_append_well_formed(old(self)@, other@);
            }
        }
        let base: u32 = self.positions.len() as u32;
        let count = other.positions.len();
        assert(other.normals@.len() == other@.normals.len());
        assert(other.uvs@.len() == other@.uvs.len());
        let mut i: usize = 0;
        while i < count
            invariant
                i <= count,
                count == other.positions.len(),
                count == other.normals.len(),
                count == other.uvs.len(),
                self.indices == old(self).indices,
                self.positions@ == old(self).positions@ + other.positions@.take(i as int),
                self.normals@ == old(self).normals@ + other.normals@.take(i as int),
                self.uvs@ == old(self).uvs@ + other.uvs@.take(i as int),
            decreases count - i,
        {
            self.positions.push(other.positions[i]);
            self.normals.push(other.normals[i]);
            self.uvs.push(other.uvs[i]);
            i += 1;
            assert(self.positions@ =~= old(self).positions@ + other.positions@.take(i as int));
            assert(self.normals@ =~= old(self).normals@ + other.normals@.take(i as int));
            assert(self.uvs@ =~= old(self).uvs@ + other.uvs@.take(i as int));
        }
        let ghost filled = *self;
        let mut k: usize = 0;
        while k < other.indices.len()
            invariant
                k <= other.indices.len(),
                other@.well_formed(),
                base as int == old(self).positions.len(),
                old(self).positions.len() + other.positions.len() <= u32::MAX,
                self.positions == filled.positions,
                self.normals == filled.normals,
                self.uvs == filled.uvs,
                self.indices@.len() == old(self).indices@.len() + k,
                forall|j: int|
                    0 <= j < old(self).indices@.len() ==> self.indices@[j] == old(self).indices@[j],
                forall|j: int|
                    0 <= j < k ==> self.indices@[old(self).indices@.len() + j] == base
                        + other.indices@[j],
            decreases other.indices.len() - k,
        {
            assert(other@.indices[k as int] < other@.positions.len());
            self.indices.push(base + other.indices[k]);
            k += 1;
        }
        assert(other.positions@.take(count as int) =~= other.positions@);
        assert(other.normals@.take(count as int) =~= other.normals@);
        assert(other.uvs@.take(count as int) =~= other.uvs@);
        assert(self@.positions =~= old(self)@.append(other@).positions);
        assert(self@.normals =~= old(self)@.append(other@).normals);
        assert(self@.uvs =~= old(self)@.append(other@).uvs);
        assert(self@.indices =~= old(self)@.append(other@).indices);
    }
}

} // verus!
