//! Mesh data as the pipeline consumes it: a flat vertex list, every three
//! consecutive vertices one triangle. Index expansion is done here; reading
//! model files and converting their numbers is the loader's business.

use vstd::prelude::*;

verus! {

use crate::vertex::{Vec2, Vec3, Vertex, vec2_zero, vec3_zero};

#[derive(Debug)]
pub struct Edge {
    pub start: Vertex,
    pub end: Vertex,
}

#[derive(Debug)]
pub struct Face {
    pub vertices: [Vertex; 3],
}

#[derive(Debug)]
pub struct Model3D {
    pub vertices: Vec<Vertex>,
    pub edges: Vec<Edge>,
    pub faces: Vec<Face>,
}

impl Model3D {
    pub fn new() -> (m: Model3D)
        ensures
            m.vertices@.len() == 0,
            m.edges@.len() == 0,
            m.faces@.len() == 0,
    {
        Model3D { vertices: Vec::new(), edges: Vec::new(), faces: Vec::new() }
    }

    /// Append the vertex array a mesh loader produced.
    pub fn add_vertices_from_obj(&mut self, vertices: &Vec<Vertex>)
        ensures
            final(self).vertices@ == old(self).vertices@ + vertices@,
            final(self).edges@ == old(self).edges@,
            final(self).faces@ == old(self).faces@,
    {
        let mut i: usize = 0;
        while i < vertices.len()
            invariant
                i <= vertices@.len(),
                self.vertices@ == old(self).vertices@ + vertices@.subrange(0, i as int),
                self.edges@ == old(self).edges@,
                self.faces@ == old(self).faces@,
            decreases vertices@.len() - i,
        {
            self.vertices.push(vertices[i]);
            proof {
                assert(vertices@.subrange(0, i as int).push(vertices@[i as int]) =~= vertices@
                    .subrange(0, i as int + 1));
            }
            i = i + 1;
        }
        proof {
            assert(vertices@.subrange(0, vertices@.len() as int) =~= vertices@);
        }
    }
}

/// The vertex that index `idx` of a loaded mesh expands to: its position,
/// its normal and texture coordinates where the mesh has them (zero
/// otherwise), black, untransformed.
pub open spec fn expanded_vertex(
    positions: Seq<Vec3>,
    normals: Seq<Vec3>,
    texcoords: Seq<Vec2>,
    idx: int,
) -> Vertex {
    let pos = positions[idx];
    let nrm = if normals.len() > 0 {
        normals[idx]
    } else {
        vec3_zero()
    };
    let tex = if texcoords.len() > 0 {
        texcoords[idx]
    } else {
        vec2_zero()
    };
    Vertex {
        position: pos,
        normal: nrm,
        tex_coords: tex,
        color: crate::color::Color { r: crate::fixed::Fx { bits: 0 }, g: crate::fixed::Fx {
            bits: 0,
        }, b: crate::fixed::Fx { bits: 0 } },
        transformed_position: pos,
        transformed_normal: nrm,
        transformed_valid: true,
    }
}

/// Expand per-index mesh data into the flat vertex list the pipeline
/// consumes: one vertex per index, in index order. Every index must point
/// into the position array, and into the normal and texture arrays where
/// those are non-empty.
pub fn build_vertex_array(
    positions: &Vec<Vec3>,
    normals: &Vec<Vec3>,
    texcoords: &Vec<Vec2>,
    indices: &Vec<u32>,
) -> (out: Vec<Vertex>)
    requires
        forall|i: int|
            0 <= i < indices@.len() ==> (#[trigger] indices@[i]) < positions@.len(),
        normals@.len() > 0 ==> forall|i: int|
            0 <= i < indices@.len() ==> (#[trigger] indices@[i]) < normals@.len(),
        texcoords@.len() > 0 ==> forall|i: int|
            0 <= i < indices@.len() ==> (#[trigger] indices@[i]) < texcoords@.len(),
    ensures
        out@.len() == indices@.len(),
        forall|i: int|
            0 <= i < indices@.len() ==> out@[i] == expanded_vertex(
                positions@,
                normals@,
                texcoords@,
                indices@[i] as int,
            ),
{
    let mut out: Vec<Vertex> = Vec::new();
    let mut i: usize = 0;
    while i < indices.len()
        invariant
            i <= indices@.len(),
            out@.len() == i,
            forall|i: int|
                0 <= i < indices@.len() ==> (#[trigger] indices@[i]) < positions@.len(),
            normals@.len() > 0 ==> forall|i: int|
                0 <= i < indices@.len() ==> (#[trigger] indices@[i]) < normals@.len(),
            texcoords@.len() > 0 ==> forall|i: int|
                0 <= i < indices@.len() ==> (#[trigger] indices@[i]) < texcoords@.len(),
            forall|j: int|
                0 <= j < i ==> out@[j] == expanded_vertex(
                    positions@,
                    normals@,
                    texcoords@,
                    indices@[j] as int,
                ),
        decreases indices@.len() - i,
    {
        let idx = indices[i] as usize;
        let position = positions[idx];
        let normal = if normals.len() > 0 {
            normals[idx]
        } else {
            Vec3::new(
                crate::fixed::Fx::zero(),
                crate::fixed::Fx::zero(),
                crate::fixed::Fx::zero(),
            )
        };
        let tex = if texcoords.len() > 0 {
            texcoords[idx]
        } else {
            Vec2::new(crate::fixed::Fx::zero(), crate::fixed::Fx::zero())
        };
        out.push(Vertex::new(position, normal, tex));
        i = i + 1;
    }
    out
}

} // verus!
