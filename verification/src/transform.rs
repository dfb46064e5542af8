//! The per-vertex transform stage: a 4×4 model matrix applied to the
//! homogeneous position, followed by the perspective divide.

use vstd::prelude::*;

verus! {

use crate::fixed::{Fx, fx_add_bits, fx_mul_bits, fx_div_bits};
use crate::vertex::{Vec3, Vertex, vec3_zero};

/// A row-major 4×4 matrix; `mRC` is row R, column C, with the translation in
/// column 3.
#[derive(Clone, Copy, Debug, PartialEq, Eq, Structural)]
pub struct Mat4 {
    pub m00: Fx, pub m01: Fx, pub m02: Fx, pub m03: Fx,
    pub m10: Fx, pub m11: Fx, pub m12: Fx, pub m13: Fx,
    pub m20: Fx, pub m21: Fx, pub m22: Fx, pub m23: Fx,
    pub m30: Fx, pub m31: Fx, pub m32: Fx, pub m33: Fx,
}

/// One row of the matrix applied to the homogeneous point `(p, 1)`:
/// `a·x + b·y + c·z + d`, accumulated left to right.
pub open spec fn row_apply_bits(a: Fx, b: Fx, c: Fx, d: Fx, p: Vec3) -> int {
    fx_add_bits(
        fx_add_bits(
            fx_add_bits(fx_mul_bits(a.bits as int, p.x.bits as int), fx_mul_bits(b.bits as int, p.y.bits as int)),
            fx_mul_bits(c.bits as int, p.z.bits as int),
        ),
        d.bits as int,
    )
}

pub open spec fn clip_x_bits(m: Mat4, p: Vec3) -> int {
    row_apply_bits(m.m00, m.m01, m.m02, m.m03, p)
}

pub open spec fn clip_y_bits(m: Mat4, p: Vec3) -> int {
    row_apply_bits(m.m10, m.m11, m.m12, m.m13, p)
}

pub open spec fn clip_z_bits(m: Mat4, p: Vec3) -> int {
    row_apply_bits(m.m20, m.m21, m.m22, m.m23, p)
}

pub open spec fn clip_w_bits(m: Mat4, p: Vec3) -> int {
    row_apply_bits(m.m30, m.m31, m.m32, m.m33, p)
}

/// What `vertex_shader` produces: the input vertex with its transformed
/// position replaced by the perspective-divided clip position. A zero `w`
/// has no finite quotient: the output is marked not valid and its
/// transformed position zeroed.
pub open spec fn shaded_vertex(v: Vertex, u: Uniforms) -> Vertex {
    let m = u.model_matrix;
    let w = clip_w_bits(m, v.position);
    Vertex {
        position: v.position,
        normal: v.normal,
        tex_coords: v.tex_coords,
        color: v.color,
        transformed_position: if w == 0 {
            vec3_zero()
        } else {
            Vec3 {
                x: Fx { bits: fx_div_bits(clip_x_bits(m, v.position), w) as i64 },
                y: Fx { bits: fx_div_bits(clip_y_bits(m, v.position), w) as i64 },
                z: Fx { bits: fx_div_bits(clip_z_bits(m, v.position), w) as i64 },
            }
        },
        transformed_normal: v.transformed_normal,
        transformed_valid: w != 0,
    }
}

/// The per-draw-call transform configuration.
#[derive(Clone, Copy, Debug, PartialEq, Eq, Structural)]
pub struct Uniforms {
    pub model_matrix: Mat4,
}

/// The model matrix `Uniforms::new` builds: uniform scale on the diagonal,
/// the translation in the last column, and `(0,0,0,1)` as the bottom row.
pub open spec fn uniform_scale_translate(translation: Vec3, scale: Fx) -> Mat4 {
    Mat4 {
        m00: scale, m01: Fx { bits: 0 }, m02: Fx { bits: 0 }, m03: translation.x,
        m10: Fx { bits: 0 }, m11: scale, m12: Fx { bits: 0 }, m13: translation.y,
        m20: Fx { bits: 0 }, m21: Fx { bits: 0 }, m22: scale, m23: translation.z,
        m30: Fx { bits: 0 }, m31: Fx { bits: 0 }, m32: Fx { bits: 0 }, m33: Fx { bits: 65536 },
    }
}

impl Uniforms {
    /// A model matrix of uniform scale plus translation, no rotation.
    pub fn new(translation: Vec3, scale: Fx) -> (u: Uniforms)
        ensures
            u.model_matrix == uniform_scale_translate(translation, scale),
    {
        let z = Fx::zero();
        Uniforms {
            model_matrix: Mat4 {
                m00: scale, m01: z, m02: z, m03: translation.x,
                m10: z, m11: scale, m12: z, m13: translation.y,
                m20: z, m21: z, m22: scale, m23: translation.z,
                m30: z, m31: z, m32: z, m33: Fx::one(),
            },
        }
    }
}

fn apply_row(a: Fx, b: Fx, c: Fx, d: Fx, p: &Vec3) -> (r: Fx)
    ensures
        r.bits == row_apply_bits(a, b, c, d, *p),
{
    a.mul(p.x).add(b.mul(p.y)).add(c.mul(p.z)).add(d)
}

/// Transform one vertex: multiply its homogeneous object-space position by
/// the model matrix and divide by the resulting `w`. Pure; the input is not
/// changed. A zero `w` marks the output vertex as not valid instead of
/// producing an unbounded quotient.
pub fn vertex_shader(vertex: &Vertex, uniforms: &Uniforms) -> (out: Vertex)
    ensures
        out == shaded_vertex(*vertex, *uniforms),
{
    let m = &uniforms.model_matrix;
    let cx = apply_row(m.m00, m.m01, m.m02, m.m03, &vertex.position);
    let cy = apply_row(m.m10, m.m11, m.m12, m.m13, &vertex.position);
    let cz = apply_row(m.m20, m.m21, m.m22, m.m23, &vertex.position);
    let cw = apply_row(m.m30, m.m31, m.m32, m.m33, &vertex.position);
    if cw.bits == 0 {
        Vertex {
            position: vertex.position,
            normal: vertex.normal,
            tex_coords: vertex.tex_coords,
            color: vertex.color,
            transformed_position: Vec3::new(Fx::zero(), Fx::zero(), Fx::zero()),
            transformed_normal: vertex.transformed_normal,
            transformed_valid: false,
        }
    } else {
        Vertex {
            position: vertex.position,
            normal: vertex.normal,
            tex_coords: vertex.tex_coords,
            color: vertex.color,
            transformed_position: Vec3::new(cx.div(cw), cy.div(cw), cz.div(cw)),
            transformed_normal: vertex.transformed_normal,
            transformed_valid: true,
        }
    }
}

} // verus!
