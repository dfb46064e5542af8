//! Vertices and the small vector types they carry.

use vstd::prelude::*;

verus! {

use crate::fixed::Fx;
use crate::color::Color;

#[derive(Clone, Copy, Debug, PartialEq, Eq, Structural)]
pub struct Vec2 {
    pub x: Fx,
    pub y: Fx,
}

impl Vec2 {
    pub fn new(x: Fx, y: Fx) -> (v: Vec2)
        ensures
            v.x == x,
            v.y == y,
    {
        Vec2 { x, y }
    }
}

#[derive(Clone, Copy, Debug, PartialEq, Eq, Structural)]
pub struct Vec3 {
    pub x: Fx,
    pub y: Fx,
    pub z: Fx,
}

impl Vec3 {
    pub fn new(x: Fx, y: Fx, z: Fx) -> (v: Vec3)
        ensures
            v.x == x,
            v.y == y,
            v.z == z,
    {
        Vec3 { x, y, z }
    }
}

pub open spec fn vec2_zero() -> Vec2 {
    Vec2 { x: Fx { bits: 0 }, y: Fx { bits: 0 } }
}

pub open spec fn vec3_zero() -> Vec3 {
    Vec3 { x: Fx { bits: 0 }, y: Fx { bits: 0 }, z: Fx { bits: 0 } }
}

/// A vertex: object-space data plus the screen-space fields the transform
/// stage fills in. `transformed_valid` records that the perspective divide
/// succeeded; a `w == 0` divide clears it and the rasterizer then discards
/// any triangle that uses the vertex.
#[derive(Clone, Copy, Debug, PartialEq, Eq, Structural)]
pub struct Vertex {
    pub position: Vec3,
    pub normal: Vec3,
    pub tex_coords: Vec2,
    pub color: Color,
    pub transformed_position: Vec3,
    pub transformed_normal: Vec3,
    pub transformed_valid: bool,
}

pub open spec fn default_vertex() -> Vertex {
    Vertex {
        position: vec3_zero(),
        normal: Vec3 { x: Fx { bits: 0 }, y: Fx { bits: 65536 }, z: Fx { bits: 0 } },
        tex_coords: vec2_zero(),
        color: Color { r: Fx { bits: 0 }, g: Fx { bits: 0 }, b: Fx { bits: 0 } },
        transformed_position: vec3_zero(),
        transformed_normal: Vec3 { x: Fx { bits: 0 }, y: Fx { bits: 65536 }, z: Fx { bits: 0 } },
        transformed_valid: true,
    }
}

impl Vertex {
    /// A vertex from position, normal and texture coordinates; its color is
    /// black and its transformed fields start equal to the untransformed ones.
    pub fn new(position: Vec3, normal: Vec3, tex_coords: Vec2) -> (v: Vertex)
        ensures
            v.position == position,
            v.normal == normal,
            v.tex_coords == tex_coords,
            v.color.r.bits == 0 && v.color.g.bits == 0 && v.color.b.bits == 0,
            v.transformed_position == position,
            v.transformed_normal == normal,
            v.transformed_valid,
    {
        Vertex {
            position,
            normal,
            tex_coords,
            color: Color::black(),
            transformed_position: position,
            transformed_normal: normal,
            transformed_valid: true,
        }
    }

    /// A vertex from position and color alone; the other fields are zeroed.
    pub fn new_with_color(position: Vec3, color: Color) -> (v: Vertex)
        ensures
            v.position == position,
            v.color == color,
            v.normal == vec3_zero(),
            v.tex_coords == vec2_zero(),
            v.transformed_position == vec3_zero(),
            v.transformed_normal == vec3_zero(),
            v.transformed_valid,
    {
        Vertex {
            position,
            normal: Vec3::new(Fx::zero(), Fx::zero(), Fx::zero()),
            tex_coords: Vec2::new(Fx::zero(), Fx::zero()),
            color,
            transformed_position: Vec3::new(Fx::zero(), Fx::zero(), Fx::zero()),
            transformed_normal: Vec3::new(Fx::zero(), Fx::zero(), Fx::zero()),
            transformed_valid: true,
        }
    }

    /// Overwrite the transformed position and normal.
    pub fn set_transformed(&mut self, position: Vec3, normal: Vec3)
        ensures
            final(self).transformed_position == position,
            final(self).transformed_normal == normal,
            final(self).transformed_valid,
            final(self).position == old(self).position,
            final(self).normal == old(self).normal,
            final(self).tex_coords == old(self).tex_coords,
            final(self).color == old(self).color,
    {
        self.transformed_position = position;
        self.transformed_normal = normal;
        self.transformed_valid = true;
    }
}

impl Default for Vertex {
    /// The resting vertex: at the origin, normal along +y, black.
    fn default() -> (v: Vertex)
        ensures
            v == default_vertex(),
    {
        Vertex {
            position: Vec3::new(Fx::zero(), Fx::zero(), Fx::zero()),
            normal: Vec3::new(Fx::zero(), Fx::one(), Fx::zero()),
            tex_coords: Vec2::new(Fx::zero(), Fx::zero()),
            color: Color::black(),
            transformed_position: Vec3::new(Fx::zero(), Fx::zero(), Fx::zero()),
            transformed_normal: Vec3::new(Fx::zero(), Fx::one(), Fx::zero()),
            transformed_valid: true,
        }
    }
}

} // verus!
