//! The scene's geometric primitives and their constructors.

use vstd::prelude::*;
use crate::fx::{Fx, fadd, fdiv, fmul, fneg, fsub, fx_one, fx_zero};
use crate::mat3::{Mat3, m3_from_columns, m3det, m3inverse, m3transpose};
use crate::vec3::{Vec3, v3add, v3cross, v3dot, v3normalize, v3sub};

verus! {

/// Surface and medium constants of a shape.
#[derive(Debug, Copy, Clone, PartialEq, Eq, Structural)]
pub struct Material {
    pub diffuse: Vec3,
    pub specular_coefficient: Fx,
    pub specular_power: Fx,
    pub attenuation: Vec3,
    pub electric_permittivity: Fx,
    pub magnetic_permeability: Fx,
    pub index_of_refraction: Fx,
}

/// The physical sanity of a material's constants: what the shading math
/// needs of every material in a scene.
pub open spec fn material_wf(m: Material) -> bool {
    &&& m.specular_coefficient.bits >= 0
    &&& m.specular_power.bits >= 0
    &&& m.attenuation.x.bits >= 0
    &&& m.attenuation.y.bits >= 0
    &&& m.attenuation.z.bits >= 0
    &&& m.index_of_refraction.bits > 0
    &&& m.magnetic_permeability.bits > 0
}

impl Material {
    /// The runtime form of [`material_wf`].
    pub fn is_wf(&self) -> (r: bool)
        ensures
            r == material_wf(*self),
    {
        self.specular_coefficient.bits >= 0 && self.specular_power.bits >= 0
            && self.attenuation.x.bits >= 0 && self.attenuation.y.bits >= 0
            && self.attenuation.z.bits >= 0 && self.index_of_refraction.bits > 0
            && self.magnetic_permeability.bits > 0
    }
}

/// An origin and a direction; the direction need not be unit length, so `t`
/// parameters are comparable only along the same ray.
#[derive(Debug, Copy, Clone, PartialEq, Eq, Structural)]
pub struct Ray {
    pub origin: Vec3,
    pub direction: Vec3,
}

#[derive(Debug, Copy, Clone, PartialEq, Eq, Structural)]
pub struct Sphere {
    pub center: Vec3,
    pub radius: Fx,
    pub material: Material,
}

/// A point on the plane and its (outward) normal.
#[derive(Debug, Copy, Clone, PartialEq, Eq, Structural)]
pub struct Plane {
    pub normal: Vec3,
    pub point: Vec3,
}

/// An oblique box: the intersection of six half-spaces.
#[derive(Debug, Copy, Clone)]
pub struct Rhombohedron {
    pub planes: [Plane; 6],
    pub material: Material,
}

/// The plane through `point` with the unit normal of `edge_a x edge_b`.
pub open spec fn face_plane(point: Vec3, edge_a: Vec3, edge_b: Vec3) -> Plane {
    Plane { normal: v3normalize(v3cross(edge_a, edge_b)), point }
}

/// The same plane with its normal flipped, moved to `point`.
pub open spec fn opposite_plane(p: Plane, point: Vec3) -> Plane {
    Plane { normal: crate::vec3::v3neg(p.normal), point }
}

impl Rhombohedron {
    /// The six bounding planes of the box spanned at `corner` by the three
    /// edge vectors, each face's normal pointing outward.
    pub fn from_corner_and_edges(
        corner: Vec3,
        length: Vec3,
        width: Vec3,
        height: Vec3,
        material: Material,
    ) -> (r: Rhombohedron)
        ensures
            r.planes[0] == face_plane(corner, length, height),
            r.planes[1] == opposite_plane(face_plane(corner, length, height), v3add(corner, width)),
            r.planes[2] == face_plane(corner, height, width),
            r.planes[3] == opposite_plane(face_plane(corner, height, width), v3add(corner, length)),
            r.planes[4] == face_plane(corner, width, length),
            r.planes[5] == opposite_plane(face_plane(corner, width, length), v3add(corner, height)),
            r.material == material,
    {
        let plane_0 = Plane { point: corner, normal: length.cross(height).normalize() };
        let plane_1 = Plane { point: corner.add(width), normal: plane_0.normal.neg() };
        let plane_2 = Plane { point: corner, normal: height.cross(width).normalize() };
        let plane_3 = Plane { point: corner.add(length), normal: plane_2.normal.neg() };
        let plane_4 = Plane { point: corner, normal: width.cross(length).normalize() };
        let plane_5 = Plane { point: corner.add(height), normal: plane_4.normal.neg() };
        Rhombohedron { planes: [plane_0, plane_1, plane_2, plane_3, plane_4, plane_5], material }
    }
}

/// Three vertices with the two edge vectors from the first vertex and the
/// unit face normal.
#[derive(Debug, Copy, Clone, PartialEq, Eq, Structural)]
pub struct Triangle {
    pub v0: Vec3,
    pub v1: Vec3,
    pub v2: Vec3,
    pub e0: Vec3,
    pub e1: Vec3,
    pub normal: Vec3,
}

pub open spec fn spec_triangle(a: Vec3, b: Vec3, c: Vec3) -> Triangle {
    Triangle {
        v0: a,
        v1: b,
        v2: c,
        e0: v3sub(b, a),
        e1: v3sub(c, a),
        normal: v3normalize(v3cross(v3sub(b, a), v3sub(c, a))),
    }
}

/// The barycentric coordinates of `p` (a point on the triangle's plane)
/// with respect to the two edges from the first vertex.
pub open spec fn tri_barycentric(t: Triangle, p: Vec3) -> (Fx, Fx) {
    let aa = v3dot(t.e0, t.e0);
    let bb = v3dot(t.e1, t.e1);
    let ab = v3dot(t.e0, t.e1);
    let pc = v3sub(p, t.v0);
    let inv_det = fdiv(fx_one(), fsub(fmul(aa, bb), fmul(ab, ab)));
    let xd = v3dot(pc, t.e0);
    let yd = v3dot(pc, t.e1);
    let x = fmul(inv_det, fadd(fmul(bb, xd), fmul(fneg(ab), yd)));
    let y = fmul(inv_det, fadd(fmul(fneg(ab), xd), fmul(aa, yd)));
    (x, y)
}

/// Strict interior containment: both barycentric coordinates positive and
/// their sum below one (edges and vertices count as outside).
pub open spec fn tri_contains(t: Triangle, p: Vec3) -> bool {
    let (x, y) = tri_barycentric(t, p);
    x.bits > 0 && y.bits > 0 && fadd(x, y).bits < fx_one().bits
}

impl Triangle {
    pub fn from_vertices(vertices: [Vec3; 3]) -> (r: Triangle)
        ensures
            r == spec_triangle(vertices[0], vertices[1], vertices[2]),
    {
        let e0 = vertices[1].sub(vertices[0]);
        let e1 = vertices[2].sub(vertices[0]);
        let normal = e0.cross(e1).normalize();
        Triangle { v0: vertices[0], v1: vertices[1], v2: vertices[2], e0, e1, normal }
    }

    pub fn contains(&self, point: &Vec3) -> (r: bool)
        ensures
            r == tri_contains(*self, *point),
    {
        let aa = self.e0.dot(self.e0);
        let bb = self.e1.dot(self.e1);
        let ab = self.e0.dot(self.e1);
        let pc = point.sub(self.v0);
        let inv_det = Fx::one().div(aa.mul(bb).sub(ab.mul(ab)));
        let xd = pc.dot(self.e0);
        let yd = pc.dot(self.e1);
        let x = inv_det.mul(bb.mul(xd).add(ab.neg().mul(yd)));
        let y = inv_det.mul(ab.neg().mul(xd).add(aa.mul(yd)));
        x.bits > 0 && y.bits > 0 && x.add(y).bits < SCALE_BITS
    }
}

/// `fx_one().bits`, as an executable constant.
pub const SCALE_BITS: i64 = 65536;

/// A planar polygon held as a fan of triangles around its first vertex.
#[derive(Debug, Clone)]
pub struct Polygon {
    pub triangles: Vec<Triangle>,
    pub plane: Plane,
    pub material: Material,
}

impl Polygon {
    /// Fans the ordered vertex loop into triangles from the first vertex;
    /// the supporting plane takes the first triangle's normal.
    pub fn from_vertices(vertices: &Vec<Vec3>, material: Material) -> (r: Polygon)
        requires
            vertices@.len() >= 3,
        ensures
            r.triangles@.len() == vertices@.len() - 2,
            forall|i: int|
                0 <= i < r.triangles@.len() ==> r.triangles@[i] == spec_triangle(
                    vertices@[0],
                    vertices@[i + 1],
                    vertices@[i + 2],
                ),
            r.plane == (Plane {
                normal: spec_triangle(vertices@[0], vertices@[1], vertices@[2]).normal,
                point: vertices@[0],
            }),
            r.material == material,
    {
        let mut triangles: Vec<Triangle> = Vec::new();
        let n = vertices.len();
        let mut i: usize = 1;
        while i < n - 1
            invariant
                1 <= i <= n - 1,
                n == vertices@.len(),
                n >= 3,
                triangles@.len() == i - 1,
                forall|j: int|
                    0 <= j < triangles@.len() ==> triangles@[j] == spec_triangle(
                        vertices@[0],
                        vertices@[j + 1],
                        vertices@[j + 2],
                    ),
            decreases n - i,
        {
            triangles.push(Triangle::from_vertices([vertices[0], vertices[i], vertices[i + 1]]));
            i = i + 1;
        }
        let plane = Plane { normal: triangles[0].normal, point: vertices[0] };
        Polygon { triangles, plane, material }
    }
}

/// An affinely transformed unit sphere, held by its center, the inverse of
/// the semi-axis matrix, and that inverse's transpose.
#[derive(Debug, Copy, Clone, PartialEq, Eq, Structural)]
pub struct Ellipsoid {
    pub center: Vec3,
    pub inverse: Mat3,
    pub inverse_transpose: Mat3,
    pub material: Material,
}

impl Ellipsoid {
    /// Builds the ellipsoid from its three semi-axis vectors; refuses the
    /// construction when they are linearly dependent at the representation's
    /// resolution (the semi-axis matrix has determinant zero).
    pub fn new(center: Vec3, semiaxes: [Vec3; 3], material: Material) -> (r: Option<Ellipsoid>)
        ensures
            (m3det(m3_from_columns(semiaxes[0], semiaxes[1], semiaxes[2])).bits == 0) <==> (
            r is None),
            r is Some ==> r->0 == (Ellipsoid {
                center,
                inverse: m3inverse(m3_from_columns(semiaxes[0], semiaxes[1], semiaxes[2])),
                inverse_transpose: m3transpose(
                    m3inverse(m3_from_columns(semiaxes[0], semiaxes[1], semiaxes[2])),
                ),
                material,
            }),
    {
        let m = Mat3::from_columns(semiaxes[0], semiaxes[1], semiaxes[2]);
        match m.try_inverse() {
            None => None,
            Some(inverse) => Some(
                Ellipsoid { center, inverse, inverse_transpose: inverse.transpose(), material },
            ),
        }
    }
}

/// A spherical area light; radius zero behaves as a point light.
#[derive(Debug, Copy, Clone, PartialEq, Eq, Structural)]
pub struct Light {
    pub center: Vec3,
    pub radius: Fx,
    pub color: Vec3,
}

} // verus!
