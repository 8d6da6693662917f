//! 3x3 matrices over [`crate::fx::Fx`], used by ellipsoids to carry the
//! world-to-unit-sphere transform and its inverse transpose.

use vstd::prelude::*;
use crate::fx::Fx;
use crate::vec3::{Vec3, v3, v3cross, v3divs, v3dot};

verus! {

/// A 3x3 matrix held as three row vectors.
#[derive(Debug, Copy, Clone, PartialEq, Eq, Structural)]
pub struct Mat3 {
    pub r0: Vec3,
    pub r1: Vec3,
    pub r2: Vec3,
}

/// The matrix whose columns are `c0, c1, c2`.
pub open spec fn m3_from_columns(c0: Vec3, c1: Vec3, c2: Vec3) -> Mat3 {
    Mat3 { r0: v3(c0.x, c1.x, c2.x), r1: v3(c0.y, c1.y, c2.y), r2: v3(c0.z, c1.z, c2.z) }
}

pub open spec fn m3transpose(m: Mat3) -> Mat3 {
    m3_from_columns(m.r0, m.r1, m.r2)
}

pub open spec fn m3mulv(m: Mat3, v: Vec3) -> Vec3 {
    v3(v3dot(m.r0, v), v3dot(m.r1, v), v3dot(m.r2, v))
}

/// The determinant: the triple product of the rows.
pub open spec fn m3det(m: Mat3) -> Fx {
    v3dot(m.r0, v3cross(m.r1, m.r2))
}

/// The inverse by the adjugate rule: its columns are the pairwise cross
/// products of the rows, each divided by the determinant.
pub open spec fn m3inverse(m: Mat3) -> Mat3 {
    let det = m3det(m);
    m3_from_columns(
        v3divs(v3cross(m.r1, m.r2), det),
        v3divs(v3cross(m.r2, m.r0), det),
        v3divs(v3cross(m.r0, m.r1), det),
    )
}

impl Mat3 {
    pub fn from_columns(c0: Vec3, c1: Vec3, c2: Vec3) -> (r: Mat3)
        ensures
            r == m3_from_columns(c0, c1, c2),
    {
        Mat3 {
            r0: Vec3 { x: c0.x, y: c1.x, z: c2.x },
            r1: Vec3 { x: c0.y, y: c1.y, z: c2.y },
            r2: Vec3 { x: c0.z, y: c1.z, z: c2.z },
        }
    }

    pub fn transpose(self) -> (r: Mat3)
        ensures
            r == m3transpose(self),
    {
        Mat3::from_columns(self.r0, self.r1, self.r2)
    }

    pub fn mul_vec(self, v: Vec3) -> (r: Vec3)
        ensures
            r == m3mulv(self, v),
    {
        Vec3 { x: self.r0.dot(v), y: self.r1.dot(v), z: self.r2.dot(v) }
    }

    pub fn det(self) -> (r: Fx)
        ensures
            r == m3det(self),
    {
        self.r0.dot(self.r1.cross(self.r2))
    }

    /// The inverse, or `None` when the determinant is zero (the rows are
    /// linearly dependent at the representation's resolution).
    pub fn try_inverse(self) -> (r: Option<Mat3>)
        ensures
            m3det(self).bits == 0 <==> r is None,
            m3det(self).bits != 0 ==> r == Some(m3inverse(self)),
    {
        let det = self.det();
        if det.bits == 0 {
            return None;
        }
        Some(
            Mat3::from_columns(
                self.r1.cross(self.r2).divs(det),
                self.r2.cross(self.r0).divs(det),
                self.r0.cross(self.r1).divs(det),
            ),
        )
    }
}

} // verus!
