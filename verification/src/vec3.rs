//! Three-component vectors over [`crate::fx::Fx`]: the foundation of all
//! geometry and of color arithmetic in the tracer.

use vstd::prelude::*;
use vstd::arithmetic::div_mod::lemma_div_pos_is_pos;
use crate::fx::{Fx, SCALE, fadd, fdiv, fmul, fneg, fsqrt, fsub, fx_zero};

verus! {

/// A point, direction or color: three fixed-point components.
#[derive(Debug, Copy, Clone, PartialEq, Eq, Structural)]
pub struct Vec3 {
    pub x: Fx,
    pub y: Fx,
    pub z: Fx,
}

pub open spec fn v3(x: Fx, y: Fx, z: Fx) -> Vec3 {
    Vec3 { x, y, z }
}

pub open spec fn v3_zero() -> Vec3 {
    v3(fx_zero(), fx_zero(), fx_zero())
}

pub open spec fn v3add(a: Vec3, b: Vec3) -> Vec3 {
    v3(fadd(a.x, b.x), fadd(a.y, b.y), fadd(a.z, b.z))
}

pub open spec fn v3sub(a: Vec3, b: Vec3) -> Vec3 {
    v3(fsub(a.x, b.x), fsub(a.y, b.y), fsub(a.z, b.z))
}

pub open spec fn v3neg(a: Vec3) -> Vec3 {
    v3(fneg(a.x), fneg(a.y), fneg(a.z))
}

/// Scaling by a scalar.
pub open spec fn v3scale(a: Vec3, s: Fx) -> Vec3 {
    v3(fmul(a.x, s), fmul(a.y, s), fmul(a.z, s))
}

/// Componentwise product (color filtering).
pub open spec fn v3mulc(a: Vec3, b: Vec3) -> Vec3 {
    v3(fmul(a.x, b.x), fmul(a.y, b.y), fmul(a.z, b.z))
}

/// Componentwise division by a scalar.
pub open spec fn v3divs(a: Vec3, s: Fx) -> Vec3 {
    v3(fdiv(a.x, s), fdiv(a.y, s), fdiv(a.z, s))
}

pub open spec fn v3dot(a: Vec3, b: Vec3) -> Fx {
    fadd(fadd(fmul(a.x, b.x), fmul(a.y, b.y)), fmul(a.z, b.z))
}

pub open spec fn v3cross(a: Vec3, b: Vec3) -> Vec3 {
    v3(
        fsub(fmul(a.y, b.z), fmul(a.z, b.y)),
        fsub(fmul(a.z, b.x), fmul(a.x, b.z)),
        fsub(fmul(a.x, b.y), fmul(a.y, b.x)),
    )
}

pub open spec fn v3len(a: Vec3) -> Fx {
    fsqrt(v3dot(a, a))
}

/// The vector scaled to unit length; the zero vector (whose length is zero)
/// stays zero, by the division-by-zero policy of `fdiv`.
pub open spec fn v3normalize(a: Vec3) -> Vec3 {
    v3divs(a, v3len(a))
}

/// A product of two numbers of one sign is non-negative, and floor scaling
/// keeps it so.
pub proof fn lemma_fmul_nonneg(a: Fx, b: Fx)
    requires
        a.bits >= 0 && b.bits >= 0 || a.bits <= 0 && b.bits <= 0,
    ensures
        fmul(a, b).bits >= 0,
{
    assert(a.bits * b.bits >= 0) by (nonlinear_arith)
        requires
            a.bits >= 0 && b.bits >= 0 || a.bits <= 0 && b.bits <= 0,
    ;
    lemma_div_pos_is_pos(a.bits * b.bits, SCALE as int);
}

/// A dot product of a vector with itself is non-negative.
pub proof fn lemma_v3dot_self_nonneg(a: Vec3)
    ensures
        v3dot(a, a).bits >= 0,
{
    lemma_fmul_nonneg(a.x, a.x);
    lemma_fmul_nonneg(a.y, a.y);
    lemma_fmul_nonneg(a.z, a.z);
}

impl Vec3 {
    pub fn new(x: Fx, y: Fx, z: Fx) -> (r: Vec3)
        ensures
            r == v3(x, y, z),
    {
        Vec3 { x, y, z }
    }

    pub fn zero() -> (r: Vec3)
        ensures
            r == v3_zero(),
    {
        Vec3 { x: Fx { bits: 0 }, y: Fx { bits: 0 }, z: Fx { bits: 0 } }
    }

    pub fn add(self, o: Vec3) -> (r: Vec3)
        ensures
            r == v3add(self, o),
    {
        Vec3 { x: self.x.add(o.x), y: self.y.add(o.y), z: self.z.add(o.z) }
    }

    pub fn sub(self, o: Vec3) -> (r: Vec3)
        ensures
            r == v3sub(self, o),
    {
        Vec3 { x: self.x.sub(o.x), y: self.y.sub(o.y), z: self.z.sub(o.z) }
    }

    pub fn neg(self) -> (r: Vec3)
        ensures
            r == v3neg(self),
    {
        Vec3 { x: self.x.neg(), y: self.y.neg(), z: self.z.neg() }
    }

    pub fn scale(self, s: Fx) -> (r: Vec3)
        ensures
            r == v3scale(self, s),
    {
        Vec3 { x: self.x.mul(s), y: self.y.mul(s), z: self.z.mul(s) }
    }

    pub fn mulc(self, o: Vec3) -> (r: Vec3)
        ensures
            r == v3mulc(self, o),
    {
        Vec3 { x: self.x.mul(o.x), y: self.y.mul(o.y), z: self.z.mul(o.z) }
    }

    pub fn divs(self, s: Fx) -> (r: Vec3)
        ensures
            r == v3divs(self, s),
    {
        Vec3 { x: self.x.div(s), y: self.y.div(s), z: self.z.div(s) }
    }

    pub fn dot(self, o: Vec3) -> (r: Fx)
        ensures
            r == v3dot(self, o),
    {
        self.x.mul(o.x).add(self.y.mul(o.y)).add(self.z.mul(o.z))
    }

    pub fn cross(self, o: Vec3) -> (r: Vec3)
        ensures
            r == v3cross(self, o),
    {
        Vec3 {
            x: self.y.mul(o.z).sub(self.z.mul(o.y)),
            y: self.z.mul(o.x).sub(self.x.mul(o.z)),
            z: self.x.mul(o.y).sub(self.y.mul(o.x)),
        }
    }

    pub fn len(self) -> (r: Fx)
        ensures
            r == v3len(self),
    {
        let d = self.dot(self);
        proof {
            lemma_v3dot_self_nonneg(self);
        }
        d.sqrt()
    }

    pub fn normalize(self) -> (r: Vec3)
        ensures
            r == v3normalize(self),
    {
        self.divs(self.len())
    }
}

} // verus!
