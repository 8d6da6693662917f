//! Closed-form ray/primitive intersection tests. Each test returns the
//! nearest valid hit distance along the ray and the surface normal there,
//! or `None`; the result of every test is pinned down exactly by a spec
//! function mirroring the closed-form mathematics.

use vstd::prelude::*;
use crate::fx::{Fx, fadd, fdiv, fmul, fneg, fsqrt, fsub, fx_int, fx_one, fx_zero};
use crate::mat3::m3mulv;
use crate::shapes::{Ellipsoid, Material, Plane, Polygon, Ray, Rhombohedron, Sphere, Triangle, tri_contains};
use crate::vec3::{Vec3, v3_zero, v3add, v3dot, v3normalize, v3scale, v3sub};

verus! {

/// A hit: the distance along the ray and the surface normal at the hit
/// point (not necessarily unit length; the shader normalizes lazily).
#[derive(Debug, Copy, Clone, PartialEq, Eq, Structural)]
pub struct Intersection {
    pub t: Fx,
    pub normal: Vec3,
}

/// Both quadratic roots of the ray/sphere test, with the count of roots
/// that lie ahead of the ray origin under the reporting policy: 0 when the
/// sphere is behind (or missed entirely), 1 when the origin is inside, 2
/// when both roots are ahead.
pub open spec fn spec_sphere_roots(ray: Ray, sphere: Sphere) -> (u32, Seq<Intersection>) {
    let pc = v3sub(ray.origin, sphere.center);
    let a = v3dot(ray.direction, ray.direction);
    let b = fmul(fx_int(2), v3dot(pc, ray.direction));
    let c = fsub(v3dot(pc, pc), fmul(sphere.radius, sphere.radius));
    let disc = fsub(fmul(b, b), fmul(fmul(fx_int(4), a), c));
    if disc.bits < 0 {
        (0u32, Seq::empty())
    } else {
        let sd = fsqrt(disc);
        let t1 = fdiv(fsub(fneg(b), sd), fmul(fx_int(2), a));
        let t2 = fdiv(fadd(fneg(b), sd), fmul(fx_int(2), a));
        let n1 = v3sub(v3add(ray.origin, v3scale(ray.direction, t1)), sphere.center);
        let n2 = v3sub(v3add(ray.origin, v3scale(ray.direction, t2)), sphere.center);
        let count: u32 = if t2.bits < 0 {
            0u32
        } else if t1.bits < 0 {
            1u32
        } else {
            2u32
        };
        (count, seq![Intersection { t: t1, normal: n1 }, Intersection { t: t2, normal: n2 }])
    }
}

/// The reported ray/sphere hit: the near root when both are ahead, the far
/// root when the origin is inside, nothing when the sphere is behind or
/// missed; hits at or past `max_t` are discarded.
pub open spec fn spec_ray_vs_sphere(ray: Ray, sphere: Sphere, max_t: Fx) -> Option<Intersection> {
    let (count, roots) = spec_sphere_roots(ray, sphere);
    if count == 2 && roots[0].t.bits < max_t.bits {
        Some(roots[0])
    } else if count == 1 && roots[1].t.bits < max_t.bits {
        Some(roots[1])
    } else {
        None
    }
}

/// If the ray would also exit the sphere, provide that intersection too.
pub fn ray_vs_sphere2(ray: &Ray, sphere: &Sphere) -> (r: (u32, Vec<Intersection>))
    ensures
        r.0 == spec_sphere_roots(*ray, *sphere).0,
        r.1@ == spec_sphere_roots(*ray, *sphere).1,
{
    let pc = ray.origin.sub(sphere.center);
    let a = ray.direction.dot(ray.direction);
    let b = Fx::from_int(2).mul(pc.dot(ray.direction));
    let c = pc.dot(pc).sub(sphere.radius.mul(sphere.radius));
    let disc = b.mul(b).sub(Fx::from_int(4).mul(a).mul(c));
    if disc.bits < 0 {
        return (0, Vec::new());
    }
    let sd = disc.sqrt();
    let t1 = b.neg().sub(sd).div(Fx::from_int(2).mul(a));
    let t2 = b.neg().add(sd).div(Fx::from_int(2).mul(a));
    let n1 = ray.origin.add(ray.direction.scale(t1)).sub(sphere.center);
    let n2 = ray.origin.add(ray.direction.scale(t2)).sub(sphere.center);
    let count: u32 = if t2.bits < 0 {
        0
    } else if t1.bits < 0 {
        1
    } else {
        2
    };
    let mut out: Vec<Intersection> = Vec::new();
    out.push(Intersection { t: t1, normal: n1 });
    out.push(Intersection { t: t2, normal: n2 });
    proof {
        assert(out@ =~= spec_sphere_roots(*ray, *sphere).1);
    }
    (count, out)
}

pub fn ray_vs_sphere(ray: &Ray, sphere: &Sphere, max_t: Fx) -> (r: Option<Intersection>)
    ensures
        r == spec_ray_vs_sphere(*ray, *sphere, max_t),
{
    let (count, result) = ray_vs_sphere2(ray, sphere);
    if 2 == count {
        if result[0].t.bits < max_t.bits {
            return Some(result[0]);
        }
    } else if 1 == count {
        if result[1].t.bits < max_t.bits {
            return Some(result[1]);
        }
    }
    None
}

/// The ray/plane hit: none when the ray is exactly parallel to the plane,
/// otherwise the linear solution, discarded when behind the origin or not
/// strictly before `max_t`.
pub open spec fn spec_ray_vs_plane(ray: Ray, plane: Plane, max_t: Fx) -> Option<Intersection> {
    let d_dot_n = v3dot(ray.direction, plane.normal);
    if d_dot_n.bits == 0 {
        None
    } else {
        let t = fdiv(fneg(fsub(v3dot(ray.origin, plane.normal), v3dot(plane.normal, plane.point))), d_dot_n);
        if t.bits < 0 || t.bits >= max_t.bits {
            None
        } else {
            Some(Intersection { t, normal: plane.normal })
        }
    }
}

pub fn ray_vs_plane(ray: &Ray, plane: &Plane, max_t: Fx) -> (r: Option<Intersection>)
    ensures
        r == spec_ray_vs_plane(*ray, *plane, max_t),
{
    let d_dot_n = ray.direction.dot(plane.normal);
    if d_dot_n.bits == 0 {
        return None;
    }
    let t = ray.origin.dot(plane.normal).sub(plane.normal.dot(plane.point)).neg().div(d_dot_n);
    if t.bits < 0 || t.bits >= max_t.bits {
        return None;
    }
    Some(Intersection { t, normal: plane.normal })
}

/// The entry/exit interval state of the slab test: the entry and exit
/// distances tightened so far and the normals of the planes that set them.
#[derive(Debug, Copy, Clone, PartialEq, Eq, Structural)]
pub struct Slab {
    pub t_near: Fx,
    pub t_far: Fx,
    pub n_near: Vec3,
    pub n_far: Vec3,
}

/// One bounding plane's effect on the slab interval: entering planes
/// tighten the entry distance upward, exiting planes tighten the exit
/// distance downward, and a parallel plane with the origin on its outward
/// side rules out any intersection (`None`).
pub open spec fn spec_slab_step(ray: Ray, plane: Plane, st: Slab) -> Option<Slab> {
    let d_dot_n = v3dot(ray.direction, plane.normal);
    let op_dot_n = v3dot(v3sub(ray.origin, plane.point), plane.normal);
    if d_dot_n.bits < 0 {
        let t_int = fdiv(fneg(op_dot_n), d_dot_n);
        if t_int.bits > st.t_near.bits {
            Some(Slab { t_near: t_int, n_near: plane.normal, ..st })
        } else {
            Some(st)
        }
    } else if d_dot_n.bits > 0 {
        let t_int = fdiv(fneg(op_dot_n), d_dot_n);
        if t_int.bits < st.t_far.bits {
            Some(Slab { t_far: t_int, n_far: plane.normal, ..st })
        } else {
            Some(st)
        }
    } else if op_dot_n.bits > 0 {
        None
    } else {
        Some(st)
    }
}

/// The slab interval after processing the planes from index `i` on.
pub open spec fn spec_slab_fold(ray: Ray, planes: Seq<Plane>, i: int, st: Slab) -> Option<Slab>
    decreases planes.len() - i when 0 <= i <= planes.len()
{
    if i >= planes.len() {
        Some(st)
    } else {
        match spec_slab_step(ray, planes[i], st) {
            Option::None => None,
            Option::Some(s2) => spec_slab_fold(ray, planes, i + 1, s2),
        }
    }
}

/// The reported ray/box hit: after tightening by all six planes there is no
/// hit when the interval is empty; otherwise the exit distance is reported
/// when the entry distance never advanced from zero (the origin is inside),
/// else the entry distance; a hit beyond `max_t` is discarded.
pub open spec fn spec_ray_vs_rhombohedron(ray: Ray, rh: Rhombohedron, max_t: Fx) -> Option<
    Intersection,
> {
    let init = Slab { t_near: fx_zero(), t_far: max_t, n_near: v3_zero(), n_far: v3_zero() };
    match spec_slab_fold(ray, rh.planes@, 0, init) {
        Option::None => None,
        Option::Some(st) => {
            if st.t_near.bits > st.t_far.bits {
                None
            } else {
                let t = if st.t_near.bits == 0 {
                    st.t_far
                } else {
                    st.t_near
                };
                let normal = if st.t_near.bits == 0 {
                    st.n_far
                } else {
                    st.n_near
                };
                if t.bits > max_t.bits {
                    None
                } else {
                    Some(Intersection { t, normal })
                }
            }
        },
    }
}

fn slab_step(ray: &Ray, plane: &Plane, st: Slab) -> (r: Option<Slab>)
    ensures
        r == spec_slab_step(*ray, *plane, st),
{
    let d_dot_n = ray.direction.dot(plane.normal);
    let op_dot_n = ray.origin.sub(plane.point).dot(plane.normal);
    if d_dot_n.bits < 0 {
        let t_int = op_dot_n.neg().div(d_dot_n);
        if t_int.bits > st.t_near.bits {
            Some(Slab { t_near: t_int, n_near: plane.normal, ..st })
        } else {
            Some(st)
        }
    } else if d_dot_n.bits > 0 {
        let t_int = op_dot_n.neg().div(d_dot_n);
        if t_int.bits < st.t_far.bits {
            Some(Slab { t_far: t_int, n_far: plane.normal, ..st })
        } else {
            Some(st)
        }
    } else if op_dot_n.bits > 0 {
        None
    } else {
        Some(st)
    }
}

fn slab_fold(ray: &Ray, planes: &[Plane; 6], i: usize, st: Slab) -> (r: Option<Slab>)
    requires
        i <= 6,
    ensures
        r == spec_slab_fold(*ray, planes@, i as int, st),
    decreases 6 - i,
{
    if i >= 6 {
        return Some(st);
    }
    match slab_step(ray, &planes[i], st) {
        None => None,
        Some(s2) => slab_fold(ray, planes, i + 1, s2),
    }
}

pub fn ray_vs_rhombohedron(ray: &Ray, rhombohedron: &Rhombohedron, max_t: Fx) -> (r: Option<
    Intersection,
>)
    ensures
        r == spec_ray_vs_rhombohedron(*ray, *rhombohedron, max_t),
{
    let init = Slab { t_near: Fx::zero(), t_far: max_t, n_near: Vec3::zero(), n_far: Vec3::zero() };
    match slab_fold(ray, &rhombohedron.planes, 0, init) {
        None => None,
        Some(st) => {
            if st.t_near.bits > st.t_far.bits {
                return None;
            }
            let (t, normal) = if st.t_near.bits == 0 {
                (st.t_far, st.n_far)
            } else {
                (st.t_near, st.n_near)
            };
            if t.bits > max_t.bits {
                return None;
            }
            Some(Intersection { t, normal })
        },
    }
}

/// Whether some triangle of the fan (from index `i` on) contains the point.
pub open spec fn spec_fan_contains(tris: Seq<Triangle>, p: Vec3) -> bool {
    exists|j: int| 0 <= j < tris.len() && tri_contains(tris[j], p)
}

/// The reported ray/polygon hit: the supporting plane's hit, kept only when
/// the hit point lies inside some triangle of the fan.
pub open spec fn spec_ray_vs_polygon(ray: Ray, polygon: Polygon, max_t: Fx) -> Option<
    Intersection,
> {
    match spec_ray_vs_plane(ray, polygon.plane, max_t) {
        Option::None => None,
        Option::Some(intersection) => {
            let point = v3add(ray.origin, v3scale(ray.direction, intersection.t));
            if spec_fan_contains(polygon.triangles@, point) {
                Some(intersection)
            } else {
                None
            }
        },
    }
}

pub fn ray_vs_polygon(ray: &Ray, polygon: &Polygon, max_t: Fx) -> (r: Option<Intersection>)
    ensures
        r == spec_ray_vs_polygon(*ray, *polygon, max_t),
{
    let result = ray_vs_plane(ray, &polygon.plane, max_t);
    match result {
        None => None,
        Some(intersection) => {
            let point = ray.origin.add(ray.direction.scale(intersection.t));
            let n = polygon.triangles.len();
            let mut i: usize = 0;
            while i < n
                invariant
                    0 <= i <= n,
                    n == polygon.triangles@.len(),
                    spec_ray_vs_plane(*ray, polygon.plane, max_t) == Some(intersection),
                    point == v3add(ray.origin, v3scale(ray.direction, intersection.t)),
                    forall|j: int| 0 <= j < i ==> !tri_contains(polygon.triangles@[j], point),
                decreases n - i,
            {
                if polygon.triangles[i].contains(&point) {
                    proof {
                        let j = i as int;
                        assert(tri_contains(polygon.triangles@[j], point));
                        assert(spec_fan_contains(polygon.triangles@, point));
                    }
                    return Some(intersection);
                }
                i = i + 1;
            }
            None
        },
    }
}

/// The reported ray/ellipsoid hit: the ray is mapped into the space where
/// the ellipsoid is the unit sphere at the origin, tested there, and the
/// resulting normal is mapped back through the inverse transpose and
/// renormalized.
pub open spec fn spec_ray_vs_ellipsoid(ray: Ray, ellipsoid: Ellipsoid, max_t: Fx) -> Option<
    Intersection,
> {
    let e_ray = Ray {
        origin: m3mulv(ellipsoid.inverse, v3sub(ray.origin, ellipsoid.center)),
        direction: m3mulv(ellipsoid.inverse, ray.direction),
    };
    let e_sphere = Sphere {
        center: v3_zero(),
        radius: fx_one(),
        material: ellipsoid.material,
    };
    match spec_ray_vs_sphere(e_ray, e_sphere, max_t) {
        Option::None => None,
        Option::Some(intersection) => Some(
            Intersection {
                t: intersection.t,
                normal: v3normalize(m3mulv(ellipsoid.inverse_transpose, intersection.normal)),
            },
        ),
    }
}

/// A reported sphere hit always lies at or ahead of the ray origin.
pub proof fn lemma_sphere_hit_nonneg(ray: Ray, sphere: Sphere, max_t: Fx)
    ensures
        spec_ray_vs_sphere(ray, sphere, max_t) is Some ==> spec_ray_vs_sphere(
            ray,
            sphere,
            max_t,
        )->0.t.bits >= 0,
{
}

/// A reported plane hit always lies at or ahead of the ray origin.
pub proof fn lemma_plane_hit_nonneg(ray: Ray, plane: Plane, max_t: Fx)
    ensures
        spec_ray_vs_plane(ray, plane, max_t) is Some ==> spec_ray_vs_plane(
            ray,
            plane,
            max_t,
        )->0.t.bits >= 0,
{
}

/// The slab fold never lowers the entry distance.
pub proof fn lemma_slab_fold_near_monotone(ray: Ray, planes: Seq<Plane>, i: int, st: Slab)
    requires
        0 <= i <= planes.len(),
    ensures
        spec_slab_fold(ray, planes, i, st) is Some ==> spec_slab_fold(
            ray,
            planes,
            i,
            st,
        )->0.t_near.bits >= st.t_near.bits,
    decreases planes.len() - i,
{
    if i < planes.len() {
        match spec_slab_step(ray, planes[i], st) {
            Option::Some(s2) => {
                lemma_slab_fold_near_monotone(ray, planes, i + 1, s2);
            },
            Option::None => {},
        }
    }
}

/// A reported box hit always lies at or ahead of the ray origin.
pub proof fn lemma_rhombohedron_hit_nonneg(ray: Ray, rh: Rhombohedron, max_t: Fx)
    ensures
        spec_ray_vs_rhombohedron(ray, rh, max_t) is Some ==> spec_ray_vs_rhombohedron(
            ray,
            rh,
            max_t,
        )->0.t.bits >= 0,
{
    let init = Slab { t_near: fx_zero(), t_far: max_t, n_near: v3_zero(), n_far: v3_zero() };
    lemma_slab_fold_near_monotone(ray, rh.planes@, 0, init);
}

/// A reported polygon hit always lies at or ahead of the ray origin.
pub proof fn lemma_polygon_hit_nonneg(ray: Ray, polygon: Polygon, max_t: Fx)
    ensures
        spec_ray_vs_polygon(ray, polygon, max_t) is Some ==> spec_ray_vs_polygon(
            ray,
            polygon,
            max_t,
        )->0.t.bits >= 0,
{
    lemma_plane_hit_nonneg(ray, polygon.plane, max_t);
}

/// A reported ellipsoid hit always lies at or ahead of the ray origin.
pub proof fn lemma_ellipsoid_hit_nonneg(ray: Ray, ellipsoid: Ellipsoid, max_t: Fx)
    ensures
        spec_ray_vs_ellipsoid(ray, ellipsoid, max_t) is Some ==> spec_ray_vs_ellipsoid(
            ray,
            ellipsoid,
            max_t,
        )->0.t.bits >= 0,
{
    let e_ray = Ray {
        origin: m3mulv(ellipsoid.inverse, v3sub(ray.origin, ellipsoid.center)),
        direction: m3mulv(ellipsoid.inverse, ray.direction),
    };
    let e_sphere = Sphere { center: v3_zero(), radius: fx_one(), material: ellipsoid.material };
    lemma_sphere_hit_nonneg(e_ray, e_sphere, max_t);
}

pub fn ray_vs_ellipsoid(ray: &Ray, ellipsoid: &Ellipsoid, max_t: Fx) -> (r: Option<Intersection>)
    ensures
        r == spec_ray_vs_ellipsoid(*ray, *ellipsoid, max_t),
{
    let e_ray = Ray {
        origin: ellipsoid.inverse.mul_vec(ray.origin.sub(ellipsoid.center)),
        direction: ellipsoid.inverse.mul_vec(ray.direction),
    };
    let e_sphere = Sphere { center: Vec3::zero(), radius: Fx::one(), material: ellipsoid.material };
    match ray_vs_sphere(&e_ray, &e_sphere, max_t) {
        None => None,
        Some(intersection) => Some(
            Intersection {
                t: intersection.t,
                normal: ellipsoid.inverse_transpose.mul_vec(intersection.normal).normalize(),
            },
        ),
    }
}

} // verus!
