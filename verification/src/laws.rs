//! The library's global guarantees, stated and proved over the spec
//! functions that the executable contracts are written in.

use vstd::prelude::*;
use vstd::arithmetic::div_mod::{
    lemma_div_is_ordered, lemma_div_multiples_vanish, lemma_div_pos_is_pos,
    lemma_fundamental_div_mod, lemma_mod_bound,
};
use crate::fx::{
    Fx, MAX_BITS, SCALE, fadd, fdiv, fmul, fneg, fsqrt, fsub, fx_int, fx_one, fx_zero, is_isqrt,
    isqrt, lemma_isqrt_bound, lemma_isqrt_exists,
};
use crate::intersect::{Intersection, spec_ray_vs_sphere, spec_sphere_roots};
use crate::render::{
    effective_aa, fx_half, spec_calculate_rays, spec_cast_ray, spec_fresnel, spec_pixel_color,
    spec_render_row, spec_sum_casts,
};
use crate::scene::{
    AntiAliasType, Scene, scan_ellipsoids, scan_polygons, scan_rhombohedrons, scan_spheres,
    spec_ray_vs_scene_helper,
};
use crate::shapes::{Material, Ray, Sphere, Triangle, tri_contains};
use crate::vec3::{Vec3, lemma_fmul_nonneg, v3_zero, v3add, v3divs, v3dot, v3sub};

verus! {

/// Casting at depth zero is full absorption: black, whatever the scene, the
/// ray, or the medium.
pub proof fn lemma_cast_depth_zero_black(ray: Ray, scene: Scene, n_i: Fx)
    ensures
        spec_cast_ray(ray, scene, 0, n_i) == v3_zero(),
{
}

/// The scan lines of rows `y0` (inclusive) to `y1` (exclusive), in order.
pub open spec fn spec_frame_rows(scene: Scene, y0: int, y1: int, depth: u32) -> Seq<Seq<Vec3>> {
    Seq::new((y1 - y0) as nat, |k: int| spec_render_row(scene, y0 + k, depth))
}

/// Resumability: rendering rows `a..c` in one pass yields exactly the rows
/// of a pass over `a..b` followed by a pass resumed at `b`, for any split
/// point — each row's colors depend only on the scene, the row index and
/// the depth, never on where a pass began.
pub proof fn lemma_frame_split(scene: Scene, a: int, b: int, c: int, depth: u32)
    requires
        a <= b <= c,
    ensures
        spec_frame_rows(scene, a, b, depth) + spec_frame_rows(scene, b, c, depth)
            == spec_frame_rows(scene, a, c, depth),
{
    let joined = spec_frame_rows(scene, a, b, depth) + spec_frame_rows(scene, b, c, depth);
    let whole = spec_frame_rows(scene, a, c, depth);
    assert forall|k: int| 0 <= k < whole.len() implies joined[k] == whole[k] by {
        if k < b - a {
            assert(joined[k] == spec_render_row(scene, a + k, depth));
        } else {
            assert(joined[k] == spec_render_row(scene, b + (k - (b - a)), depth));
        }
    }
    assert(joined =~= whole);
}

/// Background is black: in a point-sampled scene holding a single sphere,
/// a pixel whose primary ray misses that sphere renders exactly black,
/// whatever the lights, the ambient handling inside hits, the depth or the
/// media — nothing was hit, so nothing contributes.
pub proof fn lemma_background_pixel_black(scene: Scene, x: int, y: int, depth: u32)
    requires
        effective_aa(scene) == AntiAliasType::Off,
        scene.spheres@.len() == 1,
        scene.ellipsoids@.len() == 0,
        scene.rhombohedrons@.len() == 0,
        scene.polygons@.len() == 0,
        spec_ray_vs_sphere(
            spec_calculate_rays(scene, x, y)[0],
            scene.spheres@[0],
            crate::fx::fx_max(),
        ) is None,
    ensures
        spec_pixel_color(scene, x, y, depth) == v3_zero(),
{
    let rays = spec_calculate_rays(scene, x, y);
    let ray = rays[0];
    let far = crate::fx::fx_max();
    let none = Option::<(Intersection, Material)>::None;
    // The one sphere misses, and the other collections are empty, so the
    // whole-scene query reports nothing.
    assert(scan_spheres(ray, scene.spheres@, 1, far, none, false) == (far, none, false));
    assert(scan_spheres(ray, scene.spheres@, 0, far, none, false) == (far, none, false));
    assert(scan_ellipsoids(ray, scene.ellipsoids@, 0, far, none, false) == (far, none, false));
    assert(scan_rhombohedrons(ray, scene.rhombohedrons@, 0, far, none, false) == (
        far,
        none,
        false,
    ));
    assert(scan_polygons(ray, scene.polygons@, 0, far, none, false) == (far, none, false));
    assert(spec_ray_vs_scene_helper(ray, scene, false, far) is None);
    // A cast that hits nothing is black at every depth.
    assert(spec_cast_ray(ray, scene, depth, fx_one()) == v3_zero());
    // The single sample's running sum is black, and dividing black by the
    // sample count keeps it black.
    assert(v3add(v3_zero(), v3_zero()) == v3_zero());
    assert(spec_sum_casts(scene, rays, 1, depth, v3_zero()) == v3_zero());
    assert(spec_sum_casts(scene, rays, 0, depth, v3_zero()) == v3_zero());
    lemma_v3divs_zero(fx_int(rays.len() as int));
}

/// Dividing the zero vector by anything yields the zero vector.
proof fn lemma_v3divs_zero(s: Fx)
    ensures
        v3divs(v3_zero(), s) == v3_zero(),
{
    if s.bits != 0 {
        assert(0 * (SCALE as int) == 0) by (nonlinear_arith);
        vstd::arithmetic::div_mod::lemma_div_of0(s.bits as int);
    }
}

/// Containment in a triangle is strict: a vertex of the triangle itself
/// (where both barycentric coordinates vanish) is never reported contained,
/// whatever the triangle.
pub proof fn lemma_vertex_not_contained(t: Triangle)
    ensures
        !tri_contains(t, t.v0),
{
    let pc = v3sub(t.v0, t.v0);
    assert(pc == v3_zero());
    lemma_fmul_zero(t.e0.x);
    lemma_fmul_zero(t.e0.y);
    lemma_fmul_zero(t.e0.z);
    lemma_fmul_zero(t.e1.x);
    lemma_fmul_zero(t.e1.y);
    lemma_fmul_zero(t.e1.z);
    assert(v3dot(pc, t.e0) == fx_zero());
    assert(v3dot(pc, t.e1) == fx_zero());
    let aa = v3dot(t.e0, t.e0);
    let bb = v3dot(t.e1, t.e1);
    let ab = v3dot(t.e0, t.e1);
    let inv_det = fdiv(fx_one(), fsub(fmul(aa, bb), fmul(ab, ab)));
    lemma_fmul_zero(bb);
    lemma_fmul_zero(fneg(ab));
    lemma_fmul_zero(aa);
    lemma_fmul_zero(inv_det);
}

/// Multiplying zero by anything yields zero.
proof fn lemma_fmul_zero(y: Fx)
    ensures
        fmul(y, fx_zero()) == fx_zero(),
        fmul(fx_zero(), y) == fx_zero(),
{
    assert(y.bits * 0 == 0) by (nonlinear_arith);
    assert(0 * y.bits == 0) by (nonlinear_arith);
    vstd::arithmetic::div_mod::lemma_div_of0(SCALE as int);
}

/// The two reported roots of the ray/sphere quadratic are ordered: the near
/// root never lies past the far root.
pub proof fn lemma_sphere_roots_ordered(ray: Ray, sphere: Sphere)
    ensures
        spec_sphere_roots(ray, sphere).1.len() == 2 ==> spec_sphere_roots(
            ray,
            sphere,
        ).1[0].t.bits <= spec_sphere_roots(ray, sphere).1[1].t.bits,
{
    let pc = v3sub(ray.origin, sphere.center);
    let a = v3dot(ray.direction, ray.direction);
    let b = fmul(fx_int(2), v3dot(pc, ray.direction));
    let c = fsub(v3dot(pc, pc), fmul(sphere.radius, sphere.radius));
    let disc = fsub(fmul(b, b), fmul(fmul(fx_int(4), a), c));
    if disc.bits >= 0 {
        let sd = fsqrt(disc);
        lemma_fsqrt_bits(disc);
        crate::vec3::lemma_v3dot_self_nonneg(ray.direction);
        assert(fmul(fx_int(2), a).bits >= 0) by {
            assert((fx_int(2).bits as int) * a.bits == (2 * a.bits) * (SCALE as int))
                by (nonlinear_arith);
            lemma_div_multiples_vanish(2 * a.bits, SCALE as int);
        }
        lemma_fdiv_ordered(fsub(fneg(b), sd), fadd(fneg(b), sd), fmul(fx_int(2), a));
    }
}

/// When both roots lie ahead of the origin and the near one is within
/// range, the near root is the reported hit.
pub proof fn lemma_sphere_near_root_reported(ray: Ray, sphere: Sphere, max_t: Fx)
    requires
        spec_sphere_roots(ray, sphere).0 == 2,
        spec_sphere_roots(ray, sphere).1[0].t.bits < max_t.bits,
    ensures
        spec_ray_vs_sphere(ray, sphere, max_t) == Some(spec_sphere_roots(ray, sphere).1[0]),
        spec_sphere_roots(ray, sphere).1[0].t.bits <= spec_sphere_roots(ray, sphere).1[1].t.bits,
{
    lemma_sphere_roots_ordered(ray, sphere);
}

/// When the origin is inside the sphere (exactly one root ahead), the far
/// root is the reported hit.
pub proof fn lemma_sphere_far_root_reported(ray: Ray, sphere: Sphere, max_t: Fx)
    requires
        spec_sphere_roots(ray, sphere).0 == 1,
        spec_sphere_roots(ray, sphere).1[1].t.bits < max_t.bits,
    ensures
        spec_ray_vs_sphere(ray, sphere, max_t) == Some(spec_sphere_roots(ray, sphere).1[1]),
{
}

/// The bits of a square root: exactly the integer square root of the
/// scaled argument, non-negative and small enough to be exact.
proof fn lemma_fsqrt_bits(a: Fx)
    requires
        a.bits >= 0,
    ensures
        fsqrt(a).bits == isqrt(a.bits * (SCALE as int)),
        is_isqrt(a.bits * (SCALE as int), fsqrt(a).bits as int),
        0 <= fsqrt(a).bits < 0x100_0000_0000,
{
    let n = a.bits * (SCALE as int);
    lemma_isqrt_exists(n);
    assert(n < 0x100_0000_0000int * 0x100_0000_0000int) by (nonlinear_arith)
        requires
            0 <= a.bits <= i64::MAX,
            n == a.bits * (SCALE as int),
            SCALE == 65536,
    ;
    lemma_isqrt_bound(n, isqrt(n), 0x100_0000_0000int);
}

/// A ray from strictly outside a sphere (the `4*a*c` product positive at
/// the representation's resolution) heading back toward it closely enough
/// that the squared-`b` term dominates sees two geometric roots, both ahead
/// of the origin — the near one is then the reported hit.
pub proof fn lemma_sphere_outside_toward_two_roots(ray: Ray, sphere: Sphere)
    requires
        v3dot(ray.direction, ray.direction).bits >= 1,
        fmul(fx_int(2), v3dot(v3sub(ray.origin, sphere.center), ray.direction)).bits <= 0,
        fmul(
            fmul(fx_int(4), v3dot(ray.direction, ray.direction)),
            fsub(
                v3dot(v3sub(ray.origin, sphere.center), v3sub(ray.origin, sphere.center)),
                fmul(sphere.radius, sphere.radius),
            ),
        ).bits >= 1,
        fmul(
            fmul(fx_int(2), v3dot(v3sub(ray.origin, sphere.center), ray.direction)),
            fmul(fx_int(2), v3dot(v3sub(ray.origin, sphere.center), ray.direction)),
        ).bits >= fmul(
            fmul(fx_int(4), v3dot(ray.direction, ray.direction)),
            fsub(
                v3dot(v3sub(ray.origin, sphere.center), v3sub(ray.origin, sphere.center)),
                fmul(sphere.radius, sphere.radius),
            ),
        ).bits,
    ensures
        spec_sphere_roots(ray, sphere).0 == 2,
        spec_sphere_roots(ray, sphere).1[0].t.bits >= 0,
        spec_sphere_roots(ray, sphere).1[1].t.bits >= 0,
{
    let pc = v3sub(ray.origin, sphere.center);
    let a = v3dot(ray.direction, ray.direction);
    let b = fmul(fx_int(2), v3dot(pc, ray.direction));
    let c = fsub(v3dot(pc, pc), fmul(sphere.radius, sphere.radius));
    let m4ac = fmul(fmul(fx_int(4), a), c);
    let mb = fmul(b, b);
    let disc = fsub(mb, m4ac);
    lemma_fmul_nonneg(b, b);
    assert(disc.bits >= 0);
    // The floored square sits below the exact one, so the discriminant's
    // scaled form stays strictly below b^2.
    assert(b.bits * b.bits >= 0) by (nonlinear_arith);
    lemma_fundamental_div_mod(b.bits * b.bits, SCALE as int);
    lemma_mod_bound(b.bits * b.bits, SCALE as int);
    lemma_div_pos_is_pos(b.bits * b.bits, SCALE as int);
    assert(disc.bits <= mb.bits - 1);
    assert(disc.bits * (SCALE as int) < b.bits * b.bits) by (nonlinear_arith)
        requires
            disc.bits <= (b.bits * b.bits) / (SCALE as int) - 1,
            b.bits * b.bits == (SCALE as int) * ((b.bits * b.bits) / (SCALE as int)) + (b.bits
                * b.bits) % (SCALE as int),
            (b.bits * b.bits) % (SCALE as int) < SCALE as int,
            SCALE == 65536,
    ;
    let sd = fsqrt(disc);
    lemma_fsqrt_bits(disc);
    assert(b.bits * b.bits == (-(b.bits as int)) * (-(b.bits as int))) by (nonlinear_arith);
    lemma_isqrt_bound(disc.bits * (SCALE as int), sd.bits as int, -(b.bits as int));
    // Both root numerators are non-negative over a positive denominator.
    let den = fmul(fx_int(2), a);
    assert((fx_int(2).bits as int) * a.bits == (2 * a.bits) * (SCALE as int)) by (nonlinear_arith);
    lemma_div_multiples_vanish(2 * a.bits, SCALE as int);
    assert(den.bits >= 1);
    lemma_fdiv_nonneg(fsub(fneg(b), sd), den);
    lemma_fdiv_nonneg(fadd(fneg(b), sd), den);
}

/// A ray whose origin lies strictly inside a sphere (the `4*a*c` product
/// negative with a margin covering the rounding of `b^2`, which must not
/// saturate) sees exactly one root ahead: the far one, which the test then
/// reports.
pub proof fn lemma_sphere_inside_far_root(ray: Ray, sphere: Sphere)
    requires
        v3dot(ray.direction, ray.direction).bits >= 1,
        fmul(
            fmul(fx_int(2), v3dot(v3sub(ray.origin, sphere.center), ray.direction)),
            fmul(fx_int(2), v3dot(v3sub(ray.origin, sphere.center), ray.direction)),
        ).bits < MAX_BITS,
        fmul(
            fmul(fx_int(4), v3dot(ray.direction, ray.direction)),
            fsub(
                v3dot(v3sub(ray.origin, sphere.center), v3sub(ray.origin, sphere.center)),
                fmul(sphere.radius, sphere.radius),
            ),
        ).bits * (SCALE as int) <= -2 * fabs_bits(
            fmul(fx_int(2), v3dot(v3sub(ray.origin, sphere.center), ray.direction)).bits as int,
        ) - 2 * (SCALE as int),
    ensures
        spec_sphere_roots(ray, sphere).0 == 1,
        spec_sphere_roots(ray, sphere).1[0].t.bits < 0,
        spec_sphere_roots(ray, sphere).1[1].t.bits >= 0,
{
    let pc = v3sub(ray.origin, sphere.center);
    let a = v3dot(ray.direction, ray.direction);
    let b = fmul(fx_int(2), v3dot(pc, ray.direction));
    let c = fsub(v3dot(pc, pc), fmul(sphere.radius, sphere.radius));
    let m4ac = fmul(fmul(fx_int(4), a), c);
    let mb = fmul(b, b);
    let disc = fsub(mb, m4ac);
    let ab = fabs_bits(b.bits as int);
    lemma_fmul_nonneg(b, b);
    // The exact square and its floored fixed-point form.
    assert(b.bits * b.bits >= 0) by (nonlinear_arith);
    lemma_fundamental_div_mod(b.bits * b.bits, SCALE as int);
    lemma_mod_bound(b.bits * b.bits, SCALE as int);
    assert(disc.bits >= 1);
    // The scaled discriminant clears the squared (|b|+1) threshold.
    assert(ab * ab == b.bits * b.bits) by (nonlinear_arith)
        requires
            ab == fabs_bits(b.bits as int),
            ab == (if b.bits < 0 {
                -(b.bits as int)
            } else {
                b.bits as int
            }),
    ;
    if disc.bits == MAX_BITS as int {
        assert(mb.bits * (SCALE as int) >= b.bits * b.bits - (SCALE as int) + 1);
        assert(disc.bits * (SCALE as int) >= (ab + 1) * (ab + 1)) by (nonlinear_arith)
            requires
                disc.bits == MAX_BITS as int,
                MAX_BITS == 0x4000_0000_0000_0000,
                SCALE == 65536,
                ab * ab <= mb.bits * (SCALE as int) + (SCALE as int) - 1,
                mb.bits < MAX_BITS,
                ab >= 0,
        ;
    } else {
        assert(disc.bits == mb.bits - m4ac.bits);
        assert(disc.bits * (SCALE as int) >= (ab + 1) * (ab + 1)) by (nonlinear_arith)
            requires
                disc.bits == mb.bits - m4ac.bits,
                m4ac.bits * (SCALE as int) <= -2 * ab - 2 * (SCALE as int),
                mb.bits * (SCALE as int) >= b.bits * b.bits - (SCALE as int) + 1,
                ab * ab == b.bits * b.bits,
                SCALE == 65536,
                ab >= 0,
        ;
    }
    let sd = fsqrt(disc);
    lemma_fsqrt_bits(disc);
    assert(sd.bits >= ab + 1) by (nonlinear_arith)
        requires
            is_isqrt(disc.bits * (SCALE as int), sd.bits as int),
            disc.bits * (SCALE as int) >= (ab + 1) * (ab + 1),
            ab >= 0,
    ;
    let den = fmul(fx_int(2), a);
    assert((fx_int(2).bits as int) * a.bits == (2 * a.bits) * (SCALE as int)) by (nonlinear_arith);
    lemma_div_multiples_vanish(2 * a.bits, SCALE as int);
    assert(den.bits >= 1);
    lemma_fdiv_neg(fsub(fneg(b), sd), den);
    lemma_fdiv_nonneg(fadd(fneg(b), sd), den);
}

/// The magnitude of an integer.
pub open spec fn fabs_bits(x: int) -> int {
    if x < 0 {
        -x
    } else {
        x
    }
}

/// Division by a non-negative value preserves the order of numerators.
proof fn lemma_fdiv_ordered(n1: Fx, n2: Fx, d: Fx)
    requires
        n1.bits <= n2.bits,
        d.bits >= 0,
    ensures
        fdiv(n1, d).bits <= fdiv(n2, d).bits,
{
    if d.bits != 0 {
        lemma_div_is_ordered(n1.bits * (SCALE as int), n2.bits * (SCALE as int), d.bits as int);
    }
}

/// A negative-over-positive quotient stays negative.
proof fn lemma_fdiv_neg(n: Fx, d: Fx)
    requires
        n.bits <= -1,
        d.bits >= 1,
    ensures
        fdiv(n, d).bits <= -1,
{
    let num = n.bits * (SCALE as int);
    let q = num / (d.bits as int);
    lemma_fundamental_div_mod(num, d.bits as int);
    assert(q <= -1) by (nonlinear_arith)
        requires
            num == (d.bits as int) * q + num % (d.bits as int),
            0 <= num % (d.bits as int) < d.bits as int,
            num <= -(SCALE as int),
            d.bits >= 1,
    ;
}

/// A quotient of a numerator within `[-d, d]` by `d` stays within one unit.
proof fn lemma_fdiv_ratio_bounded(n: Fx, d: Fx)
    requires
        d.bits >= 0,
        -d.bits <= n.bits <= d.bits,
    ensures
        -(SCALE as int) <= fdiv(n, d).bits <= SCALE as int,
{
    if d.bits != 0 {
        let db = d.bits as int;
        lemma_div_multiples_vanish(SCALE as int, db);
        lemma_div_multiples_vanish(-(SCALE as int), db);
        lemma_div_is_ordered(n.bits * (SCALE as int), db * (SCALE as int), db);
        lemma_div_is_ordered(db * (-(SCALE as int)), n.bits * (SCALE as int), db);
        assert(n.bits * (SCALE as int) <= db * (SCALE as int) && db * (-(SCALE as int)) <= n.bits
            * (SCALE as int)) by (nonlinear_arith)
            requires
                -db <= n.bits <= db,
                SCALE == 65536,
        ;
    }
}

/// A quotient of non-negative values is non-negative.
proof fn lemma_fdiv_nonneg(n: Fx, d: Fx)
    requires
        n.bits >= 0,
        d.bits >= 0,
    ensures
        fdiv(n, d).bits >= 0,
{
    if d.bits != 0 {
        lemma_div_pos_is_pos(n.bits * (SCALE as int), d.bits as int);
    }
}

/// The square of a value within `[-1, 1]` stays within `[0, 1]`.
proof fn lemma_fmul_square_unit(e: Fx)
    requires
        -(SCALE as int) <= e.bits <= SCALE as int,
    ensures
        0 <= fmul(e, e).bits <= SCALE as int,
{
    assert(0 <= e.bits * e.bits <= (SCALE as int) * (SCALE as int)) by (nonlinear_arith)
        requires
            -(SCALE as int) <= e.bits <= SCALE as int,
    ;
    lemma_div_pos_is_pos(e.bits * e.bits, SCALE as int);
    lemma_div_is_ordered(e.bits * e.bits, (SCALE as int) * (SCALE as int), SCALE as int);
    lemma_div_multiples_vanish(SCALE as int, SCALE as int);
}

/// Halving a value within `[0, 2]` lands within `[0, 1]`.
proof fn lemma_fmul_half_unit(sum: Fx)
    requires
        0 <= sum.bits <= 2 * (SCALE as int),
    ensures
        0 <= fmul(fx_half(), sum).bits <= SCALE as int,
{
    assert(0 <= fx_half().bits * sum.bits <= (SCALE as int) * (SCALE as int)) by (nonlinear_arith)
        requires
            0 <= sum.bits <= 2 * (SCALE as int),
            fx_half().bits == (SCALE as int) / 2,
            SCALE == 65536,
    ;
    lemma_div_pos_is_pos(fx_half().bits * sum.bits, SCALE as int);
    lemma_div_is_ordered(
        fx_half().bits * sum.bits,
        (SCALE as int) * (SCALE as int),
        SCALE as int,
    );
    lemma_div_multiples_vanish(SCALE as int, SCALE as int);
}

/// Energy bound on the reflectance: for positive media constants and any
/// admissible incidence cosine, the Fresnel reflectance lies in `[0, 1]`.
pub proof fn lemma_fresnel_reflectance_unit(n_i: Fx, n_t: Fx, u_i: Fx, u_t: Fx, cos_theta_i: Fx)
    requires
        n_i.bits > 0,
        n_t.bits > 0,
        u_i.bits > 0,
        u_t.bits > 0,
        cos_theta_i.bits >= 0,
    ensures
        0 <= spec_fresnel(n_i, n_t, u_i, u_t, cos_theta_i).bits <= SCALE as int,
{
    let nit = fdiv(n_i, n_t);
    let uit = fdiv(u_i, u_t);
    lemma_fdiv_nonneg(n_i, n_t);
    lemma_fdiv_nonneg(u_i, u_t);
    let determinate = fsub(
        fx_one(),
        fmul(fmul(nit, nit), fsub(fx_one(), fmul(cos_theta_i, cos_theta_i))),
    );
    if determinate.bits >= 0 {
        let cos_theta_t = fsqrt(determinate);
        lemma_fsqrt_bits(determinate);
        let p1 = fmul(nit, cos_theta_i);
        let q1 = fmul(uit, cos_theta_t);
        let p2 = fmul(uit, cos_theta_i);
        let q2 = fmul(nit, cos_theta_t);
        lemma_fmul_nonneg(nit, cos_theta_i);
        lemma_fmul_nonneg(uit, cos_theta_t);
        lemma_fmul_nonneg(uit, cos_theta_i);
        lemma_fmul_nonneg(nit, cos_theta_t);
        let e_perp = fdiv(fsub(p1, q1), fadd(p1, q1));
        let e_par = fdiv(fsub(p2, q2), fadd(p2, q2));
        lemma_fdiv_ratio_bounded(fsub(p1, q1), fadd(p1, q1));
        lemma_fdiv_ratio_bounded(fsub(p2, q2), fadd(p2, q2));
        lemma_fmul_square_unit(e_perp);
        lemma_fmul_square_unit(e_par);
        lemma_fmul_half_unit(fadd(fmul(e_perp, e_perp), fmul(e_par, e_par)));
    }
}

/// Energy bound on the split: the reflection and transmission weights are
/// each non-negative and together never exceed the material's specular
/// coefficient.
pub proof fn lemma_energy_split(specular: Fx, fr: Fx)
    requires
        specular.bits >= 0,
        0 <= fr.bits <= SCALE as int,
    ensures
        fmul(specular, fr).bits >= 0,
        fmul(specular, fsub(fx_one(), fr)).bits >= 0,
        fadd(fmul(specular, fr), fmul(specular, fsub(fx_one(), fr))).bits <= specular.bits,
{
    let s = specular.bits as int;
    let f = fr.bits as int;
    let u = s * f;
    let v = s * ((SCALE as int) - f);
    assert(u >= 0 && v >= 0 && u + v == s * (SCALE as int)) by (nonlinear_arith)
        requires
            s >= 0,
            0 <= f <= SCALE as int,
            u == s * f,
            v == s * ((SCALE as int) - f),
    ;
    lemma_div_pos_is_pos(u, SCALE as int);
    lemma_div_pos_is_pos(v, SCALE as int);
    let q1 = u / (SCALE as int);
    let q2 = v / (SCALE as int);
    lemma_fundamental_div_mod(u, SCALE as int);
    lemma_fundamental_div_mod(v, SCALE as int);
    lemma_mod_bound(u, SCALE as int);
    lemma_mod_bound(v, SCALE as int);
    assert(q1 + q2 <= s) by (nonlinear_arith)
        requires
            u == (SCALE as int) * q1 + u % (SCALE as int),
            v == (SCALE as int) * q2 + v % (SCALE as int),
            0 <= u % (SCALE as int) < SCALE as int,
            0 <= v % (SCALE as int) < SCALE as int,
            u + v == s * (SCALE as int),
            SCALE == 65536,
    ;
}

/// A ray whose origin lies strictly outside a sphere (by at least one
/// representable unit of `4*a*c`) and whose direction does not point back
/// toward it never hits: the test reports nothing, whatever `max_t`.
pub proof fn lemma_sphere_points_away_no_hit(ray: Ray, sphere: Sphere, max_t: Fx)
    requires
        v3dot(ray.direction, ray.direction).bits >= 1,
        v3dot(v3sub(ray.origin, sphere.center), ray.direction).bits >= 0,
        fmul(
            fmul(fx_int(4), v3dot(ray.direction, ray.direction)),
            fsub(
                v3dot(v3sub(ray.origin, sphere.center), v3sub(ray.origin, sphere.center)),
                fmul(sphere.radius, sphere.radius),
            ),
        ).bits >= 1,
    ensures
        spec_ray_vs_sphere(ray, sphere, max_t) is None,
{
    let pc = v3sub(ray.origin, sphere.center);
    let a = v3dot(ray.direction, ray.direction);
    let pcd = v3dot(pc, ray.direction);
    let b = fmul(fx_int(2), pcd);
    let c = fsub(v3dot(pc, pc), fmul(sphere.radius, sphere.radius));
    let m4ac = fmul(fmul(fx_int(4), a), c);
    let disc = fsub(fmul(b, b), m4ac);
    // b is the doubled (non-negative) pointing-away dot product.
    assert((fx_int(2).bits as int) * pcd.bits == (2 * pcd.bits) * (SCALE as int))
        by (nonlinear_arith);
    lemma_div_multiples_vanish(2 * pcd.bits, SCALE as int);
    assert(b.bits >= 0);
    if disc.bits >= 0 {
        let mb = fmul(b, b);
        // The squared-b term floors below the exact square.
        lemma_fundamental_div_mod(b.bits * b.bits, SCALE as int);
        assert(b.bits * b.bits >= 0) by (nonlinear_arith)
            requires
                b.bits >= 0,
        ;
        lemma_div_pos_is_pos(b.bits * b.bits, SCALE as int);
        assert(mb.bits <= (b.bits * b.bits) / (SCALE as int));
        assert(disc.bits <= mb.bits - 1);
        assert(disc.bits * (SCALE as int) < b.bits * b.bits) by (nonlinear_arith)
            requires
                disc.bits <= (b.bits * b.bits) / (SCALE as int) - 1,
                (b.bits * b.bits) % (SCALE as int) < SCALE as int,
                b.bits * b.bits == (SCALE as int) * ((b.bits * b.bits) / (SCALE as int)) + (b.bits
                    * b.bits) % (SCALE as int),
                SCALE == 65536,
        ;
        let sd = fsqrt(disc);
        lemma_fsqrt_bits(disc);
        lemma_isqrt_bound(disc.bits * (SCALE as int), sd.bits as int, b.bits as int);
        // The far root's numerator is strictly negative...
        let numf = fadd(fneg(b), sd);
        assert(numf.bits <= -1);
        // ...and the denominator is positive, so the far root lies behind.
        let den = fmul(fx_int(2), a);
        assert((fx_int(2).bits as int) * a.bits == (2 * a.bits) * (SCALE as int))
            by (nonlinear_arith);
        lemma_div_multiples_vanish(2 * a.bits, SCALE as int);
        assert(den.bits >= 1);
        lemma_fdiv_neg(numf, den);
    }
}

} // verus!
