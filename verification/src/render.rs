//! Shading and the recursive ray-casting pipeline: local illumination with
//! shadows, the Fresnel energy split between reflection and transmission,
//! recursive ray spawning with a depth bound, and medium attenuation.

use vstd::prelude::*;
use crate::fx::{
    Fx, SCALE, fabs, fadd, fdiv, fmax, fmin, fmul, fneg, fpow, fsqrt, fsub, fx, fx_int, fx_max,
    fx_one, fx_zero,
};
use crate::intersect::Intersection;
use crate::scene::{
    AntiAliasType, Scene, lemma_scene_hit_props, ray_vs_scene, ray_vs_scene_shadow, scene_wf,
    spec_ray_vs_scene_helper,
};
use crate::shapes::{Light, Material, Ray};
use crate::vec3::{
    Vec3, v3, v3_zero, v3add, v3divs, v3dot, v3neg, v3normalize, v3scale, v3sub,
};

verus! {

/// The self-intersection offset, about 0.0012 units: spawned rays step this
/// far along the normal off the surface.
pub const EPSILON_BITS: i64 = 79;

pub open spec fn fx_epsilon() -> Fx {
    fx(EPSILON_BITS as int)
}

/// Shadow rays per light: one, so shadows are hard (binary); a larger
/// compiled-in count estimates the unoccluded fraction of each light's disk.
pub const SHADOW_SAMPLES: u32 = 1;

/// Half a unit: the `0.5` weight of the two Fresnel field ratios.
pub open spec fn fx_half() -> Fx {
    fx((SCALE as int) / 2)
}

/// A lazily normalized normal: returned as-is when its squared length is
/// already exactly one, renormalized otherwise.
pub open spec fn spec_get_normal(normal: Vec3) -> Vec3 {
    if v3dot(normal, normal) == fx_one() {
        normal
    } else {
        v3normalize(normal)
    }
}

pub fn get_normal(normal: Vec3) -> (r: Vec3)
    ensures
        r == spec_get_normal(normal),
{
    let d = normal.dot(normal);
    if d.bits == SCALE {
        return normal;
    }
    normal.normalize()
}

/// The direction `reflected` mirrored about `reflection_vector`, renormalized.
pub open spec fn spec_reflect(reflection_vector: Vec3, reflected: Vec3) -> Vec3 {
    let r_dot_rv = fmul(fx_int(2), v3dot(reflected, reflection_vector));
    v3normalize(v3sub(reflected, v3scale(reflection_vector, r_dot_rv)))
}

pub fn reflect(reflection_vector: &Vec3, reflected: &Vec3) -> (r: Vec3)
    ensures
        r == spec_reflect(*reflection_vector, *reflected),
{
    let r_dot_rv = Fx::from_int(2).mul(reflected.dot(*reflection_vector));
    reflected.sub(reflection_vector.scale(r_dot_rv)).normalize()
}

/// The refracted direction by Snell's law for the index ratio `nit`, or
/// `None` under total internal reflection (the squared transmission cosine
/// is not positive).
pub open spec fn spec_transmit(nit: Fx, normal: Vec3, from: Vec3) -> Option<Vec3> {
    let f_dot_n = v3dot(from, normal);
    let cos_t = fsub(fx_one(), fmul(fmul(nit, nit), fsub(fx_one(), fmul(f_dot_n, f_dot_n))));
    if cos_t.bits <= 0 {
        None
    } else {
        let inv = if f_dot_n.bits < 0 {
            fx_one()
        } else {
            fneg(fx_one())
        };
        let transmission = fmul(fsqrt(cos_t), inv);
        Some(
            v3normalize(
                v3sub(
                    v3scale(normal, fadd(transmission, fmul(nit, f_dot_n))),
                    v3scale(from, nit),
                ),
            ),
        )
    }
}

pub fn transmit(nit: Fx, normal: &Vec3, from: &Vec3) -> (r: Option<Vec3>)
    ensures
        r == spec_transmit(nit, *normal, *from),
{
    let f_dot_n = from.dot(*normal);
    let cos_t = Fx::one().sub(nit.mul(nit).mul(Fx::one().sub(f_dot_n.mul(f_dot_n))));
    if cos_t.bits <= 0 {
        return None;
    }
    let inv = if f_dot_n.bits < 0 {
        Fx::one()
    } else {
        Fx::one().neg()
    };
    let transmission = cos_t.sqrt().mul(inv);
    Some(normal.scale(transmission.add(nit.mul(f_dot_n))).sub(from.scale(nit)).normalize())
}

/// The power reflection coefficient at an interface, from the perpendicular
/// and parallel field ratios; total internal reflection (negative value
/// under the transmission square root) clamps it to one.
///
/// `n_i`/`n_t` are the refractive indices of the incidence and transmission
/// media, `u_i`/`u_t` their magnetic permeabilities, and `cos_theta_i` the
/// cosine of the incidence angle.
pub open spec fn spec_fresnel(n_i: Fx, n_t: Fx, u_i: Fx, u_t: Fx, cos_theta_i: Fx) -> Fx {
    let nit = fdiv(n_i, n_t);
    let uit = fdiv(u_i, u_t);
    let determinate = fsub(
        fx_one(),
        fmul(fmul(nit, nit), fsub(fx_one(), fmul(cos_theta_i, cos_theta_i))),
    );
    if determinate.bits < 0 {
        fx_one()
    } else {
        let cos_theta_t = fsqrt(determinate);
        let e_r_perp = fsub(fmul(nit, cos_theta_i), fmul(uit, cos_theta_t));
        let e_i_perp = fadd(fmul(nit, cos_theta_i), fmul(uit, cos_theta_t));
        let e_r_par = fsub(fmul(uit, cos_theta_i), fmul(nit, cos_theta_t));
        let e_i_par = fadd(fmul(uit, cos_theta_i), fmul(nit, cos_theta_t));
        let e_perp = fdiv(e_r_perp, e_i_perp);
        let e_par = fdiv(e_r_par, e_i_par);
        fmul(fx_half(), fadd(fmul(e_perp, e_perp), fmul(e_par, e_par)))
    }
}

pub fn fresnel(n_i: Fx, n_t: Fx, u_i: Fx, u_t: Fx, cos_theta_i: Fx) -> (r: Fx)
    ensures
        r == spec_fresnel(n_i, n_t, u_i, u_t, cos_theta_i),
{
    let nit = n_i.div(n_t);
    let uit = u_i.div(u_t);
    let determinate = Fx::one().sub(
        nit.mul(nit).mul(Fx::one().sub(cos_theta_i.mul(cos_theta_i))),
    );
    if determinate.bits < 0 {
        return Fx::one();
    }
    let cos_theta_t = determinate.sqrt();
    let e_r_perp = nit.mul(cos_theta_i).sub(uit.mul(cos_theta_t));
    let e_i_perp = nit.mul(cos_theta_i).add(uit.mul(cos_theta_t));
    let e_r_par = uit.mul(cos_theta_i).sub(nit.mul(cos_theta_t));
    let e_i_par = uit.mul(cos_theta_i).add(nit.mul(cos_theta_t));
    let e_perp = e_r_perp.div(e_i_perp);
    let e_par = e_r_par.div(e_i_par);
    Fx { bits: SCALE / 2 }.mul(e_perp.mul(e_perp).add(e_par.mul(e_par)))
}

/// Relies on `rand::random::<u64>`: a machine word from the thread-local
/// generator; nothing is promised of its value.
#[verifier::external_body]
fn random_u64() -> u64 {
    rand::random::<u64>()
}

/// A fixed-point value in `[-1, 1]`, drawn uniformly at random.
fn random_signed_unit() -> (r: Fx)
    ensures
        -(SCALE as int) <= r.bits <= SCALE as int,
{
    let w = random_u64();
    Fx { bits: (w % 131073) as i64 - 65536 }
}

/// A point drawn from the disk of the given radius around the origin of its
/// plane: a rejection-sampled unit-disk point, scaled by `radius`. Falls
/// back to the disk center when every draw misses (vanishingly unlikely).
fn sample_disk(radius: Fx) -> (r: (Fx, Fx))
    ensures
        exists|u: (Fx, Fx)|
            {
                &&& -(SCALE as int) <= u.0.bits <= SCALE as int
                &&& -(SCALE as int) <= u.1.bits <= SCALE as int
                &&& fadd(fmul(u.0, u.0), fmul(u.1, u.1)).bits <= SCALE as int
                &&& r == (fmul(u.0, radius), fmul(u.1, radius))
            },
{
    let mut attempt: u32 = 0;
    while attempt < 64
        decreases 64 - attempt,
    {
        let ux = random_signed_unit();
        let uy = random_signed_unit();
        if ux.mul(ux).add(uy.mul(uy)).bits <= SCALE {
            let out = (ux.mul(radius), uy.mul(radius));
            proof {
                let u = (ux, uy);
                assert(fadd(fmul(u.0, u.0), fmul(u.1, u.1)).bits <= SCALE as int);
            }
            return out;
        }
        attempt = attempt + 1;
    }
    let zero = Fx::zero();
    let out = (zero.mul(radius), zero.mul(radius));
    proof {
        let u = (fx_zero(), fx_zero());
        vstd::arithmetic::div_mod::lemma_div_pos_is_pos(0, SCALE as int);
        assert(fadd(fmul(u.0, u.0), fmul(u.1, u.1)).bits <= SCALE as int);
    }
    out
}

/// The color one light adds to `out` at a lit point: the shadow factor
/// (binary occlusion from one feeler ray, with the configured single
/// sample), then the diffuse term scaled per channel, then the specular
/// (Phong) term when the reflected light direction faces the viewer.
pub open spec fn spec_illum_step(
    ray: Ray,
    scene: Scene,
    light: Light,
    normal: Vec3,
    position: Vec3,
    material: Material,
    specular: Fx,
    out: Vec3,
) -> Vec3 {
    let light_direction = v3sub(light.center, position);
    let feeler = Ray {
        origin: v3add(position, v3scale(normal, fx_epsilon())),
        direction: light_direction,
    };
    let shadow = if spec_ray_vs_scene_helper(feeler, scene, true, fx_one()) is Some {
        fx_zero()
    } else {
        fx_one()
    };
    let ld = v3normalize(light_direction);
    let n_dot_l = fmax(fx_zero(), v3dot(normal, ld));
    let diffuse_factor = fmul(shadow, n_dot_l);
    let out1 = v3(
        fadd(out.x, fmul(fmul(diffuse_factor, material.diffuse.x), light.color.x)),
        fadd(out.y, fmul(fmul(diffuse_factor, material.diffuse.y), light.color.y)),
        fadd(out.z, fmul(fmul(diffuse_factor, material.diffuse.z), light.color.z)),
    );
    let l = v3sub(v3scale(normal, fmul(fx_int(2), v3dot(normal, ld))), ld);
    let v_dot_l = v3dot(ray.direction, v3neg(l));
    if v_dot_l.bits > 0 {
        v3add(out1, v3scale(light.color, fmul(fpow(v_dot_l, material.specular_power), specular)))
    } else {
        out1
    }
}

/// The accumulated contribution of the lights from index `i` on.
pub open spec fn spec_illum_rec(
    ray: Ray,
    scene: Scene,
    lights: Seq<Light>,
    i: int,
    normal: Vec3,
    position: Vec3,
    material: Material,
    specular: Fx,
    out: Vec3,
) -> Vec3
    decreases lights.len() - i when 0 <= i <= lights.len()
{
    if i >= lights.len() {
        out
    } else {
        spec_illum_rec(
            ray,
            scene,
            lights,
            i + 1,
            normal,
            position,
            material,
            specular,
            spec_illum_step(ray, scene, lights[i], normal, position, material, specular, out),
        )
    }
}

/// Direct lighting at a hit: the scene's ambient color plus every light's
/// shadowed diffuse and specular contribution; `specular` is the
/// Fresnel-derived reflection coefficient supplied by the caster.
pub open spec fn spec_local_illumination(
    ray: Ray,
    scene: Scene,
    intersection: Intersection,
    material: Material,
    specular: Fx,
) -> Vec3 {
    let normal = spec_get_normal(intersection.normal);
    let position = v3add(v3scale(ray.direction, intersection.t), ray.origin);
    spec_illum_rec(
        ray,
        scene,
        scene.lights@,
        0,
        normal,
        position,
        material,
        specular,
        scene.ambient,
    )
}

fn illum_rec(
    ray: &Ray,
    scene: &Scene,
    i: usize,
    normal: Vec3,
    position: Vec3,
    material: &Material,
    specular: Fx,
    out: Vec3,
) -> (r: Vec3)
    requires
        i <= scene.lights@.len(),
        material.specular_power.bits >= 0,
    ensures
        r == spec_illum_rec(
            *ray,
            *scene,
            scene.lights@,
            i as int,
            normal,
            position,
            *material,
            specular,
            out,
        ),
    decreases scene.lights@.len() - i,
{
    if i >= scene.lights.len() {
        return out;
    }
    let light = scene.lights[i];
    let light_direction = light.center.sub(position);
    let shadow: Fx;
    if SHADOW_SAMPLES == 1 || light.radius.bits == 0 {
        let feeler = Ray {
            origin: position.add(normal.scale(Fx::from_bits(EPSILON_BITS))),
            direction: light_direction,
        };
        shadow = if ray_vs_scene_shadow(&feeler, scene) {
            Fx::zero()
        } else {
            Fx::one()
        };
    } else {
        // Soft shadows: estimate the unoccluded fraction of the light's
        // disk (oriented toward the hit point) from SHADOW_SAMPLES feelers.
        let i1 = light_direction.cross(Vec3::new(Fx::zero(), Fx::zero(), Fx::one())).normalize();
        let i2 = light_direction.cross(i1).normalize();
        let mut shadow_counter: u32 = 0;
        let mut s: u32 = 0;
        while s < SHADOW_SAMPLES
            invariant
                shadow_counter <= s <= SHADOW_SAMPLES,
            decreases SHADOW_SAMPLES - s,
        {
            let (v0, v1) = sample_disk(light.radius);
            let feeler = Ray {
                origin: position.add(normal.scale(Fx::from_bits(EPSILON_BITS))),
                direction: light.center.add(i1.scale(v0)).add(i2.scale(v1)).sub(position),
            };
            if ray_vs_scene_shadow(&feeler, scene) {
                shadow_counter = shadow_counter + 1;
            }
            s = s + 1;
        }
        shadow = Fx::from_u32(SHADOW_SAMPLES - shadow_counter).div(Fx::from_u32(SHADOW_SAMPLES));
    }
    let ld = light_direction.normalize();
    let n_dot_l = Fx::zero().max(normal.dot(ld));
    let diffuse_factor = shadow.mul(n_dot_l);
    let out1 = Vec3 {
        x: out.x.add(diffuse_factor.mul(material.diffuse.x).mul(light.color.x)),
        y: out.y.add(diffuse_factor.mul(material.diffuse.y).mul(light.color.y)),
        z: out.z.add(diffuse_factor.mul(material.diffuse.z).mul(light.color.z)),
    };
    let l = normal.scale(Fx::from_int(2).mul(normal.dot(ld))).sub(ld);
    let v_dot_l = ray.direction.dot(l.neg());
    let out2 = if v_dot_l.bits > 0 {
        out1.add(light.color.scale(v_dot_l.pow(material.specular_power).mul(specular)))
    } else {
        out1
    };
    illum_rec(ray, scene, i + 1, normal, position, material, specular, out2)
}

/// Direct lighting at a hit point, per [`spec_local_illumination`].
pub fn local_illumination(
    ray: &Ray,
    scene: &Scene,
    intersection: &Intersection,
    material: &Material,
    specular: Fx,
) -> (r: Vec3)
    requires
        material.specular_power.bits >= 0,
    ensures
        r == spec_local_illumination(*ray, *scene, *intersection, *material, specular),
{
    let normal = get_normal(intersection.normal);
    let position = ray.direction.scale(intersection.t).add(ray.origin);
    illum_rec(ray, scene, 0, normal, position, material, specular, scene.ambient)
}

/// The color delivered along a ray, by recursive ray casting.
///
/// Depth zero is full absorption: black. A ray that misses everything is
/// background: black. Otherwise the hit material's specular coefficient is
/// split by the Fresnel reflectance into a reflection and a transmission
/// weight; direct lighting (weighted by the reflection coefficient) is
/// added only while traveling in air; when depth allows, a reflected ray
/// and, where Snell's law is solvable, a refracted ray are spawned and
/// their colors folded in; finally the current medium's attenuation decays
/// the color exponentially with the distance traveled.
pub open spec fn spec_cast_ray(ray: Ray, scene: Scene, depth: u32, n_i: Fx) -> Vec3
    decreases depth,
{
    if depth == 0 {
        v3_zero()
    } else {
        match spec_ray_vs_scene_helper(ray, scene, false, fx_max()) {
            Option::None => v3_zero(),
            Option::Some(hit) => {
                let intersection = hit.0;
                let material = hit.1;
                let in_air = n_i == fx_one();
                let n_t = if in_air {
                    material.index_of_refraction
                } else {
                    fx_one()
                };
                let u_i = if in_air {
                    fx_one()
                } else {
                    material.magnetic_permeability
                };
                let u_t = if in_air {
                    material.magnetic_permeability
                } else {
                    fx_one()
                };
                let attenuation = if in_air {
                    scene.air_attenuation
                } else {
                    material.attenuation
                };
                let r_dot_n = fabs(v3dot(ray.direction, intersection.normal));
                let fr = spec_fresnel(n_i, n_t, u_i, u_t, r_dot_n);
                let transmission_coefficient = fmul(
                    material.specular_coefficient,
                    fsub(fx_one(), fr),
                );
                let reflection_coefficient = fmul(material.specular_coefficient, fr);
                let normal = intersection.normal;
                let color0 = if in_air {
                    v3add(
                        v3_zero(),
                        spec_local_illumination(
                            ray,
                            scene,
                            intersection,
                            material,
                            reflection_coefficient,
                        ),
                    )
                } else {
                    v3_zero()
                };
                let color1 = if depth > 1 && reflection_coefficient.bits != 0 {
                    let fudge = if in_air {
                        fx_epsilon()
                    } else {
                        fneg(fx_epsilon())
                    };
                    let point = v3add(
                        v3add(ray.origin, v3scale(ray.direction, intersection.t)),
                        v3scale(normal, fudge),
                    );
                    let reflection = Ray {
                        origin: point,
                        direction: spec_reflect(normal, ray.direction),
                    };
                    v3add(
                        color0,
                        v3scale(
                            spec_cast_ray(reflection, scene, (depth - 1) as u32, n_i),
                            reflection_coefficient,
                        ),
                    )
                } else {
                    color0
                };
                let color2 = if depth > 1 && transmission_coefficient.bits != 0 {
                    match spec_transmit(fdiv(n_i, n_t), normal, v3neg(ray.direction)) {
                        Option::Some(direction) => {
                            let fudge = if in_air {
                                fneg(fx_epsilon())
                            } else {
                                fx_epsilon()
                            };
                            let point = v3add(
                                v3add(ray.origin, v3scale(ray.direction, intersection.t)),
                                v3scale(normal, fudge),
                            );
                            let transmission = Ray { origin: point, direction };
                            v3add(
                                color1,
                                v3scale(
                                    spec_cast_ray(transmission, scene, (depth - 1) as u32, n_t),
                                    transmission_coefficient,
                                ),
                            )
                        },
                        Option::None => color1,
                    }
                } else {
                    color1
                };
                v3(
                    fmul(fpow(attenuation.x, intersection.t), color2.x),
                    fmul(fpow(attenuation.y, intersection.t), color2.y),
                    fmul(fpow(attenuation.z, intersection.t), color2.z),
                )
            },
        }
    }
}

/// Recursive ray casting, per [`spec_cast_ray`].
pub fn cast_ray(ray: &Ray, scene: &Scene, depth: u32, n_i: Fx) -> (r: Vec3)
    requires
        scene_wf(*scene),
    ensures
        r == spec_cast_ray(*ray, *scene, depth, n_i),
    decreases depth,
{
    let mut color = Vec3::zero();
    if depth == 0 {
        return color;
    }
    let res = ray_vs_scene(ray, scene);
    proof {
        lemma_scene_hit_props(*ray, *scene, false, fx_max());
    }
    match res {
        None => color,
        Some((intersection, material)) => {
            let mut n_t = Fx::one();
            let mut u_i = Fx::one();
            let mut u_t = Fx::one();
            let mut attenuation = scene.air_attenuation;
            let in_air = n_i.bits == SCALE;
            if in_air {
                n_t = material.index_of_refraction;
                u_t = material.magnetic_permeability;
            } else {
                u_i = material.magnetic_permeability;
                attenuation = material.attenuation;
            }
            let r_dot_n = ray.direction.dot(intersection.normal).abs();
            let fr = fresnel(n_i, n_t, u_i, u_t, r_dot_n);
            let transmission_coefficient = material.specular_coefficient.mul(Fx::one().sub(fr));
            let reflection_coefficient = material.specular_coefficient.mul(fr);
            let normal = intersection.normal;
            if in_air {
                color = color.add(
                    local_illumination(ray, scene, &intersection, &material, reflection_coefficient),
                );
            }
            if depth > 1 {
                if reflection_coefficient.bits != 0 {
                    let fudge = if in_air {
                        Fx::from_bits(EPSILON_BITS)
                    } else {
                        Fx::from_bits(-EPSILON_BITS)
                    };
                    let point = ray.origin.add(ray.direction.scale(intersection.t)).add(
                        normal.scale(fudge),
                    );
                    let reflection = Ray {
                        origin: point,
                        direction: reflect(&normal, &ray.direction),
                    };
                    color = color.add(
                        cast_ray(&reflection, scene, depth - 1, n_i).scale(reflection_coefficient),
                    );
                }
                if transmission_coefficient.bits != 0 {
                    match transmit(n_i.div(n_t), &normal, &ray.direction.neg()) {
                        Some(direction) => {
                            let fudge = if in_air {
                                Fx::from_bits(-EPSILON_BITS)
                            } else {
                                Fx::from_bits(EPSILON_BITS)
                            };
                            let point = ray.origin.add(ray.direction.scale(intersection.t)).add(
                                normal.scale(fudge),
                            );
                            let transmission = Ray { origin: point, direction };
                            color = color.add(
                                cast_ray(&transmission, scene, depth - 1, n_t).scale(
                                    transmission_coefficient,
                                ),
                            );
                        },
                        None => {},
                    }
                }
            }
            Vec3 {
                x: attenuation.x.pow(intersection.t).mul(color.x),
                y: attenuation.y.pow(intersection.t).mul(color.y),
                z: attenuation.z.pow(intersection.t).mul(color.z),
            }
        },
    }
}

/// Linear interpolation `a*(1-t) + b*t`.
pub open spec fn spec_lerp(a: Fx, b: Fx, t: Fx) -> Fx {
    fadd(fmul(a, fsub(fx_one(), t)), fmul(b, t))
}

pub fn lerp(a: Fx, b: Fx, t: Fx) -> (r: Fx)
    ensures
        r == spec_lerp(a, b, t),
{
    a.mul(Fx::one().sub(t)).add(b.mul(t))
}

/// The pinhole-camera primary ray through viewport coordinates `(x, y)`:
/// from the eye toward the viewport point, direction normalized.
pub open spec fn spec_create_ray(scene: Scene, x: Fx, y: Fx) -> Ray {
    let viewport_position = v3add(
        v3add(scene.viewport_origin, v3scale(scene.viewport_x_axis, x)),
        v3scale(scene.viewport_y_axis, y),
    );
    Ray {
        origin: scene.eye_position,
        direction: v3normalize(v3sub(viewport_position, scene.eye_position)),
    }
}

fn create_ray(scene: &Scene, x: Fx, y: Fx) -> (r: Ray)
    ensures
        r == spec_create_ray(*scene, x, y),
{
    let viewport_position = scene.viewport_origin.add(scene.viewport_x_axis.scale(x)).add(
        scene.viewport_y_axis.scale(y),
    );
    Ray {
        origin: scene.eye_position,
        direction: viewport_position.sub(scene.eye_position).normalize(),
    }
}

/// The sampling mode actually used: a rate of one collapses to one point
/// sample per pixel.
pub open spec fn effective_aa(scene: Scene) -> AntiAliasType {
    if scene.aa_rate == 1 {
        AntiAliasType::Off
    } else {
        scene.aa_type
    }
}

/// The width of one pixel in viewport coordinates (the viewport spans
/// `[-1, 1]` in each axis).
pub open spec fn spec_pixel_dx(scene: Scene) -> Fx {
    fdiv(fx_int(2), fx_int(scene.width as int))
}

pub open spec fn spec_pixel_dy(scene: Scene) -> Fx {
    fdiv(fx_int(2), fx_int(scene.height as int))
}

pub open spec fn spec_pixel_min_x(scene: Scene, x: int) -> Fx {
    fadd(fx_int(-1), fmul(fsub(fx_int(x), fx_half()), spec_pixel_dx(scene)))
}

pub open spec fn spec_pixel_max_x(scene: Scene, x: int) -> Fx {
    fadd(fx_int(-1), fmul(fadd(fx_int(x), fx_half()), spec_pixel_dx(scene)))
}

pub open spec fn spec_pixel_min_y(scene: Scene, y: int) -> Fx {
    fadd(fx_int(-1), fmul(fsub(fx_int(y), fx_half()), spec_pixel_dy(scene)))
}

pub open spec fn spec_pixel_max_y(scene: Scene, y: int) -> Fx {
    fadd(fx_int(-1), fmul(fadd(fx_int(y), fx_half()), spec_pixel_dy(scene)))
}

/// How many primary rays sample pixel of a scene: one without antialiasing,
/// a full grid otherwise.
pub open spec fn spec_ray_count(scene: Scene) -> int {
    if effective_aa(scene) == AntiAliasType::Off {
        1
    } else {
        (scene.aa_rate as int) * (scene.aa_rate as int)
    }
}

/// The primary rays of pixel `(x, y)` in the two deterministic modes: the
/// single center ray, or the regular grid of `aa_rate` x `aa_rate`
/// sub-pixel samples.
pub open spec fn spec_calculate_rays(scene: Scene, x: int, y: int) -> Seq<Ray> {
    let dx = spec_pixel_dx(scene);
    let dy = spec_pixel_dy(scene);
    if effective_aa(scene) == AntiAliasType::Off {
        seq![
            spec_create_ray(
                scene,
                fadd(fx_int(-1), fmul(fx_int(x), dx)),
                fadd(fx_int(-1), fmul(fx_int(y), dy)),
            ),
        ]
    } else {
        let rate = scene.aa_rate as int;
        Seq::new(
            (rate * rate) as nat,
            |k: int|
                spec_create_ray(
                    scene,
                    spec_lerp(
                        spec_pixel_min_x(scene, x),
                        spec_pixel_max_x(scene, x),
                        fdiv(fx_int(k / rate), fx_int(rate)),
                    ),
                    spec_lerp(
                        spec_pixel_min_y(scene, y),
                        spec_pixel_max_y(scene, y),
                        fdiv(fx_int(k % rate), fx_int(rate)),
                    ),
                ),
        )
    }
}

/// A stochastically sampled primary ray: one through a uniformly random
/// point of the pixel's footprint (fractions drawn from the half-open unit
/// interval).
pub open spec fn mc_ray_ok(scene: Scene, x: int, y: int, ray: Ray) -> bool {
    exists|f: (Fx, Fx)|
        {
            &&& 0 < f.0.bits <= SCALE as int
            &&& 0 < f.1.bits <= SCALE as int
            &&& ray == spec_create_ray(
                scene,
                spec_lerp(spec_pixel_min_x(scene, x), spec_pixel_max_x(scene, x), f.0),
                spec_lerp(spec_pixel_min_y(scene, y), spec_pixel_max_y(scene, y), f.1),
            )
        }
}

/// A fixed-point fraction drawn uniformly from the half-open unit interval
/// (zero excluded, one included).
fn random_fraction() -> (r: Fx)
    ensures
        0 < r.bits <= SCALE as int,
{
    let w = random_u64();
    Fx { bits: (w % (SCALE as u64)) as i64 + 1 }
}

/// The primary rays for pixel `(x, y)`: exactly the deterministic sample
/// set in the point and grid modes, and a full count of footprint rays in
/// the stochastic mode.
pub fn calculate_rays(scene: &Scene, x: u32, y: u32) -> (rays: Vec<Ray>)
    ensures
        rays@.len() == spec_ray_count(*scene),
        effective_aa(*scene) != AntiAliasType::MonteCarlo ==> rays@ == spec_calculate_rays(
            *scene,
            x as int,
            y as int,
        ),
        forall|k: int|
            0 <= k < rays@.len() && effective_aa(*scene) == AntiAliasType::MonteCarlo
                ==> mc_ray_ok(*scene, x as int, y as int, #[trigger] rays@[k]),
{
    let mut rays: Vec<Ray> = Vec::new();
    let dx = Fx::from_int(2).div(Fx::from_u32(scene.width));
    let dy = Fx::from_int(2).div(Fx::from_u32(scene.height));
    let half = Fx { bits: SCALE / 2 };
    let min_x = Fx::from_int(-1).add(Fx::from_u32(x).sub(half).mul(dx));
    let min_y = Fx::from_int(-1).add(Fx::from_u32(y).sub(half).mul(dy));
    let max_x = Fx::from_int(-1).add(Fx::from_u32(x).add(half).mul(dx));
    let max_y = Fx::from_int(-1).add(Fx::from_u32(y).add(half).mul(dy));
    let aa_type = if 1 == scene.aa_rate {
        AntiAliasType::Off
    } else {
        scene.aa_type
    };
    match aa_type {
        AntiAliasType::Off => {
            let px = Fx::from_int(-1).add(Fx::from_u32(x).mul(dx));
            let py = Fx::from_int(-1).add(Fx::from_u32(y).mul(dy));
            rays.push(create_ray(scene, px, py));
            proof {
                assert(rays@ =~= spec_calculate_rays(*scene, x as int, y as int));
            }
        },
        AntiAliasType::SuperSample => {
            let rate = scene.aa_rate as u32;
            proof {
                assert(rate * rate <= 65025) by (nonlinear_arith)
                    requires
                        rate <= 255,
                ;
            }
            let total = rate * rate;
            let mut k: u32 = 0;
            while k < total
                invariant
                    total == rate * rate,
                    rate == scene.aa_rate as u32,
                    rate != 1,
                    effective_aa(*scene) == AntiAliasType::SuperSample,
                    k <= total,
                    rays@.len() == k as int,
                    dx == spec_pixel_dx(*scene),
                    dy == spec_pixel_dy(*scene),
                    min_x == spec_pixel_min_x(*scene, x as int),
                    max_x == spec_pixel_max_x(*scene, x as int),
                    min_y == spec_pixel_min_y(*scene, y as int),
                    max_y == spec_pixel_max_y(*scene, y as int),
                    forall|m: int|
                        0 <= m < k as int ==> rays@[m] == spec_calculate_rays(
                            *scene,
                            x as int,
                            y as int,
                        )[m],
                decreases total - k,
            {
                let i = k / rate;
                let j = k % rate;
                let fi = Fx::from_u32(i).div(Fx::from_u32(rate));
                let fj = Fx::from_u32(j).div(Fx::from_u32(rate));
                let px = lerp(min_x, max_x, fi);
                let py = lerp(min_y, max_y, fj);
                rays.push(create_ray(scene, px, py));
                k = k + 1;
            }
            proof {
                assert(rays@ =~= spec_calculate_rays(*scene, x as int, y as int));
            }
        },
        AntiAliasType::MonteCarlo => {
            let rate = scene.aa_rate as u32;
            proof {
                assert(rate * rate <= 65025) by (nonlinear_arith)
                    requires
                        rate <= 255,
                ;
            }
            let total = rate * rate;
            let mut k: u32 = 0;
            while k < total
                invariant
                    total == rate * rate,
                    rate == scene.aa_rate as u32,
                    rate != 1,
                    k <= total,
                    rays@.len() == k as int,
                    min_x == spec_pixel_min_x(*scene, x as int),
                    max_x == spec_pixel_max_x(*scene, x as int),
                    min_y == spec_pixel_min_y(*scene, y as int),
                    max_y == spec_pixel_max_y(*scene, y as int),
                    forall|m: int|
                        0 <= m < k as int ==> mc_ray_ok(
                            *scene,
                            x as int,
                            y as int,
                            #[trigger] rays@[m],
                        ),
                decreases total - k,
            {
                let fu = random_fraction();
                let fv = random_fraction();
                let px = lerp(min_x, max_x, fu);
                let py = lerp(min_y, max_y, fv);
                let ray = create_ray(scene, px, py);
                proof {
                    let f = (fu, fv);
                    assert(ray == spec_create_ray(
                        *scene,
                        spec_lerp(
                            spec_pixel_min_x(*scene, x as int),
                            spec_pixel_max_x(*scene, x as int),
                            f.0,
                        ),
                        spec_lerp(
                            spec_pixel_min_y(*scene, y as int),
                            spec_pixel_max_y(*scene, y as int),
                            f.1,
                        ),
                    ));
                    assert(mc_ray_ok(*scene, x as int, y as int, ray));
                }
                rays.push(ray);
                k = k + 1;
            }
        },
    }
    rays
}

/// The running sum of the cast colors of the rays from index `i` on, each
/// cast at the given depth starting in air.
pub open spec fn spec_sum_casts(scene: Scene, rays: Seq<Ray>, i: int, depth: u32, acc: Vec3) -> Vec3
    decreases rays.len() - i when 0 <= i <= rays.len()
{
    if i >= rays.len() {
        acc
    } else {
        spec_sum_casts(
            scene,
            rays,
            i + 1,
            depth,
            v3add(acc, spec_cast_ray(rays[i], scene, depth, fx_one())),
        )
    }
}

/// The average of the cast colors of a sample-ray set.
pub open spec fn spec_average_casts(scene: Scene, rays: Seq<Ray>, depth: u32) -> Vec3 {
    v3divs(spec_sum_casts(scene, rays, 0, depth, v3_zero()), fx_int(rays.len() as int))
}

fn sum_casts(scene: &Scene, rays: &Vec<Ray>, i: usize, depth: u32, acc: Vec3) -> (r: Vec3)
    requires
        scene_wf(*scene),
        i <= rays@.len(),
    ensures
        r == spec_sum_casts(*scene, rays@, i as int, depth, acc),
    decreases rays@.len() - i,
{
    if i >= rays.len() {
        return acc;
    }
    let c = cast_ray(&rays[i], scene, depth, Fx::one());
    sum_casts(scene, rays, i + 1, depth, acc.add(c))
}

/// The color of one pixel's deterministic sample set, averaged.
pub fn average_casts(scene: &Scene, rays: &Vec<Ray>, max_depth: u32) -> (r: Vec3)
    requires
        scene_wf(*scene),
        rays@.len() <= 0x10000,
    ensures
        r == spec_average_casts(*scene, rays@, max_depth),
{
    let color = sum_casts(scene, rays, 0, max_depth, Vec3::zero());
    color.divs(Fx::from_u32(rays.len() as u32))
}

/// The pixel's color in the deterministic modes (one ray or a regular
/// grid): the average of the casts of exactly its sample rays.
pub open spec fn spec_pixel_color(scene: Scene, x: int, y: int, depth: u32) -> Vec3 {
    spec_average_casts(scene, spec_calculate_rays(scene, x, y), depth)
}

/// A stochastically sampled pixel color: the average of the casts of some
/// full set of rays, each through the pixel's own footprint.
pub open spec fn mc_pixel_ok(scene: Scene, x: int, y: int, depth: u32, c: Vec3) -> bool {
    exists|rs: Seq<Ray>|
        {
            &&& rs.len() == spec_ray_count(scene)
            &&& (forall|k: int| 0 <= k < rs.len() ==> mc_ray_ok(scene, x, y, #[trigger] rs[k]))
            &&& c == spec_average_casts(scene, rs, depth)
        }
}

/// The final color of pixel `(x, y)`: the average of the recursive casts of
/// its primary rays; pinned down exactly in the deterministic modes, and an
/// average over some full set of footprint rays in the stochastic mode.
pub fn calculate_pixel_color(scene: &Scene, x: u32, y: u32, max_depth: u32) -> (r: Vec3)
    requires
        scene_wf(*scene),
    ensures
        effective_aa(*scene) != AntiAliasType::MonteCarlo ==> r == spec_pixel_color(
            *scene,
            x as int,
            y as int,
            max_depth,
        ),
        effective_aa(*scene) == AntiAliasType::MonteCarlo ==> mc_pixel_ok(
            *scene,
            x as int,
            y as int,
            max_depth,
            r,
        ),
{
    let rays = calculate_rays(scene, x, y);
    proof {
        assert(rays@.len() <= 0x10000) by {
            assert(spec_ray_count(*scene) <= 0x10000) by (nonlinear_arith)
                requires
                    spec_ray_count(*scene) == 1 || spec_ray_count(*scene) == (scene.aa_rate as int)
                        * (scene.aa_rate as int),
                    0 <= scene.aa_rate <= 255,
            ;
        }
    }
    let r = average_casts(scene, &rays, max_depth);
    proof {
        if effective_aa(*scene) == AntiAliasType::MonteCarlo {
            let rs = rays@;
            assert(rs.len() == spec_ray_count(*scene) && (forall|k: int|
                0 <= k < rs.len() ==> mc_ray_ok(*scene, x as int, y as int, #[trigger] rs[k])) && r
                == spec_average_casts(*scene, rs, max_depth));
        }
    }
    r
}

/// A whole scan line of pixel colors in the deterministic modes.
pub open spec fn spec_render_row(scene: Scene, y: int, depth: u32) -> Seq<Vec3> {
    Seq::new(scene.width as nat, |x: int| spec_pixel_color(scene, x, y, depth))
}

/// One scan line, left to right: the pixel colors of row `y`; each pixel is
/// exact in the deterministic modes, and in the stochastic mode each is the
/// average of a full set of that pixel's own footprint rays.
pub fn render_row(scene: &Scene, y: u32, max_depth: u32) -> (r: Vec<Vec3>)
    requires
        scene_wf(*scene),
    ensures
        r@.len() == scene.width,
        effective_aa(*scene) != AntiAliasType::MonteCarlo ==> r@ == spec_render_row(
            *scene,
            y as int,
            max_depth,
        ),
        forall|m: int|
            0 <= m < r@.len() && effective_aa(*scene) == AntiAliasType::MonteCarlo ==> mc_pixel_ok(
                *scene,
                m,
                y as int,
                max_depth,
                #[trigger] r@[m],
            ),
{
    let mut row: Vec<Vec3> = Vec::new();
    let mut x: u32 = 0;
    while x < scene.width
        invariant
            scene_wf(*scene),
            x <= scene.width,
            row@.len() == x as int,
            forall|m: int|
                0 <= m < x as int && effective_aa(*scene) != AntiAliasType::MonteCarlo
                    ==> row@[m] == spec_pixel_color(*scene, m, y as int, max_depth),
            forall|m: int|
                0 <= m < x as int && effective_aa(*scene) == AntiAliasType::MonteCarlo
                    ==> mc_pixel_ok(*scene, m, y as int, max_depth, #[trigger] row@[m]),
        decreases scene.width - x,
    {
        row.push(calculate_pixel_color(scene, x, y, max_depth));
        x = x + 1;
    }
    proof {
        if effective_aa(*scene) != AntiAliasType::MonteCarlo {
            assert(row@ =~= spec_render_row(*scene, y as int, max_depth));
        }
    }
    row
}

/// The surface that receives rendered pixels: colors stream out to it pixel
/// by pixel, and `present` flushes a frame. Implemented by the host around
/// the library.
pub trait Canvas {
    fn set_pixel(&mut self, x: u32, y: u32, color: &Vec3);

    fn present(&mut self);
}

/// The wall-clock budget of one `render_scene` call: after a scan line
/// completes, the driver yields once this many milliseconds have passed.
pub const TIME_BUDGET_MILLIS: u64 = 16;

#[verifier::external_type_specification]
#[verifier::external_body]
pub struct ExInstant(std::time::Instant);

/// Relies on `std::time::Instant::now`: an opaque reading of the monotonic
/// clock; nothing is promised of it.
#[verifier::external_body]
fn instant_now() -> std::time::Instant {
    std::time::Instant::now()
}

/// Relies on `std::time::Instant::elapsed`: the time since `start`, as
/// whole milliseconds saturated into a `u64`; nothing is promised of it.
#[verifier::external_body]
fn elapsed_millis(start: &std::time::Instant) -> u64 {
    let ms = start.elapsed().as_millis();
    if ms > u64::MAX as u128 {
        u64::MAX
    } else {
        ms as u64
    }
}

/// Renders scan lines from `start_y` down the image, streaming each pixel
/// to the canvas and presenting after every row; once the wall-clock budget
/// is exceeded it yields the next unrendered row index so the caller can
/// resume, and returns the `u32::MAX` sentinel when the image is complete.
pub fn render_scene<T: Canvas>(scene: &Scene, canvas: &mut T, start_y: u32, max_depth: u32) -> (r:
    u32)
    requires
        scene_wf(*scene),
    ensures
        r == u32::MAX || (start_y < r && r <= scene.height),
{
    let start_time = instant_now();
    if start_y >= scene.height {
        return u32::MAX;
    }
    let mut y = start_y;
    while y < scene.height
        invariant
            scene_wf(*scene),
            start_y <= y <= scene.height,
        decreases scene.height - y,
    {
        let row = render_row(scene, y, max_depth);
        let mut x: u32 = 0;
        while x < scene.width
            invariant
                x <= scene.width,
                row@.len() == scene.width,
            decreases scene.width - x,
        {
            canvas.set_pixel(x, y, &row[x as usize]);
            x = x + 1;
        }
        canvas.present();
        if elapsed_millis(&start_time) > TIME_BUDGET_MILLIS {
            return y + 1;
        }
        y = y + 1;
    }
    u32::MAX
}

/// One color channel quantized for an 8-bit display: scaled by 255 and
/// clamped into `[0, 255]`, then truncated to a whole number.
pub open spec fn spec_channel_byte(c: Fx) -> int {
    (fmax(fx_zero(), fmin(fx_int(255), fmul(c, fx_int(255)))).bits as int) / (SCALE as int)
}

/// A color quantized to 8-bit display channels.
pub fn color_to_rgb(color: &Vec3) -> (r: (u8, u8, u8))
    ensures
        r.0 == spec_channel_byte(color.x),
        r.1 == spec_channel_byte(color.y),
        r.2 == spec_channel_byte(color.z),
{
    (channel_byte(color.x), channel_byte(color.y), channel_byte(color.z))
}

fn channel_byte(c: Fx) -> (r: u8)
    ensures
        r == spec_channel_byte(c),
{
    let clamped = Fx::zero().max(Fx::from_int(255).min(c.mul(Fx::from_int(255))));
    let units = (clamped.bits as u64) / (SCALE as u64);
    proof {
        vstd::arithmetic::div_mod::lemma_div_is_ordered(
            clamped.bits as int,
            255 * SCALE as int,
            SCALE as int,
        );
        vstd::arithmetic::div_mod::lemma_div_multiples_vanish(255, SCALE as int);
        vstd::arithmetic::div_mod::lemma_div_pos_is_pos(clamped.bits as int, SCALE as int);
    }
    units as u8
}

} // verus!
