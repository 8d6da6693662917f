//! The Fresnel split, reflection and transmission directions, scene
//! queries, shading, and color quantization on concrete values.

use raytracer::fx::{Fx, SCALE};
use raytracer::render::{cast_ray, color_to_rgb, fresnel, get_normal, lerp, local_illumination, reflect, transmit};
use raytracer::scene::{ray_vs_scene, ray_vs_scene_shadow, AntiAliasType, Scene};
use raytracer::shapes::{Light, Material, Polygon, Ray, Sphere};
use raytracer::vec3::Vec3;

fn fxi(v: i32) -> Fx {
    Fx::from_int(v)
}

fn v(x: i32, y: i32, z: i32) -> Vec3 {
    Vec3::new(fxi(x), fxi(y), fxi(z))
}

fn matte(diffuse: Vec3) -> Material {
    Material {
        diffuse,
        specular_coefficient: Fx::zero(),
        specular_power: fxi(20),
        attenuation: v(1, 1, 1),
        electric_permittivity: fxi(1),
        magnetic_permeability: fxi(1),
        index_of_refraction: fxi(1),
    }
}

/// One sphere of radius 1/4 on the camera axis, a point light at the eye,
/// black ambient, clear air.
fn axis_scene() -> Scene {
    let mut scene = Scene::new();
    scene.spheres.push(Sphere {
        center: v(0, 0, -1),
        radius: Fx::from_bits(SCALE / 4),
        material: matte(v(1, 1, 1)),
    });
    scene.lights.push(Light { center: v(0, 0, 1), radius: Fx::zero(), color: v(1, 1, 1) });
    scene.air_attenuation = v(1, 1, 1);
    scene.viewport_origin = v(0, 0, 0);
    scene.viewport_x_axis = v(1, 0, 0);
    scene.viewport_y_axis = v(0, 1, 0);
    scene.eye_position = v(0, 0, 1);
    scene.aa_type = AntiAliasType::Off;
    scene.aa_rate = 1;
    scene.width = 8;
    scene.height = 8;
    scene
}

#[test]
fn fresnel_matched_media_reflect_nothing() {
    assert_eq!(fresnel(fxi(1), fxi(1), fxi(1), fxi(1), fxi(1)).bits, 0);
}

#[test]
fn fresnel_total_internal_reflection_is_one() {
    // Grazing incidence from the denser medium: the transmission root has
    // no real solution, so everything reflects.
    assert_eq!(fresnel(fxi(2), fxi(1), fxi(1), fxi(1), Fx::zero()).bits, SCALE);
}

#[test]
fn fresnel_normal_incidence_glass_value() {
    // n_t = 1.5 at normal incidence: the power reflectance is 0.04, which
    // the fixed-point pipeline reaches within rounding.
    let n_t = Fx::from_bits(3 * SCALE / 2);
    let r = fresnel(fxi(1), n_t, fxi(1), fxi(1), fxi(1));
    assert_eq!(r.bits, 2621);
}

#[test]
fn fresnel_stays_in_unit_interval() {
    let cosines = [0i64, SCALE / 4, SCALE / 2, 3 * SCALE / 4, SCALE];
    for c in cosines {
        let r = fresnel(fxi(1), Fx::from_bits(3 * SCALE / 2), fxi(1), fxi(1), Fx::from_bits(c));
        assert!(0 <= r.bits && r.bits <= SCALE);
        let r_exit = fresnel(Fx::from_bits(3 * SCALE / 2), fxi(1), fxi(1), fxi(1), Fx::from_bits(c));
        assert!(0 <= r_exit.bits && r_exit.bits <= SCALE);
    }
}

#[test]
fn energy_split_never_exceeds_specular_coefficient() {
    let specular = Fx::from_bits(4 * SCALE / 5);
    for bits in [0i64, 2621, SCALE / 2, SCALE] {
        let fr = Fx::from_bits(bits);
        let w_reflect = specular.mul(fr);
        let w_transmit = specular.mul(Fx::one().sub(fr));
        assert!(w_reflect.bits >= 0);
        assert!(w_transmit.bits >= 0);
        assert!(w_reflect.add(w_transmit).bits <= specular.bits);
    }
}

#[test]
fn reflect_head_on_bounces_back() {
    let r = reflect(&v(0, 0, 1), &v(0, 0, -1));
    assert_eq!((r.x.bits, r.y.bits, r.z.bits), (0, 0, SCALE));
}

#[test]
fn reflect_forty_five_degrees() {
    let r = reflect(&v(0, 0, 1), &Vec3::new(fxi(1), fxi(0), fxi(-1)));
    assert_eq!(r.y.bits, 0);
    assert_eq!(r.x.bits, r.z.bits);
    assert!(r.x.bits > 0);
}

#[test]
fn transmit_straight_through_keeps_direction() {
    let d = transmit(fxi(1), &v(0, 0, 1), &v(0, 0, 1)).unwrap();
    assert_eq!((d.x.bits, d.y.bits, d.z.bits), (0, 0, -SCALE));
}

#[test]
fn transmit_total_internal_reflection_is_none() {
    assert!(transmit(fxi(2), &v(0, 0, 1), &v(1, 0, 0)).is_none());
}

#[test]
fn get_normal_keeps_exact_unit_vectors_and_normalizes_others() {
    let unit = get_normal(v(0, 0, 1));
    assert_eq!((unit.x.bits, unit.y.bits, unit.z.bits), (0, 0, SCALE));
    let scaled = get_normal(v(0, 0, 2));
    assert_eq!((scaled.x.bits, scaled.y.bits, scaled.z.bits), (0, 0, SCALE));
}

#[test]
fn lerp_endpoints_and_midpoint() {
    assert_eq!(lerp(fxi(2), fxi(6), Fx::zero()).bits, 2 * SCALE);
    assert_eq!(lerp(fxi(2), fxi(6), Fx::one()).bits, 6 * SCALE);
    assert_eq!(lerp(fxi(2), fxi(6), Fx::from_bits(SCALE / 2)).bits, 4 * SCALE);
}

#[test]
fn scene_query_prefers_the_nearest_hit_and_first_collection_on_ties() {
    let mut scene = axis_scene();
    // A floor polygon exactly as far as the sphere's near surface along the
    // axis ray: the sphere, scanned first, wins the tie.
    scene.polygons.push(Polygon::from_vertices(
        &vec![
            Vec3::new(fxi(1), fxi(0), Fx::from_bits(-3 * SCALE / 4)),
            Vec3::new(fxi(-1), fxi(0), Fx::from_bits(-3 * SCALE / 4)),
            Vec3::new(fxi(-1), fxi(1), Fx::from_bits(-3 * SCALE / 4)),
            Vec3::new(fxi(1), fxi(1), Fx::from_bits(-3 * SCALE / 4)),
        ],
        matte(v(0, 1, 0)),
    ));
    let ray = Ray { origin: v(0, 0, 1), direction: v(0, 0, -1) };
    let (hit, material) = ray_vs_scene(&ray, &scene).unwrap();
    assert_eq!(hit.t.bits, 7 * SCALE / 4);
    assert_eq!(material.diffuse, v(1, 1, 1));
}

#[test]
fn shadow_query_respects_the_unit_distance_convention() {
    let scene = axis_scene();
    // The displacement from below the sphere to above it crosses it well
    // within t = 1: occluded.
    let blocked = Ray { origin: v(0, 0, -3), direction: v(0, 0, 4) };
    assert!(ray_vs_scene_shadow(&blocked, &scene));
    // The same geometric line, but the displacement ends before the sphere:
    // not occluded.
    let short = Ray { origin: v(0, 0, -3), direction: v(0, 0, 1) };
    assert!(!ray_vs_scene_shadow(&short, &scene));
}

#[test]
fn cast_depth_zero_is_black_even_facing_geometry() {
    let scene = axis_scene();
    let ray = Ray { origin: v(0, 0, 1), direction: v(0, 0, -1) };
    let c = cast_ray(&ray, &scene, 0, Fx::one());
    assert_eq!((c.x.bits, c.y.bits, c.z.bits), (0, 0, 0));
}

#[test]
fn cast_miss_is_background_black() {
    let scene = axis_scene();
    let ray = Ray { origin: v(0, 0, 1), direction: v(0, 0, 1) };
    let c = cast_ray(&ray, &scene, 5, Fx::one());
    assert_eq!((c.x.bits, c.y.bits, c.z.bits), (0, 0, 0));
}

#[test]
fn cast_lit_sphere_is_bright() {
    let scene = axis_scene();
    let ray = Ray { origin: v(0, 0, 1), direction: v(0, 0, -1) };
    let c = cast_ray(&ray, &scene, 1, Fx::one());
    assert!(c.x.bits > SCALE / 2);
    assert_eq!(c.x.bits, c.y.bits);
    assert_eq!(c.x.bits, c.z.bits);
}

#[test]
fn occluded_point_gets_only_ambient() {
    let mut scene = axis_scene();
    // A second sphere between the first sphere's lit face and the light.
    scene.spheres.push(Sphere {
        center: v(0, 0, 0),
        radius: Fx::from_bits(SCALE / 8),
        material: matte(v(1, 0, 0)),
    });
    scene.ambient = Vec3::new(Fx::from_bits(100), Fx::from_bits(100), Fx::from_bits(100));
    let ray = Ray { origin: v(0, 0, 1), direction: v(0, 0, -1) };
    let hit = ray_vs_scene(&ray, &scene).unwrap();
    // The nearest hit is now the small middle sphere's front face.
    assert_eq!(hit.0.t.bits, 7 * SCALE / 8);
    // Shade the far sphere's face directly: its feeler toward the light is
    // blocked by the small sphere, leaving the ambient term alone.
    let far_hit = raytracer::intersect::ray_vs_sphere(
        &ray,
        &scene.spheres[0],
        Fx::max_value(),
    )
    .unwrap();
    let lit = local_illumination(&ray, &scene, &far_hit, &matte(v(1, 1, 1)), Fx::zero());
    assert_eq!((lit.x.bits, lit.y.bits, lit.z.bits), (100, 100, 100));
}

#[test]
fn color_quantization_clamps_and_scales() {
    let c = Vec3::new(Fx::from_bits(SCALE / 2), Fx::from_bits(3 * SCALE / 2), fxi(-1));
    assert_eq!(color_to_rgb(&c), (127, 255, 0));
    assert_eq!(color_to_rgb(&v(1, 0, 1)), (255, 0, 255));
}
