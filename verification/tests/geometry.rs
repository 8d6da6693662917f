//! Vectors, matrices, shape constructors and the intersection engine on
//! concrete scenes with exactly representable coordinates.

use raytracer::fx::{Fx, SCALE};
use raytracer::intersect::{
    ray_vs_ellipsoid, ray_vs_plane, ray_vs_polygon, ray_vs_rhombohedron, ray_vs_sphere,
    ray_vs_sphere2,
};
use raytracer::mat3::Mat3;
use raytracer::shapes::{Ellipsoid, Material, Plane, Polygon, Ray, Rhombohedron, Sphere, Triangle};
use raytracer::vec3::Vec3;

fn fxi(v: i32) -> Fx {
    Fx::from_int(v)
}

fn v(x: i32, y: i32, z: i32) -> Vec3 {
    Vec3::new(fxi(x), fxi(y), fxi(z))
}

fn vb(x: i64, y: i64, z: i64) -> Vec3 {
    Vec3::new(Fx::from_bits(x), Fx::from_bits(y), Fx::from_bits(z))
}

fn glass() -> Material {
    Material {
        diffuse: v(1, 1, 1),
        specular_coefficient: Fx::from_bits(SCALE / 2),
        specular_power: fxi(20),
        attenuation: Vec3::zero(),
        electric_permittivity: fxi(1),
        magnetic_permeability: fxi(1),
        index_of_refraction: fxi(1),
    }
}

#[test]
fn dot_cross_len_normalize() {
    assert_eq!(v(1, 2, 3).dot(v(4, 5, 6)).bits, 32 * SCALE);
    let c = v(1, 0, 0).cross(v(0, 1, 0));
    assert_eq!((c.x.bits, c.y.bits, c.z.bits), (0, 0, SCALE));
    assert_eq!(v(3, 4, 0).len().bits, 5 * SCALE);
    let n = v(3, 4, 0).normalize();
    assert_eq!((n.x.bits, n.y.bits, n.z.bits), (39321, 52428, 0));
    let z = Vec3::zero().normalize();
    assert_eq!((z.x.bits, z.y.bits, z.z.bits), (0, 0, 0));
}

#[test]
fn matrix_inverse_of_a_diagonal() {
    let m = Mat3::from_columns(v(2, 0, 0), v(0, 4, 0), v(0, 0, 8));
    assert_eq!(m.det().bits, 64 * SCALE);
    let inv = m.try_inverse().unwrap();
    assert_eq!(inv.r0.x.bits, SCALE / 2);
    assert_eq!(inv.r1.y.bits, SCALE / 4);
    assert_eq!(inv.r2.z.bits, SCALE / 8);
    let p = inv.mul_vec(v(2, 4, 8));
    assert_eq!((p.x.bits, p.y.bits, p.z.bits), (SCALE, SCALE, SCALE));
}

#[test]
fn matrix_inverse_refuses_singular() {
    let m = Mat3::from_columns(v(1, 2, 3), v(1, 2, 3), v(0, 0, 1));
    assert!(m.try_inverse().is_none());
}

#[test]
fn ellipsoid_construction_refuses_dependent_axes() {
    assert!(Ellipsoid::new(Vec3::zero(), [v(1, 0, 0), v(2, 0, 0), v(0, 0, 1)], glass()).is_none());
    assert!(Ellipsoid::new(Vec3::zero(), [v(2, 0, 0), v(0, 1, 0), v(0, 0, 1)], glass()).is_some());
}

#[test]
fn sphere_through_center_reports_near_root() {
    // From (0,0,5) toward the origin: roots at t = 4 and t = 6.
    let sphere = Sphere { center: Vec3::zero(), radius: fxi(1), material: glass() };
    let ray = Ray { origin: v(0, 0, 5), direction: v(0, 0, -1) };
    let (count, roots) = ray_vs_sphere2(&ray, &sphere);
    assert_eq!(count, 2);
    assert_eq!(roots[0].t.bits, 4 * SCALE);
    assert_eq!(roots[1].t.bits, 6 * SCALE);
    let hit = ray_vs_sphere(&ray, &sphere, Fx::max_value()).unwrap();
    assert_eq!(hit.t.bits, 4 * SCALE);
    // The normal at the near hit points back toward the ray origin.
    assert_eq!((hit.normal.x.bits, hit.normal.y.bits, hit.normal.z.bits), (0, 0, SCALE));
}

#[test]
fn sphere_from_inside_reports_far_root() {
    let sphere = Sphere { center: Vec3::zero(), radius: fxi(1), material: glass() };
    let ray = Ray { origin: Vec3::zero(), direction: v(0, 0, 1) };
    let (count, roots) = ray_vs_sphere2(&ray, &sphere);
    assert_eq!(count, 1);
    assert_eq!(roots[1].t.bits, SCALE);
    let hit = ray_vs_sphere(&ray, &sphere, Fx::max_value()).unwrap();
    assert_eq!(hit.t.bits, SCALE);
}

#[test]
fn sphere_pointing_away_misses() {
    let sphere = Sphere { center: Vec3::zero(), radius: fxi(1), material: glass() };
    let ray = Ray { origin: v(0, 0, 5), direction: v(0, 0, 1) };
    assert!(ray_vs_sphere(&ray, &sphere, Fx::max_value()).is_none());
    let sideways = Ray { origin: v(0, 0, 5), direction: v(1, 0, 0) };
    assert!(ray_vs_sphere(&sideways, &sphere, Fx::max_value()).is_none());
}

#[test]
fn sphere_behind_max_t_is_discarded() {
    let sphere = Sphere { center: Vec3::zero(), radius: fxi(1), material: glass() };
    let ray = Ray { origin: v(0, 0, 5), direction: v(0, 0, -1) };
    assert!(ray_vs_sphere(&ray, &sphere, fxi(4)).is_none());
    assert!(ray_vs_sphere(&ray, &sphere, fxi(5)).is_some());
}

#[test]
fn plane_hit_and_parallel_miss() {
    let plane = Plane { normal: v(0, 1, 0), point: Vec3::zero() };
    let down = Ray { origin: v(0, 3, 0), direction: v(0, -1, 0) };
    let hit = ray_vs_plane(&down, &plane, Fx::max_value()).unwrap();
    assert_eq!(hit.t.bits, 3 * SCALE);
    assert_eq!((hit.normal.x.bits, hit.normal.y.bits, hit.normal.z.bits), (0, SCALE, 0));
    let along = Ray { origin: v(0, 3, 0), direction: v(1, 0, 0) };
    assert!(ray_vs_plane(&along, &plane, Fx::max_value()).is_none());
    let up = Ray { origin: v(0, 3, 0), direction: v(0, 1, 0) };
    assert!(ray_vs_plane(&up, &plane, Fx::max_value()).is_none());
}

#[test]
fn triangle_contains_centroid_not_reflection() {
    let tri = Triangle::from_vertices([v(0, 0, 0), v(1, 0, 0), v(0, 1, 0)]);
    let third = SCALE / 3;
    assert!(tri.contains(&vb(third, third, 0)));
    assert!(!tri.contains(&vb(-third, -third, 0)));
    assert!(!tri.contains(&vb(SCALE, SCALE, 0)));
    // Containment is strict: vertices themselves count as outside.
    assert!(!tri.contains(&v(0, 0, 0)));
    assert!(!tri.contains(&v(1, 0, 0)));
}

#[test]
fn polygon_fan_and_containment() {
    let square = Polygon::from_vertices(
        &vec![v(1, 0, 0), v(1, 0, -2), v(-1, 0, -2), v(-1, 0, 0)],
        glass(),
    );
    assert_eq!(square.triangles.len(), 2);
    // Straight down through the middle of the square.
    let inside = Ray { origin: vb(SCALE / 2, 2 * SCALE, -SCALE), direction: v(0, -1, 0) };
    let hit = ray_vs_polygon(&inside, &square, Fx::max_value()).unwrap();
    assert_eq!(hit.t.bits, 2 * SCALE);
    // Down outside the footprint: the supporting plane is hit, the fan is not.
    let outside = Ray { origin: v(5, 2, -1), direction: v(0, -1, 0) };
    assert!(ray_vs_polygon(&outside, &square, Fx::max_value()).is_none());
}

#[test]
fn rhombohedron_slab_entry_and_exit() {
    let rh = Rhombohedron::from_corner_and_edges(
        Vec3::zero(),
        v(1, 0, 0),
        v(0, 1, 0),
        v(0, 0, 1),
        glass(),
    );
    let half = SCALE / 2;
    // Entering along an edge from outside: the near face at x = 0.
    let enter = Ray { origin: vb(-half, half, half), direction: v(1, 0, 0) };
    let near = ray_vs_rhombohedron(&enter, &rh, Fx::max_value()).unwrap();
    assert_eq!(near.t.bits, half);
    // From inside, the exit through the far face at x = 1 is reported.
    let exit = Ray { origin: vb(half, half, half), direction: v(1, 0, 0) };
    let far = ray_vs_rhombohedron(&exit, &rh, Fx::max_value()).unwrap();
    assert_eq!(far.t.bits, half);
    // The exit normal is the far face's, pointing outward.
    assert_eq!((far.normal.x.bits, far.normal.y.bits, far.normal.z.bits), (SCALE, 0, 0));
    // Parallel to a face and outside its half-space: no hit at all.
    let parallel = Ray { origin: v(0, 5, 0), direction: v(1, 0, 0) };
    assert!(ray_vs_rhombohedron(&parallel, &rh, Fx::max_value()).is_none());
}

#[test]
fn rhombohedron_edge_chord_matches_edge_length() {
    // A ray along the length edge, from just outside the x = 0 face to just
    // outside the x = 1 face: entry and exit depths differ by the edge
    // length divided by the ray speed.
    let rh = Rhombohedron::from_corner_and_edges(
        Vec3::zero(),
        v(1, 0, 0),
        v(0, 1, 0),
        v(0, 0, 1),
        glass(),
    );
    let just = SCALE / 16;
    let half = SCALE / 2;
    let forward = Ray { origin: vb(-just, half, half), direction: v(1, 0, 0) };
    let t_enter = ray_vs_rhombohedron(&forward, &rh, Fx::max_value()).unwrap().t.bits;
    let backward = Ray { origin: vb(SCALE + just, half, half), direction: v(-1, 0, 0) };
    let t_back = ray_vs_rhombohedron(&backward, &rh, Fx::max_value()).unwrap().t.bits;
    // Both depths equal the gap, so the chord between the faces is the edge
    // length: (gap + 1 + gap) - t_enter - t_back == 1.
    assert_eq!(t_enter, just);
    assert_eq!(t_back, just);
    assert_eq!((2 * just + SCALE) - t_enter - t_back, SCALE);
}

#[test]
fn ellipsoid_normal_matches_analytic_direction_for_either_axis_order() {
    // The unit sphere scaled to semi-axes (2, 1, 1): at the surface point
    // (2, 0, 0) the analytic normal is collinear with (1, 0, 0).
    let ray = Ray { origin: v(4, 0, 0), direction: v(-1, 0, 0) };
    let e1 = Ellipsoid::new(Vec3::zero(), [v(2, 0, 0), v(0, 1, 0), v(0, 0, 1)], glass()).unwrap();
    let h1 = ray_vs_ellipsoid(&ray, &e1, Fx::max_value()).unwrap();
    assert_eq!(h1.t.bits, 2 * SCALE);
    assert_eq!((h1.normal.x.bits, h1.normal.y.bits, h1.normal.z.bits), (SCALE, 0, 0));
    // The same ellipsoid built with the semi-axes given in another order.
    let e2 = Ellipsoid::new(Vec3::zero(), [v(0, 1, 0), v(0, 0, 1), v(2, 0, 0)], glass()).unwrap();
    let h2 = ray_vs_ellipsoid(&ray, &e2, Fx::max_value()).unwrap();
    assert_eq!(h2.t.bits, 2 * SCALE);
    assert_eq!((h2.normal.x.bits, h2.normal.y.bits, h2.normal.z.bits), (SCALE, 0, 0));
}

#[test]
fn rhombohedron_constructor_orients_faces_outward() {
    let rh = Rhombohedron::from_corner_and_edges(
        Vec3::zero(),
        v(1, 0, 0),
        v(0, 1, 0),
        v(0, 0, 1),
        glass(),
    );
    // The face through the corner spanned by length and height faces -y.
    let p0 = rh.planes[0];
    assert_eq!((p0.normal.x.bits, p0.normal.y.bits, p0.normal.z.bits), (0, -SCALE, 0));
    // Its opposite face passes through corner + width and faces +y.
    let p1 = rh.planes[1];
    assert_eq!((p1.normal.x.bits, p1.normal.y.bits, p1.normal.z.bits), (0, SCALE, 0));
    assert_eq!(p1.point.y.bits, SCALE);
}
