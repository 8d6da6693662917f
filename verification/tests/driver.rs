//! The frame driver: per-pixel ray generation, pixel averaging, the
//! scan-line renderer with its resume cursor, and the silhouette of a
//! sphere on the camera axis.

use raytracer::fx::{Fx, SCALE};
use raytracer::render::{calculate_pixel_color, calculate_rays, render_row, render_scene, Canvas};
use raytracer::scene::{AntiAliasType, Scene};
use raytracer::shapes::{Light, Material, Sphere};
use raytracer::vec3::Vec3;

fn fxi(v: i32) -> Fx {
    Fx::from_int(v)
}

fn v(x: i32, y: i32, z: i32) -> Vec3 {
    Vec3::new(fxi(x), fxi(y), fxi(z))
}

fn matte(diffuse: Vec3) -> Material {
    Material {
        diffuse,
        specular_coefficient: Fx::zero(),
        specular_power: fxi(20),
        attenuation: v(1, 1, 1),
        electric_permittivity: fxi(1),
        magnetic_permeability: fxi(1),
        index_of_refraction: fxi(1),
    }
}

fn axis_scene() -> Scene {
    let mut scene = Scene::new();
    scene.spheres.push(Sphere {
        center: v(0, 0, -1),
        radius: Fx::from_bits(SCALE / 4),
        material: matte(v(1, 1, 1)),
    });
    scene.lights.push(Light { center: v(0, 0, 1), radius: Fx::zero(), color: v(1, 1, 1) });
    scene.air_attenuation = v(1, 1, 1);
    scene.viewport_origin = v(0, 0, 0);
    scene.viewport_x_axis = v(1, 0, 0);
    scene.viewport_y_axis = v(0, 1, 0);
    scene.eye_position = v(0, 0, 1);
    scene.aa_type = AntiAliasType::Off;
    scene.aa_rate = 1;
    scene.width = 8;
    scene.height = 8;
    scene
}

#[test]
fn one_ray_per_pixel_without_antialiasing() {
    let scene = axis_scene();
    let rays = calculate_rays(&scene, 4, 4);
    assert_eq!(rays.len(), 1);
    assert_eq!(rays[0].origin, scene.eye_position);
    // Through the viewport center: straight down the axis.
    let d = rays[0].direction;
    assert_eq!((d.x.bits, d.y.bits, d.z.bits), (0, 0, -SCALE));
}

#[test]
fn supersampling_yields_a_full_grid() {
    let mut scene = axis_scene();
    scene.aa_type = AntiAliasType::SuperSample;
    scene.aa_rate = 3;
    let rays = calculate_rays(&scene, 4, 4);
    assert_eq!(rays.len(), 9);
    for ray in &rays {
        assert_eq!(ray.origin, scene.eye_position);
    }
}

#[test]
fn a_rate_of_one_collapses_to_point_sampling() {
    let mut scene = axis_scene();
    scene.aa_type = AntiAliasType::MonteCarlo;
    scene.aa_rate = 1;
    let rays = calculate_rays(&scene, 4, 4);
    assert_eq!(rays.len(), 1);
    let d = rays[0].direction;
    assert_eq!((d.x.bits, d.y.bits, d.z.bits), (0, 0, -SCALE));
}

#[test]
fn stochastic_sampling_yields_the_full_count() {
    let mut scene = axis_scene();
    scene.aa_type = AntiAliasType::MonteCarlo;
    scene.aa_rate = 2;
    let rays = calculate_rays(&scene, 4, 4);
    assert_eq!(rays.len(), 4);
    for ray in &rays {
        assert_eq!(ray.origin, scene.eye_position);
        // Every sampled direction leaves the eye toward the viewport plane.
        assert!(ray.direction.z.bits < 0);
    }
}

#[test]
fn pixel_color_of_a_single_sample_is_the_cast_itself() {
    let scene = axis_scene();
    let rays = calculate_rays(&scene, 4, 4);
    let cast = raytracer::render::cast_ray(&rays[0], &scene, 4, Fx::one());
    let pixel = calculate_pixel_color(&scene, 4, 4, 4);
    assert_eq!(pixel, cast);
}

#[test]
fn silhouette_transitions_within_one_pixel_column() {
    let scene = axis_scene();
    let row = render_row(&scene, 4, 4);
    assert_eq!(row.len(), 8);
    let black = |c: &Vec3| c.x.bits == 0 && c.y.bits == 0 && c.z.bits == 0;
    // The axis pixel sees the sphere, both neighbors see background.
    assert!(!black(&row[4]));
    assert!(black(&row[3]));
    assert!(black(&row[5]));
}

struct Grid {
    width: u32,
    pixels: Vec<Vec<(i64, i64, i64)>>,
    presents: u32,
}

impl Grid {
    fn new(width: u32, height: u32) -> Grid {
        Grid {
            width,
            pixels: vec![vec![(0, 0, 0); width as usize]; height as usize],
            presents: 0,
        }
    }
}

impl Canvas for Grid {
    fn set_pixel(&mut self, x: u32, y: u32, color: &Vec3) {
        assert!(x < self.width);
        self.pixels[y as usize][x as usize] = (color.x.bits, color.y.bits, color.z.bits);
    }

    fn present(&mut self) {
        self.presents += 1;
    }
}

#[test]
fn chained_bounded_passes_match_one_unbounded_pass() {
    let scene = axis_scene();
    // One pass from the top; the scene is tiny, so it completes at once,
    // but the driver is re-entered on its own cursor until the sentinel in
    // any case.
    let mut whole = Grid::new(scene.width, scene.height);
    let mut cursor: u32 = 0;
    loop {
        cursor = render_scene(&scene, &mut whole, cursor, 4);
        if cursor == u32::MAX {
            break;
        }
    }
    // The same frame assembled row by row through the pure row renderer.
    let mut chained = Grid::new(scene.width, scene.height);
    for y in 0..scene.height {
        let row = render_row(&scene, y, 4);
        for x in 0..scene.width {
            chained.set_pixel(x, y, &row[x as usize]);
        }
    }
    assert_eq!(whole.pixels, chained.pixels);
    assert!(whole.presents >= scene.height);
}

#[test]
fn resuming_midway_renders_the_remaining_rows_identically() {
    let scene = axis_scene();
    let mut full = Grid::new(scene.width, scene.height);
    let mut cursor: u32 = 0;
    loop {
        cursor = render_scene(&scene, &mut full, cursor, 4);
        if cursor == u32::MAX {
            break;
        }
    }
    // Start a fresh pass in the middle of the image, as a caller resuming
    // from a saved cursor would.
    let mut resumed = Grid::new(scene.width, scene.height);
    let mut cursor: u32 = 5;
    loop {
        cursor = render_scene(&scene, &mut resumed, cursor, 4);
        if cursor == u32::MAX {
            break;
        }
    }
    for y in 5..scene.height as usize {
        assert_eq!(full.pixels[y], resumed.pixels[y]);
    }
}
