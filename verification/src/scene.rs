//! The scene aggregate: every shape collection, the lights, the camera
//! basis and the output/antialias configuration, plus the whole-scene
//! nearest-hit and shadow queries.

use vstd::prelude::*;
use crate::fx::{Fx, fx_max, fx_one};
use crate::intersect::{
    Intersection, ray_vs_ellipsoid, ray_vs_polygon, ray_vs_rhombohedron, ray_vs_sphere,
    spec_ray_vs_ellipsoid, spec_ray_vs_polygon, spec_ray_vs_rhombohedron, spec_ray_vs_sphere,
};
use crate::shapes::{
    Ellipsoid, Light, Material, Polygon, Ray, Rhombohedron, Sphere, material_wf,
};
use crate::vec3::Vec3;

verus! {

/// How many primary rays sample each pixel, and how they are placed.
#[derive(Debug, Copy, Clone, PartialEq, Eq, Structural)]
pub enum AntiAliasType {
    Off,
    SuperSample,
    MonteCarlo,
}

/// The immutable world every render pass reads: shapes, lights, ambient
/// and air constants, the camera/viewport basis, and output configuration.
#[derive(Debug, Clone)]
pub struct Scene {
    pub spheres: Vec<Sphere>,
    pub rhombohedrons: Vec<Rhombohedron>,
    pub polygons: Vec<Polygon>,
    pub ellipsoids: Vec<Ellipsoid>,
    pub lights: Vec<Light>,
    pub ambient: Vec3,
    pub air_attenuation: Vec3,
    pub viewport_origin: Vec3,
    pub viewport_x_axis: Vec3,
    pub viewport_y_axis: Vec3,
    pub eye_position: Vec3,
    pub aa_type: AntiAliasType,
    pub aa_rate: u8,
    pub width: u32,
    pub height: u32,
}

/// Every material in the scene is physically sane, and so is the air's
/// attenuation: what the shading pipeline requires of its input.
pub open spec fn scene_wf(scene: Scene) -> bool {
    &&& forall|i: int|
        0 <= i < scene.spheres@.len() ==> material_wf(#[trigger] scene.spheres@[i].material)
    &&& forall|i: int|
        0 <= i < scene.ellipsoids@.len() ==> material_wf(#[trigger] scene.ellipsoids@[i].material)
    &&& forall|i: int|
        0 <= i < scene.rhombohedrons@.len() ==> material_wf(
            #[trigger] scene.rhombohedrons@[i].material,
        )
    &&& forall|i: int|
        0 <= i < scene.polygons@.len() ==> material_wf(#[trigger] scene.polygons@[i].material)
    &&& scene.air_attenuation.x.bits >= 0
    &&& scene.air_attenuation.y.bits >= 0
    &&& scene.air_attenuation.z.bits >= 0
}

impl Scene {
    /// An empty scene: no shapes, no lights, everything zero, one point
    /// sample per pixel.
    pub fn new() -> (r: Scene)
        ensures
            r.spheres@.len() == 0,
            r.rhombohedrons@.len() == 0,
            r.polygons@.len() == 0,
            r.ellipsoids@.len() == 0,
            r.lights@.len() == 0,
            r.ambient == crate::vec3::v3_zero(),
            r.air_attenuation == crate::vec3::v3_zero(),
            r.viewport_origin == crate::vec3::v3_zero(),
            r.viewport_x_axis == crate::vec3::v3_zero(),
            r.viewport_y_axis == crate::vec3::v3_zero(),
            r.eye_position == crate::vec3::v3_zero(),
            r.aa_type == AntiAliasType::Off,
            r.aa_rate == 1u8,
            r.width == 0u32,
            r.height == 0u32,
            scene_wf(r),
    {
        Scene {
            spheres: Vec::new(),
            rhombohedrons: Vec::new(),
            polygons: Vec::new(),
            ellipsoids: Vec::new(),
            lights: Vec::new(),
            ambient: Vec3::zero(),
            air_attenuation: Vec3::zero(),
            viewport_origin: Vec3::zero(),
            viewport_x_axis: Vec3::zero(),
            viewport_y_axis: Vec3::zero(),
            eye_position: Vec3::zero(),
            aa_type: AntiAliasType::Off,
            aa_rate: 1,
            width: 0,
            height: 0,
        }
    }
}

impl Scene {
    /// The runtime form of [`scene_wf`]: whether every material and the
    /// air's attenuation meet what the shading pipeline requires.
    pub fn is_wf(&self) -> (r: bool)
        ensures
            r == scene_wf(*self),
    {
        let mut i: usize = 0;
        while i < self.spheres.len()
            invariant
                i <= self.spheres@.len(),
                forall|k: int|
                    0 <= k < i as int ==> material_wf(#[trigger] self.spheres@[k].material),
            decreases self.spheres@.len() - i,
        {
            if !self.spheres[i].material.is_wf() {
                return false;
            }
            i = i + 1;
        }
        let mut i: usize = 0;
        while i < self.ellipsoids.len()
            invariant
                i <= self.ellipsoids@.len(),
                forall|k: int|
                    0 <= k < i as int ==> material_wf(#[trigger] self.ellipsoids@[k].material),
            decreases self.ellipsoids@.len() - i,
        {
            if !self.ellipsoids[i].material.is_wf() {
                return false;
            }
            i = i + 1;
        }
        let mut i: usize = 0;
        while i < self.rhombohedrons.len()
            invariant
                i <= self.rhombohedrons@.len(),
                forall|k: int|
                    0 <= k < i as int ==> material_wf(#[trigger] self.rhombohedrons@[k].material),
            decreases self.rhombohedrons@.len() - i,
        {
            if !self.rhombohedrons[i].material.is_wf() {
                return false;
            }
            i = i + 1;
        }
        let mut i: usize = 0;
        while i < self.polygons.len()
            invariant
                i <= self.polygons@.len(),
                forall|k: int|
                    0 <= k < i as int ==> material_wf(#[trigger] self.polygons@[k].material),
            decreases self.polygons@.len() - i,
        {
            if !self.polygons[i].material.is_wf() {
                return false;
            }
            i = i + 1;
        }
        self.air_attenuation.x.bits >= 0 && self.air_attenuation.y.bits >= 0
            && self.air_attenuation.z.bits >= 0
    }
}

/// The running state of a scene scan: the tightest hit distance seen, the
/// best hit so far with its material, and whether the scan stopped early
/// (first-hit mode).
pub open spec fn scan_spheres(
    ray: Ray,
    shapes: Seq<Sphere>,
    i: int,
    t: Fx,
    cur: Option<(Intersection, Material)>,
    brk: bool,
) -> (Fx, Option<(Intersection, Material)>, bool)
    decreases shapes.len() - i when 0 <= i <= shapes.len()
{
    if i >= shapes.len() {
        (t, cur, false)
    } else {
        match spec_ray_vs_sphere(ray, shapes[i], t) {
            Option::Some(res) => if brk {
                (res.t, Some((res, shapes[i].material)), true)
            } else {
                scan_spheres(ray, shapes, i + 1, res.t, Some((res, shapes[i].material)), brk)
            },
            Option::None => scan_spheres(ray, shapes, i + 1, t, cur, brk),
        }
    }
}

pub open spec fn scan_ellipsoids(
    ray: Ray,
    shapes: Seq<Ellipsoid>,
    i: int,
    t: Fx,
    cur: Option<(Intersection, Material)>,
    brk: bool,
) -> (Fx, Option<(Intersection, Material)>, bool)
    decreases shapes.len() - i when 0 <= i <= shapes.len()
{
    if i >= shapes.len() {
        (t, cur, false)
    } else {
        match spec_ray_vs_ellipsoid(ray, shapes[i], t) {
            Option::Some(res) => if brk {
                (res.t, Some((res, shapes[i].material)), true)
            } else {
                scan_ellipsoids(ray, shapes, i + 1, res.t, Some((res, shapes[i].material)), brk)
            },
            Option::None => scan_ellipsoids(ray, shapes, i + 1, t, cur, brk),
        }
    }
}

pub open spec fn scan_rhombohedrons(
    ray: Ray,
    shapes: Seq<Rhombohedron>,
    i: int,
    t: Fx,
    cur: Option<(Intersection, Material)>,
    brk: bool,
) -> (Fx, Option<(Intersection, Material)>, bool)
    decreases shapes.len() - i when 0 <= i <= shapes.len()
{
    if i >= shapes.len() {
        (t, cur, false)
    } else {
        match spec_ray_vs_rhombohedron(ray, shapes[i], t) {
            Option::Some(res) => if brk {
                (res.t, Some((res, shapes[i].material)), true)
            } else {
                scan_rhombohedrons(ray, shapes, i + 1, res.t, Some((res, shapes[i].material)), brk)
            },
            Option::None => scan_rhombohedrons(ray, shapes, i + 1, t, cur, brk),
        }
    }
}

pub open spec fn scan_polygons(
    ray: Ray,
    shapes: Seq<Polygon>,
    i: int,
    t: Fx,
    cur: Option<(Intersection, Material)>,
    brk: bool,
) -> (Fx, Option<(Intersection, Material)>, bool)
    decreases shapes.len() - i when 0 <= i <= shapes.len()
{
    if i >= shapes.len() {
        (t, cur, false)
    } else {
        match spec_ray_vs_polygon(ray, shapes[i], t) {
            Option::Some(res) => if brk {
                (res.t, Some((res, shapes[i].material)), true)
            } else {
                scan_polygons(ray, shapes, i + 1, res.t, Some((res, shapes[i].material)), brk)
            },
            Option::None => scan_polygons(ray, shapes, i + 1, t, cur, brk),
        }
    }
}

/// The whole-scene query: the collections are scanned in a fixed order
/// (spheres, ellipsoids, rhombohedra, polygons), the allowed distance
/// tightening to each hit found; in first-hit mode the very first hit ends
/// the scan.
pub open spec fn spec_ray_vs_scene_helper(
    ray: Ray,
    scene: Scene,
    break_on_hit: bool,
    max_t: Fx,
) -> Option<(Intersection, Material)> {
    let s1 = scan_spheres(ray, scene.spheres@, 0, max_t, None, break_on_hit);
    if s1.2 {
        s1.1
    } else {
        let s2 = scan_ellipsoids(ray, scene.ellipsoids@, 0, s1.0, s1.1, break_on_hit);
        if s2.2 {
            s2.1
        } else {
            let s3 = scan_rhombohedrons(ray, scene.rhombohedrons@, 0, s2.0, s2.1, break_on_hit);
            if s3.2 {
                s3.1
            } else {
                let s4 = scan_polygons(ray, scene.polygons@, 0, s3.0, s3.1, break_on_hit);
                s4.1
            }
        }
    }
}

fn scan_spheres_exec(
    ray: &Ray,
    shapes: &Vec<Sphere>,
    i: usize,
    t: Fx,
    cur: Option<(Intersection, Material)>,
    brk: bool,
) -> (r: (Fx, Option<(Intersection, Material)>, bool))
    requires
        i <= shapes@.len(),
    ensures
        r == scan_spheres(*ray, shapes@, i as int, t, cur, brk),
    decreases shapes@.len() - i,
{
    if i >= shapes.len() {
        return (t, cur, false);
    }
    match ray_vs_sphere(ray, &shapes[i], t) {
        Some(res) => {
            if brk {
                (res.t, Some((res, shapes[i].material)), true)
            } else {
                scan_spheres_exec(ray, shapes, i + 1, res.t, Some((res, shapes[i].material)), brk)
            }
        },
        None => scan_spheres_exec(ray, shapes, i + 1, t, cur, brk),
    }
}

fn scan_ellipsoids_exec(
    ray: &Ray,
    shapes: &Vec<Ellipsoid>,
    i: usize,
    t: Fx,
    cur: Option<(Intersection, Material)>,
    brk: bool,
) -> (r: (Fx, Option<(Intersection, Material)>, bool))
    requires
        i <= shapes@.len(),
    ensures
        r == scan_ellipsoids(*ray, shapes@, i as int, t, cur, brk),
    decreases shapes@.len() - i,
{
    if i >= shapes.len() {
        return (t, cur, false);
    }
    match ray_vs_ellipsoid(ray, &shapes[i], t) {
        Some(res) => {
            if brk {
                (res.t, Some((res, shapes[i].material)), true)
            } else {
                scan_ellipsoids_exec(
                    ray,
                    shapes,
                    i + 1,
                    res.t,
                    Some((res, shapes[i].material)),
                    brk,
                )
            }
        },
        None => scan_ellipsoids_exec(ray, shapes, i + 1, t, cur, brk),
    }
}

fn scan_rhombohedrons_exec(
    ray: &Ray,
    shapes: &Vec<Rhombohedron>,
    i: usize,
    t: Fx,
    cur: Option<(Intersection, Material)>,
    brk: bool,
) -> (r: (Fx, Option<(Intersection, Material)>, bool))
    requires
        i <= shapes@.len(),
    ensures
        r == scan_rhombohedrons(*ray, shapes@, i as int, t, cur, brk),
    decreases shapes@.len() - i,
{
    if i >= shapes.len() {
        return (t, cur, false);
    }
    match ray_vs_rhombohedron(ray, &shapes[i], t) {
        Some(res) => {
            if brk {
                (res.t, Some((res, shapes[i].material)), true)
            } else {
                scan_rhombohedrons_exec(
                    ray,
                    shapes,
                    i + 1,
                    res.t,
                    Some((res, shapes[i].material)),
                    brk,
                )
            }
        },
        None => scan_rhombohedrons_exec(ray, shapes, i + 1, t, cur, brk),
    }
}

fn scan_polygons_exec(
    ray: &Ray,
    shapes: &Vec<Polygon>,
    i: usize,
    t: Fx,
    cur: Option<(Intersection, Material)>,
    brk: bool,
) -> (r: (Fx, Option<(Intersection, Material)>, bool))
    requires
        i <= shapes@.len(),
    ensures
        r == scan_polygons(*ray, shapes@, i as int, t, cur, brk),
    decreases shapes@.len() - i,
{
    if i >= shapes.len() {
        return (t, cur, false);
    }
    match ray_vs_polygon(ray, &shapes[i], t) {
        Some(res) => {
            if brk {
                (res.t, Some((res, shapes[i].material)), true)
            } else {
                scan_polygons_exec(ray, shapes, i + 1, res.t, Some((res, shapes[i].material)), brk)
            }
        },
        None => scan_polygons_exec(ray, shapes, i + 1, t, cur, brk),
    }
}

/// Scans every shape collection, tracking the nearest hit seen so far (the
/// allowed distance shrinks monotonically), or stops at the very first hit
/// when `break_on_hit` is set.
pub fn ray_vs_scene_helper(ray: &Ray, scene: &Scene, break_on_hit: bool, max_t: Fx) -> (r: Option<
    (Intersection, Material),
>)
    ensures
        r == spec_ray_vs_scene_helper(*ray, *scene, break_on_hit, max_t),
{
    let s1 = scan_spheres_exec(ray, &scene.spheres, 0, max_t, None, break_on_hit);
    if s1.2 {
        return s1.1;
    }
    let s2 = scan_ellipsoids_exec(ray, &scene.ellipsoids, 0, s1.0, s1.1, break_on_hit);
    if s2.2 {
        return s2.1;
    }
    let s3 = scan_rhombohedrons_exec(ray, &scene.rhombohedrons, 0, s2.0, s2.1, break_on_hit);
    if s3.2 {
        return s3.1;
    }
    let s4 = scan_polygons_exec(ray, &scene.polygons, 0, s3.0, s3.1, break_on_hit);
    s4.1
}

proof fn lemma_scan_spheres_props(
    ray: Ray,
    shapes: Seq<Sphere>,
    i: int,
    t: Fx,
    cur: Option<(Intersection, Material)>,
    brk: bool,
)
    requires
        0 <= i <= shapes.len(),
        forall|k: int| 0 <= k < shapes.len() ==> material_wf(#[trigger] shapes[k].material),
        cur is Some ==> material_wf((cur->0).1) && (cur->0).0.t.bits >= 0,
    ensures
        scan_spheres(ray, shapes, i, t, cur, brk).1 is Some ==> material_wf(
            (scan_spheres(ray, shapes, i, t, cur, brk).1->0).1,
        ) && (scan_spheres(ray, shapes, i, t, cur, brk).1->0).0.t.bits >= 0,
    decreases shapes.len() - i,
{
    if i < shapes.len() {
        crate::intersect::lemma_sphere_hit_nonneg(ray, shapes[i], t);
        match spec_ray_vs_sphere(ray, shapes[i], t) {
            Option::Some(res) => {
                if !brk {
                    lemma_scan_spheres_props(
                        ray,
                        shapes,
                        i + 1,
                        res.t,
                        Some((res, shapes[i].material)),
                        brk,
                    );
                }
            },
            Option::None => {
                lemma_scan_spheres_props(ray, shapes, i + 1, t, cur, brk);
            },
        }
    }
}

proof fn lemma_scan_ellipsoids_props(
    ray: Ray,
    shapes: Seq<Ellipsoid>,
    i: int,
    t: Fx,
    cur: Option<(Intersection, Material)>,
    brk: bool,
)
    requires
        0 <= i <= shapes.len(),
        forall|k: int| 0 <= k < shapes.len() ==> material_wf(#[trigger] shapes[k].material),
        cur is Some ==> material_wf((cur->0).1) && (cur->0).0.t.bits >= 0,
    ensures
        scan_ellipsoids(ray, shapes, i, t, cur, brk).1 is Some ==> material_wf(
            (scan_ellipsoids(ray, shapes, i, t, cur, brk).1->0).1,
        ) && (scan_ellipsoids(ray, shapes, i, t, cur, brk).1->0).0.t.bits >= 0,
    decreases shapes.len() - i,
{
    if i < shapes.len() {
        crate::intersect::lemma_ellipsoid_hit_nonneg(ray, shapes[i], t);
        match spec_ray_vs_ellipsoid(ray, shapes[i], t) {
            Option::Some(res) => {
                if !brk {
                    lemma_scan_ellipsoids_props(
                        ray,
                        shapes,
                        i + 1,
                        res.t,
                        Some((res, shapes[i].material)),
                        brk,
                    );
                }
            },
            Option::None => {
                lemma_scan_ellipsoids_props(ray, shapes, i + 1, t, cur, brk);
            },
        }
    }
}

proof fn lemma_scan_rhombohedrons_props(
    ray: Ray,
    shapes: Seq<Rhombohedron>,
    i: int,
    t: Fx,
    cur: Option<(Intersection, Material)>,
    brk: bool,
)
    requires
        0 <= i <= shapes.len(),
        forall|k: int| 0 <= k < shapes.len() ==> material_wf(#[trigger] shapes[k].material),
        cur is Some ==> material_wf((cur->0).1) && (cur->0).0.t.bits >= 0,
    ensures
        scan_rhombohedrons(ray, shapes, i, t, cur, brk).1 is Some ==> material_wf(
            (scan_rhombohedrons(ray, shapes, i, t, cur, brk).1->0).1,
        ) && (scan_rhombohedrons(ray, shapes, i, t, cur, brk).1->0).0.t.bits >= 0,
    decreases shapes.len() - i,
{
    if i < shapes.len() {
        crate::intersect::lemma_rhombohedron_hit_nonneg(ray, shapes[i], t);
        match spec_ray_vs_rhombohedron(ray, shapes[i], t) {
            Option::Some(res) => {
                if !brk {
                    lemma_scan_rhombohedrons_props(
                        ray,
                        shapes,
                        i + 1,
                        res.t,
                        Some((res, shapes[i].material)),
                        brk,
                    );
                }
            },
            Option::None => {
                lemma_scan_rhombohedrons_props(ray, shapes, i + 1, t, cur, brk);
            },
        }
    }
}

proof fn lemma_scan_polygons_props(
    ray: Ray,
    shapes: Seq<Polygon>,
    i: int,
    t: Fx,
    cur: Option<(Intersection, Material)>,
    brk: bool,
)
    requires
        0 <= i <= shapes.len(),
        forall|k: int| 0 <= k < shapes.len() ==> material_wf(#[trigger] shapes[k].material),
        cur is Some ==> material_wf((cur->0).1) && (cur->0).0.t.bits >= 0,
    ensures
        scan_polygons(ray, shapes, i, t, cur, brk).1 is Some ==> material_wf(
            (scan_polygons(ray, shapes, i, t, cur, brk).1->0).1,
        ) && (scan_polygons(ray, shapes, i, t, cur, brk).1->0).0.t.bits >= 0,
    decreases shapes.len() - i,
{
    if i < shapes.len() {
        crate::intersect::lemma_polygon_hit_nonneg(ray, shapes[i], t);
        match spec_ray_vs_polygon(ray, shapes[i], t) {
            Option::Some(res) => {
                if !brk {
                    lemma_scan_polygons_props(
                        ray,
                        shapes,
                        i + 1,
                        res.t,
                        Some((res, shapes[i].material)),
                        brk,
                    );
                }
            },
            Option::None => {
                lemma_scan_polygons_props(ray, shapes, i + 1, t, cur, brk);
            },
        }
    }
}

/// In a well-formed scene, every whole-scene hit carries a well-formed
/// material and a distance at or ahead of the ray origin.
pub proof fn lemma_scene_hit_props(ray: Ray, scene: Scene, break_on_hit: bool, max_t: Fx)
    requires
        scene_wf(scene),
    ensures
        spec_ray_vs_scene_helper(ray, scene, break_on_hit, max_t) is Some ==> material_wf(
            (spec_ray_vs_scene_helper(ray, scene, break_on_hit, max_t)->0).1,
        ) && (spec_ray_vs_scene_helper(ray, scene, break_on_hit, max_t)->0).0.t.bits >= 0,
{
    let s1 = scan_spheres(ray, scene.spheres@, 0, max_t, None, break_on_hit);
    let s2 = scan_ellipsoids(ray, scene.ellipsoids@, 0, s1.0, s1.1, break_on_hit);
    let s3 = scan_rhombohedrons(ray, scene.rhombohedrons@, 0, s2.0, s2.1, break_on_hit);
    lemma_scan_spheres_props(ray, scene.spheres@, 0, max_t, None, break_on_hit);
    lemma_scan_ellipsoids_props(ray, scene.ellipsoids@, 0, s1.0, s1.1, break_on_hit);
    lemma_scan_rhombohedrons_props(ray, scene.rhombohedrons@, 0, s2.0, s2.1, break_on_hit);
    lemma_scan_polygons_props(ray, scene.polygons@, 0, s3.0, s3.1, break_on_hit);
}

/// Whether anything occludes the ray strictly before `t == 1`: shadow rays
/// carry the raw (unnormalized) displacement to the light, so `1` means
/// "reaches the light".
pub fn ray_vs_scene_shadow(ray: &Ray, scene: &Scene) -> (r: bool)
    ensures
        r == (spec_ray_vs_scene_helper(*ray, *scene, true, fx_one()) is Some),
{
    ray_vs_scene_helper(ray, scene, true, Fx::one()).is_some()
}

/// The nearest hit across everything, unbounded.
pub fn ray_vs_scene(ray: &Ray, scene: &Scene) -> (r: Option<(Intersection, Material)>)
    ensures
        r == spec_ray_vs_scene_helper(*ray, *scene, false, fx_max()),
{
    ray_vs_scene_helper(ray, scene, false, Fx::max_value())
}

} // verus!
