use raytracer::fixed::FX_ONE;
use raytracer::geometry::Sphere;
use raytracer::integrator::get_screen_space_color;
use raytracer::materials::Lambertian;
use raytracer::materials::Material;
use raytracer::materials::Metal;
use raytracer::random::ScriptedRandom;
use raytracer::random::ZeroRandom;
use raytracer::ray::Ray;
use raytracer::vec3::Vector3;

fn v(x: i64, y: i64, z: i64) -> Vector3 {
    Vector3 { x, y, z }
}

fn trace(ray: Ray, spheres: &Vec<Sphere>, materials: &Vec<Material>, max_depth: i32) -> Vector3 {
    let mut rng = ZeroRandom {};
    get_screen_space_color(&ray, spheres, materials, &mut rng, 0, max_depth)
}

fn empty_scene() -> (Vec<Sphere>, Vec<Material>) {
    (vec![], vec![])
}

// A ray that hits nothing yields the exact background gradient.
#[test]
fn miss_yields_exact_gradient() {
    let (spheres, materials) = empty_scene();
    let up = Ray { origin: v(0, 0, 0), direction: v(0, FX_ONE, 0) };
    assert_eq!(trace(up, &spheres, &materials, 5), v(32768, 45875, FX_ONE));
    let down = Ray { origin: v(0, 0, 0), direction: v(0, -FX_ONE, 0) };
    assert_eq!(trace(down, &spheres, &materials, 5), v(FX_ONE, FX_ONE, FX_ONE));
    let level = Ray { origin: v(0, 0, 0), direction: v(0, 0, -FX_ONE) };
    assert_eq!(trace(level, &spheres, &materials, 5), v(49152, 55705, FX_ONE));
}

#[test]
fn miss_gradient_ignores_the_scene_behind() {
    let spheres = vec![Sphere { center: v(0, 0, -2 * FX_ONE), radius: FX_ONE, material: 0 }];
    let materials = vec![Material::Lambertian(Lambertian { albedo: v(FX_ONE, 0, 0) })];
    let away = Ray { origin: v(0, 0, 0), direction: v(FX_ONE, 0, 0) };
    assert_eq!(trace(away, &spheres, &materials, 5), v(49152, 55705, FX_ONE));
}

#[test]
fn degenerate_direction_yields_black() {
    let (spheres, materials) = empty_scene();
    let still = Ray { origin: v(0, 0, 0), direction: v(0, 0, 0) };
    assert_eq!(trace(still, &spheres, &materials, 5), Vector3::zero());
}

// With the depth budget already exhausted, a hit on an always-scattering
// material yields exactly black.
#[test]
fn exhausted_depth_yields_black() {
    let spheres = vec![Sphere { center: v(0, 0, -FX_ONE), radius: FX_ONE / 2, material: 0 }];
    let materials = vec![Material::Lambertian(Lambertian { albedo: v(52428, 19660, 19660) })];
    let center = Ray { origin: v(0, 0, 0), direction: v(0, 0, -FX_ONE) };
    assert_eq!(trace(center, &spheres, &materials, 0), Vector3::zero());
}

// Two mutually visible mirror spheres: the trace terminates at the
// depth bound and returns black, the radiance lost to the bounces.
#[test]
fn facing_mirrors_terminate_at_the_bound() {
    let spheres = vec![
        Sphere { center: v(0, 0, -2 * FX_ONE), radius: FX_ONE, material: 0 },
        Sphere { center: v(0, 0, 2 * FX_ONE), radius: FX_ONE, material: 1 },
    ];
    let materials = vec![
        Material::Metal(Metal { albedo: Vector3::one(), fuzz: 0 }),
        Material::Metal(Metal { albedo: Vector3::one(), fuzz: 0 }),
    ];
    let center = Ray { origin: v(0, 0, 0), direction: v(0, 0, -FX_ONE) };
    assert_eq!(trace(center, &spheres, &materials, 5), Vector3::zero());
    assert_eq!(trace(center, &spheres, &materials, 50), Vector3::zero());
}

// The end-to-end scenario: a diffuse sphere over a diffuse ground, one
// ray through the image center, every random draw zero.
#[test]
fn golden_center_sample() {
    let spheres = vec![
        Sphere { center: v(0, 0, -FX_ONE), radius: FX_ONE / 2, material: 0 },
        Sphere { center: v(0, -6586368, -FX_ONE), radius: 100 * FX_ONE, material: 1 },
    ];
    let materials = vec![
        Material::Lambertian(Lambertian { albedo: v(52428, 19660, 19660) }),
        Material::Lambertian(Lambertian { albedo: v(52428, 52428, 0) }),
    ];
    let center = Ray { origin: v(0, 0, 0), direction: v(0, 0, -FX_ONE) };
    assert_eq!(trace(center, &spheres, &materials, 5), v(39321, 16710, 19660));
}

// A scripted source of zeros reproduces the golden sample draw for
// draw, and the trace consumes exactly one sample's draws per bounce.
#[test]
fn golden_center_sample_replays_from_a_script() {
    let spheres = vec![
        Sphere { center: v(0, 0, -FX_ONE), radius: FX_ONE / 2, material: 0 },
        Sphere { center: v(0, -6586368, -FX_ONE), radius: 100 * FX_ONE, material: 1 },
    ];
    let materials = vec![
        Material::Lambertian(Lambertian { albedo: v(52428, 19660, 19660) }),
        Material::Lambertian(Lambertian { albedo: v(52428, 52428, 0) }),
    ];
    let center = Ray { origin: v(0, 0, 0), direction: v(0, 0, -FX_ONE) };
    let mut rng = ScriptedRandom::new(vec![0; 1152]);
    let color = get_screen_space_color(&center, &spheres, &materials, &mut rng, 0, 5);
    assert_eq!(color, v(39321, 16710, 19660));
    // one bounce: one accepted unit-sphere sample of three draws
    assert_eq!(rng.position, 3);
}

// Attenuation dims every channel: the gathered color never exceeds the
// sphere's albedo.
#[test]
fn attenuation_bounds_the_gathered_color() {
    let albedo = v(52428, 19660, 19660);
    let spheres = vec![Sphere { center: v(0, 0, -FX_ONE), radius: FX_ONE / 2, material: 0 }];
    let materials = vec![Material::Lambertian(Lambertian { albedo })];
    let center = Ray { origin: v(0, 0, 0), direction: v(0, 0, -FX_ONE) };
    let color = trace(center, &spheres, &materials, 5);
    assert!(0 <= color.x && color.x <= albedo.x);
    assert!(0 <= color.y && color.y <= albedo.y);
    assert!(0 <= color.z && color.z <= albedo.z);
}
