use raytracer::fixed::FX_ONE;
use raytracer::geometry::Sphere;
use raytracer::ray::Ray;
use raytracer::raytracing::check_for_hit;
use raytracer::vec3::Vector3;

fn v(x: i64, y: i64, z: i64) -> Vector3 {
    Vector3 { x, y, z }
}

fn axial_ray() -> Ray {
    Ray { origin: v(0, 0, 0), direction: v(0, 0, -FX_ONE) }
}

// The dispatcher's result does not depend on the order of the surface
// list: two overlapping spheres report the same hit either way around.
#[test]
fn dispatch_is_order_independent() {
    let near = Sphere { center: v(0, 0, -2 * FX_ONE), radius: FX_ONE, material: 0 };
    let far = Sphere { center: v(0, 0, -163840), radius: FX_ONE, material: 1 };
    let one_way = vec![near, far];
    let other_way = vec![far, near];
    let ray = axial_ray();
    let first = check_for_hit(&one_way, &ray, 66, i64::MAX).expect("the scene is hit");
    let second = check_for_hit(&other_way, &ray, 66, i64::MAX).expect("the scene is hit");
    assert_eq!(first, second);
    assert_eq!(first.time, FX_ONE);
    assert_eq!(first.material, 0);
}

#[test]
fn nearest_of_three_wins() {
    let spheres = vec![
        Sphere { center: v(0, 0, -8 * FX_ONE), radius: FX_ONE, material: 2 },
        Sphere { center: v(0, 0, -4 * FX_ONE), radius: FX_ONE, material: 1 },
        Sphere { center: v(0, 0, -6 * FX_ONE), radius: FX_ONE, material: 0 },
    ];
    let hit = check_for_hit(&spheres, &axial_ray(), 66, i64::MAX).expect("the scene is hit");
    assert_eq!(hit.time, 3 * FX_ONE);
    assert_eq!(hit.material, 1);
}

#[test]
fn empty_scene_reports_nothing() {
    let spheres: Vec<Sphere> = vec![];
    assert_eq!(check_for_hit(&spheres, &axial_ray(), 66, i64::MAX), None);
}
