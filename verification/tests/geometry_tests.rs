use raytracer::fixed::FX_ONE;
use raytracer::geometry::Sphere;
use raytracer::ray::Ray;
use raytracer::raytracing::check_for_hit;
use raytracer::vec3::Vector3;

fn v(x: i64, y: i64, z: i64) -> Vector3 {
    Vector3 { x, y, z }
}

// An axial ray from z = +10 toward a sphere of radius 1/2 at the origin
// hits at distance 10 - 1/2, the closer root, not at 10 + 1/2.
#[test]
fn axial_probe_takes_closer_root() {
    let sphere = Sphere { center: v(0, 0, 0), radius: FX_ONE / 2, material: 0 };
    let ray = Ray { origin: v(0, 0, 10 * FX_ONE), direction: v(0, 0, -FX_ONE) };
    let hit = sphere.hit(&ray, 66, i64::MAX).expect("the probe must hit");
    assert_eq!(hit.time, 10 * FX_ONE - FX_ONE / 2);
    assert_eq!(hit.point, v(0, 0, FX_ONE / 2));
    assert_eq!(hit.normal, v(0, 0, FX_ONE));
    assert_eq!(hit.material, 0);
}

#[test]
fn probe_from_inside_takes_far_root() {
    let sphere = Sphere { center: v(0, 0, 0), radius: FX_ONE, material: 3 };
    let ray = Ray { origin: v(0, 0, 0), direction: v(0, 0, -FX_ONE) };
    let hit = sphere.hit(&ray, 66, i64::MAX).expect("the exit point must register");
    assert_eq!(hit.time, FX_ONE);
    assert_eq!(hit.point, v(0, 0, -FX_ONE));
    assert_eq!(hit.normal, v(0, 0, -FX_ONE));
    assert_eq!(hit.material, 3);
}

#[test]
fn ray_pointing_away_misses() {
    let sphere = Sphere { center: v(0, 0, -2 * FX_ONE), radius: FX_ONE, material: 0 };
    let ray = Ray { origin: v(0, 0, 0), direction: v(0, 0, FX_ONE) };
    assert_eq!(sphere.hit(&ray, 66, i64::MAX), None);
}

#[test]
fn interval_narrowing_hides_the_hit() {
    let spheres = vec![Sphere { center: v(0, 0, -2 * FX_ONE), radius: FX_ONE, material: 0 }];
    let ray = Ray { origin: v(0, 0, 0), direction: v(0, 0, -FX_ONE) };
    assert_eq!(check_for_hit(&spheres, &ray, 66, FX_ONE / 2), None);
    let hit = check_for_hit(&spheres, &ray, 66, i64::MAX).expect("the open interval admits it");
    assert_eq!(hit.time, FX_ONE);
}

#[test]
fn degenerate_direction_hits_nothing() {
    let spheres = vec![Sphere { center: v(0, 0, -2 * FX_ONE), radius: FX_ONE, material: 0 }];
    let ray = Ray { origin: v(0, 0, 0), direction: v(0, 0, 0) };
    assert_eq!(check_for_hit(&spheres, &ray, 66, i64::MAX), None);
}

#[test]
fn point_along_ray() {
    let ray = Ray { origin: v(0, 0, 10 * FX_ONE), direction: v(0, 0, -FX_ONE) };
    assert_eq!(ray.point_at_parameter(10 * FX_ONE - FX_ONE / 2), v(0, 0, FX_ONE / 2));
}
