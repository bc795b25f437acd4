use raytracer::fixed::FX_ONE;
use raytracer::materials::Dielectric;
use raytracer::materials::Lambertian;
use raytracer::materials::Metal;
use raytracer::materials::reflect;
use raytracer::materials::refract;
use raytracer::materials::schlick;
use raytracer::ray::Ray;
use raytracer::raytracing::HitRecord;
use raytracer::vec3::Vector3;

fn v(x: i64, y: i64, z: i64) -> Vector3 {
    Vector3 { x, y, z }
}

fn front_hit() -> HitRecord {
    HitRecord { time: FX_ONE / 2, point: v(0, 0, -FX_ONE / 2), normal: v(0, 0, FX_ONE), material: 0 }
}

#[test]
fn mirror_reflection() {
    assert_eq!(
        reflect(&v(FX_ONE, 0, -FX_ONE), &v(0, 0, FX_ONE)),
        v(FX_ONE, 0, FX_ONE)
    );
}

#[test]
fn refraction_straight_through_matched_index() {
    assert_eq!(
        refract(&v(0, 0, -FX_ONE), &v(0, 0, FX_ONE), FX_ONE),
        Some(v(0, 0, -FX_ONE))
    );
}

#[test]
fn total_internal_reflection_returns_nothing() {
    assert_eq!(refract(&v(FX_ONE, 0, -FX_ONE), &v(0, 0, FX_ONE), 3 * FX_ONE), None);
}

#[test]
fn schlick_values() {
    // grazing incidence reflects fully
    assert_eq!(schlick(0, 2 * FX_ONE), FX_ONE);
    // head-on incidence leaves only the base reflectance ((1-2)/(1+2))^2
    assert_eq!(schlick(FX_ONE, 2 * FX_ONE), 7281);
}

#[test]
fn lambertian_always_scatters_toward_normal_plus_sample() {
    let material = Lambertian { albedo: v(52428, 19660, 19660) };
    let sample = v(100, 200, -300);
    let (scattered, attenuation) = material
        .scatter_with(&front_hit(), &sample)
        .expect("diffuse scattering never absorbs");
    assert_eq!(scattered.origin, v(0, 0, -FX_ONE / 2));
    assert_eq!(scattered.direction, v(100, 200, 65236));
    assert_eq!(attenuation, v(52428, 19660, 19660));
}

// A reflection direction pointing into the surface is absorbed, always.
#[test]
fn metal_absorbs_back_facing_reflection() {
    let material = Metal { albedo: v(52428, 39321, 19660), fuzz: 655 };
    // the ray leaves the surface along the normal, so its mirror image
    // points back into the surface
    let ray = Ray { origin: v(0, 0, 0), direction: v(0, 0, FX_ONE) };
    assert_eq!(material.scatter_with(&ray, &front_hit(), &Vector3::zero()), None);
}

#[test]
fn metal_reflects_front_facing_ray() {
    let material = Metal { albedo: v(52428, 39321, 19660), fuzz: 0 };
    let ray = Ray { origin: v(0, 0, 0), direction: v(0, 0, -FX_ONE) };
    let (scattered, attenuation) = material
        .scatter_with(&ray, &front_hit(), &Vector3::zero())
        .expect("a head-on ray reflects");
    assert_eq!(scattered.direction, v(0, 0, FX_ONE));
    assert_eq!(attenuation, v(52428, 39321, 19660));
}

// With a matched refraction index and a zero draw, the scattered ray is
// exactly the refracted direction.
#[test]
fn dielectric_matched_index_refracts_exactly() {
    let material = Dielectric { refraction_index: FX_ONE };
    let ray = Ray { origin: v(0, 0, 0), direction: v(FX_ONE, 0, -FX_ONE) };
    let (scattered, attenuation) = material
        .scatter_with(&ray, &front_hit(), 0)
        .expect("a dielectric never absorbs");
    let refracted = refract(&v(FX_ONE, 0, -FX_ONE), &v(0, 0, FX_ONE), FX_ONE)
        .expect("refraction is possible here");
    assert_eq!(scattered.direction, refracted);
    assert_eq!(scattered.direction, v(46341, 0, -46340));
    assert_eq!(attenuation, Vector3::one());
}

#[test]
fn dielectric_glass_refracts_head_on() {
    let material = Dielectric { refraction_index: 2 * FX_ONE };
    let ray = Ray { origin: v(0, 0, 0), direction: v(0, 0, -FX_ONE) };
    let (scattered, attenuation) = material
        .scatter_with(&ray, &front_hit(), 0)
        .expect("a dielectric never absorbs");
    assert_eq!(scattered.direction, v(0, 0, -FX_ONE));
    assert_eq!(attenuation, Vector3::one());
}
