//! The recursive radiance integrator.
//!
//! One sample ray is turned into a color: a miss yields the sky
//! gradient, an absorbed scatter yields black, and a scattered ray is
//! followed recursively up to a depth bound, each bounce dimming the
//! gathered radiance by the material's attenuation. Every returned
//! channel stays inside `[0, 1]`.

use vstd::prelude::*;
use crate::fixed::FX_MAX;
use crate::fixed::FX_ONE;
use crate::fixed::fx_add;
use crate::fixed::fx_add_s;
use crate::fixed::fx_mul;
use crate::fixed::fx_mul_s;
use crate::fixed::fx_sub;
use crate::fixed::fx_sub_s;
use crate::fixed::lemma_tdiv_exact;
use crate::fixed::lemma_tdiv_ordered;
use crate::fixed::lemma_tdiv_shrinks;
use crate::geometry::Sphere;
use crate::geometry::lemma_sphere_hit_fields;
use crate::geometry::sphere_hit_s;
use crate::materials::Material;
use crate::materials::color_wf;
use crate::materials::dielectric_scatter_s;
use crate::materials::lambertian_scatter_s;
use crate::materials::material_wf;
use crate::materials::metal_scatter_s;
use crate::materials::lemma_scatter_step_consumed;
use crate::materials::scatter_step_s;
use crate::random::RandomSource;
use crate::random::draws_wf;
use crate::random::lemma_draws_wf_skip;
use crate::ray::Ray;
use crate::raytracing::all_wf;
use crate::raytracing::check_for_hit;
use crate::raytracing::closest_hit_s;
use crate::raytracing::lemma_closest_hit_characterize;
use crate::vec3::Vector3;
use crate::vec3::length_s;
use crate::vec3::lemma_length_basics;
use crate::vec3::sq_len_s;
use crate::vec3::unit_s;
use crate::vec3::vadd_s;
use crate::vec3::vmul_s;
use crate::vec3::vone_s;
use crate::vec3::vscale_s;
use crate::vec3::vzero_s;

verus! {

/// The lower interval end for every intersection query: keeps scattered
/// rays from re-hitting their own origin ("shadow acne").
pub const HIT_EPSILON: i64 = 66;

/// The sky's horizon-to-zenith color.
pub open spec fn sky_blue_s() -> Vector3 {
    Vector3 { x: 32768, y: 45875, z: FX_ONE }
}

/// The gradient parameter: half of the unit direction's vertical
/// component plus one, clamped into `[0, 1]` against truncation strays.
pub open spec fn sky_t_s(ray: Ray) -> int
    recommends
        length_s(ray.direction) > 0,
{
    let t = fx_mul_s(32768, fx_add_s(unit_s(ray.direction).y as int, FX_ONE as int));
    if t < 0 {
        0
    } else if t > FX_ONE {
        FX_ONE as int
    } else {
        t
    }
}

/// The background gradient: white blended toward sky blue by the
/// direction's vertical component.
pub open spec fn sky_color_s(ray: Ray) -> Vector3
    recommends
        length_s(ray.direction) > 0,
{
    let t = sky_t_s(ray);
    vadd_s(vscale_s(vone_s(), fx_sub_s(FX_ONE as int, t)), vscale_s(sky_blue_s(), t))
}

/// A well-formed scene: positive radii, material indices inside the
/// table, and well-formed materials.
pub open spec fn scene_wf(spheres: Seq<Sphere>, materials: Seq<Material>) -> bool {
    &&& all_wf(spheres)
    &&& (forall|i: int|
        0 <= i < spheres.len() ==> (#[trigger] spheres[i]).material < materials.len())
    &&& (forall|j: int| 0 <= j < materials.len() ==> material_wf(#[trigger] materials[j]))
}

/// Scaling a color channel by a factor in `[0, 1]` keeps it inside
/// `[0, the factor's bound]`.
proof fn lemma_channel_scale(c: int, t: int)
    requires
        0 <= c <= FX_ONE,
        0 <= t,
    ensures
        0 <= fx_mul_s(c, t) <= t,
{
    assert(0 <= c * t && c * t <= 65536 * t) by (nonlinear_arith)
        requires
            0 <= c <= 65536,
            0 <= t,
    ;
    lemma_tdiv_shrinks(c * t, FX_ONE as int);
    lemma_tdiv_ordered(c * t, 65536 * t, FX_ONE as int);
    lemma_tdiv_exact(t, FX_ONE as int);
}

/// The product of two colors is a color.
pub proof fn lemma_color_mul(a: Vector3, b: Vector3)
    requires
        color_wf(a),
        color_wf(b),
    ensures
        color_wf(vmul_s(a, b)),
{
    lemma_channel_scale(a.x as int, b.x as int);
    lemma_channel_scale(a.y as int, b.y as int);
    lemma_channel_scale(a.z as int, b.z as int);
}

/// The modeled draws one call may need at each recursion level: a
/// unit-sphere sample of up to 64 attempts, three draws each.
pub open spec fn draws_needed_s(depth: int, max_depth: int) -> int {
    if depth >= max_depth {
        192
    } else {
        192 * (max_depth - depth + 1)
    }
}

/// The integrator over a modeled draw sequence: the color gathered for
/// the ray and the number of draws consumed. A miss consumes nothing;
/// a hit scatters over the stream, and a scattered ray below the depth
/// bound recurses over what remains.
pub open spec fn trace_s(
    spheres: Seq<Sphere>,
    materials: Seq<Material>,
    ray: Ray,
    depth: int,
    max_depth: int,
    draws: Seq<i64>,
) -> (Vector3, int)
    decreases max_depth - depth,
{
    match closest_hit_s(spheres, ray, HIT_EPSILON as int, FX_MAX as int) {
        None => (
            if sq_len_s(ray.direction) == 0 {
                vzero_s()
            } else {
                sky_color_s(ray)
            },
            0,
        ),
        Some(h) => {
            let step = scatter_step_s(materials[h.material as int], ray, h, draws);
            match step.0 {
                None => (vzero_s(), step.1),
                Some(pair) => {
                    if depth < max_depth {
                        let sub = trace_s(
                            spheres,
                            materials,
                            pair.0,
                            depth + 1,
                            max_depth,
                            draws.skip(step.1),
                        );
                        (vmul_s(pair.1, sub.0), step.1 + sub.1)
                    } else {
                        (vzero_s(), step.1)
                    }
                }
            }
        }
    }
}

/// The integrator consumes at most one scattering step's draws per
/// level of remaining depth budget, and never more than it needs.
pub proof fn lemma_trace_consumed(
    spheres: Seq<Sphere>,
    materials: Seq<Material>,
    ray: Ray,
    depth: int,
    max_depth: int,
    draws: Seq<i64>,
)
    ensures
        0 <= trace_s(spheres, materials, ray, depth, max_depth, draws).1 <= draws_needed_s(
            depth,
            max_depth,
        ),
    decreases max_depth - depth,
{
    match closest_hit_s(spheres, ray, HIT_EPSILON as int, FX_MAX as int) {
        None => {}
        Some(h) => {
            lemma_scatter_step_consumed(materials[h.material as int], ray, h, draws);
            let step = scatter_step_s(materials[h.material as int], ray, h, draws);
            if step.0 is Some && depth < max_depth {
                lemma_trace_consumed(
                    spheres,
                    materials,
                    step.0->Some_0.0,
                    depth + 1,
                    max_depth,
                    draws.skip(step.1),
                );
            }
        }
    }
}

/// The sky gradient is a color.
pub proof fn lemma_sky_wf(ray: Ray)
    ensures
        color_wf(sky_color_s(ray)),
{
    let t = sky_t_s(ray);
    assert(0 <= t <= FX_ONE);
    lemma_tdiv_exact(FX_ONE as int - t, FX_ONE as int);
    lemma_channel_scale(32768, t);
    lemma_channel_scale(45875, t);
    lemma_channel_scale(FX_ONE as int, t);
}

/// The color gathered for one sample ray.
///
/// On a miss the exact background gradient is returned (black for a
/// degenerate direction whose squared length truncates to zero). On a
/// hit the material scatters: absorption and an exhausted depth budget
/// both yield black, and otherwise the result is the attenuation times
/// the color gathered along the scattered ray. Channels always stay
/// inside `[0, 1]`; and over a source whose pending draws are modeled
/// (see [`RandomSource::draws`]) the result is exactly [`trace_s`] of
/// those draws, consuming exactly the draws the trace accounts for.
#[verifier::rlimit(100)]
pub fn get_screen_space_color<R: RandomSource>(
    ray: &Ray,
    hitables: &Vec<Sphere>,
    materials: &Vec<Material>,
    rng: &mut R,
    depth: i32,
    max_depth: i32,
) -> (r: Vector3)
    requires
        scene_wf(hitables@, materials@),
    ensures
        color_wf(r),
        ({
            let hit = closest_hit_s(hitables@, *ray, HIT_EPSILON as int, FX_MAX as int);
            &&& (hit is None && sq_len_s(ray.direction) == 0 ==> r == vzero_s())
            &&& (hit is None && sq_len_s(ray.direction) != 0 ==> r == sky_color_s(*ray))
            &&& (hit is Some && depth >= max_depth ==> r == vzero_s())
            &&& (hit matches Some(h) ==> depth < max_depth ==> match materials@[h.material as int] {
                Material::Lambertian(l) => exists|sub: Vector3|
                    color_wf(sub) && r == #[trigger] vmul_s(l.albedo, sub),
                Material::Metal(m) => r == vzero_s() || (exists|sub: Vector3|
                    color_wf(sub) && r == #[trigger] vmul_s(m.albedo, sub)),
                Material::Dielectric(_) => true,
            })
        }),
        ({
            let d = old(rng).draws();
            draws_wf(d) && d.len() >= draws_needed_s(depth as int, max_depth as int) ==> ({
                let t = trace_s(hitables@, materials@, *ray, depth as int, max_depth as int, d);
                r == t.0 && final(rng).draws() == d.skip(t.1)
            })
        }),
    decreases max_depth - depth,
{
    let ghost d = rng.draws();
    let hit = check_for_hit(hitables, ray, HIT_EPSILON, FX_MAX);
    match hit {
        Some(hit_record) => {
            proof {
                lemma_closest_hit_characterize(
                    hitables@,
                    *ray,
                    HIT_EPSILON as int,
                    FX_MAX as int,
                );
                let i = choose|i: int|
                    0 <= i < hitables@.len() && #[trigger] sphere_hit_s(
                        hitables@[i],
                        *ray,
                        HIT_EPSILON as int,
                        FX_MAX as int,
                    ) == Some(hit_record);
                lemma_sphere_hit_fields(hitables@[i], *ray, HIT_EPSILON as int, FX_MAX as int);
                lemma_length_basics(ray.direction);
                assert(draws_needed_s(depth as int, max_depth as int) >= 192);
            }
            let material: &Material = &materials[hit_record.material];
            let scat: Option<(Ray, Vector3)> = material.scatter(ray, &hit_record, rng);
            match scat {
                Some(pair) => {
                    let (scattered, attenuation) = pair;
                    proof {
                        match materials@[hit_record.material as int] {
                            Material::Lambertian(l) => {
                                let sample = choose|sample: Vector3|
                                    length_s(sample) < FX_ONE && scat == Some(
                                        #[trigger] lambertian_scatter_s(l, hit_record, sample),
                                    );
                                assert(attenuation == l.albedo);
                            }
                            Material::Metal(m) => {
                                let sample = choose|sample: Vector3|
                                    length_s(sample) < FX_ONE && scat == #[trigger] metal_scatter_s(
                                        m,
                                        *ray,
                                        hit_record,
                                        sample,
                                    );
                                assert(attenuation == m.albedo);
                            }
                            Material::Dielectric(d) => {
                                let draw = choose|draw: int|
                                    0 <= draw < FX_ONE && scat == Some(
                                        #[trigger] dielectric_scatter_s(d, *ray, hit_record, draw),
                                    );
                                assert(attenuation == vone_s());
                            }
                        }
                        assert(color_wf(attenuation));
                    }
                    if depth < max_depth {
                        proof {
                            if draws_wf(d) && d.len() >= draws_needed_s(
                                depth as int,
                                max_depth as int,
                            ) {
                                let step = scatter_step_s(
                                    materials@[hit_record.material as int],
                                    *ray,
                                    hit_record,
                                    d,
                                );
                                lemma_scatter_step_consumed(
                                    materials@[hit_record.material as int],
                                    *ray,
                                    hit_record,
                                    d,
                                );
                                lemma_draws_wf_skip(d, step.1);
                            }
                        }
                        let ghost d2 = rng.draws();
                        let sub: Vector3 = get_screen_space_color(
                            &scattered,
                            hitables,
                            materials,
                            rng,
                            depth + 1,
                            max_depth,
                        );
                        let out: Vector3 = attenuation.times(sub);
                        proof {
                            lemma_color_mul(attenuation, sub);
                            if draws_wf(d) && d.len() >= draws_needed_s(
                                depth as int,
                                max_depth as int,
                            ) {
                                let step = scatter_step_s(
                                    materials@[hit_record.material as int],
                                    *ray,
                                    hit_record,
                                    d,
                                );
                                let tsub = trace_s(
                                    hitables@,
                                    materials@,
                                    scattered,
                                    depth as int + 1,
                                    max_depth as int,
                                    d2,
                                );
                                lemma_scatter_step_consumed(
                                    materials@[hit_record.material as int],
                                    *ray,
                                    hit_record,
                                    d,
                                );
                                lemma_trace_consumed(
                                    hitables@,
                                    materials@,
                                    scattered,
                                    depth as int + 1,
                                    max_depth as int,
                                    d2,
                                );
                                assert(d2 == d.skip(step.1));
                                assert(d.skip(step.1).skip(tsub.1) =~= d.skip(step.1 + tsub.1));
                            }
                        }
                        out
                    } else {
                        Vector3::zero()
                    }
                }
                None => {
                    proof {
                        match materials@[hit_record.material as int] {
                            Material::Lambertian(l) => {
                                let sample = choose|sample: Vector3|
                                    length_s(sample) < FX_ONE && scat == Some(
                                        #[trigger] lambertian_scatter_s(l, hit_record, sample),
                                    );
                                assert(false);
                            }
                            Material::Metal(_) => {}
                            Material::Dielectric(d) => {
                                let draw = choose|draw: int|
                                    0 <= draw < FX_ONE && scat == Some(
                                        #[trigger] dielectric_scatter_s(d, *ray, hit_record, draw),
                                    );
                                assert(false);
                            }
                        }
                    }
                    Vector3::zero()
                }
            }
        }
        None => {
            proof {
                assert(d.skip(0) =~= d);
            }
            let sq: i64 = ray.direction.squared_length();
            if sq == 0 {
                Vector3::zero()
            } else {
                proof {
                    lemma_length_basics(ray.direction);
                    lemma_sky_wf(*ray);
                }
                let unit_direction: Vector3 = ray.direction.as_unit_vector();
                let time: i64 = fx_mul(32768, fx_add(unit_direction.y, FX_ONE));
                let time: i64 = if time < 0 {
                    0
                } else if time > FX_ONE {
                    FX_ONE
                } else {
                    time
                };

                Vector3::one().scale(fx_sub(FX_ONE, time)).plus(
                    Vector3 { x: 32768, y: 45875, z: FX_ONE }.scale(time),
                )
            }
        }
    }
}

} // verus!
