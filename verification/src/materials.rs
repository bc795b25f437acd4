//! The scattering models: diffuse, metallic and dielectric.
//!
//! Each material answers an incoming ray and a hit record with an
//! outgoing ray and an attenuation factor, or signals absorption. The
//! probabilistic inputs (a point in the unit sphere, a uniform draw) are
//! explicit arguments of the `_with` forms, whose contracts are exact;
//! the enum's `scatter` draws them from an injected [`RandomSource`].

use vstd::prelude::*;
use crate::fixed::FX_ONE;
use crate::fixed::fx_add;
use crate::fixed::fx_add_s;
use crate::fixed::fx_div;
use crate::fixed::fx_div_s;
use crate::fixed::fx_mul;
use crate::fixed::fx_mul_s;
use crate::fixed::fx_neg;
use crate::fixed::fx_neg_s;
use crate::fixed::fx_sqrt;
use crate::fixed::fx_sqrt_s;
use crate::fixed::fx_sub;
use crate::fixed::fx_sub_s;
use crate::fixed::lemma_tdiv_exact;
use crate::random::RandomSource;
use crate::random::draws_wf;
use crate::random::lemma_sphere_sample_consumed;
use crate::random::random_in_unit_sphere;
use crate::random::sphere_sample_s;
use crate::ray::Ray;
use crate::raytracing::HitRecord;
use crate::vec3::Vector3;
use crate::vec3::dot_s;
use crate::vec3::length_s;
use crate::vec3::unit_s;
use crate::vec3::vadd_s;
use crate::vec3::vone_s;
use crate::vec3::vscale_s;
use crate::vec3::vsub_s;

verus! {

/// An ideal diffuse surface.
#[derive(Clone, Copy, Debug, PartialEq, Eq, Structural)]
pub struct Lambertian {
    pub albedo: Vector3,
}

/// A specular surface with a fuzz radius.
#[derive(Clone, Copy, Debug, PartialEq, Eq, Structural)]
pub struct Metal {
    pub albedo: Vector3,
    pub fuzz: i64,
}

/// A clear surface that refracts and reflects, never absorbing.
#[derive(Clone, Copy, Debug, PartialEq, Eq, Structural)]
pub struct Dielectric {
    pub refraction_index: i64,
}

/// The closed set of scattering behaviors.
#[derive(Clone, Copy, Debug, PartialEq, Eq, Structural)]
pub enum Material {
    Lambertian(Lambertian),
    Metal(Metal),
    Dielectric(Dielectric),
}

/// A color has each channel inside `[0, 1]`.
pub open spec fn color_wf(v: Vector3) -> bool {
    &&& 0 <= v.x <= FX_ONE
    &&& 0 <= v.y <= FX_ONE
    &&& 0 <= v.z <= FX_ONE
}

/// A well-formed material: albedo channels inside `[0, 1]`, fuzz inside
/// `[0, 1]`, refraction index positive.
pub open spec fn material_wf(m: Material) -> bool {
    match m {
        Material::Lambertian(l) => color_wf(l.albedo),
        Material::Metal(met) => color_wf(met.albedo) && 0 <= met.fuzz <= FX_ONE,
        Material::Dielectric(d) => d.refraction_index > 0,
    }
}

/// Mirror reflection `v - 2 (v.n) n`.
pub open spec fn reflect_s(v: Vector3, n: Vector3) -> Vector3 {
    vsub_s(v, vscale_s(n, fx_mul_s(2 * FX_ONE as int, dot_s(v, n))))
}

/// Snell refraction of `v` about `n` with index ratio `ni_over_nt`, or
/// nothing under total internal reflection (non-positive discriminant
/// `1 - eta^2 (1 - (unit(v).n)^2)`).
pub open spec fn refract_s(v: Vector3, n: Vector3, ni_over_nt: int) -> Option<Vector3>
    recommends
        length_s(v) > 0,
{
    let uv = unit_s(v);
    let dt = dot_s(uv, n);
    let disc = fx_sub_s(
        FX_ONE as int,
        fx_mul_s(fx_mul_s(ni_over_nt, ni_over_nt), fx_sub_s(FX_ONE as int, fx_mul_s(dt, dt))),
    );
    if disc > 0 {
        Some(
            vsub_s(
                vscale_s(vsub_s(uv, vscale_s(n, dt)), ni_over_nt),
                vscale_s(n, fx_sqrt_s(disc)),
            ),
        )
    } else {
        None
    }
}

/// The Schlick reflectance estimate
/// `r0 + (1 - r0) (1 - cosine)^5` with `r0 = ((1 - ri) / (1 + ri))^2`.
pub open spec fn schlick_s(cosine: int, refraction_index: int) -> int
    recommends
        refraction_index > 0,
{
    let r0t = fx_div_s(
        fx_sub_s(FX_ONE as int, refraction_index),
        fx_add_s(FX_ONE as int, refraction_index),
    );
    let r0 = fx_mul_s(r0t, r0t);
    let g = fx_sub_s(FX_ONE as int, cosine);
    let g2 = fx_mul_s(g, g);
    let g4 = fx_mul_s(g2, g2);
    let g5 = fx_mul_s(g4, g);
    fx_add_s(r0, fx_mul_s(fx_sub_s(FX_ONE as int, r0), g5))
}

/// What the diffuse surface scatters: a ray from the hit point toward
/// `normal + sample`, attenuated by the albedo. It never absorbs.
pub open spec fn lambertian_scatter_s(l: Lambertian, hit: HitRecord, sample: Vector3) -> (
    Ray,
    Vector3,
) {
    let target = vadd_s(vadd_s(hit.point, hit.normal), sample);
    (Ray { origin: hit.point, direction: vsub_s(target, hit.point) }, l.albedo)
}

/// What the metallic surface scatters: the mirror reflection of the unit
/// incoming direction, perturbed by `fuzz * sample`; absorbed exactly
/// when the perturbed direction does not leave the surface.
pub open spec fn metal_scatter_s(m: Metal, ray: Ray, hit: HitRecord, sample: Vector3) -> Option<
    (Ray, Vector3),
>
    recommends
        length_s(ray.direction) > 0,
{
    let reflected = reflect_s(unit_s(ray.direction), hit.normal);
    let dir = vadd_s(reflected, vscale_s(sample, m.fuzz as int));
    if dot_s(dir, hit.normal) > 0 {
        Some((Ray { origin: hit.point, direction: dir }, m.albedo))
    } else {
        None
    }
}

/// The normal oriented against the ray: flipped when the ray exits.
pub open spec fn dielectric_outward_s(ray: Ray, hit: HitRecord) -> Vector3 {
    if dot_s(ray.direction, hit.normal) > 0 {
        vscale_s(hit.normal, -(FX_ONE as int))
    } else {
        hit.normal
    }
}

/// The refraction ratio: the index itself when exiting, its reciprocal
/// when entering.
pub open spec fn dielectric_eta_s(d: Dielectric, ray: Ray, hit: HitRecord) -> int
    recommends
        d.refraction_index > 0,
{
    if dot_s(ray.direction, hit.normal) > 0 {
        d.refraction_index as int
    } else {
        fx_div_s(FX_ONE as int, d.refraction_index as int)
    }
}

/// The cosine fed to the Schlick estimate.
pub open spec fn dielectric_cosine_s(d: Dielectric, ray: Ray, hit: HitRecord) -> int
    recommends
        length_s(ray.direction) > 0,
{
    let dn = dot_s(ray.direction, hit.normal);
    if dn > 0 {
        fx_div_s(fx_mul_s(d.refraction_index as int, dn), length_s(ray.direction))
    } else {
        fx_div_s(fx_neg_s(dn), length_s(ray.direction))
    }
}

/// What the clear surface scatters: the refracted direction when Snell
/// refraction is possible and the draw falls below the Schlick
/// reflectance, else the mirror reflection; the attenuation is always
/// all-ones. It never absorbs.
pub open spec fn dielectric_scatter_s(d: Dielectric, ray: Ray, hit: HitRecord, draw: int) -> (
    Ray,
    Vector3,
)
    recommends
        length_s(ray.direction) > 0,
        d.refraction_index > 0,
{
    let reflected = reflect_s(ray.direction, hit.normal);
    match refract_s(ray.direction, dielectric_outward_s(ray, hit), dielectric_eta_s(d, ray, hit)) {
        Some(refracted) => {
            if draw < schlick_s(dielectric_cosine_s(d, ray, hit), d.refraction_index as int) {
                (Ray { origin: hit.point, direction: refracted }, vone_s())
            } else {
                (Ray { origin: hit.point, direction: reflected }, vone_s())
            }
        }
        None => (Ray { origin: hit.point, direction: reflected }, vone_s()),
    }
}

/// One scattering step over a modeled draw sequence: diffuse and
/// metallic surfaces consume a unit-sphere sample, clear surfaces one
/// uniform draw; paired with the number of draws consumed.
pub open spec fn scatter_step_s(m: Material, ray: Ray, hit: HitRecord, draws: Seq<i64>) -> (
    Option<(Ray, Vector3)>,
    int,
)
    recommends
        length_s(ray.direction) > 0,
        material_wf(m),
        draws.len() > 0,
{
    match m {
        Material::Lambertian(l) => {
            let t = sphere_sample_s(draws);
            (Some(lambertian_scatter_s(l, hit, t.0)), t.1)
        }
        Material::Metal(met) => {
            let t = sphere_sample_s(draws);
            (metal_scatter_s(met, ray, hit, t.0), t.1)
        }
        Material::Dielectric(d) => (Some(dielectric_scatter_s(d, ray, hit, draws[0] as int)), 1),
    }
}

/// A scattering step consumes at most one unit-sphere sample's worth of
/// draws.
pub proof fn lemma_scatter_step_consumed(m: Material, ray: Ray, hit: HitRecord, draws: Seq<i64>)
    ensures
        0 <= scatter_step_s(m, ray, hit, draws).1 <= 192,
{
    lemma_sphere_sample_consumed(draws, 64);
}

/// Mirror reflection about a normal.
pub fn reflect(vector: &Vector3, normal: &Vector3) -> (r: Vector3)
    ensures
        r == reflect_s(*vector, *normal),
{
    let two: i64 = 2 * FX_ONE;
    vector.minus(normal.scale(fx_mul(two, vector.dot(normal))))
}

/// Snell refraction, or nothing under total internal reflection.
pub fn refract(vector: &Vector3, normal: &Vector3, ni_over_nt: i64) -> (r: Option<Vector3>)
    requires
        length_s(*vector) > 0,
    ensures
        r == refract_s(*vector, *normal, ni_over_nt as int),
{
    let uv: Vector3 = vector.as_unit_vector();
    let dt: i64 = uv.dot(normal);
    let discriminant: i64 = fx_sub(
        FX_ONE,
        fx_mul(fx_mul(ni_over_nt, ni_over_nt), fx_sub(FX_ONE, fx_mul(dt, dt))),
    );

    if discriminant > 0 {
        Some(uv.minus(normal.scale(dt)).scale(ni_over_nt).minus(normal.scale(fx_sqrt(discriminant))))
    } else {
        None
    }
}

/// The Schlick reflectance estimate.
pub fn schlick(cosine: i64, refraction_index: i64) -> (r: i64)
    requires
        refraction_index > 0,
    ensures
        r == schlick_s(cosine as int, refraction_index as int),
{
    let r0t: i64 = fx_div(fx_sub(FX_ONE, refraction_index), fx_add(FX_ONE, refraction_index));
    let r0: i64 = fx_mul(r0t, r0t);
    let g: i64 = fx_sub(FX_ONE, cosine);
    let g2: i64 = fx_mul(g, g);
    let g4: i64 = fx_mul(g2, g2);
    let g5: i64 = fx_mul(g4, g);
    fx_add(r0, fx_mul(fx_sub(FX_ONE, r0), g5))
}

impl Lambertian {
    /// Scatter with an explicit unit-sphere sample; never absorbs.
    pub fn scatter_with(&self, hit_record: &HitRecord, sample: &Vector3) -> (r: Option<
        (Ray, Vector3),
    >)
        ensures
            r == Some(lambertian_scatter_s(*self, *hit_record, *sample)),
    {
        let target: Vector3 = hit_record.point.plus(hit_record.normal).plus(*sample);
        Some(
            (
                Ray { origin: hit_record.point, direction: target.minus(hit_record.point) },
                self.albedo,
            ),
        )
    }
}

impl Metal {
    /// Scatter with an explicit unit-sphere sample; absorbs exactly when
    /// the perturbed reflection does not leave the surface.
    pub fn scatter_with(&self, ray: &Ray, hit_record: &HitRecord, sample: &Vector3) -> (r: Option<
        (Ray, Vector3),
    >)
        requires
            length_s(ray.direction) > 0,
        ensures
            r == metal_scatter_s(*self, *ray, *hit_record, *sample),
    {
        let reflected: Vector3 = reflect(&ray.direction.as_unit_vector(), &hit_record.normal);
        let scatter: Ray = Ray {
            origin: hit_record.point,
            direction: reflected.plus(sample.scale(self.fuzz)),
        };

        if scatter.direction.dot(&hit_record.normal) > 0 {
            Some((scatter, self.albedo))
        } else {
            None
        }
    }
}

impl Dielectric {
    /// Scatter with an explicit uniform draw; never absorbs.
    pub fn scatter_with(&self, ray: &Ray, hit_record: &HitRecord, draw: i64) -> (r: Option<
        (Ray, Vector3),
    >)
        requires
            length_s(ray.direction) > 0,
            self.refraction_index > 0,
        ensures
            r == Some(dielectric_scatter_s(*self, *ray, *hit_record, draw as int)),
    {
        let attenuation: Vector3 = Vector3::one();
        let reflected: Vector3 = reflect(&ray.direction, &hit_record.normal);

        let dn: i64 = ray.direction.dot(&hit_record.normal);
        let len: i64 = ray.direction.length();

        let outward_normal: Vector3;
        let ni_over_nt: i64;
        let cosine: i64;
        if dn > 0 {
            outward_normal = hit_record.normal.scale(-FX_ONE);
            ni_over_nt = self.refraction_index;
            cosine = fx_div(fx_mul(self.refraction_index, dn), len);
        } else {
            outward_normal = hit_record.normal;
            ni_over_nt = fx_div(FX_ONE, self.refraction_index);
            cosine = fx_div(fx_neg(dn), len);
        }

        match refract(&ray.direction, &outward_normal, ni_over_nt) {
            Some(refracted) => {
                let reflectance: i64 = schlick(cosine, self.refraction_index);
                if draw < reflectance {
                    Some((Ray { origin: hit_record.point, direction: refracted }, attenuation))
                } else {
                    Some((Ray { origin: hit_record.point, direction: reflected }, attenuation))
                }
            }
            None => Some((Ray { origin: hit_record.point, direction: reflected }, attenuation)),
        }
    }
}

impl Material {
    /// Scatter an incoming ray at a hit, drawing the probabilistic
    /// inputs from `rng`. Whatever was drawn, the result is the exact
    /// scatter of some unit-sphere sample (or some uniform draw).
    pub fn scatter<R: RandomSource>(&self, ray: &Ray, hit_record: &HitRecord, rng: &mut R) -> (r:
        Option<(Ray, Vector3)>)
        requires
            length_s(ray.direction) > 0,
            material_wf(*self),
        ensures
            match *self {
                Material::Lambertian(l) => exists|sample: Vector3|
                    length_s(sample) < FX_ONE && r == Some(
                        #[trigger] lambertian_scatter_s(l, *hit_record, sample),
                    ),
                Material::Metal(m) => exists|sample: Vector3|
                    length_s(sample) < FX_ONE && r == #[trigger] metal_scatter_s(
                        m,
                        *ray,
                        *hit_record,
                        sample,
                    ),
                Material::Dielectric(d) => exists|draw: int|
                    0 <= draw < FX_ONE && r == Some(
                        #[trigger] dielectric_scatter_s(d, *ray, *hit_record, draw),
                    ),
            },
            draws_wf(old(rng).draws()) && old(rng).draws().len() >= 192 ==> ({
                let t = scatter_step_s(*self, *ray, *hit_record, old(rng).draws());
                r == t.0 && final(rng).draws() == old(rng).draws().skip(t.1)
            }),
    {
        let ghost d0 = rng.draws();
        match self {
            Material::Lambertian(l) => {
                let sample: Vector3 = random_in_unit_sphere(rng);
                let r = l.scatter_with(hit_record, &sample);
                proof {
                    assert(length_s(sample) < FX_ONE && r == Some(
                        lambertian_scatter_s(*l, *hit_record, sample),
                    ));
                    if draws_wf(d0) && d0.len() >= 192 {
                        assert(sample == sphere_sample_s(d0).0);
                    }
                }
                r
            }
            Material::Metal(m) => {
                let sample: Vector3 = random_in_unit_sphere(rng);
                let r = m.scatter_with(ray, hit_record, &sample);
                proof {
                    assert(length_s(sample) < FX_ONE && r == metal_scatter_s(
                        *m,
                        *ray,
                        *hit_record,
                        sample,
                    ));
                    if draws_wf(d0) && d0.len() >= 192 {
                        assert(sample == sphere_sample_s(d0).0);
                    }
                }
                r
            }
            Material::Dielectric(d) => {
                let draw: i64 = rng.next_fraction();
                let r = d.scatter_with(ray, hit_record, draw);
                proof {
                    assert(0 <= draw && draw < FX_ONE && r == Some(
                        dielectric_scatter_s(*d, *ray, *hit_record, draw as int),
                    ));
                    if draws_wf(d0) && d0.len() >= 192 {
                        assert(draw == d0[0]);
                        assert(rng.draws() =~= d0.skip(1));
                    }
                }
                r
            }
        }
    }
}

/// With a matched refraction index (exactly one) the ratio fed to Snell
/// refraction is one in both branches, and with a zero draw the clear
/// surface scatters the refracted direction exactly, with the all-ones
/// attenuation — whenever refraction is geometrically possible and the
/// truncated Schlick reflectance has not vanished. Exactly head-on the
/// reflectance is zero and the ray reflects instead (as the base
/// reflectance formula itself prescribes at normal incidence), and at
/// grazing contact the refraction discriminant truncates away; both
/// stand outside this law's premises.
pub proof fn lemma_dielectric_matched_index_refracts(d: Dielectric, ray: Ray, hit: HitRecord)
    requires
        length_s(ray.direction) > 0,
        d.refraction_index == FX_ONE,
        refract_s(
            ray.direction,
            dielectric_outward_s(ray, hit),
            dielectric_eta_s(d, ray, hit),
        ) is Some,
        schlick_s(dielectric_cosine_s(d, ray, hit), FX_ONE as int) > 0,
    ensures
        dielectric_eta_s(d, ray, hit) == FX_ONE,
        dielectric_scatter_s(d, ray, hit, 0).0.origin == hit.point,
        dielectric_scatter_s(d, ray, hit, 0).0.direction == refract_s(
            ray.direction,
            dielectric_outward_s(ray, hit),
            dielectric_eta_s(d, ray, hit),
        )->Some_0,
        dielectric_scatter_s(d, ray, hit, 0).1 == vone_s(),
{
    lemma_tdiv_exact(FX_ONE as int, FX_ONE as int);
    assert(dielectric_eta_s(d, ray, hit) == FX_ONE);
}

/// A metallic surface absorbs every grazing or back-facing case: when
/// the perturbed reflection direction has a non-positive dot product
/// with the normal, scattering reports absorption.
pub proof fn lemma_metal_absorbs_grazing(m: Metal, ray: Ray, hit: HitRecord, sample: Vector3)
    requires
        length_s(ray.direction) > 0,
        dot_s(
            vadd_s(reflect_s(unit_s(ray.direction), hit.normal), vscale_s(sample, m.fuzz as int)),
            hit.normal,
        ) <= 0,
    ensures
        metal_scatter_s(m, ray, hit, sample) is None,
{
}

} // verus!
