//! Spheres and the ray/sphere intersection query.
//!
//! The intersection solves `|O + tD - C|^2 = r^2` through the half-angle
//! quadratic `a t^2 + 2 b t + c = 0` with `a = D.D`, `b = (O-C).D`,
//! `c = |O-C|^2 - r^2`, trying the smaller root first so that the
//! frontmost surface point wins.

use vstd::prelude::*;
use crate::fixed::FX_ONE;
use crate::fixed::fx_add;
use crate::fixed::fx_add_s;
use crate::fixed::fx_div;
use crate::fixed::fx_div_s;
use crate::fixed::fx_mul;
use crate::fixed::fx_mul_s;
use crate::fixed::fx_neg;
use crate::fixed::fx_neg_s;
use crate::fixed::fx_sqrt;
use crate::fixed::fx_sqrt_s;
use crate::fixed::fx_sub;
use crate::fixed::fx_sub_s;
use crate::fixed::fx_tdiv;
use crate::fixed::is_sqrt;
use crate::fixed::lemma_sqrt_bounds;
use crate::fixed::lemma_sqrt_unique;
use crate::fixed::lemma_tdiv_exact;
use crate::fixed::lemma_tdiv_shrinks;
use crate::fixed::lemma_tdiv_ordered;
use crate::ray::Ray;
use crate::ray::point_at_s;
use crate::raytracing::HitRecord;
use crate::vec3::Vector3;
use crate::vec3::dot_s;
use crate::vec3::sq_len_s;
use crate::vec3::vdiv_s;
use crate::vec3::vsub_s;

verus! {

/// The only surface variant: a sphere with its material named by an index
/// into the scene's material table.
#[derive(Clone, Copy, Debug, PartialEq, Eq, Structural)]
pub struct Sphere {
    pub center: Vector3,
    pub radius: i64,
    pub material: usize,
}

/// A well-formed sphere has a positive radius.
pub open spec fn sphere_wf(s: Sphere) -> bool {
    s.radius > 0
}

/// Quadratic coefficient `a`: the direction dotted with itself.
pub open spec fn quad_a_s(ray: Ray) -> int {
    sq_len_s(ray.direction)
}

/// Quadratic coefficient `b`: origin-to-center dotted with the direction.
pub open spec fn quad_b_s(s: Sphere, ray: Ray) -> int {
    dot_s(vsub_s(ray.origin, s.center), ray.direction)
}

/// Quadratic coefficient `c`: squared center distance minus squared radius.
pub open spec fn quad_c_s(s: Sphere, ray: Ray) -> int {
    fx_sub_s(sq_len_s(vsub_s(ray.origin, s.center)), fx_mul_s(s.radius as int, s.radius as int))
}

/// The half-angle discriminant `b^2 - a c`.
pub open spec fn disc_s(s: Sphere, ray: Ray) -> int {
    fx_sub_s(
        fx_mul_s(quad_b_s(s, ray), quad_b_s(s, ray)),
        fx_mul_s(quad_a_s(ray), quad_c_s(s, ray)),
    )
}

/// The smaller quadratic root `(-b - sqrt(disc)) / a`.
pub open spec fn root_near_s(s: Sphere, ray: Ray) -> int
    recommends
        disc_s(s, ray) > 0,
        quad_a_s(ray) > 0,
{
    fx_div_s(fx_sub_s(fx_neg_s(quad_b_s(s, ray)), fx_sqrt_s(disc_s(s, ray))), quad_a_s(ray))
}

/// The larger quadratic root `(-b + sqrt(disc)) / a`.
pub open spec fn root_far_s(s: Sphere, ray: Ray) -> int
    recommends
        disc_s(s, ray) > 0,
        quad_a_s(ray) > 0,
{
    fx_div_s(fx_add_s(fx_neg_s(quad_b_s(s, ray)), fx_sqrt_s(disc_s(s, ray))), quad_a_s(ray))
}

/// The record reported for a hit of `s` at parameter `t`: the surface
/// point, the outward normal `(point - center) / radius`, and the
/// sphere's material index.
pub open spec fn hit_record_at_s(s: Sphere, ray: Ray, t: int) -> HitRecord
    recommends
        sphere_wf(s),
        -0x7fff_ffff_ffff_ffff <= t <= 0x7fff_ffff_ffff_ffff,
{
    HitRecord {
        time: t as i64,
        point: point_at_s(ray, t),
        normal: vdiv_s(vsub_s(point_at_s(ray, t), s.center), s.radius as int),
        material: s.material,
    }
}

/// What the intersection query reports: the nearest root strictly inside
/// `(time_min, time_max)`, or nothing. A direction whose squared length
/// truncates to zero registers no hit.
#[verifier::opaque]
pub open spec fn sphere_hit_s(s: Sphere, ray: Ray, time_min: int, time_max: int) -> Option<
    HitRecord,
> {
    if disc_s(s, ray) > 0 && quad_a_s(ray) > 0 {
        if time_min < root_near_s(s, ray) && root_near_s(s, ray) < time_max {
            Some(hit_record_at_s(s, ray, root_near_s(s, ray)))
        } else if time_min < root_far_s(s, ray) && root_far_s(s, ray) < time_max {
            Some(hit_record_at_s(s, ray, root_far_s(s, ray)))
        } else {
            None
        }
    } else {
        None
    }
}

/// The smaller root never exceeds the larger one.
pub proof fn lemma_roots_ordered(s: Sphere, ray: Ray)
    requires
        disc_s(s, ray) > 0,
        quad_a_s(ray) > 0,
    ensures
        root_near_s(s, ray) <= root_far_s(s, ray),
{
    let b = quad_b_s(s, ray);
    let d = fx_sqrt_s(disc_s(s, ray));
    lemma_sqrt_bounds(disc_s(s, ray) * (FX_ONE as int));
    let lo = fx_sub_s(fx_neg_s(b), d);
    let hi = fx_add_s(fx_neg_s(b), d);
    assert(lo <= hi);
    lemma_tdiv_ordered(lo * (FX_ONE as int), hi * (FX_ONE as int), quad_a_s(ray));
}

/// A reported hit carries the sphere's material, lies strictly inside the
/// queried interval, and is the record of one of the two roots.
pub proof fn lemma_sphere_hit_fields(s: Sphere, ray: Ray, time_min: int, time_max: int)
    requires
        sphere_hit_s(s, ray, time_min, time_max) is Some,
    ensures
        disc_s(s, ray) > 0,
        quad_a_s(ray) > 0,
        ({
            let h = sphere_hit_s(s, ray, time_min, time_max)->Some_0;
            &&& h.material == s.material
            &&& time_min < h.time < time_max
            &&& (h == hit_record_at_s(s, ray, root_near_s(s, ray)) || h == hit_record_at_s(
                s,
                ray,
                root_far_s(s, ray),
            ))
        }),
{
    reveal(sphere_hit_s);
}

/// Narrowing the far end of the interval below a reported hit hides every
/// hit; narrowing while staying above it keeps the same hit; and a miss
/// stays a miss.
pub proof fn lemma_sphere_hit_narrow(s: Sphere, ray: Ray, time_min: int, tmax1: int, tmax2: int)
    requires
        tmax2 <= tmax1,
    ensures
        sphere_hit_s(s, ray, time_min, tmax1) is None ==> sphere_hit_s(
            s,
            ray,
            time_min,
            tmax2,
        ) is None,
        sphere_hit_s(s, ray, time_min, tmax1) matches Some(h) ==> {
            &&& h.time < tmax2 ==> sphere_hit_s(s, ray, time_min, tmax2) == sphere_hit_s(
                s,
                ray,
                time_min,
                tmax1,
            )
            &&& tmax2 <= h.time ==> sphere_hit_s(s, ray, time_min, tmax2) is None
        },
{
    reveal(sphere_hit_s);
    if disc_s(s, ray) > 0 && quad_a_s(ray) > 0 {
        lemma_roots_ordered(s, ray);
    }
}

/// Widening the far end of the interval above a reported hit keeps the
/// same hit.
pub proof fn lemma_sphere_hit_widen(s: Sphere, ray: Ray, time_min: int, tmax1: int, tmax2: int)
    requires
        tmax1 <= tmax2,
        sphere_hit_s(s, ray, time_min, tmax1) is Some,
    ensures
        sphere_hit_s(s, ray, time_min, tmax2) == sphere_hit_s(s, ray, time_min, tmax1),
{
    reveal(sphere_hit_s);
    lemma_roots_ordered(s, ray);
}

/// A probe ray from `(0, 0, 10)` straight down the `-z` axis.
pub open spec fn axial_probe_ray_s() -> Ray {
    Ray {
        origin: Vector3 { x: 0, y: 0, z: 655360 },
        direction: Vector3 { x: 0, y: 0, z: -65536i64 },
    }
}

/// Against a sphere at the origin, the axial probe reports the closer
/// root `10 - sqrt(r^2)`, never the farther root `10 + sqrt(r^2)`; for
/// radii in whole steps of the square root's grain the time is exactly
/// `10 - r`.
pub proof fn lemma_axial_near_hit(radius: i64, mat: usize, time_min: int, time_max: int)
    requires
        256 <= radius <= 9 * FX_ONE,
        0 <= time_min < FX_ONE,
        time_max >= 20 * FX_ONE,
    ensures
        ({
            let ray = axial_probe_ray_s();
            let sphere = (Sphere { center: Vector3 { x: 0, y: 0, z: 0 }, radius, material: mat });
            let s = fx_sqrt_s(fx_mul_s(radius as int, radius as int));
            &&& 256 <= s <= 9 * FX_ONE
            &&& root_near_s(sphere, ray) == 10 * FX_ONE - s
            &&& root_far_s(sphere, ray) == 10 * FX_ONE + s
            &&& sphere_hit_s(sphere, ray, time_min, time_max) == Some(
                hit_record_at_s(sphere, ray, 10 * FX_ONE - s),
            )
            &&& (radius % 256 == 0 ==> s == radius)
        }),
{
    reveal(sphere_hit_s);
    let ray = axial_probe_ray_s();
    let sphere = (Sphere { center: Vector3 { x: 0, y: 0, z: 0 }, radius, material: mat });
    let rr = radius as int * radius as int;
    assert(65536 <= rr <= 347892350976) by (nonlinear_arith)
        requires
            256 <= radius as int <= 589824,
            rr == radius as int * radius as int,
    ;
    let q = fx_mul_s(radius as int, radius as int);
    lemma_tdiv_shrinks(rr, 65536);
    lemma_tdiv_ordered(65536, rr, 65536);
    lemma_tdiv_ordered(rr, 347892350976, 65536);
    assert(fx_tdiv(65536, 65536) == 1);
    assert(fx_tdiv(347892350976, 65536) == 5308416);
    assert(1 <= q <= 5308416);

    // the quadratic coefficients of the probe
    assert(quad_a_s(ray) == 65536);
    assert(quad_b_s(sphere, ray) == -655360);
    assert(sq_len_s(vsub_s(ray.origin, sphere.center)) == 6553600);
    assert(quad_c_s(sphere, ray) == 6553600 - q);
    assert(fx_mul_s(65536, 6553600 - q) == 6553600 - q) by {
        lemma_tdiv_exact(6553600 - q, 65536);
        assert(65536 * (6553600 - q) == (6553600 - q) * 65536);
    }
    assert(disc_s(sphere, ray) == q);

    // the square root of the discriminant
    let s = fx_sqrt_s(q);
    lemma_sqrt_bounds(q * 65536);
    assert(s * s <= q * 65536 < (s + 1) * (s + 1));
    assert(256 <= s <= 589824) by (nonlinear_arith)
        requires
            s >= 0,
            s * s <= q * 65536,
            q * 65536 < (s + 1) * (s + 1),
            1 <= q <= 5308416,
    ;

    // the two roots
    assert(fx_neg_s(quad_b_s(sphere, ray)) == 655360);
    assert(fx_sub_s(655360, s) == 655360 - s);
    assert(fx_add_s(655360, s) == 655360 + s);
    assert(root_near_s(sphere, ray) == 655360 - s) by {
        lemma_tdiv_exact(655360 - s, 65536);
    }
    assert(root_far_s(sphere, ray) == 655360 + s) by {
        lemma_tdiv_exact(655360 + s, 65536);
    }
    assert(time_min < 655360 - s < time_max);

    // exactness on the square root's grain
    if radius % 256 == 0 {
        let k = radius as int / 256;
        assert(radius as int == 256 * k);
        assert(rr == (k * k) * 65536) by (nonlinear_arith)
            requires
                radius as int == 256 * k,
                rr == radius as int * radius as int,
        ;
        lemma_tdiv_exact(k * k, 65536);
        assert(q == k * k);
        assert(is_sqrt(q * 65536, 256 * k)) by (nonlinear_arith)
            requires
                q == k * k,
                k >= 1,
        ;
        lemma_sqrt_unique(q * 65536, 256 * k);
    }
}

impl Sphere {
    /// Report the nearest intersection of `ray` with this sphere whose
    /// parameter lies strictly inside `(time_min, time_max)`.
    pub fn hit(&self, ray: &Ray, time_min: i64, time_max: i64) -> (r: Option<HitRecord>)
        requires
            sphere_wf(*self),
        ensures
            r == sphere_hit_s(*self, *ray, time_min as int, time_max as int),
    {
        proof {
            reveal(sphere_hit_s);
        }
        let origin_center: Vector3 = ray.origin.minus(self.center);

        let a: i64 = ray.direction.dot(&ray.direction);
        let b: i64 = origin_center.dot(&ray.direction);
        let c: i64 = fx_sub(origin_center.dot(&origin_center), fx_mul(self.radius, self.radius));

        let discriminant: i64 = fx_sub(fx_mul(b, b), fx_mul(a, c));

        if discriminant > 0 && a > 0 {
            let root: i64 = fx_sqrt(discriminant);

            let temp: i64 = fx_div(fx_sub(fx_neg(b), root), a);
            if temp < time_max && temp > time_min {
                let point: Vector3 = ray.point_at_parameter(temp);
                return Some(
                    HitRecord {
                        time: temp,
                        point,
                        normal: point.minus(self.center).div_by(self.radius),
                        material: self.material,
                    },
                );
            }

            let temp: i64 = fx_div(fx_add(fx_neg(b), root), a);
            if temp < time_max && temp > time_min {
                let point: Vector3 = ray.point_at_parameter(temp);
                return Some(
                    HitRecord {
                        time: temp,
                        point,
                        normal: point.minus(self.center).div_by(self.radius),
                        material: self.material,
                    },
                );
            }
        }

        None
    }
}

} // verus!
