//! Hit records and the scene intersection dispatcher.
//!
//! The dispatcher scans all surfaces once, narrowing the far end of the
//! valid interval to each hit found, so the globally nearest hit wins.
//! Its result is characterized as the minimum over the per-sphere hits,
//! which yields order-independence when the minimizer is unambiguous.

use vstd::prelude::*;
use crate::geometry::Sphere;
use crate::geometry::lemma_sphere_hit_fields;
use crate::geometry::lemma_sphere_hit_narrow;
use crate::geometry::lemma_sphere_hit_widen;
use crate::geometry::quad_a_s;
use crate::geometry::sphere_hit_s;
use crate::geometry::sphere_wf;
use crate::ray::Ray;
use crate::vec3::Vector3;

verus! {

/// Describes a collision between a ray and a surface point: the ray
/// parameter, the point, the outward normal there, and the index of the
/// surface's material in the scene's material table.
#[derive(Clone, Copy, Debug, PartialEq, Eq, Structural)]
pub struct HitRecord {
    pub time: i64,
    pub point: Vector3,
    pub normal: Vector3,
    pub material: usize,
}

/// Every sphere of a scene is well-formed.
pub open spec fn all_wf(spheres: Seq<Sphere>) -> bool {
    forall|i: int| 0 <= i < spheres.len() ==> sphere_wf(#[trigger] spheres[i])
}

/// One step of the dispatcher's scan: fold over the spheres, narrowing
/// the far interval end to each hit found so far.
pub open spec fn scan_s(
    spheres: Seq<Sphere>,
    ray: Ray,
    time_min: int,
    closest: int,
    best: Option<HitRecord>,
) -> Option<HitRecord>
    decreases spheres.len(),
{
    if spheres.len() == 0 {
        best
    } else {
        match sphere_hit_s(spheres[0], ray, time_min, closest) {
            Some(h) => scan_s(spheres.drop_first(), ray, time_min, h.time as int, Some(h)),
            None => scan_s(spheres.drop_first(), ray, time_min, closest, best),
        }
    }
}

/// What the dispatcher reports: the nearest hit over all spheres inside
/// `(time_min, time_max)`, or nothing.
pub open spec fn closest_hit_s(
    spheres: Seq<Sphere>,
    ray: Ray,
    time_min: int,
    time_max: int,
) -> Option<HitRecord> {
    scan_s(spheres, ray, time_min, time_max, None)
}

/// The scan's accumulator invariant: a reported hit is a per-sphere hit
/// (or the entering best) and is minimal among all per-sphere hits
/// against the entering interval.
#[verifier::rlimit(100)]
proof fn lemma_scan_characterize(
    spheres: Seq<Sphere>,
    ray: Ray,
    time_min: int,
    closest: int,
    best: Option<HitRecord>,
)
    requires
        best matches Some(hb) ==> closest == hb.time,
    ensures
        ({
            let r = scan_s(spheres, ray, time_min, closest, best);
            &&& (r is None ==> best is None && (forall|i: int|
                0 <= i < spheres.len() ==> (#[trigger] sphere_hit_s(
                    spheres[i],
                    ray,
                    time_min,
                    closest,
                )) is None))
            &&& (r matches Some(h) ==> {
                &&& (best == Some(h) || (exists|i: int|
                    0 <= i < spheres.len() && #[trigger] sphere_hit_s(
                        spheres[i],
                        ray,
                        time_min,
                        closest,
                    ) == Some(h)))
                &&& (forall|i: int|
                    0 <= i < spheres.len() ==> ((#[trigger] sphere_hit_s(
                        spheres[i],
                        ray,
                        time_min,
                        closest,
                    )) matches Some(h2) ==> h.time <= h2.time))
                &&& h.time <= closest
                &&& (best is None ==> h.time < closest)
            })
        }),
    decreases spheres.len(),
{
    if spheres.len() == 0 {
    } else {
        let s0 = spheres[0];
        let rest = spheres.drop_first();
        assert(forall|i: int| 0 <= i < rest.len() ==> rest[i] == spheres[i + 1]);
        match sphere_hit_s(s0, ray, time_min, closest) {
            Some(h0) => {
                lemma_sphere_hit_fields(s0, ray, time_min, closest);
                lemma_scan_characterize(rest, ray, time_min, h0.time as int, Some(h0));
                let r = scan_s(spheres, ray, time_min, closest, best);
                assert(r is Some);
                let h = r->Some_0;
                // existence against the entering interval
                if h == h0 {
                    assert(sphere_hit_s(spheres[0], ray, time_min, closest) == Some(h));
                } else {
                    let i = choose|i: int|
                        0 <= i < rest.len() && #[trigger] sphere_hit_s(
                            rest[i],
                            ray,
                            time_min,
                            h0.time as int,
                        ) == Some(h);
                    lemma_sphere_hit_widen(rest[i], ray, time_min, h0.time as int, closest);
                    assert(sphere_hit_s(spheres[i + 1], ray, time_min, closest) == Some(h));
                }
                // minimality against the entering interval
                assert forall|i: int|
                    0 <= i < spheres.len() && (#[trigger] sphere_hit_s(
                        spheres[i],
                        ray,
                        time_min,
                        closest,
                    )) is Some implies h.time <= sphere_hit_s(
                    spheres[i],
                    ray,
                    time_min,
                    closest,
                )->Some_0.time by {
                    let h2 = sphere_hit_s(spheres[i], ray, time_min, closest)->Some_0;
                    if i == 0 {
                        assert(h.time <= h0.time);
                    } else {
                        lemma_sphere_hit_narrow(
                            spheres[i],
                            ray,
                            time_min,
                            closest,
                            h0.time as int,
                        );
                        if h2.time < h0.time {
                            assert(sphere_hit_s(rest[i - 1], ray, time_min, h0.time as int)
                                == Some(h2));
                        } else {
                            assert(h.time <= h0.time);
                        }
                    }
                }
            }
            None => {
                lemma_scan_characterize(rest, ray, time_min, closest, best);
                let r = scan_s(spheres, ray, time_min, closest, best);
                if r is None {
                    assert forall|i: int| 0 <= i < spheres.len() implies (#[trigger] sphere_hit_s(
                        spheres[i],
                        ray,
                        time_min,
                        closest,
                    )) is None by {
                        if i >= 1 {
                            assert(rest[i - 1] == spheres[i]);
                            assert(sphere_hit_s(rest[i - 1], ray, time_min, closest) is None);
                        }
                    }
                } else {
                    let h = r->Some_0;
                    if best != Some(h) {
                        let i = choose|i: int|
                            0 <= i < rest.len() && #[trigger] sphere_hit_s(
                                rest[i],
                                ray,
                                time_min,
                                closest,
                            ) == Some(h);
                        assert(sphere_hit_s(spheres[i + 1], ray, time_min, closest) == Some(h));
                    }
                    assert forall|i: int|
                        0 <= i < spheres.len() && (#[trigger] sphere_hit_s(
                            spheres[i],
                            ray,
                            time_min,
                            closest,
                        )) is Some implies h.time <= sphere_hit_s(
                        spheres[i],
                        ray,
                        time_min,
                        closest,
                    )->Some_0.time by {
                        if i >= 1 {
                            assert(rest[i - 1] == spheres[i]);
                            assert(sphere_hit_s(rest[i - 1], ray, time_min, closest) is Some);
                        }
                    }
                }
            }
        }
    }
}

/// The dispatcher's result characterized without reference to scan
/// order: it is empty exactly when no sphere hits, and otherwise it is a
/// per-sphere hit of minimal parameter.
pub proof fn lemma_closest_hit_characterize(
    spheres: Seq<Sphere>,
    ray: Ray,
    time_min: int,
    time_max: int,
)
    ensures
        ({
            let r = closest_hit_s(spheres, ray, time_min, time_max);
            &&& (r is None <==> (forall|i: int|
                0 <= i < spheres.len() ==> (#[trigger] sphere_hit_s(
                    spheres[i],
                    ray,
                    time_min,
                    time_max,
                )) is None))
            &&& (r matches Some(h) ==> {
                &&& (exists|i: int|
                    0 <= i < spheres.len() && #[trigger] sphere_hit_s(
                        spheres[i],
                        ray,
                        time_min,
                        time_max,
                    ) == Some(h))
                &&& (forall|i: int|
                    0 <= i < spheres.len() ==> ((#[trigger] sphere_hit_s(
                        spheres[i],
                        ray,
                        time_min,
                        time_max,
                    )) matches Some(h2) ==> h.time <= h2.time))
                &&& time_min < h.time < time_max
                &&& quad_a_s(ray) > 0
            })
        }),
{
    lemma_scan_characterize(spheres, ray, time_min, time_max, None);
    let r = closest_hit_s(spheres, ray, time_min, time_max);
    if r is Some {
        let h = r->Some_0;
        let i = choose|i: int|
            0 <= i < spheres.len() && #[trigger] sphere_hit_s(spheres[i], ray, time_min, time_max)
                == Some(h);
        lemma_sphere_hit_fields(spheres[i], ray, time_min, time_max);
    }
}

/// The dispatcher's result does not depend on the order of the surface
/// list: two scenes holding the same spheres report the same hit, as
/// long as no two distinct hit records tie for the minimal parameter.
#[verifier::rlimit(100)]
pub proof fn lemma_dispatch_order_independent(
    s1: Seq<Sphere>,
    s2: Seq<Sphere>,
    ray: Ray,
    time_min: int,
    time_max: int,
)
    requires
        s1.to_multiset() == s2.to_multiset(),
        forall|i: int, j: int|
            0 <= i < s1.len() && 0 <= j < s1.len() && (#[trigger] sphere_hit_s(
                s1[i],
                ray,
                time_min,
                time_max,
            )) is Some && (#[trigger] sphere_hit_s(s1[j], ray, time_min, time_max)) is Some
                && sphere_hit_s(s1[i], ray, time_min, time_max)->Some_0.time == sphere_hit_s(
                s1[j],
                ray,
                time_min,
                time_max,
            )->Some_0.time ==> sphere_hit_s(s1[i], ray, time_min, time_max) == sphere_hit_s(
                s1[j],
                ray,
                time_min,
                time_max,
            ),
    ensures
        closest_hit_s(s1, ray, time_min, time_max) == closest_hit_s(s2, ray, time_min, time_max),
{
    broadcast use vstd::seq_lib::group_to_multiset_ensures;

    lemma_closest_hit_characterize(s1, ray, time_min, time_max);
    lemma_closest_hit_characterize(s2, ray, time_min, time_max);
    let r1 = closest_hit_s(s1, ray, time_min, time_max);
    let r2 = closest_hit_s(s2, ray, time_min, time_max);
    if r1 is None {
        if r2 is Some {
            let h2 = r2->Some_0;
            let i2 = choose|i: int|
                0 <= i < s2.len() && #[trigger] sphere_hit_s(s2[i], ray, time_min, time_max)
                    == Some(h2);
            assert(s2.contains(s2[i2]));
            assert(s1.to_multiset().count(s2[i2]) > 0);
        assert(s1.contains(s2[i2]));
            let j = choose|j: int| 0 <= j < s1.len() && s1[j] == s2[i2];
            assert(sphere_hit_s(s1[j], ray, time_min, time_max) == Some(h2));
        }
    } else if r2 is None {
        if r1 is Some {
            let h1 = r1->Some_0;
            let i1 = choose|i: int|
                0 <= i < s1.len() && #[trigger] sphere_hit_s(s1[i], ray, time_min, time_max)
                    == Some(h1);
            assert(s1.contains(s1[i1]));
            assert(s2.to_multiset().count(s1[i1]) > 0);
        assert(s2.contains(s1[i1]));
            let j = choose|j: int| 0 <= j < s2.len() && s2[j] == s1[i1];
            assert(sphere_hit_s(s2[j], ray, time_min, time_max) == Some(h1));
        }
    } else {
        let h1 = r1->Some_0;
        let h2 = r2->Some_0;
        let i1 = choose|i: int|
            0 <= i < s1.len() && #[trigger] sphere_hit_s(s1[i], ray, time_min, time_max) == Some(
                h1,
            );
        let i2 = choose|i: int|
            0 <= i < s2.len() && #[trigger] sphere_hit_s(s2[i], ray, time_min, time_max) == Some(
                h2,
            );
        // carry the second scene's witness over to the first
        assert(s2.contains(s2[i2]));
        assert(s1.to_multiset().count(s2[i2]) > 0);
        assert(s1.contains(s2[i2]));
        let j2 = choose|j: int| 0 <= j < s1.len() && s1[j] == s2[i2];
        assert(sphere_hit_s(s1[j2], ray, time_min, time_max) == Some(h2));
        // and the first scene's witness over to the second
        assert(s1.contains(s1[i1]));
        assert(s2.to_multiset().count(s1[i1]) > 0);
        assert(s2.contains(s1[i1]));
        let j1 = choose|j: int| 0 <= j < s2.len() && s2[j] == s1[i1];
        assert(sphere_hit_s(s2[j1], ray, time_min, time_max) == Some(h1));
        // both minimal over the same hits, so the times agree
        assert(h1.time <= h2.time);
        assert(h2.time <= h1.time);
        // and an unambiguous minimizer forces the records to agree
        assert(sphere_hit_s(s1[i1], ray, time_min, time_max) == sphere_hit_s(
            s1[j2],
            ray,
            time_min,
            time_max,
        ));
    }
}

/// Scan all surfaces once and report the nearest hit strictly inside
/// `(time_min, time_max)`.
pub fn check_for_hit(hitables: &Vec<Sphere>, ray: &Ray, time_min: i64, time_max: i64) -> (r:
    Option<HitRecord>)
    requires
        all_wf(hitables@),
    ensures
        r == closest_hit_s(hitables@, *ray, time_min as int, time_max as int),
{
    let ghost goal = closest_hit_s(hitables@, *ray, time_min as int, time_max as int);
    let mut hit_record: Option<HitRecord> = None;
    let mut closest: i64 = time_max;
    let mut i: usize = 0;

    proof {
        assert(hitables@.skip(0) =~= hitables@);
    }
    while i < hitables.len()
        invariant
            0 <= i <= hitables@.len(),
            all_wf(hitables@),
            scan_s(hitables@.skip(i as int), *ray, time_min as int, closest as int, hit_record)
                == goal,
        decreases hitables@.len() - i,
    {
        let hit_result: Option<HitRecord> = hitables[i].hit(ray, time_min, closest);
        proof {
            assert(hitables@.skip(i as int)[0] == hitables@[i as int]);
            assert(hitables@.skip(i as int).drop_first() =~= hitables@.skip(i as int + 1));
        }
        match hit_result {
            Some(hit) => {
                closest = hit.time;
                hit_record = Some(hit);
            }
            None => {}
        }
        i = i + 1;
    }
    hit_record
}

} // verus!
