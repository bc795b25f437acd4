use raytracer::fixed::FX_ONE;
use raytracer::random::RandomSource;
use raytracer::random::ScriptedRandom;
use raytracer::random::ThreadRandom;
use raytracer::random::ZeroRandom;
use raytracer::random::random_in_unit_sphere;
use raytracer::vec3::Vector3;

#[test]
fn zero_source_samples_the_center() {
    let mut rng = ZeroRandom {};
    assert_eq!(rng.next_unit(), 0);
    assert_eq!(rng.next_fraction(), 0);
    assert_eq!(random_in_unit_sphere(&mut rng), Vector3 { x: 0, y: 0, z: 0 });
}

#[test]
fn thread_source_draws_stay_in_range() {
    let mut rng = ThreadRandom {};
    let mut distinct = false;
    let first = rng.next_unit();
    for _ in 0..1000 {
        let u = rng.next_unit();
        assert!(-FX_ONE <= u && u < FX_ONE);
        if u != first {
            distinct = true;
        }
        let f = rng.next_fraction();
        assert!(0 <= f && f < FX_ONE);
    }
    assert!(distinct, "a thousand equal draws point at a stuck source");
}

#[test]
fn scripted_source_replays_its_script() {
    let mut rng = ScriptedRandom::new(vec![5, -7, 300]);
    assert_eq!(rng.next_unit(), 5);
    assert_eq!(rng.next_unit(), -7);
    assert_eq!(rng.next_fraction(), 300);
    // the script is spent: zero stands in
    assert_eq!(rng.next_unit(), 0);
    assert_eq!(rng.next_fraction(), 0);
}

#[test]
fn scripted_source_refuses_out_of_range_entries() {
    let mut rng = ScriptedRandom::new(vec![-7]);
    // a negative entry is outside the fraction range, so zero stands in
    assert_eq!(rng.next_fraction(), 0);
    // the entry was not consumed and still serves the unit draw
    assert_eq!(rng.next_unit(), -7);
}

// The sampler returns the first scripted candidate inside the unit
// sphere and consumes exactly the draws of the rejected and accepted
// attempts.
#[test]
fn sampler_takes_first_accepted_candidate() {
    // (32768, 0, 0) doubles to length one, which is rejected; the next
    // triple doubles to a point well inside
    let mut rng = ScriptedRandom::new(vec![32768, 0, 0, 100, 200, 300]);
    let sample = random_in_unit_sphere(&mut rng);
    assert_eq!(sample, Vector3 { x: 200, y: 400, z: 600 });
    assert_eq!(rng.position, 6);
}

#[test]
fn sphere_samples_stay_inside() {
    let mut rng = ThreadRandom {};
    for _ in 0..200 {
        let sample = random_in_unit_sphere(&mut rng);
        assert!(sample.length() < FX_ONE);
        assert!(sample.squared_length() < FX_ONE);
    }
}
