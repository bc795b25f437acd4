//! Randomness as an injected capability.
//!
//! Every probabilistic step takes a [`RandomSource`]. Besides the range
//! of each draw, a source exposes a spec-level view of its pending
//! draws ([`RandomSource::draws`]): over that modeled fragment the
//! library's results are pinned down exactly, so a scripted source
//! reproduces whole renders by contract, not just by running them. The
//! thread-local generator models nothing and promises only ranges.

use vstd::prelude::*;
use rand::RngExt;
use crate::fixed::FX_ONE;
use crate::vec3::Vector3;
use crate::vec3::length_s;
use crate::vec3::lemma_length_basics;
use crate::vec3::vscale_s;
use crate::vec3::vzero_s;

verus! {

/// A source of pseudo-random fixed-point scalars.
pub trait RandomSource {
    /// The modeled pending draws, most imminent first. An empty
    /// sequence models nothing: the draw methods then promise only
    /// their ranges.
    spec fn draws(&self) -> Seq<i64>;

    /// A scalar drawn from `[-1, 1)`: the head of the modeled draws,
    /// where one is modeled and lies in that range.
    fn next_unit(&mut self) -> (r: i64)
        ensures
            -FX_ONE <= r < FX_ONE,
            old(self).draws().len() > 0 && -FX_ONE <= old(self).draws()[0] < FX_ONE ==> r == old(
                self,
            ).draws()[0] && final(self).draws() == old(self).draws().drop_first(),
    ;

    /// A scalar drawn from `[0, 1)`: the head of the modeled draws,
    /// where one is modeled and lies in that range.
    fn next_fraction(&mut self) -> (r: i64)
        ensures
            0 <= r < FX_ONE,
            old(self).draws().len() > 0 && 0 <= old(self).draws()[0] < FX_ONE ==> r == old(
                self,
            ).draws()[0] && final(self).draws() == old(self).draws().drop_first(),
    ;
}

/// A modeled draw fragment whose every entry lies in `[0, 1)`, the
/// range both draw methods accept.
pub open spec fn draws_wf(draws: Seq<i64>) -> bool {
    forall|i: int| 0 <= i < draws.len() ==> 0 <= #[trigger] draws[i] < FX_ONE
}

/// A suffix of a well-formed draw fragment is well-formed.
pub proof fn lemma_draws_wf_skip(draws: Seq<i64>, n: int)
    requires
        draws_wf(draws),
        0 <= n <= draws.len(),
    ensures
        draws_wf(draws.skip(n)),
{
    assert forall|i: int| 0 <= i < draws.skip(n).len() implies 0 <= #[trigger] draws.skip(n)[i]
        < FX_ONE by {
        assert(draws.skip(n)[i] == draws[n + i]);
    }
}

/// The candidate one sampling attempt builds from three draws: a point
/// of the cube `[-2, 2)^3`.
pub open spec fn sample_candidate_s(d0: i64, d1: i64, d2: i64) -> Vector3 {
    vscale_s(Vector3 { x: d0, y: d1, z: d2 }, 2 * FX_ONE as int)
}

/// The sampler over a modeled draw sequence: the first of at most
/// `attempts` candidates strictly inside the unit sphere — or the
/// center once every attempt is spent — paired with the number of
/// draws consumed.
pub open spec fn sphere_sample_at_s(draws: Seq<i64>, attempts: int) -> (Vector3, int)
    decreases attempts,
{
    if attempts <= 0 {
        (vzero_s(), 0)
    } else {
        let c = sample_candidate_s(draws[0], draws[1], draws[2]);
        if length_s(c) < FX_ONE {
            (c, 3)
        } else {
            let t = sphere_sample_at_s(draws.skip(3), attempts - 1);
            (t.0, t.1 + 3)
        }
    }
}

/// The sampler's result over a modeled draw sequence, at the sampler's
/// own attempt cap.
pub open spec fn sphere_sample_s(draws: Seq<i64>) -> (Vector3, int) {
    sphere_sample_at_s(draws, 64)
}

/// The sampler consumes between zero and three draws per attempt.
pub proof fn lemma_sphere_sample_consumed(draws: Seq<i64>, attempts: int)
    ensures
        0 <= sphere_sample_at_s(draws, attempts).1 <= 3 * (if attempts >= 0 {
            attempts
        } else {
            0
        }),
    decreases attempts,
{
    if attempts > 0 {
        let c = sample_candidate_s(draws[0], draws[1], draws[2]);
        if !(length_s(c) < FX_ONE) {
            lemma_sphere_sample_consumed(draws.skip(3), attempts - 1);
        }
    }
}

/// Relies on rand's `RngExt::random_range` over `rand::rng()`: a draw
/// from the given half-open range, which the documentation promises for
/// a non-empty range.
#[verifier::external_body]
fn thread_draw(low: i64, high: i64) -> (r: i64)
    requires
        low < high,
    ensures
        low <= r < high,
{
    rand::rng().random_range(low..high)
}

/// The thread-local pseudo-random generator. Its future draws cannot be
/// foretold, so it models none of them.
pub struct ThreadRandom {}

impl RandomSource for ThreadRandom {
    open spec fn draws(&self) -> Seq<i64> {
        Seq::<i64>::empty()
    }

    fn next_unit(&mut self) -> (r: i64) {
        thread_draw(-FX_ONE, FX_ONE)
    }

    fn next_fraction(&mut self) -> (r: i64) {
        thread_draw(0, FX_ONE)
    }
}

/// A deterministic source whose every draw is zero, for reproducible
/// renders; it models no draws (a scripted source of zeros does).
pub struct ZeroRandom {}

impl RandomSource for ZeroRandom {
    open spec fn draws(&self) -> Seq<i64> {
        Seq::<i64>::empty()
    }

    fn next_unit(&mut self) -> (r: i64) {
        0
    }

    fn next_fraction(&mut self) -> (r: i64) {
        0
    }
}

/// A deterministic source that replays a recorded script. The pending
/// part of the script is the modeled draws; when the script runs out,
/// or holds an entry outside a method's range, zero stands in, beyond
/// the model.
pub struct ScriptedRandom {
    pub script: Vec<i64>,
    pub position: usize,
}

impl ScriptedRandom {
    /// A source that will replay `script` from its start.
    pub fn new(script: Vec<i64>) -> (r: ScriptedRandom)
        ensures
            r.draws() == script@,
    {
        let r = ScriptedRandom { script, position: 0 };
        proof {
            assert(r.draws() =~= r.script@);
        }
        r
    }
}

impl RandomSource for ScriptedRandom {
    open spec fn draws(&self) -> Seq<i64> {
        if self.position as int <= self.script@.len() {
            self.script@.skip(self.position as int)
        } else {
            Seq::<i64>::empty()
        }
    }

    fn next_unit(&mut self) -> (r: i64) {
        if self.position < self.script.len() {
            let value: i64 = self.script[self.position];
            if -FX_ONE <= value && value < FX_ONE {
                self.position = self.position + 1;
                proof {
                    assert(self.draws() =~= old(self).draws().drop_first());
                }
                return value;
            }
        }
        0
    }

    fn next_fraction(&mut self) -> (r: i64) {
        if self.position < self.script.len() {
            let value: i64 = self.script[self.position];
            if 0 <= value && value < FX_ONE {
                self.position = self.position + 1;
                proof {
                    assert(self.draws() =~= old(self).draws().drop_first());
                }
                return value;
            }
        }
        0
    }
}

/// A point strictly inside the unit sphere, by rejection sampling over
/// the cube `[-2, 2)^3`. The number of attempts is capped at 64; if
/// every candidate is rejected the center point stands in. Over a
/// modeled draw fragment the result is exactly the first accepted
/// candidate (or the center), and exactly the consumed draws are gone.
pub fn random_in_unit_sphere<R: RandomSource>(rng: &mut R) -> (r: Vector3)
    ensures
        length_s(r) < FX_ONE,
        draws_wf(old(rng).draws()) && old(rng).draws().len() >= 192 ==> ({
            let t = sphere_sample_s(old(rng).draws());
            r == t.0 && final(rng).draws() == old(rng).draws().skip(t.1)
        }),
{
    let ghost d0 = rng.draws();
    let mut attempts: u32 = 0;
    proof {
        assert(d0.skip(0) =~= d0);
    }
    while attempts < 64
        invariant
            attempts <= 64,
            d0 == old(rng).draws(),
            draws_wf(d0) && d0.len() >= 192 ==> ({
                let t = sphere_sample_at_s(d0.skip(3 * (attempts as int)), 64 - attempts as int);
                let full = sphere_sample_s(d0);
                &&& rng.draws() == d0.skip(3 * (attempts as int))
                &&& full.0 == t.0
                &&& full.1 == t.1 + 3 * (attempts as int)
            }),
        decreases 64 - attempts,
    {
        let ghost before = rng.draws();
        let dx: i64 = rng.next_unit();
        let dy: i64 = rng.next_unit();
        let dz: i64 = rng.next_unit();
        let candidate: Vector3 = Vector3 { x: dx, y: dy, z: dz }.scale(2 * FX_ONE);
        proof {
            if draws_wf(d0) && d0.len() >= 192 {
                let a = attempts as int;
                assert(before[0] == d0[3 * a] && before[1] == d0[3 * a + 1] && before[2] == d0[3
                    * a + 2]);
                assert(0 <= d0[3 * a] < FX_ONE);
                assert(0 <= d0[3 * a + 1] < FX_ONE);
                assert(0 <= d0[3 * a + 2] < FX_ONE);
                assert(rng.draws() =~= d0.skip(3 * a + 3));
                assert(candidate == sample_candidate_s(before[0], before[1], before[2]));
            }
        }
        if candidate.length() < FX_ONE {
            proof {
                if draws_wf(d0) && d0.len() >= 192 {
                    let a = attempts as int;
                    assert(sphere_sample_at_s(d0.skip(3 * a), 64 - a) == (candidate, 3int));
                }
            }
            return candidate;
        }
        attempts = attempts + 1;
        proof {
            if draws_wf(d0) && d0.len() >= 192 {
                let a = attempts as int - 1;
                assert(d0.skip(3 * a).skip(3) =~= d0.skip(3 * a + 3));
            }
        }
    }
    proof {
        lemma_length_basics(vzero_s());
        if draws_wf(d0) && d0.len() >= 192 {
            assert(sphere_sample_at_s(d0.skip(192), 0) == (vzero_s(), 0int));
        }
    }
    Vector3::zero()
}

} // verus!
