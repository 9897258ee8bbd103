//! The guided sampler: one accepted candidate per worker, replaced by a
//! proposal with a probability that grows with the proposal's hits.

use vstd::prelude::*;
use rand::rngs::SmallRng;
use crate::orbit::{Orbit, Outcome, Step};

verus! {

/// `rand::rngs::SmallRng`, a small fast generator of random numbers. Nothing
/// is known of what is inside.
#[verifier::external_type_specification]
#[verifier::external_body]
pub struct ExSmallRng(rand::rngs::SmallRng);

/// Draws a number below `bound` with `rand::Rng::gen_range` on the range
/// `0..bound`. That method panics on an empty range, so `bound` must not be
/// zero; whatever the generator's state, what it returns lies in the range.
#[verifier::external_body]
fn random_below(rng: &mut SmallRng, bound: u32) -> (r: u32)
    requires
        bound > 0,
    ensures
        r < bound,
{
    rand::Rng::gen_range(rng, 0..bound)
}

/// What became of a proposal.
#[derive(Clone, Copy, Debug, PartialEq, Eq, Structural)]
pub enum Verdict {
    /// Its orbit did not escape, or has no point inside the viewing window:
    /// it was not considered, and nothing is to be recorded.
    Skipped,
    /// It lost the draw: the accepted candidate stays and is sampled again.
    Rejected,
    /// It is the accepted candidate now.
    Accepted,
}

/// The acceptance rule: without hits of the current candidate every proposal
/// wins; otherwise the proposal wins when a number drawn evenly from
/// `0..current_hits` is below the proposal's hits.
pub open spec fn accepted(current_hits: u32, new_hits: u32, draw: u32) -> bool {
    current_hits == 0 || draw < new_hits
}

/// Says whether a proposal with `new_hits` hits replaces a candidate with
/// `current_hits` hits when `draw` was drawn.
#[verifier::when_used_as_spec(accepted)]
pub fn accepts(current_hits: u32, new_hits: u32, draw: u32) -> (r: bool)
    ensures
        r == accepted(current_hits, new_hits, draw),
        current_hits == 0 ==> r,
{
    current_hits == 0 || draw < new_hits
}

/// What each recorded point of a candidate with `hits` hits adds to its cell
/// when the run allows `cap` iterations: `cap / hits`, rounded down.
pub open spec fn sample_weight(cap: u32, hits: u32) -> u32 {
    if hits == 0 {
        0
    } else {
        (cap / hits) as u32
    }
}

/// An orbit can be proposed if it escaped and has at least one hit.
pub open spec fn eligible(orbit: &Orbit) -> bool {
    orbit.outcome() matches Some(Outcome::Escaped(_)) && orbit.hits() > 0
}

/// The verdict on a proposal with the given orbit, met by a candidate with
/// `current_hits` hits, when `draw` was drawn.
pub open spec fn verdict_of(current_hits: u32, orbit: &Orbit, draw: u32) -> Verdict {
    if !eligible(orbit) {
        Verdict::Skipped
    } else if accepted(current_hits, orbit.hits(), draw) {
        Verdict::Accepted
    } else {
        Verdict::Rejected
    }
}

/// The accepted candidate of one worker, with its orbit. `P` is the type of a
/// point of the plane.
pub struct SamplerState<P> {
    candidate: P,
    orbit: Orbit,
}

impl<P> SamplerState<P> {
    /// The accepted candidate.
    pub closed spec fn spec_candidate(&self) -> &P {
        &self.candidate
    }

    /// The orbit of the accepted candidate.
    pub closed spec fn spec_orbit(&self) -> &Orbit {
        &self.orbit
    }

    /// The escape iteration of the accepted candidate.
    pub open spec fn spec_iterations(&self) -> u32 {
        match self.orbit().outcome() {
            Some(Outcome::Escaped(k)) => k,
            _ => 0,
        }
    }

    /// The hits of the accepted candidate.
    pub open spec fn spec_hits(&self) -> u32 {
        self.orbit().hits()
    }

    /// The orbit of the accepted candidate escaped; it has a hit, unless it is
    /// the empty orbit that a new state starts with.
    pub open spec fn wf(&self) -> bool {
        &&& self.orbit().wf()
        &&& self.orbit().outcome() matches Some(Outcome::Escaped(_))
        &&& self.orbit().hits() > 0 || self.orbit()@.len() == 0
    }

    /// The state of a worker that has accepted nothing yet: `candidate` with
    /// no iterations and no hits.
    pub fn new(candidate: P) -> (r: SamplerState<P>)
        ensures
            r.wf(),
            *r.candidate() == candidate,
            r.iterations() == 0,
            r.hits() == 0,
            r.orbit()@ == Seq::<Step>::empty(),
    {
        let mut orbit = Orbit::start(1);
        orbit.escape();
        SamplerState { candidate, orbit }
    }

    /// The accepted candidate.
    #[verifier::when_used_as_spec(spec_candidate)]
    pub fn candidate(&self) -> (r: &P)
        ensures
            r == self.candidate(),
    {
        &self.candidate
    }

    /// The orbit of the accepted candidate.
    #[verifier::when_used_as_spec(spec_orbit)]
    pub fn orbit(&self) -> (r: &Orbit)
        ensures
            r == self.orbit(),
    {
        &self.orbit
    }

    /// The escape iteration of the accepted candidate.
    #[verifier::when_used_as_spec(spec_iterations)]
    pub fn iterations(&self) -> (r: u32)
        ensures
            r == self.iterations(),
    {
        match self.orbit.outcome() {
            Some(Outcome::Escaped(k)) => k,
            _ => 0,
        }
    }

    /// The hits of the accepted candidate.
    #[verifier::when_used_as_spec(spec_hits)]
    pub fn hits(&self) -> (r: u32)
        ensures
            r == self.hits(),
    {
        self.orbit.hits()
    }

    /// The weight with which the accepted candidate is recorded in a run
    /// that allows `cap` iterations.
    pub fn weight(&self, cap: u32) -> (r: u32)
        ensures
            r == sample_weight(cap, self.hits()),
    {
        let hits: u32 = self.orbit.hits();
        if hits == 0 {
            0
        } else {
            cap / hits
        }
    }

    /// Decides on a proposal, given the number that was drawn for it, and
    /// replaces the accepted candidate where the proposal wins.
    pub fn decide(&mut self, proposal: P, orbit: Orbit, draw: u32) -> (v: Verdict)
        requires
            old(self).wf(),
            orbit.wf(),
        ensures
            final(self).wf(),
            v == verdict_of(old(self).hits(), &orbit, draw),
            v == Verdict::Accepted ==> *final(self).candidate() == proposal && *final(self).orbit()
                == orbit,
            v != Verdict::Accepted ==> *final(self) == *old(self),
            old(self).hits() == 0 && eligible(&orbit) ==> v == Verdict::Accepted,
    {
        match orbit.count_hitting() {
            None => Verdict::Skipped,
            Some((_, new_hits)) => {
                if accepts(self.orbit.hits(), new_hits, draw) {
                    self.candidate = proposal;
                    self.orbit = orbit;
                    Verdict::Accepted
                } else {
                    Verdict::Rejected
                }
            },
        }
    }

    /// Draws the number that decides on a proposal with the given orbit: one
    /// below the hits of the accepted candidate. Nothing is drawn, and the
    /// number is zero, for a proposal that is skipped and while the accepted
    /// candidate has no hits.
    pub fn draw(&self, orbit: &Orbit, rng: &mut SmallRng) -> (draw: u32)
        requires
            orbit.wf(),
        ensures
            self.hits() > 0 ==> draw < self.hits(),
            self.hits() == 0 || !eligible(orbit) ==> draw == 0 && *final(rng) == *old(rng),
    {
        let current: u32 = self.orbit.hits();
        if current == 0 || orbit.count_hitting().is_none() {
            0
        } else {
            random_below(rng, current)
        }
    }

    /// Decides on a proposal with a number drawn from `rng`. Nothing is drawn
    /// for a proposal that is skipped, nor while the accepted candidate has
    /// no hits.
    pub fn consider(&mut self, proposal: P, orbit: Orbit, rng: &mut SmallRng) -> (v: Verdict)
        requires
            old(self).wf(),
            orbit.wf(),
        ensures
            final(self).wf(),
            exists|draw: u32|
                (old(self).hits() > 0 ==> draw < old(self).hits()) && v == #[trigger] verdict_of(
                    old(self).hits(),
                    &orbit,
                    draw,
                ),
            v == Verdict::Accepted ==> *final(self).candidate() == proposal && *final(self).orbit()
                == orbit,
            v != Verdict::Accepted ==> *final(self) == *old(self),
            old(self).hits() == 0 && eligible(&orbit) ==> v == Verdict::Accepted,
            eligible(&orbit) && orbit.hits() >= old(self).hits() ==> v == Verdict::Accepted,
            !eligible(&orbit) <==> v == Verdict::Skipped,
    {
        let draw: u32 = self.draw(&orbit, rng);
        let v = self.decide(proposal, orbit, draw);
        assert(v == verdict_of(old(self).hits(), &orbit, draw));
        v
    }
}

} // verus!
