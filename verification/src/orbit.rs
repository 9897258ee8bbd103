//! The record that a worker keeps while it iterates one candidate: whether
//! each visited point lay inside the viewing window, which pixel it fell
//! on, and how the iteration ended.

use vstd::prelude::*;

verus! {

/// How the iteration of a candidate ended.
#[derive(Clone, Copy, Debug, PartialEq, Eq, Structural)]
pub enum Outcome {
    /// The orbit left the bailout radius at this iteration, counted from zero.
    Escaped(u32),
    /// The orbit stayed within the bailout radius for all iterations allowed.
    Bounded,
}

/// What is kept of one point that an orbit visited.
#[derive(Clone, Copy, Debug, PartialEq, Eq)]
pub struct Step {
    /// The point lies inside the viewing window, on none of its edges: it
    /// counts as a hit.
    pub inside: bool,
    /// The column and the row of the pixel that the point is recorded in, or
    /// `None` for a point that is recorded nowhere.
    pub pixel: Option<(usize, usize)>,
}

/// Number of steps that lie inside the viewing window.
pub open spec fn hit_count(steps: Seq<Step>) -> nat
    decreases steps.len(),
{
    if steps.len() == 0 {
        0
    } else {
        hit_count(steps.drop_last()) + if steps.last().inside {
            1nat
        } else {
            0nat
        }
    }
}

/// There are no more hits than steps.
pub proof fn lemma_hit_count_bound(steps: Seq<Step>)
    ensures
        hit_count(steps) <= steps.len(),
    decreases steps.len(),
{
    if steps.len() > 0 {
        lemma_hit_count_bound(steps.drop_last());
    }
}

/// The orbit of one candidate, as far as it has been iterated. The point
/// visited at iteration `i` is step `i`; the iteration at which the orbit
/// escapes is no step.
pub struct Orbit {
    cap: u32,
    steps: Vec<Step>,
    hits: u32,
    outcome: Option<Outcome>,
}

impl View for Orbit {
    type V = Seq<Step>;

    /// The steps observed so far.
    closed spec fn view(&self) -> Seq<Step> {
        self.steps@
    }
}

impl Orbit {
    /// The number of iterations allowed.
    pub closed spec fn spec_cap(&self) -> u32 {
        self.cap
    }

    /// The number of steps inside the viewing window, as counted while the
    /// steps came in.
    pub closed spec fn spec_hits(&self) -> u32 {
        self.hits
    }

    /// How the iteration ended; `None` while it is going on.
    pub closed spec fn spec_outcome(&self) -> Option<Outcome> {
        self.outcome
    }

    /// The iteration goes on while fewer steps than the cap were taken and no
    /// escape was seen; an escape at iteration `k` follows exactly `k` steps;
    /// a bounded orbit has taken all the steps allowed.
    pub open spec fn wf(&self) -> bool {
        &&& self.hits() == hit_count(self@)
        &&& match self.outcome() {
            None => self@.len() < self.cap(),
            Some(Outcome::Escaped(k)) => k == self@.len() && k < self.cap(),
            Some(Outcome::Bounded) => self@.len() == self.cap(),
        }
    }

    /// An orbit of which nothing has been iterated yet. With a cap of zero it
    /// is bounded at once.
    pub fn start(cap: u32) -> (r: Orbit)
        ensures
            r.wf(),
            r.cap() == cap,
            r@ == Seq::<Step>::empty(),
            r.outcome() == if cap == 0 {
                Some(Outcome::Bounded)
            } else {
                None
            },
    {
        Orbit {
            cap,
            steps: Vec::new(),
            hits: 0,
            outcome: if cap == 0 {
                Some(Outcome::Bounded)
            } else {
                None
            },
        }
    }

    /// Says whether another iteration is to be made.
    pub fn pending(&self) -> (r: bool)
        ensures
            r == self.outcome().is_none(),
    {
        self.outcome.is_none()
    }

    /// Takes note of a point that the orbit visited without escaping. The
    /// orbit is bounded once the cap is reached. On an orbit that has ended
    /// nothing changes.
    pub fn visit(&mut self, step: Step)
        requires
            old(self).wf(),
        ensures
            final(self).wf(),
            final(self).cap() == old(self).cap(),
            old(self).outcome().is_some() ==> final(self)@ == old(self)@
                && final(self).outcome() == old(self).outcome(),
            old(self).outcome().is_none() ==> final(self)@ == old(self)@.push(step)
                && final(self).outcome() == if final(self)@.len() == old(self).cap() {
                Some(Outcome::Bounded)
            } else {
                None
            },
    {
        if self.outcome.is_some() {
            return ;
        }
        proof {
            lemma_hit_count_bound(self.steps@);
            assert(self.steps@.push(step).drop_last() =~= self.steps@);
        }
        if step.inside {
            self.hits = self.hits + 1;
        }
        self.steps.push(step);
        if self.steps.len() == self.cap as usize {
            self.outcome = Some(Outcome::Bounded);
        }
    }

    /// Takes note that the orbit escaped at the iteration now due. On an orbit
    /// that has ended nothing changes.
    pub fn escape(&mut self)
        requires
            old(self).wf(),
        ensures
            final(self).wf(),
            final(self).cap() == old(self).cap(),
            final(self)@ == old(self)@,
            final(self).outcome() == match old(self).outcome() {
                None => Some(Outcome::Escaped(old(self)@.len() as u32)),
                Some(o) => Some(o),
            },
    {
        if self.outcome.is_none() {
            self.outcome = Some(Outcome::Escaped(self.steps.len() as u32));
        }
    }

    /// The number of iterations allowed.
    #[verifier::when_used_as_spec(spec_cap)]
    pub fn cap(&self) -> (r: u32)
        ensures
            r == self.cap(),
    {
        self.cap
    }

    /// The steps observed so far.
    pub fn steps(&self) -> (r: &Vec<Step>)
        ensures
            r@ == self@,
    {
        &self.steps
    }

    /// The number of steps inside the viewing window.
    #[verifier::when_used_as_spec(spec_hits)]
    pub fn hits(&self) -> (r: u32)
        ensures
            r == self.hits(),
    {
        self.hits
    }

    /// How the iteration ended; `None` while it is going on.
    #[verifier::when_used_as_spec(spec_outcome)]
    pub fn outcome(&self) -> (r: Option<Outcome>)
        ensures
            r == self.outcome(),
    {
        self.outcome
    }

    /// The escape iteration and the number of hits of an orbit that escaped
    /// after at least one hit; `None` for every other orbit.
    pub fn count_hitting(&self) -> (r: Option<(u32, u32)>)
        requires
            self.wf(),
        ensures
            r == match self.outcome() {
                Some(Outcome::Escaped(k)) => if hit_count(self@) > 0 {
                    Some((k, hit_count(self@) as u32))
                } else {
                    None
                },
                _ => None,
            },
    {
        match self.outcome {
            Some(Outcome::Escaped(k)) => if self.hits > 0 {
                Some((k, self.hits))
            } else {
                None
            },
            _ => None,
        }
    }
}

} // verus!
