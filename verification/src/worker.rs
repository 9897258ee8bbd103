//! One worker of a run: its accepted candidate and one count grid for each
//! band, which nothing else touches until the worker is done.

use vstd::prelude::*;
use rand::rngs::SmallRng;
use crate::buffer::Buffer;
use crate::config::{iteration_cap, max_iterations, BufferConfig};
use crate::counts::zeros;
use crate::orbit::Orbit;
use crate::record::{all_done, all_wf, cut_at, same_shapes, Overflow};
use crate::sampler::{eligible, sample_weight, verdict_of, SamplerState, Verdict};

verus! {

/// The sampler state of a worker, the bands of the run and the worker's own
/// grids, one for each band. `P` is the type of a point of the plane.
pub struct Worker<P> {
    state: SamplerState<P>,
    bands: Vec<BufferConfig>,
    cap: u32,
    buffers: Vec<Buffer<u32>>,
}

impl<P> Worker<P> {
    /// The accepted candidate and its orbit.
    pub closed spec fn spec_state(&self) -> &SamplerState<P> {
        &self.state
    }

    /// The bands of the run.
    pub closed spec fn bands(&self) -> Seq<BufferConfig> {
        self.bands@
    }

    /// The grids of the worker, in the order of the bands.
    pub closed spec fn buffers(&self) -> Seq<Buffer<u32>> {
        self.buffers@
    }

    /// The number of iterations that the run allows for a candidate.
    pub closed spec fn spec_cap(&self) -> u32 {
        self.cap
    }

    /// The state and the grids are well formed, there is a grid for each
    /// band, and the cap is that of the bands.
    pub open spec fn wf(&self) -> bool {
        &&& self.state().wf()
        &&& self.bands().len() == self.buffers().len()
        &&& self.cap() == iteration_cap(self.bands())
        &&& all_wf(self.buffers())
    }

    /// A worker that starts from `candidate` with an empty grid of `width` by
    /// `height` cells for each band.
    pub fn new(candidate: P, bands: Vec<BufferConfig>, width: usize, height: usize) -> (r: Worker<P>)
        requires
            width * height <= usize::MAX,
        ensures
            r.wf(),
            *r.state().candidate() == candidate,
            r.state().hits() == 0,
            r.bands() == bands@,
            forall|b: int|
                0 <= b < bands@.len() ==> {
                    &&& (#[trigger] r.buffers()[b]).width() == width
                    &&& r.buffers()[b].height() == height
                    &&& r.buffers()[b].counts() == zeros((width * height) as nat)
                },
    {
        let cap: u32 = match max_iterations(&bands) {
            Some(cap) => cap,
            None => 0,
        };
        let n: usize = bands.len();
        let mut buffers: Vec<Buffer<u32>> = Vec::new();
        let mut b: usize = 0;
        while b < n
            invariant
                b <= n,
                width * height <= usize::MAX,
                buffers@.len() == b,
                all_wf(buffers@),
                forall|j: int|
                    0 <= j < b ==> {
                        &&& (#[trigger] buffers@[j]).width() == width
                        &&& buffers@[j].height() == height
                        &&& buffers@[j].counts() == zeros((width * height) as nat)
                    },
            decreases n - b,
        {
            let grid: Buffer<u32> = Buffer::new_default(width, height);
            assert(grid.counts() =~= zeros((width * height) as nat));
            buffers.push(grid);
            b += 1;
        }
        Worker { state: SamplerState::new(candidate), bands, cap, buffers }
    }

    /// The accepted candidate and its orbit.
    #[verifier::when_used_as_spec(spec_state)]
    pub fn state(&self) -> (r: &SamplerState<P>)
        ensures
            r == self.state(),
    {
        &self.state
    }

    /// The number of iterations that the run allows for a candidate.
    #[verifier::when_used_as_spec(spec_cap)]
    pub fn cap(&self) -> (r: u32)
        ensures
            r == self.cap(),
    {
        self.cap
    }

    /// Hands the grids over, in the order of the bands, when the worker is
    /// done.
    pub fn into_buffers(self) -> (r: Vec<Buffer<u32>>)
        ensures
            r@ == self.buffers(),
    {
        self.buffers
    }

    /// One round of a worker that samples evenly: the orbit of the candidate
    /// drawn is recorded in every band with weight 1, whatever the accepted
    /// candidate is, which stays.
    pub fn record_uniform(&mut self, orbit: &Orbit) -> (r: Result<(), Overflow>)
        requires
            old(self).wf(),
            orbit.wf(),
        ensures
            final(self).wf(),
            final(self).bands() == old(self).bands(),
            final(self).state() == old(self).state(),
            same_shapes(old(self).buffers(), final(self).buffers()),
            match r {
                Ok(()) => all_done(
                    orbit,
                    old(self).bands(),
                    1,
                    old(self).buffers(),
                    final(self).buffers(),
                ),
                Err(e) => cut_at(
                    orbit,
                    old(self).bands(),
                    1,
                    old(self).buffers(),
                    final(self).buffers(),
                    e,
                ),
            },
    {
        orbit.record(&self.bands, 1, &mut self.buffers)
    }

    /// What one round makes of the worker `before` when `draw` is drawn for
    /// the proposal: the worker `after` and the answer `r`. A proposal that
    /// is skipped leaves everything as it was. After any other the accepted
    /// candidate, be it the old or the new one, is recorded in every band
    /// with the weight `sample_weight(cap, hits)`, as far as the counts fit.
    pub open spec fn round(
        before: &Worker<P>,
        after: &Worker<P>,
        proposal: P,
        orbit: &Orbit,
        draw: u32,
        r: Result<Verdict, Overflow>,
    ) -> bool {
        let v = verdict_of(before.state().hits(), orbit, draw);
        let state = after.state();
        let weight = sample_weight(before.cap(), state.hits());
        &&& r matches Ok(verdict) ==> verdict == v
        &&& v == Verdict::Skipped ==> r is Ok && after.buffers() == before.buffers()
        &&& v == Verdict::Accepted ==> *state.candidate() == proposal && *state.orbit() == *orbit
        &&& v != Verdict::Accepted ==> state == before.state()
        &&& v != Verdict::Skipped ==> match r {
            Ok(_) => all_done(state.orbit(), before.bands(), weight, before.buffers(), after.buffers()),
            Err(e) => cut_at(
                state.orbit(),
                before.bands(),
                weight,
                before.buffers(),
                after.buffers(),
                e,
            ),
        }
    }

    /// One round of the worker's loop, for a proposal whose orbit was
    /// iterated, given the number drawn for it.
    pub fn step_with(&mut self, proposal: P, orbit: Orbit, draw: u32) -> (r: Result<
        Verdict,
        Overflow,
    >)
        requires
            old(self).wf(),
            orbit.wf(),
        ensures
            final(self).wf(),
            final(self).bands() == old(self).bands(),
            same_shapes(old(self).buffers(), final(self).buffers()),
            Self::round(old(self), final(self), proposal, &orbit, draw, r),
    {
        let verdict = self.state.decide(proposal, orbit, draw);
        match verdict {
            Verdict::Skipped => Ok(verdict),
            _ => {
                let weight: u32 = self.state.weight(self.cap);
                match self.state.orbit().record(&self.bands, weight, &mut self.buffers) {
                    Ok(()) => Ok(verdict),
                    Err(e) => Err(e),
                }
            },
        }
    }

    /// One round of the worker's loop, with the number drawn from `rng`
    /// where one is needed: a number below the hits of the accepted
    /// candidate. While the accepted candidate has no hits, every proposal
    /// that is not skipped takes its place.
    pub fn step(&mut self, proposal: P, orbit: Orbit, rng: &mut SmallRng) -> (r: Result<
        Verdict,
        Overflow,
    >)
        requires
            old(self).wf(),
            orbit.wf(),
        ensures
            final(self).wf(),
            final(self).bands() == old(self).bands(),
            same_shapes(old(self).buffers(), final(self).buffers()),
            exists|draw: u32|
                (old(self).state().hits() > 0 ==> draw < old(self).state().hits())
                    && #[trigger] Self::round(old(self), final(self), proposal, &orbit, draw, r),
            old(self).state().hits() == 0 && eligible(&orbit) ==> *final(self).state().candidate()
                == proposal,
    {
        let draw: u32 = self.state.draw(&orbit, rng);
        self.step_with(proposal, orbit, draw)
    }
}

} // verus!
