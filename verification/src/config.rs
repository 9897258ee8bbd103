//! Bands of escape iterations and the checks made on a run's settings
//! before any sampling starts.

use vstd::prelude::*;

verus! {

/// A band records the orbits that escape at an iteration `i` with
/// `min_iterations <= i < max_iterations`.
#[derive(Clone, Copy, Debug)]
pub struct BufferConfig {
    pub min_iterations: u32,
    pub max_iterations: u32,
}

impl BufferConfig {
    /// `iteration` lies in the band.
    pub open spec fn spec_contains(&self, iteration: u32) -> bool {
        self.min_iterations <= iteration < self.max_iterations
    }

    /// Says whether `iteration` lies in the band.
    #[verifier::when_used_as_spec(spec_contains)]
    pub fn contains(&self, iteration: u32) -> (r: bool)
        ensures
            r == self.contains(iteration),
    {
        self.min_iterations <= iteration && iteration < self.max_iterations
    }
}

/// Why a run's settings were refused.
#[derive(Clone, Copy, Debug, PartialEq, Eq, Structural)]
pub enum ConfigError {
    /// Several cycles were asked for, each of which would overwrite the
    /// buffers that the cycle before it stored.
    CyclesOverwrite,
    /// No worker thread was asked for.
    NoThreads,
    /// The list of bands is empty.
    NoBands,
}

/// The largest `max_iterations` among `bands`; zero where there is no band.
pub open spec fn iteration_cap(bands: Seq<BufferConfig>) -> u32
    decreases bands.len(),
{
    if bands.len() == 0 {
        0
    } else if bands.last().max_iterations > iteration_cap(bands.drop_last()) {
        bands.last().max_iterations
    } else {
        iteration_cap(bands.drop_last())
    }
}

/// No band reaches beyond the iteration cap, and some band reaches it.
pub proof fn lemma_iteration_cap(bands: Seq<BufferConfig>)
    ensures
        forall|i: int|
            0 <= i < bands.len() ==> (#[trigger] bands[i]).max_iterations <= iteration_cap(bands),
        bands.len() > 0 ==> exists|i: int|
            0 <= i < bands.len() && (#[trigger] bands[i]).max_iterations == iteration_cap(bands),
    decreases bands.len(),
{
    if bands.len() > 0 {
        let front = bands.drop_last();
        lemma_iteration_cap(front);
        assert forall|i: int| 0 <= i < bands.len() implies (#[trigger] bands[i]).max_iterations
            <= iteration_cap(bands) by {
            if i < front.len() {
                assert(front[i] == bands[i]);
            }
        }
        if bands.last().max_iterations > iteration_cap(front) || front.len() == 0 {
            assert(bands[bands.len() - 1].max_iterations == iteration_cap(bands));
        } else {
            let w = choose|i: int|
                0 <= i < front.len() && (#[trigger] front[i]).max_iterations == iteration_cap(front);
            assert(bands[w].max_iterations == iteration_cap(bands));
        }
    }
}

/// The number of iterations that a run spends on a candidate at most: the
/// largest `max_iterations` of its bands. `None` where there is no band.
pub fn max_iterations(bands: &Vec<BufferConfig>) -> (r: Option<u32>)
    ensures
        r.is_some() <==> bands@.len() > 0,
        r matches Some(cap) ==> {
            &&& cap == iteration_cap(bands@)
            &&& forall|i: int| 0 <= i < bands@.len() ==> (#[trigger] bands@[i]).max_iterations <= cap
            &&& exists|i: int| 0 <= i < bands@.len() && (#[trigger] bands@[i]).max_iterations == cap
        },
{
    let n: usize = bands.len();
    if n == 0 {
        return None;
    }
    let mut cap: u32 = 0;
    let mut i: usize = 0;
    while i < n
        invariant
            i <= n,
            n == bands@.len(),
            cap == iteration_cap(bands@.take(i as int)),
        decreases n - i,
    {
        proof {
            assert(bands@.take(i + 1).drop_last() =~= bands@.take(i as int));
        }
        if bands[i].max_iterations > cap {
            cap = bands[i].max_iterations;
        }
        i += 1;
    }
    proof {
        assert(bands@.take(n as int) =~= bands@);
        lemma_iteration_cap(bands@);
    }
    Some(cap)
}

/// What `validate` answers for the given settings.
pub open spec fn validated(
    thread_count: usize,
    cycles: u64,
    keep: bool,
    bands: Seq<BufferConfig>,
) -> Result<u32, ConfigError> {
    if cycles > 1 && !keep {
        Err(ConfigError::CyclesOverwrite)
    } else if thread_count == 0 {
        Err(ConfigError::NoThreads)
    } else if bands.len() == 0 {
        Err(ConfigError::NoBands)
    } else {
        Ok(iteration_cap(bands))
    }
}

/// Checks the settings of a run and gives its iteration cap. Several cycles
/// need `keep`, at least one thread is needed, and at least one band.
pub fn validate(thread_count: usize, cycles: u64, keep: bool, bands: &Vec<BufferConfig>) -> (r:
    Result<u32, ConfigError>)
    ensures
        r == validated(thread_count, cycles, keep, bands@),
{
    if cycles > 1 && !keep {
        return Err(ConfigError::CyclesOverwrite);
    }
    if thread_count == 0 {
        return Err(ConfigError::NoThreads);
    }
    match max_iterations(bands) {
        Some(cap) => Ok(cap),
        None => Err(ConfigError::NoBands),
    }
}

} // verus!
