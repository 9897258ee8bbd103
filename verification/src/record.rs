//! Replaying an orbit into the count grids of the bands.

use vstd::prelude::*;
use crate::buffer::{cell_index, lemma_cell_index_in_range, Buffer};
use crate::config::BufferConfig;
use crate::counts::as_ints;
use crate::orbit::{Orbit, Outcome, Step};

verus! {

/// The step is recorded in the cell at position `cell` of a grid of the
/// given shape: its pixel is a pixel of the grid, and that one.
pub open spec fn lands_on(step: Step, width: int, height: int, cell: int) -> bool {
    match step.pixel {
        Some((x, y)) => x < width && y < height && cell_index(width, x as int, y as int) == cell,
        None => false,
    }
}

/// How many of the steps `lo..hi` fall on the cell at position `cell`.
pub open spec fn visits(
    steps: Seq<Step>,
    width: int,
    height: int,
    lo: int,
    hi: int,
    cell: int,
) -> nat
    decreases hi - lo,
{
    if hi <= lo {
        0
    } else {
        visits(steps, width, height, lo, hi - 1, cell) + if lands_on(
            steps[hi - 1],
            width,
            height,
            cell,
        ) {
            1nat
        } else {
            0nat
        }
    }
}

/// A longer run of steps visits no cell less often.
pub proof fn lemma_visits_monotonic(
    steps: Seq<Step>,
    width: int,
    height: int,
    lo: int,
    mid: int,
    hi: int,
    cell: int,
)
    requires
        mid <= hi,
    ensures
        visits(steps, width, height, lo, mid, cell) <= visits(steps, width, height, lo, hi, cell),
    decreases hi - mid,
{
    if mid < hi {
        lemma_visits_monotonic(steps, width, height, lo, mid, hi - 1, cell);
    }
}

/// The steps of an orbit that a band records: from the band's first
/// iteration up to the escape, for an orbit that escaped inside the band, and
/// none for any other orbit. The pair holds the first step and the one after
/// the last.
pub open spec fn band_steps(band: BufferConfig, outcome: Option<Outcome>) -> (int, int) {
    match outcome {
        Some(Outcome::Escaped(k)) => if band.contains(k) {
            (band.min_iterations as int, k as int)
        } else {
            (0, 0)
        },
        _ => (0, 0),
    }
}

/// The counts after each of the steps `lo..hi` has added `weight` to the cell
/// it falls on.
pub open spec fn recorded(
    cells: Seq<u32>,
    steps: Seq<Step>,
    width: int,
    height: int,
    lo: int,
    hi: int,
    weight: u32,
) -> Seq<int> {
    Seq::new(cells.len(), |c: int| cells[c] + weight * visits(steps, width, height, lo, hi, c))
}

/// Recording the steps `lo..hi` keeps every count within `u32`.
pub open spec fn fits(
    cells: Seq<u32>,
    steps: Seq<Step>,
    width: int,
    height: int,
    lo: int,
    hi: int,
    weight: u32,
) -> bool {
    forall|c: int|
        0 <= c < cells.len() ==> #[trigger] recorded(cells, steps, width, height, lo, hi, weight)[c]
            <= u32::MAX
}

/// Where the steps `lo..mid` cannot be recorded, neither can `lo..hi`.
pub proof fn lemma_fits_prefix(
    cells: Seq<u32>,
    steps: Seq<Step>,
    width: int,
    height: int,
    lo: int,
    mid: int,
    hi: int,
    weight: u32,
)
    requires
        mid <= hi,
        fits(cells, steps, width, height, lo, hi, weight),
    ensures
        fits(cells, steps, width, height, lo, mid, weight),
{
    assert forall|c: int| 0 <= c < cells.len() implies #[trigger] recorded(
        cells,
        steps,
        width,
        height,
        lo,
        mid,
        weight,
    )[c] <= u32::MAX by {
        lemma_visits_monotonic(steps, width, height, lo, mid, hi, c);
        let a = visits(steps, width, height, lo, mid, c);
        let b = visits(steps, width, height, lo, hi, c);
        assert(weight * a <= weight * b) by (nonlinear_arith)
            requires
                a <= b,
                0 <= weight,
        ;
        assert(recorded(cells, steps, width, height, lo, hi, weight)[c] <= u32::MAX);
    }
}

/// `after` holds the counts of `before` and the whole of what the band
/// records of the orbit, all of which fits.
pub open spec fn band_done(
    orbit: &Orbit,
    band: BufferConfig,
    weight: u32,
    before: &Buffer<u32>,
    after: &Buffer<u32>,
) -> bool {
    let (lo, hi) = band_steps(band, orbit.outcome());
    let w = before.width() as int;
    let h = before.height() as int;
    &&& fits(before@, orbit@, w, h, lo, hi, weight)
    &&& after.counts() == recorded(before@, orbit@, w, h, lo, hi, weight)
}

/// `after` holds the counts of `before` and what the band records of the
/// orbit before step `step`, which is the first step that does not fit.
pub open spec fn band_cut(
    orbit: &Orbit,
    band: BufferConfig,
    weight: u32,
    before: &Buffer<u32>,
    after: &Buffer<u32>,
    step: u32,
) -> bool {
    let (lo, hi) = band_steps(band, orbit.outcome());
    let w = before.width() as int;
    let h = before.height() as int;
    &&& lo <= step < hi
    &&& !fits(before@, orbit@, w, h, lo, hi, weight)
    &&& !fits(before@, orbit@, w, h, lo, step + 1, weight)
    &&& after.counts() == recorded(before@, orbit@, w, h, lo, step as int, weight)
}

/// Every grid of the list is well formed.
pub open spec fn all_wf(buffers: Seq<Buffer<u32>>) -> bool {
    forall|b: int| 0 <= b < buffers.len() ==> (#[trigger] buffers[b]).wf()
}

/// The two lists hold as many grids, of the same shapes.
pub open spec fn same_shapes(before: Seq<Buffer<u32>>, after: Seq<Buffer<u32>>) -> bool {
    &&& before.len() == after.len()
    &&& forall|b: int| 0 <= b < before.len() ==> (#[trigger] after[b]).same_shape(&before[b])
}

/// Each grid of `after` holds the counts of the grid before and the whole
/// of what its band records of the orbit.
pub open spec fn all_done(
    orbit: &Orbit,
    bands: Seq<BufferConfig>,
    weight: u32,
    before: Seq<Buffer<u32>>,
    after: Seq<Buffer<u32>>,
) -> bool {
    forall|b: int|
        0 <= b < bands.len() ==> band_done(orbit, #[trigger] bands[b], weight, &before[b], &after[b])
}

/// Recording stopped at `e`: the bands before `e.band` are recorded in full,
/// band `e.band` up to the step `e.step`, which does not fit, and the bands
/// after it not at all.
pub open spec fn cut_at(
    orbit: &Orbit,
    bands: Seq<BufferConfig>,
    weight: u32,
    before: Seq<Buffer<u32>>,
    after: Seq<Buffer<u32>>,
    e: Overflow,
) -> bool {
    &&& e.band < bands.len()
    &&& forall|b: int|
        0 <= b < e.band ==> band_done(orbit, #[trigger] bands[b], weight, &before[b], &after[b])
    &&& band_cut(
        orbit,
        bands[e.band as int],
        weight,
        &before[e.band as int],
        &after[e.band as int],
        e.step,
    )
    &&& forall|b: int| e.band < b < bands.len() ==> (#[trigger] after[b])@ == before[b]@
}

/// A count would have passed `u32::MAX` while an orbit was recorded.
#[derive(Clone, Copy, Debug, PartialEq, Eq, Structural)]
pub struct Overflow {
    /// Position of the band whose grid is full at some cell.
    pub band: usize,
    /// The first step of the orbit that was not recorded in that band.
    pub step: u32,
}

impl Orbit {
    /// Records the orbit in the grid of one band: each step that the band
    /// takes adds `weight` to the cell it falls on, in order. Stops before the
    /// first step that would take a count beyond `u32::MAX` and answers with
    /// that step.
    pub fn record_band(&self, band: &BufferConfig, weight: u32, buffer: &mut Buffer<u32>) -> (r:
        Result<(), u32>)
        requires
            self.wf(),
            old(buffer).wf(),
        ensures
            final(buffer).wf(),
            final(buffer).same_shape(old(buffer)),
            match r {
                Ok(()) => band_done(self, *band, weight, old(buffer), final(buffer)),
                Err(step) => band_cut(self, *band, weight, old(buffer), final(buffer), step),
            },
    {
        let ghost before = buffer@;
        let width: usize = buffer.width();
        let height: usize = buffer.height();
        let ghost w = width as int;
        let ghost h = height as int;
        let (lo, hi): (u32, u32) = match self.outcome() {
            Some(Outcome::Escaped(k)) => if band.contains(k) {
                (band.min_iterations, k)
            } else {
                (0, 0)
            },
            _ => (0, 0),
        };
        assert forall|c: int| 0 <= c < before.len() implies as_ints(before)[c] == #[trigger] recorded(
            before,
            self@,
            w,
            h,
            lo as int,
            lo as int,
            weight,
        )[c] by {
            assert(visits(self@, w, h, lo as int, lo as int, c) == 0);
            assert(weight * 0 == 0);
        }
        assert(as_ints(before) =~= recorded(before, self@, w, h, lo as int, lo as int, weight));
        let mut i: u32 = lo;
        while i < hi
            invariant
                lo <= i <= hi,
                hi <= self@.len(),
                (lo as int, hi as int) == band_steps(*band, self.outcome()),
                before == old(buffer)@,
                before.len() == buffer@.len(),
                buffer.wf(),
                buffer.same_shape(old(buffer)),
                w == buffer.width(),
                h == buffer.height(),
                width == buffer.width(),
                height == buffer.height(),
                as_ints(buffer@) == recorded(before, self@, w, h, lo as int, i as int, weight),
            decreases hi - i,
        {
            let step: Step = self.steps()[i as usize];
            let ghost now = buffer@;
            match step.pixel {
                Some((x, y)) => {
                    if x < width && y < height {
                        let count: u32 = *buffer.get(x, y);
                        let ghost c0 = cell_index(w, x as int, y as int);
                        proof {
                            lemma_cell_index_in_range(w, h, x as int, y as int);
                            assert(as_ints(now)[c0] == now[c0]);
                            let v = visits(self@, w, h, lo as int, i as int, c0);
                            assert(visits(self@, w, h, lo as int, i + 1, c0) == v + 1);
                            assert(weight * (v + 1) == weight * v + weight) by (nonlinear_arith);
                            assert(recorded(before, self@, w, h, lo as int, i + 1, weight)[c0]
                                == count + weight);
                        }
                        if count > u32::MAX - weight {
                            proof {
                                assert(!fits(before, self@, w, h, lo as int, i + 1, weight));
                                if fits(before, self@, w, h, lo as int, hi as int, weight) {
                                    lemma_fits_prefix(
                                        before,
                                        self@,
                                        w,
                                        h,
                                        lo as int,
                                        i + 1,
                                        hi as int,
                                        weight,
                                    );
                                }
                            }
                            return Err(i);
                        }
                        buffer.hit(x, y, weight);
                        proof {
                            assert forall|c: int| 0 <= c < before.len() implies as_ints(buffer@)[c]
                                == #[trigger] recorded(
                                before,
                                self@,
                                w,
                                h,
                                lo as int,
                                i + 1,
                                weight,
                            )[c] by {
                                assert(as_ints(now)[c] == now[c]);
                                if c != c0 {
                                    assert(!lands_on(self@[i as int], w, h, c));
                                }
                            }
                            assert(as_ints(buffer@) =~= recorded(
                                before,
                                self@,
                                w,
                                h,
                                lo as int,
                                i + 1,
                                weight,
                            ));
                        }
                    } else {
                        assert(as_ints(buffer@) =~= recorded(
                            before,
                            self@,
                            w,
                            h,
                            lo as int,
                            i + 1,
                            weight,
                        ));
                    }
                },
                None => {
                    assert(as_ints(buffer@) =~= recorded(
                        before,
                        self@,
                        w,
                        h,
                        lo as int,
                        i + 1,
                        weight,
                    ));
                },
            }
            i += 1;
        }
        assert forall|c: int| 0 <= c < before.len() implies #[trigger] recorded(
            before,
            self@,
            w,
            h,
            lo as int,
            hi as int,
            weight,
        )[c] <= u32::MAX by {
            assert(as_ints(buffer@)[c] == buffer@[c]);
        }
        Ok(())
    }

    /// Records the orbit in the grids of all bands, band by band in order;
    /// `buffers` holds one grid for each band. Stops at the first step that
    /// would take a count beyond `u32::MAX`: the bands before are recorded in
    /// full, the band at fault up to that step, the bands after it not at all.
    pub fn record(&self, bands: &Vec<BufferConfig>, weight: u32, buffers: &mut Vec<Buffer<u32>>) -> (r:
        Result<(), Overflow>)
        requires
            self.wf(),
            bands@.len() == old(buffers)@.len(),
            all_wf(old(buffers)@),
        ensures
            same_shapes(old(buffers)@, final(buffers)@),
            all_wf(final(buffers)@),
            match r {
                Ok(()) => all_done(self, bands@, weight, old(buffers)@, final(buffers)@),
                Err(e) => cut_at(self, bands@, weight, old(buffers)@, final(buffers)@, e),
            },
    {
        let n: usize = bands.len();
        let mut b: usize = 0;
        while b < n
            invariant
                b <= n,
                n == bands@.len(),
                self.wf(),
                bands@.len() == buffers@.len(),
                same_shapes(old(buffers)@, buffers@),
                all_wf(buffers@),
                forall|j: int|
                    0 <= j < b ==> band_done(
                        self,
                        #[trigger] bands@[j],
                        weight,
                        &old(buffers)@[j],
                        &buffers@[j],
                    ),
                forall|j: int| b <= j < n ==> (#[trigger] buffers@[j])@ == old(buffers)@[j]@,
            decreases n - b,
        {
            match self.record_band(&bands[b], weight, &mut buffers[b]) {
                Ok(()) => {},
                Err(step) => {
                    return Err(Overflow { band: b, step });
                },
            }
            b += 1;
        }
        Ok(())
    }
}

} // verus!
