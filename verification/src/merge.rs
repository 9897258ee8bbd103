//! Summing the grids of several workers band by band, and folding what an
//! earlier run stored into the result before it is stored again.

use vstd::prelude::*;
use crate::buffer::Buffer;
use crate::counts::{as_ints, plus, sums_fit};
use crate::persist::{encoded, loaded, LoadError};

verus! {

/// `part` holds one grid for each grid of `totals`, of the same shape, and
/// no sum of two cells exceeds `u32::MAX`.
pub open spec fn mergeable(totals: Seq<Buffer<u32>>, part: Seq<Buffer<u32>>) -> bool {
    &&& totals.len() == part.len()
    &&& forall|b: int|
        0 <= b < totals.len() ==> (#[trigger] totals[b]).same_shape(&part[b]) && sums_fit(
            totals[b]@,
            part[b]@,
        )
}

/// Says whether the grids of one worker can be merged into the totals.
pub fn can_merge(totals: &Vec<Buffer<u32>>, part: &Vec<Buffer<u32>>) -> (r: bool)
    requires
        forall|b: int| 0 <= b < totals@.len() ==> (#[trigger] totals@[b]).wf(),
        forall|b: int| 0 <= b < part@.len() ==> (#[trigger] part@[b]).wf(),
    ensures
        r == mergeable(totals@, part@),
{
    let n: usize = totals.len();
    if part.len() != n {
        return false;
    }
    let mut b: usize = 0;
    while b < n
        invariant
            b <= n,
            n == totals@.len(),
            n == part@.len(),
            forall|j: int| 0 <= j < totals@.len() ==> (#[trigger] totals@[j]).wf(),
            forall|j: int| 0 <= j < part@.len() ==> (#[trigger] part@[j]).wf(),
            forall|j: int|
                0 <= j < b ==> (#[trigger] totals@[j]).same_shape(&part@[j]) && sums_fit(
                    totals@[j]@,
                    part@[j]@,
                ),
        decreases n - b,
    {
        if !totals[b].can_add(&part[b]) {
            assert(!(totals@[b as int].same_shape(&part@[b as int]) && sums_fit(
                totals@[b as int]@,
                part@[b as int]@,
            )));
            return false;
        }
        b += 1;
    }
    true
}

/// Adds the grids of one worker to the totals, band by band.
pub fn merge(totals: &mut Vec<Buffer<u32>>, part: &Vec<Buffer<u32>>)
    requires
        forall|b: int| 0 <= b < old(totals)@.len() ==> (#[trigger] old(totals)@[b]).wf(),
        forall|b: int| 0 <= b < part@.len() ==> (#[trigger] part@[b]).wf(),
        mergeable(old(totals)@, part@),
    ensures
        final(totals)@.len() == old(totals)@.len(),
        forall|b: int|
            0 <= b < old(totals)@.len() ==> {
                &&& (#[trigger] final(totals)@[b]).wf()
                &&& final(totals)@[b].same_shape(&old(totals)@[b])
                &&& final(totals)@[b].counts() == plus(old(totals)@[b].counts(), part@[b].counts())
            },
{
    let n: usize = totals.len();
    let mut b: usize = 0;
    while b < n
        invariant
            b <= n,
            n == totals@.len(),
            n == old(totals)@.len(),
            n == part@.len(),
            mergeable(old(totals)@, part@),
            forall|j: int| 0 <= j < part@.len() ==> (#[trigger] part@[j]).wf(),
            forall|j: int|
                0 <= j < b ==> {
                    &&& (#[trigger] totals@[j]).wf()
                    &&& totals@[j].same_shape(&old(totals)@[j])
                    &&& totals@[j].counts() == plus(old(totals)@[j].counts(), part@[j].counts())
                },
            forall|j: int| b <= j < n ==> #[trigger] totals@[j] == old(totals)@[j],
            forall|j: int| 0 <= j < n ==> (#[trigger] old(totals)@[j]).wf(),
        decreases n - b,
    {
        assert(old(totals)@[b as int].same_shape(&part@[b as int]));
        totals[b].add(&part[b]);
        b += 1;
    }
}

/// Why a grid was not brought up to date with what an earlier run stored.
#[derive(Clone, Copy, Debug, PartialEq, Eq, Structural)]
pub enum CheckpointError {
    /// What the earlier run stored is no grid of this shape.
    Corrupt(LoadError),
    /// Some count of the two grids together exceeds `u32::MAX`.
    Overflow,
}

impl Buffer<u32> {
    /// Prepares the grid for storing. Where an earlier run stored a grid,
    /// `previous` holds its bytes, and its counts are added to this grid
    /// first. Gives the bytes to store. On an error the grid is unchanged.
    pub fn checkpoint(&mut self, previous: Option<&[u8]>) -> (r: Result<Vec<u8>, CheckpointError>)
        requires
            old(self).wf(),
        ensures
            final(self).wf(),
            final(self).same_shape(old(self)),
            r matches Ok(bytes) ==> bytes@ == encoded(final(self)@),
            r is Err ==> final(self)@ == old(self)@,
            match previous {
                None => r is Ok && final(self)@ == old(self)@,
                Some(stored) => match loaded(old(self).width(), old(self).height(), stored@) {
                    Err(e) => r == Err::<Vec<u8>, CheckpointError>(CheckpointError::Corrupt(e)),
                    Ok(earlier) => if sums_fit(old(self)@, earlier) {
                        r is Ok && final(self).counts() == plus(old(self).counts(), as_ints(earlier))
                    } else {
                        r == Err::<Vec<u8>, CheckpointError>(CheckpointError::Overflow)
                    },
                },
            },
    {
        match previous {
            None => {},
            Some(stored) => {
                match Buffer::load(self.width(), self.height(), stored) {
                    Err(e) => {
                        return Err(CheckpointError::Corrupt(e));
                    },
                    Ok(earlier) => {
                        if !self.can_add(&earlier) {
                            return Err(CheckpointError::Overflow);
                        }
                        self.add(&earlier);
                    },
                }
            },
        }
        Ok(self.store())
    }
}

} // verus!
