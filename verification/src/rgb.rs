//! Grids of colour triples: joined from three byte grids, flattened for an
//! image encoder, and complemented.

use vstd::prelude::*;
use crate::buffer::Buffer;

verus! {

/// One of the three channels of a colour.
pub open spec fn channel(colour: (u8, u8, u8), k: int) -> u8 {
    if k == 0 {
        colour.0
    } else if k == 1 {
        colour.1
    } else {
        colour.2
    }
}

/// The channels of all cells in one row of bytes: the three channels of the
/// first cell, then those of the second, and so on.
pub open spec fn interleaved(cells: Seq<(u8, u8, u8)>) -> Seq<u8> {
    Seq::new(3 * cells.len(), |i: int| channel(cells[i / 3], i % 3))
}

/// The colour whose channels are those of `colour` taken from 255.
pub open spec fn complement(colour: (u8, u8, u8)) -> (u8, u8, u8) {
    ((255 - colour.0) as u8, (255 - colour.1) as u8, (255 - colour.2) as u8)
}

impl Buffer<(u8, u8, u8)> {
    /// Zips three byte grids into one grid of triples, with the shape of the
    /// first. The other two need a cell for each cell of the first.
    pub fn join(b1: Buffer<u8>, b2: Buffer<u8>, b3: Buffer<u8>) -> (r: Buffer<(u8, u8, u8)>)
        requires
            b1.wf(),
            b1@.len() <= b2@.len(),
            b1@.len() <= b3@.len(),
        ensures
            r.wf(),
            r.same_shape(&b1),
            r@.len() == b1@.len(),
            forall|i: int| 0 <= i < b1@.len() ==> #[trigger] r@[i] == (b1@[i], b2@[i], b3@[i]),
    {
        let n: usize = b1.len();
        let mut result: Vec<(u8, u8, u8)> = Vec::new();
        let mut i: usize = 0;
        while i < n
            invariant
                i <= n,
                n == b1@.len(),
                n <= b2@.len(),
                n <= b3@.len(),
                result@.len() == i,
                forall|j: int| 0 <= j < i ==> #[trigger] result@[j] == (b1@[j], b2@[j], b3@[j]),
            decreases n - i,
        {
            result.push((*b1.cell(i), *b2.cell(i), *b3.cell(i)));
            i += 1;
        }
        Buffer::with_shape_of(&b1, result)
    }

    /// The channels of all cells as one row of bytes, three for each cell.
    pub fn flatten(&self) -> (r: Vec<u8>)
        ensures
            r@ == interleaved(self@),
    {
        let n: usize = self.len();
        let mut bytes: Vec<u8> = Vec::new();
        let mut i: usize = 0;
        while i < n
            invariant
                i <= n,
                n == self@.len(),
                bytes@.len() == 3 * i,
                forall|j: int| 0 <= j < 3 * i ==> bytes@[j] == #[trigger] interleaved(self@)[j],
            decreases n - i,
        {
            let colour: (u8, u8, u8) = *self.cell(i);
            bytes.push(colour.0);
            bytes.push(colour.1);
            bytes.push(colour.2);
            i += 1;
        }
        assert(bytes@ =~= interleaved(self@));
        bytes
    }

    /// The grid in which each channel `v` of each cell is replaced by
    /// `255 - v`.
    pub fn inverse(&self) -> (r: Self)
        requires
            self.wf(),
        ensures
            r.wf(),
            r.same_shape(self),
            r@.len() == self@.len(),
            forall|i: int| 0 <= i < self@.len() ==> #[trigger] r@[i] == complement(self@[i]),
    {
        let n: usize = self.len();
        let mut result: Vec<(u8, u8, u8)> = Vec::new();
        let mut i: usize = 0;
        while i < n
            invariant
                i <= n,
                n == self@.len(),
                result@.len() == i,
                forall|j: int| 0 <= j < i ==> #[trigger] result@[j] == complement(self@[j]),
            decreases n - i,
        {
            let colour: (u8, u8, u8) = *self.cell(i);
            result.push((255 - colour.0, 255 - colour.1, 255 - colour.2));
            i += 1;
        }
        Buffer::with_shape_of(self, result)
    }
}

} // verus!
