//! The stored form of a count grid: four bytes for each cell, least
//! significant byte first, row by row, with nothing before or after.

use vstd::prelude::*;
use crate::buffer::Buffer;

verus! {

/// The four bytes that stand for `value`, least significant first.
pub open spec fn le_bytes(value: u32) -> Seq<u8> {
    seq![
        (value % 256) as u8,
        (value / 256 % 256) as u8,
        (value / 65536 % 256) as u8,
        (value / 16777216) as u8,
    ]
}

/// The count that four bytes stand for, least significant first.
pub open spec fn from_le_bytes(b0: u8, b1: u8, b2: u8, b3: u8) -> u32 {
    (b0 + 256 * b1 + 65536 * b2 + 16777216 * b3) as u32
}

/// The stored form of the counts `cells`.
pub open spec fn encoded(cells: Seq<u32>) -> Seq<u8> {
    Seq::new(4 * cells.len(), |i: int| le_bytes(cells[i / 4])[i % 4])
}

/// The counts that `bytes` stand for, four bytes to a count; bytes left over
/// at the end stand for nothing.
pub open spec fn decoded(bytes: Seq<u8>) -> Seq<u32> {
    Seq::new(
        bytes.len() / 4,
        |i: int| from_le_bytes(bytes[4 * i], bytes[4 * i + 1], bytes[4 * i + 2], bytes[4 * i + 3]),
    )
}

/// Why stored bytes were not taken for a grid.
#[derive(Clone, Copy, Debug, PartialEq, Eq, Structural)]
pub enum LoadError {
    /// The bytes are not as many as a grid of the declared shape takes.
    CorruptPersistedBuffer { expected: usize, actual: usize },
    /// A grid of the declared shape would take more bytes than can be
    /// addressed.
    TooLarge { width: usize, height: usize },
}

/// What `load` makes of `bytes` for a grid declared `width` by `height`: the
/// counts, or the reason why there are none.
pub open spec fn loaded(width: usize, height: usize, bytes: Seq<u8>) -> Result<
    Seq<u32>,
    LoadError,
> {
    if width * height * 4 > usize::MAX {
        Err(LoadError::TooLarge { width, height })
    } else if bytes.len() != width * height * 4 {
        Err(
            LoadError::CorruptPersistedBuffer {
                expected: (width * height * 4) as usize,
                actual: bytes.len() as usize,
            },
        )
    } else {
        Ok(decoded(bytes))
    }
}

/// Four bytes stand for the count that they were made from.
pub proof fn lemma_le_bytes_roundtrip(value: u32)
    ensures
        le_bytes(value).len() == 4,
        from_le_bytes(
            le_bytes(value)[0],
            le_bytes(value)[1],
            le_bytes(value)[2],
            le_bytes(value)[3],
        ) == value,
{
}

/// Decoding the stored form of any counts gives the counts back.
pub proof fn lemma_decode_encode(cells: Seq<u32>)
    ensures
        encoded(cells).len() == 4 * cells.len(),
        decoded(encoded(cells)) == cells,
{
    let bytes = encoded(cells);
    assert forall|i: int| 0 <= i < cells.len() implies decoded(bytes)[i] == cells[i] by {
        lemma_le_bytes_roundtrip(cells[i]);
        assert(bytes[4 * i] == le_bytes(cells[i])[0]);
        assert(bytes[4 * i + 1] == le_bytes(cells[i])[1]);
        assert(bytes[4 * i + 2] == le_bytes(cells[i])[2]);
        assert(bytes[4 * i + 3] == le_bytes(cells[i])[3]);
    }
    assert(decoded(bytes) =~= cells);
}

/// Loading what was stored of a grid, with the grid's own shape, gives the
/// grid's counts back.
pub proof fn lemma_load_store(grid: Buffer<u32>)
    requires
        grid.wf(),
        grid@.len() * 4 <= usize::MAX,
    ensures
        loaded(grid.width(), grid.height(), encoded(grid@)) == Ok::<Seq<u32>, LoadError>(grid@),
{
    lemma_decode_encode(grid@);
}

impl Buffer<u32> {
    /// The stored form of the grid.
    pub fn store(&self) -> (bytes: Vec<u8>)
        ensures
            bytes@ == encoded(self@),
    {
        let n: usize = self.len();
        let mut bytes: Vec<u8> = Vec::new();
        let mut i: usize = 0;
        while i < n
            invariant
                i <= n,
                n == self@.len(),
                bytes@.len() == 4 * i,
                forall|j: int| 0 <= j < 4 * i ==> bytes@[j] == #[trigger] encoded(self@)[j],
            decreases n - i,
        {
            let value: u32 = *self.cell(i);
            bytes.push((value % 256) as u8);
            bytes.push((value / 256 % 256) as u8);
            bytes.push((value / 65536 % 256) as u8);
            bytes.push((value / 16777216) as u8);
            i += 1;
        }
        assert(bytes@ =~= encoded(self@));
        bytes
    }

    /// Reads a grid of the declared shape from its stored form. Succeeds
    /// exactly when there are `width * height * 4` bytes.
    pub fn load(width: usize, height: usize, bytes: &[u8]) -> (r: Result<Buffer<u32>, LoadError>)
        ensures
            match r {
                Ok(grid) => grid.wf() && grid.width() == width && grid.height() == height
                    && loaded(width, height, bytes@) == Ok::<Seq<u32>, LoadError>(grid@),
                Err(e) => loaded(width, height, bytes@) == Err::<Seq<u32>, LoadError>(e),
            },
            r.is_ok() <==> bytes@.len() == width * height * 4,
    {
        let actual: usize = bytes.len();
        let cells: usize = match width.checked_mul(height) {
            Some(n) => n,
            None => {
                assert(width * height * 4 >= width * height) by (nonlinear_arith);
                return Err(LoadError::TooLarge { width, height });
            },
        };
        let expected: usize = match cells.checked_mul(4) {
            Some(n) => n,
            None => {
                return Err(LoadError::TooLarge { width, height });
            },
        };
        if actual != expected {
            return Err(LoadError::CorruptPersistedBuffer { expected, actual });
        }
        let mut counts: Vec<u32> = Vec::with_capacity(cells);
        let mut i: usize = 0;
        while i < cells
            invariant
                i <= cells,
                4 * cells <= usize::MAX,
                bytes@.len() == 4 * cells,
                counts@.len() == i,
                forall|j: int| 0 <= j < i ==> counts@[j] == #[trigger] decoded(bytes@)[j],
            decreases cells - i,
        {
            let b0: u8 = bytes[4 * i];
            let b1: u8 = bytes[4 * i + 1];
            let b2: u8 = bytes[4 * i + 2];
            let b3: u8 = bytes[4 * i + 3];
            let value: u32 = (b0 as u32) + 256 * (b1 as u32) + 65536 * (b2 as u32) + 16777216 * (
            b3 as u32);
            counts.push(value);
            i += 1;
        }
        assert(counts@ =~= decoded(bytes@));
        Ok(Buffer::from_cells(width, height, counts))
    }
}

} // verus!
