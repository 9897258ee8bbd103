//! A two-dimensional grid of cells, stored row by row.

use vstd::prelude::*;

verus! {

/// A `width` x `height` grid. The cell at column `x` and row `y` is stored at
/// position `y * width + x`.
pub struct Buffer<T> {
    width: usize,
    height: usize,
    buffer: Vec<T>,
}

impl<T> View for Buffer<T> {
    type V = Seq<T>;

    /// The cells in row-major order.
    closed spec fn view(&self) -> Seq<T> {
        self.buffer@
    }
}

/// Position of the cell `(x, y)` in the row-major storage of a grid that is
/// `width` cells wide.
pub open spec fn cell_index(width: int, x: int, y: int) -> int {
    y * width + x
}

/// Every cell of a grid has its own position inside the storage.
pub proof fn lemma_cell_index_in_range(width: int, height: int, x: int, y: int)
    requires
        0 <= x < width,
        0 <= y < height,
    ensures
        0 <= cell_index(width, x, y) < width * height,
        cell_index(width, x, y) / width == y,
        cell_index(width, x, y) % width == x,
{
    assert(0 <= y * width && y * width + width <= width * height) by (nonlinear_arith)
        requires
            0 <= y < height,
            0 < width,
    ;
    vstd::arithmetic::div_mod::lemma_fundamental_div_mod_converse(y * width + x, width, y, x);
}

impl<T> Buffer<T> {
    /// The storage holds exactly one cell for each position of the grid.
    pub open spec fn wf(&self) -> bool {
        self@.len() == self.width() * self.height()
    }

    /// The number of columns.
    pub closed spec fn spec_width(&self) -> usize {
        self.width
    }

    /// The number of rows.
    pub closed spec fn spec_height(&self) -> usize {
        self.height
    }

    /// The cell at column `x` and row `y`.
    pub open spec fn at(&self, x: int, y: int) -> T {
        self@[cell_index(self.width() as int, x, y)]
    }

    /// Two grids have the same number of columns and of rows.
    pub open spec fn same_shape<U>(&self, other: &Buffer<U>) -> bool {
        self.width() == other.width() && self.height() == other.height()
    }

    /// Builds a grid from its cells in row-major order. Succeeds exactly when
    /// the number of cells is `width * height`.
    pub fn from_vec(width: usize, height: usize, buffer: Vec<T>) -> (r: Option<Buffer<T>>)
        ensures
            r.is_some() <==> buffer@.len() == width * height,
            r matches Some(b) ==> b.wf() && b.width() == width && b.height() == height && b@
                == buffer@,
    {
        let cells: usize = buffer.len();
        match width.checked_mul(height) {
            Some(n) => {
                if cells == n {
                    Some(Buffer { width, height, buffer })
                } else {
                    None
                }
            },
            None => None,
        }
    }

    /// The cell at column `x` and row `y`.
    pub fn get(&self, x: usize, y: usize) -> (r: &T)
        requires
            self.wf(),
            x < self.width(),
            y < self.height(),
        ensures
            *r == self.at(x as int, y as int),
    {
        proof {
            assert(self.buffer@.len() == self.buffer.len());
            lemma_cell_index_in_range(self.width as int, self.height as int, x as int, y as int);
        }
        &self.buffer[y * self.width + x]
    }

    /// Replaces the cell at column `x` and row `y` by `t`.
    pub fn set(&mut self, x: usize, y: usize, t: T)
        requires
            old(self).wf(),
            x < old(self).width(),
            y < old(self).height(),
        ensures
            final(self).wf(),
            final(self).width() == old(self).width(),
            final(self).height() == old(self).height(),
            final(self)@ == old(self)@.update(
                cell_index(old(self).width() as int, x as int, y as int),
                t,
            ),
    {
        proof {
            assert(self.buffer@.len() == self.buffer.len());
            lemma_cell_index_in_range(self.width as int, self.height as int, x as int, y as int);
        }
        let i: usize = y * self.width + x;
        self.buffer.set(i, t);
    }

    /// A grid of the given shape and cells.
    pub(crate) fn from_cells(width: usize, height: usize, buffer: Vec<T>) -> (r: Buffer<T>)
        requires
            buffer@.len() == width * height,
        ensures
            r.wf(),
            r.width() == width,
            r.height() == height,
            r@ == buffer@,
    {
        Buffer { width, height, buffer }
    }

    /// A grid with the shape of `shape` and the given cells.
    pub(crate) fn with_shape_of<U>(shape: &Buffer<U>, buffer: Vec<T>) -> (r: Buffer<T>)
        requires
            shape.wf(),
            buffer@.len() == shape@.len(),
        ensures
            r.wf(),
            r.width() == shape.width(),
            r.height() == shape.height(),
            r@ == buffer@,
    {
        Buffer { width: shape.width, height: shape.height, buffer }
    }

    /// Number of cells in the storage.
    pub(crate) fn len(&self) -> (r: usize)
        ensures
            r == self@.len(),
    {
        self.buffer.len()
    }

    /// The cell at position `i` of the row-major storage.
    pub(crate) fn cell(&self, i: usize) -> (r: &T)
        requires
            i < self@.len(),
        ensures
            *r == self@[i as int],
    {
        &self.buffer[i]
    }

    /// Replaces the cell at position `i` of the row-major storage.
    pub(crate) fn set_cell(&mut self, i: usize, t: T)
        requires
            i < old(self)@.len(),
        ensures
            final(self).wf() == old(self).wf(),
            final(self).width() == old(self).width(),
            final(self).height() == old(self).height(),
            final(self)@ == old(self)@.update(i as int, t),
    {
        self.buffer.set(i, t);
    }

    /// The cells in row-major order.
    pub fn buffer(&self) -> (r: &Vec<T>)
        ensures
            r@ == self@,
    {
        &self.buffer
    }

    /// The number of columns.
    #[verifier::when_used_as_spec(spec_width)]
    pub fn width(&self) -> (r: usize)
        ensures
            r == self.width(),
    {
        self.width
    }

    /// The number of rows.
    #[verifier::when_used_as_spec(spec_height)]
    pub fn height(&self) -> (r: usize)
        ensures
            r == self.height(),
    {
        self.height
    }
}

impl<T: Clone> Clone for Buffer<T> {
    /// A grid of the same shape whose cells are clones of this grid's cells.
    fn clone(&self) -> (r: Buffer<T>)
        ensures
            r.wf() == self.wf(),
            r.width() == self.width(),
            r.height() == self.height(),
            r@.len() == self@.len(),
            forall|i: int| 0 <= i < self@.len() ==> cloned(self@[i], #[trigger] r@[i]),
    {
        Buffer { width: self.width, height: self.height, buffer: self.buffer.clone() }
    }
}

impl<T: Default + Clone> Buffer<T> {
    /// A grid in which every cell is a clone of `T::default()`.
    pub fn new_default(width: usize, height: usize) -> (r: Buffer<T>)
        requires
            width * height <= usize::MAX,
        ensures
            r.wf(),
            r.width() == width,
            r.height() == height,
            r@.len() == width * height,
            exists|d: T|
                call_ensures(T::default, (), d) && forall|i: int|
                    0 <= i < r@.len() ==> cloned(d, #[trigger] r@[i]),
    {
        let d = T::default();
        let buffer = vec![d; width * height];
        Buffer { width, height, buffer }
    }
}

} // verus!
