//! Grids of unsigned counts: merging, recording hits, totals and the scaling
//! of counts to bytes.

use vstd::prelude::*;
use crate::buffer::{cell_index, Buffer};

verus! {

/// The cells of a count grid as mathematical integers.
pub open spec fn as_ints(s: Seq<u32>) -> Seq<int> {
    Seq::new(s.len(), |i: int| s[i] as int)
}

/// Cell-by-cell sum of two sequences of counts; it has the length of `a`.
pub open spec fn plus(a: Seq<int>, b: Seq<int>) -> Seq<int> {
    Seq::new(a.len(), |i: int| a[i] + b[i])
}

/// `n` cells that all hold zero.
pub open spec fn zeros(n: nat) -> Seq<int> {
    Seq::new(n, |i: int| 0int)
}

/// Every cell-by-cell sum of `a` and `b` fits into a cell.
pub open spec fn sums_fit(a: Seq<u32>, b: Seq<u32>) -> bool {
    forall|i: int| 0 <= i < a.len() ==> #[trigger] a[i] + b[i] <= u32::MAX
}

impl Buffer<u32> {
    /// The counts of this grid, row by row, as mathematical integers.
    pub open spec fn counts(&self) -> Seq<int> {
        as_ints(self@)
    }

    /// Says whether `other` can be added to this grid: both have the same
    /// shape and no cell would exceed `u32::MAX`.
    pub fn can_add(&self, other: &Buffer<u32>) -> (r: bool)
        requires
            self.wf(),
            other.wf(),
        ensures
            r == (self.same_shape(other) && sums_fit(self@, other@)),
    {
        if self.width() != other.width() || self.height() != other.height() {
            return false;
        }
        let n: usize = self.len();
        let mut i: usize = 0;
        while i < n
            invariant
                i <= n,
                n == self@.len(),
                n == other@.len(),
                forall|j: int| 0 <= j < i ==> #[trigger] self@[j] + other@[j] <= u32::MAX,
            decreases n - i,
        {
            if *self.cell(i) > u32::MAX - *other.cell(i) {
                assert(self@[i as int] + other@[i as int] > u32::MAX);
                return false;
            }
            i += 1;
        }
        true
    }

    /// Adds `other` to this grid cell by cell.
    pub fn add(&mut self, other: &Buffer<u32>)
        requires
            old(self).wf(),
            other.wf(),
            old(self).same_shape(other),
            sums_fit(old(self)@, other@),
        ensures
            final(self).wf(),
            final(self).same_shape(old(self)),
            final(self).counts() == plus(old(self).counts(), other.counts()),
            forall|i: int|
                0 <= i < old(self)@.len() ==> #[trigger] final(self)@[i] == old(self)@[i]
                    + other@[i],
    {
        let n: usize = self.len();
        let mut i: usize = 0;
        while i < n
            invariant
                i <= n,
                n == self@.len(),
                n == other@.len(),
                n == old(self)@.len(),
                self.wf(),
                self.same_shape(old(self)),
                sums_fit(old(self)@, other@),
                forall|j: int| 0 <= j < i ==> #[trigger] self@[j] == old(self)@[j] + other@[j],
                forall|j: int| i <= j < n ==> #[trigger] self@[j] == old(self)@[j],
            decreases n - i,
        {
            assert(old(self)@[i as int] + other@[i as int] <= u32::MAX);
            let sum: u32 = *self.cell(i) + *other.cell(i);
            self.set_cell(i, sum);
            i += 1;
        }
        assert(self.counts() =~= plus(old(self).counts(), other.counts()));
    }
}

/// `m` is the largest of the counts in `s`, or zero where `s` is empty.
pub open spec fn is_max(s: Seq<u32>, m: u32) -> bool {
    &&& forall|i: int| 0 <= i < s.len() ==> #[trigger] s[i] <= m
    &&& s.len() == 0 ==> m == 0
    &&& s.len() > 0 ==> exists|i: int| 0 <= i < s.len() && #[trigger] s[i] == m
}

/// The largest of the counts in `s`, or zero where `s` is empty.
pub open spec fn cell_max(s: Seq<u32>) -> u32
    decreases s.len(),
{
    if s.len() == 0 {
        0
    } else if s.last() > cell_max(s.drop_last()) {
        s.last()
    } else {
        cell_max(s.drop_last())
    }
}

/// `cell_max` bounds every count and, in a sequence that is not empty, is one
/// of the counts.
pub proof fn lemma_cell_max(s: Seq<u32>)
    ensures
        is_max(s, cell_max(s)),
        forall|m: u32| is_max(s, m) ==> m == cell_max(s),
    decreases s.len(),
{
    if s.len() > 0 {
        let front = s.drop_last();
        lemma_cell_max(front);
        assert forall|i: int| 0 <= i < s.len() implies #[trigger] s[i] <= cell_max(s) by {
            if i < front.len() {
                assert(front[i] == s[i]);
            }
        }
        if s.last() > cell_max(front) || front.len() == 0 {
            assert(s[s.len() - 1] == cell_max(s));
        } else {
            let w = choose|i: int| 0 <= i < front.len() && #[trigger] front[i] == cell_max(front);
            assert(s[w] == cell_max(s));
        }
    }
    assert forall|m: u32| is_max(s, m) implies m == cell_max(s) by {
        if s.len() > 0 {
            let a = choose|a: int| 0 <= a < s.len() && #[trigger] s[a] == m;
            let b = choose|b: int| 0 <= b < s.len() && #[trigger] s[b] == cell_max(s);
            assert(s[a] <= cell_max(s));
            assert(s[b] <= m);
        }
    }
}

/// The byte that stands for count `x` in a grid whose largest count is `max`.
pub open spec fn scaled_byte(x: int, max: int) -> int {
    x * 255 / max
}

/// Scaling maps the largest count to 255, keeps every byte within range and
/// keeps the order of the counts.
pub proof fn lemma_scaled_byte(x: int, y: int, max: int)
    requires
        0 <= x <= y <= max,
        0 < max,
    ensures
        0 <= scaled_byte(x, max) <= scaled_byte(y, max) <= 255,
        scaled_byte(max, max) == 255,
        scaled_byte(0, max) == 0,
{
    vstd::arithmetic::mul::lemma_mul_inequality(x, y, 255);
    vstd::arithmetic::mul::lemma_mul_inequality(y, max, 255);
    vstd::arithmetic::div_mod::lemma_div_is_ordered(x * 255, y * 255, max);
    vstd::arithmetic::div_mod::lemma_div_is_ordered(y * 255, max * 255, max);
    vstd::arithmetic::div_mod::lemma_div_is_ordered(0, x * 255, max);
    vstd::arithmetic::div_mod::lemma_div_multiples_vanish(255, max);
    assert(0int / max == 0) by (nonlinear_arith)
        requires
            0 < max,
    ;
    assert(0 * 255 == 0);
}

impl Buffer<u32> {
    /// The largest count of the grid; zero for a grid without cells.
    pub fn max_cell(&self) -> (m: u32)
        ensures
            m == cell_max(self@),
            is_max(self@, m),
    {
        let n: usize = self.len();
        let mut m: u32 = 0;
        let mut i: usize = 0;
        while i < n
            invariant
                i <= n,
                n == self@.len(),
                forall|j: int| 0 <= j < i ==> #[trigger] self@[j] <= m,
                i == 0 ==> m == 0,
                i > 0 ==> exists|j: int| 0 <= j < i && #[trigger] self@[j] == m,
            decreases n - i,
        {
            let c: u32 = *self.cell(i);
            if c > m || i == 0 {
                m = c;
            }
            i += 1;
        }
        proof {
            lemma_cell_max(self@);
        }
        m
    }

    /// Scales the counts to bytes: each count is multiplied by 255 and divided
    /// by the largest count, so that the largest count becomes 255.
    pub fn to_u8(&self) -> (r: Buffer<u8>)
        requires
            self.wf(),
            cell_max(self@) > 0,
        ensures
            r.wf(),
            r.same_shape(self),
            r@.len() == self@.len(),
            forall|i: int|
                0 <= i < self@.len() ==> #[trigger] r@[i] == scaled_byte(
                    self@[i] as int,
                    cell_max(self@) as int,
                ),
            forall|i: int|
                0 <= i < self@.len() && self@[i] == cell_max(self@) ==> #[trigger] r@[i] == 255,
            forall|i: int, j: int|
                0 <= i < self@.len() && 0 <= j < self@.len() && self@[i] <= self@[j]
                    ==> #[trigger] r@[i] <= #[trigger] r@[j],
    {
        let max: u32 = self.max_cell();
        let n: usize = self.len();
        let mut bytes: Vec<u8> = Vec::with_capacity(n);
        let mut i: usize = 0;
        while i < n
            invariant
                i <= n,
                n == self@.len(),
                0 < max,
                max == cell_max(self@),
                is_max(self@, max),
                bytes@.len() == i,
                forall|j: int|
                    0 <= j < i ==> #[trigger] bytes@[j] == scaled_byte(
                        self@[j] as int,
                        max as int,
                    ),
            decreases n - i,
        {
            let c: u32 = *self.cell(i);
            proof {
                lemma_scaled_byte(c as int, c as int, max as int);
            }
            let scaled: u64 = (c as u64) * 255 / (max as u64);
            bytes.push(scaled as u8);
            i += 1;
        }
        proof {
            assert forall|a: int, b: int|
                0 <= a < self@.len() && 0 <= b < self@.len() && self@[a]
                    <= self@[b] implies #[trigger] bytes@[a] <= #[trigger] bytes@[b] by {
                lemma_scaled_byte(self@[a] as int, self@[b] as int, max as int);
            }
            assert forall|a: int|
                0 <= a < self@.len() && self@[a] == max implies #[trigger] bytes@[a] == 255 by {
                lemma_scaled_byte(self@[a] as int, self@[a] as int, max as int);
            }
        }
        Buffer::with_shape_of(self, bytes)
    }
}

/// The sum of the counts in `s`.
pub open spec fn cell_total(s: Seq<u32>) -> int
    decreases s.len(),
{
    if s.len() == 0 {
        0
    } else {
        cell_total(s.drop_last()) + s.last()
    }
}

/// The sum of `n` counts is at most `n` times the largest value of a count.
pub proof fn lemma_cell_total_bound(s: Seq<u32>)
    ensures
        0 <= cell_total(s) <= s.len() * u32::MAX,
    decreases s.len(),
{
    if s.len() > 0 {
        lemma_cell_total_bound(s.drop_last());
        assert((s.len() - 1) * u32::MAX + u32::MAX == s.len() * u32::MAX) by (nonlinear_arith);
    }
}

impl Buffer<u32> {
    /// The number of samples that the grid holds: the sum of all its counts.
    pub fn total(&self) -> (r: u128)
        ensures
            r == cell_total(self@),
    {
        let n: usize = self.len();
        let mut sum: u128 = 0;
        let mut i: usize = 0;
        while i < n
            invariant
                i <= n,
                n == self@.len(),
                sum == cell_total(self@.take(i as int)),
            decreases n - i,
        {
            proof {
                let next = self@.take(i + 1);
                assert(next.drop_last() =~= self@.take(i as int));
                assert(next.last() == self@[i as int]);
                lemma_cell_total_bound(next);
                assert(next.len() * u32::MAX <= usize::MAX * u32::MAX) by (nonlinear_arith)
                    requires
                        next.len() <= usize::MAX,
                ;
                assert(usize::MAX * u32::MAX <= u64::MAX * u32::MAX) by (nonlinear_arith)
                    requires
                        usize::MAX <= u64::MAX,
                ;
            }
            sum = sum + (*self.cell(i) as u128);
            i += 1;
        }
        assert(self@.take(n as int) =~= self@);
        sum
    }

    /// Records one visit of weight `weight` at the cell `(x, y)`.
    pub fn hit(&mut self, x: usize, y: usize, weight: u32)
        requires
            old(self).wf(),
            x < old(self).width(),
            y < old(self).height(),
            old(self).at(x as int, y as int) + weight <= u32::MAX,
        ensures
            final(self).wf(),
            final(self).same_shape(old(self)),
            final(self)@ == old(self)@.update(
                cell_index(old(self).width() as int, x as int, y as int),
                (old(self).at(x as int, y as int) + weight) as u32,
            ),
    {
        let count: u32 = *self.get(x, y);
        self.set(x, y, count + weight);
    }
}

/// Adding two count grids of one shape gives the same cells in either order.
pub proof fn lemma_add_commutative(a: Buffer<u32>, b: Buffer<u32>)
    requires
        a.wf(),
        b.wf(),
        a.same_shape(&b),
    ensures
        plus(a.counts(), b.counts()) == plus(b.counts(), a.counts()),
{
    assert(plus(a.counts(), b.counts()) =~= plus(b.counts(), a.counts()));
}

/// Adding three count grids of one shape gives the same cells however the
/// additions are grouped.
pub proof fn lemma_add_associative(a: Buffer<u32>, b: Buffer<u32>, c: Buffer<u32>)
    requires
        a.wf(),
        b.wf(),
        c.wf(),
        a.same_shape(&b),
        b.same_shape(&c),
    ensures
        plus(plus(a.counts(), b.counts()), c.counts()) == plus(
            a.counts(),
            plus(b.counts(), c.counts()),
        ),
{
    assert(plus(plus(a.counts(), b.counts()), c.counts()) =~= plus(
        a.counts(),
        plus(b.counts(), c.counts()),
    ));
}

/// Adding a grid of zeros of the same shape, on either side, changes nothing.
pub proof fn lemma_add_zero_identity(a: Buffer<u32>, z: Buffer<u32>)
    requires
        a.wf(),
        z.wf(),
        a.same_shape(&z),
        z.counts() == zeros(z@.len()),
    ensures
        plus(a.counts(), z.counts()) == a.counts(),
        plus(z.counts(), a.counts()) == a.counts(),
        sums_fit(a@, z@),
        sums_fit(z@, a@),
{
    assert forall|i: int| 0 <= i < z@.len() implies z@[i] == 0 by {
        assert(as_ints(z@)[i] == z@[i] as int);
        assert(zeros(z@.len())[i] == 0);
    }
    assert(plus(a.counts(), z.counts()) =~= a.counts());
    assert(plus(z.counts(), a.counts()) =~= a.counts());
}

} // verus!
