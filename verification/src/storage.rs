//! Dense storage for weights and activations.
//!
//! Every cell is the bit pattern of an IEEE 754 single-precision number. The
//! containers are those of `nalgebra`; this module states, without proof, what
//! the few operations used on them do to their contents.

use nalgebra::{DMatrix, DVector};
use vstd::prelude::*;

verus! {

/// Bit pattern of positive zero.
pub const ZERO: u32 = 0;

/// Bit pattern of one.
pub const ONE: u32 = 0x3F80_0000;

/// A dense matrix of bit patterns, held in a `nalgebra::DMatrix<u32>`.
///
/// The verifier does not look inside: what a matrix holds is known through
/// `cells` alone, and only from the contracts of the operations below.
#[verifier::external_body]
pub struct WeightMatrix {
    inner: DMatrix<u32>,
}

/// A column of bit patterns, held in a `nalgebra::DVector<u32>`.
///
/// The verifier does not look inside: what a column holds is known through
/// `entries` alone, and only from the contracts of the operations below.
#[verifier::external_body]
pub struct StateVector {
    inner: DVector<u32>,
}

/// The cells of a matrix, row by row: `cells(m)[r][c]` is the cell in row `r`
/// and column `c`.
pub uninterp spec fn cells(m: WeightMatrix) -> Seq<Seq<u32>>;

/// The entries of a column, top to bottom.
pub uninterp spec fn entries(v: StateVector) -> Seq<u32>;

/// Whether a buffer of `rows * cols` four-byte cells stays within the largest
/// allocation the machine admits.
pub open spec fn storable(rows: nat, cols: nat) -> bool {
    rows * cols * 4 <= isize::MAX
}

/// Decides whether a square matrix of `n` rows can be stored.
pub fn can_store_square(n: usize) -> (ok: bool)
    ensures
        ok == storable(n as nat, n as nat),
{
    if n > 0xFFFF_FFFF {
        assert(n * n * 4 > isize::MAX) by (nonlinear_arith)
            requires
                n >= 0x1_0000_0000,
                isize::MAX <= 0x7FFF_FFFF_FFFF_FFFF,
        ;
        false
    } else {
        assert(n * n * 4 <= 0xFFFF_FFFF * 0xFFFF_FFFF * 4) by (nonlinear_arith)
            requires
                0 <= n <= 0xFFFF_FFFF,
        ;
        let cells: u128 = (n as u128) * (n as u128) * 4;
        cells <= isize::MAX as u128
    }
}

/// The cells of a square matrix of `n` rows that holds nothing but zeros.
pub open spec fn zero_matrix(n: nat) -> Seq<Seq<u32>> {
    Seq::new(n, |r: int| Seq::new(n, |c: int| ZERO))
}

/// Whether every row of `rows` has `width` cells.
pub open spec fn rectangular(rows: Seq<Seq<u32>>, width: nat) -> bool {
    forall|r: int| 0 <= r < rows.len() ==> (#[trigger] rows[r]).len() == width
}

/// `rows` with an extra row of `width` cells, all `fill`, at index `at`.
pub open spec fn with_row(rows: Seq<Seq<u32>>, at: int, width: nat, fill: u32) -> Seq<Seq<u32>> {
    Seq::new(
        rows.len() + 1,
        |r: int|
            if r < at {
                rows[r]
            } else if r == at {
                Seq::new(width, |c: int| fill)
            } else {
                rows[r - 1]
            },
    )
}

/// `rows` with an extra cell `fill` at index `at` of every row.
pub open spec fn with_column(rows: Seq<Seq<u32>>, at: int, fill: u32) -> Seq<Seq<u32>> {
    Seq::new(rows.len(), |r: int| rows[r].insert(at, fill))
}

/// A matrix one row shorter than a storable square can be stored.
pub(crate) proof fn lemma_storable_less(n: nat)
    requires
        storable(n + 1, n + 1),
    ensures
        storable(n + 1, n),
        storable(n, n),
{
    assert((n + 1) * n <= (n + 1) * (n + 1)) by (nonlinear_arith);
    assert(n * n <= (n + 1) * n) by (nonlinear_arith);
}

/// A column as long as the side of a storable square can be stored.
pub(crate) proof fn lemma_storable_column(n: nat)
    requires
        storable(n, n),
    ensures
        storable(n, 1),
{
    assert(n * n >= n * 1) by (nonlinear_arith);
}

/// A square matrix that can be stored has a side that can be counted.
pub(crate) proof fn lemma_storable_fits(n: nat)
    requires
        storable(n, n),
    ensures
        n <= usize::MAX,
{
    assert(n * n >= n) by (nonlinear_arith);
    assert(n * n * 4 >= n);
}

impl WeightMatrix {
    /// `DMatrix::zeros(n, n)`: a square matrix of `n` rows whose cells are all
    /// zero.
    #[verifier::external_body]
    pub(crate) fn zeros(n: usize) -> (m: WeightMatrix)
        requires
            storable(n as nat, n as nat),
        ensures
            cells(m) == zero_matrix(n as nat),
    {
        WeightMatrix { inner: DMatrix::zeros(n, n) }
    }

    /// `Matrix::nrows`: the number of rows.
    #[verifier::external_body]
    pub(crate) fn nrows(&self) -> (n: usize)
        ensures
            n == cells(*self).len(),
    {
        self.inner.nrows()
    }

    /// `Matrix::index` by a (row, column) pair: the cell at that place.
    #[verifier::external_body]
    pub(crate) fn get(&self, row: usize, col: usize) -> (cell: u32)
        requires
            row < cells(*self).len(),
            col < cells(*self)[row as int].len(),
        ensures
            cell == cells(*self)[row as int][col as int],
    {
        self.inner[(row, col)]
    }

    /// `Matrix::index_mut` by a (row, column) pair, then a store: that cell
    /// becomes `cell` and no other changes.
    #[verifier::external_body]
    pub(crate) fn set(&mut self, row: usize, col: usize, cell: u32)
        requires
            row < cells(*old(self)).len(),
            col < cells(*old(self))[row as int].len(),
        ensures
            cells(*final(self)) == cells(*old(self)).update(
                row as int,
                cells(*old(self))[row as int].update(col as int, cell),
            ),
    {
        self.inner[(row, col)] = cell;
    }

    /// `Matrix::insert_row`: a new row filled with `fill` stands at index
    /// `at`; the rows that were at `at` and below move down by one.
    #[verifier::external_body]
    pub(crate) fn insert_row(self, at: usize, fill: u32) -> (m: WeightMatrix)
        requires
            cells(self).len() > 0,
            rectangular(cells(self), cells(self)[0].len()),
            at <= cells(self).len(),
            storable(cells(self).len() + 1, cells(self)[0].len()),
        ensures
            cells(m) == with_row(cells(self), at as int, cells(self)[0].len(), fill),
    {
        WeightMatrix { inner: self.inner.insert_row(at, fill) }
    }

    /// `Matrix::insert_column`: a new column filled with `fill` stands at
    /// index `at`; the columns that were at `at` and to the right move right
    /// by one.
    #[verifier::external_body]
    pub(crate) fn insert_column(self, at: usize, fill: u32) -> (m: WeightMatrix)
        requires
            cells(self).len() > 0,
            rectangular(cells(self), cells(self)[0].len()),
            at <= cells(self)[0].len(),
            storable(cells(self).len(), cells(self)[0].len() + 1),
        ensures
            cells(m) == with_column(cells(self), at as int, fill),
    {
        WeightMatrix { inner: self.inner.insert_column(at, fill) }
    }

    /// `Clone::clone` of the matrix: a second matrix with the same cells.
    #[verifier::external_body]
    pub(crate) fn duplicate(&self) -> (m: WeightMatrix)
        ensures
            cells(m) == cells(*self),
    {
        WeightMatrix { inner: self.inner.clone() }
    }
}

impl StateVector {
    /// `DVector::zeros(n)`: a column of `n` entries, all zero.
    #[verifier::external_body]
    pub(crate) fn zeros(n: usize) -> (v: StateVector)
        requires
            storable(n as nat, 1),
        ensures
            entries(v) == Seq::new(n as nat, |i: int| ZERO),
    {
        StateVector { inner: DVector::zeros(n) }
    }

    /// `Matrix::len`: the number of entries.
    #[verifier::external_body]
    pub(crate) fn len(&self) -> (n: usize)
        ensures
            n == entries(*self).len(),
    {
        self.inner.len()
    }

    /// `Matrix::index` by a position: the entry at that place.
    #[verifier::external_body]
    pub(crate) fn get(&self, at: usize) -> (entry: u32)
        requires
            at < entries(*self).len(),
        ensures
            entry == entries(*self)[at as int],
    {
        self.inner[at]
    }

    /// `Matrix::index_mut` by a position, then a store: that entry becomes
    /// `entry` and no other changes.
    #[verifier::external_body]
    pub(crate) fn set(&mut self, at: usize, entry: u32)
        requires
            at < entries(*old(self)).len(),
        ensures
            entries(*final(self)) == entries(*old(self)).update(at as int, entry),
    {
        self.inner[at] = entry;
    }
}

} // verus!
