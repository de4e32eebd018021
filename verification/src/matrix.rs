//! Fixed-size numeric grid: a four-by-four matrix of scalars with exact
//! value equality.
//!
//! The matrix is a verified storage primitive only: no linear algebra is
//! offered yet.  A constructor grid smaller than four-by-four is padded
//! with zeros, so every matrix is exactly four-by-four; equality is exact
//! per cell, unlike the tolerance comparisons of tuples and colors.

use crate::fixed::Scalar;
use vstd::prelude::*;

verus! {

/// Row and column count of every matrix.
pub const MATRIX_DIM: usize = 4;

/// A four-by-four grid of scalars, immutable after construction.
#[derive(Debug)]
pub struct Matrix {
    m: Vec<Vec<Scalar>>,
}

/// A nested vector of scalars as a nested sequence.
pub open spec fn grid_of(rows: Seq<Vec<Scalar>>) -> Seq<Seq<Scalar>> {
    rows.map_values(|row: Vec<Scalar>| row@)
}

/// The cells of a matrix as a nested sequence.
pub closed spec fn spec_grid(m: Matrix) -> Seq<Seq<Scalar>> {
    grid_of(m.m@)
}

/// The stored grid is exactly four-by-four.
pub open spec fn spec_wf(m: Matrix) -> bool {
    &&& spec_grid(m).len() == MATRIX_DIM
    &&& forall|i: int|
        0 <= i < MATRIX_DIM ==> (#[trigger] spec_grid(m)[i]).len() == MATRIX_DIM
}

/// The cell a constructor grid puts at `(i, j)`: the supplied value
/// where the grid covers the position, zero beyond it.
pub open spec fn spec_padded_cell(rows: Seq<Seq<Scalar>>, i: int, j: int) -> Scalar {
    if 0 <= i < rows.len() && 0 <= j < rows[i].len() {
        rows[i][j]
    } else {
        Scalar { units: 0 }
    }
}

impl Matrix {
    /// A matrix from a grid of at most four rows of at most four cells;
    /// positions the grid does not cover are zero.
    pub fn new(rows: Vec<Vec<Scalar>>) -> (r: Matrix)
        requires
            rows@.len() <= MATRIX_DIM,
            forall|i: int| 0 <= i < rows@.len() ==> (#[trigger] rows@[i])@.len() <= MATRIX_DIM,
        ensures
            spec_wf(r),
            forall|i: int, j: int|
                0 <= i < MATRIX_DIM && 0 <= j < MATRIX_DIM ==> #[trigger] spec_grid(r)[i][j]
                    == spec_padded_cell(grid_of(rows@), i, j),
    {
        let mut m: Vec<Vec<Scalar>> = Vec::new();
        let mut i: usize = 0;
        while i < MATRIX_DIM
            invariant
                i <= MATRIX_DIM,
                m@.len() == i,
                rows@.len() <= MATRIX_DIM,
                forall|a: int| 0 <= a < rows@.len() ==> (#[trigger] rows@[a])@.len() <= MATRIX_DIM,
                forall|a: int| 0 <= a < i ==> (#[trigger] m@[a])@.len() == MATRIX_DIM,
                forall|a: int, b: int|
                    0 <= a < i && 0 <= b < MATRIX_DIM ==> (#[trigger] m@[a]@[b])
                        == spec_padded_cell(grid_of(rows@), a, b),
            decreases MATRIX_DIM - i,
        {
            let mut row: Vec<Scalar> = Vec::new();
            let mut j: usize = 0;
            while j < MATRIX_DIM
                invariant
                    j <= MATRIX_DIM,
                    i < MATRIX_DIM,
                    row@.len() == j,
                    rows@.len() <= MATRIX_DIM,
                    forall|a: int|
                        0 <= a < rows@.len() ==> (#[trigger] rows@[a])@.len() <= MATRIX_DIM,
                    forall|b: int|
                        0 <= b < j ==> #[trigger] row@[b] == spec_padded_cell(
                            grid_of(rows@),
                            i as int,
                            b,
                        ),
                decreases MATRIX_DIM - j,
            {
                let cell: Scalar = if i < rows.len() && j < rows[i].len() {
                    rows[i][j]
                } else {
                    Scalar::zero()
                };
                row.push(cell);
                j = j + 1;
            }
            m.push(row);
            i = i + 1;
        }
        Matrix { m }
    }

    /// The cell at `(row, col)`; the position must be on the matrix.
    pub fn get(&self, row: usize, col: usize) -> (r: Scalar)
        requires
            spec_wf(*self),
            row < MATRIX_DIM,
            col < MATRIX_DIM,
        ensures
            r == spec_grid(*self)[row as int][col as int],
    {
        proof {
            assert(spec_grid(*self).len() == self.m@.len());
            assert(spec_grid(*self)[row as int] == self.m@[row as int]@);
        }
        self.m[row][col]
    }

    /// Row and column count, always four by four.
    pub fn dimensions(&self) -> (r: (usize, usize))
        requires
            spec_wf(*self),
        ensures
            r.0 == MATRIX_DIM && r.1 == MATRIX_DIM,
    {
        proof {
            assert(spec_grid(*self).len() == self.m@.len());
            assert(spec_grid(*self)[0] == self.m@[0]@);
        }
        (self.m.len(), self.m[0].len())
    }
}

/// Two matrices built from identical constructor grids hold identical
/// cells, so they compare equal.
pub proof fn lemma_same_grid_same_matrix(g: Seq<Seq<Scalar>>, a: Matrix, b: Matrix)
    requires
        spec_wf(a),
        spec_wf(b),
        forall|i: int, j: int|
            0 <= i < MATRIX_DIM && 0 <= j < MATRIX_DIM ==> #[trigger] spec_grid(a)[i][j]
                == spec_padded_cell(g, i, j),
        forall|i: int, j: int|
            0 <= i < MATRIX_DIM && 0 <= j < MATRIX_DIM ==> #[trigger] spec_grid(b)[i][j]
                == spec_padded_cell(g, i, j),
    ensures
        spec_grid(a) == spec_grid(b),
{
    assert(spec_grid(a) =~~= spec_grid(b));
}

/// Exact equality: equal dimensions and every cell pairwise identical.
impl PartialEq for Matrix {
    fn eq(&self, other: &Matrix) -> (r: bool) {
        if self.m.len() != other.m.len() {
            return false;
        }
        let mut i: usize = 0;
        while i < self.m.len()
            invariant
                i <= self.m@.len(),
                self.m@.len() == other.m@.len(),
                forall|a: int| 0 <= a < i ==> (#[trigger] spec_grid(*self)[a]) == spec_grid(
                    *other,
                )[a],
            decreases self.m@.len() - i,
        {
            if self.m[i].len() != other.m[i].len() {
                proof {
                    assert(spec_grid(*self)[i as int].len() != spec_grid(*other)[i as int].len());
                }
                return false;
            }
            let mut j: usize = 0;
            while j < self.m[i].len()
                invariant
                    i < self.m@.len(),
                    self.m@.len() == other.m@.len(),
                    j <= self.m@[i as int]@.len(),
                    self.m@[i as int]@.len() == other.m@[i as int]@.len(),
                    forall|b: int|
                        0 <= b < j ==> (#[trigger] spec_grid(*self)[i as int][b]) == spec_grid(
                            *other,
                        )[i as int][b],
                decreases self.m@[i as int]@.len() - j,
            {
                if self.m[i][j] != other.m[i][j] {
                    proof {
                        assert(spec_grid(*self)[i as int][j as int] != spec_grid(
                            *other,
                        )[i as int][j as int]);
                    }
                    return false;
                }
                j = j + 1;
            }
            proof {
                assert(spec_grid(*self)[i as int] =~= spec_grid(*other)[i as int]);
            }
            i = i + 1;
        }
        proof {
            assert(spec_grid(*self) =~~= spec_grid(*other));
        }
        true
    }
}

impl vstd::std_specs::cmp::PartialEqSpecImpl for Matrix {
    open spec fn obeys_eq_spec() -> bool {
        true
    }

    open spec fn eq_spec(&self, other: &Matrix) -> bool {
        spec_grid(*self) == spec_grid(*other)
    }
}

} // verus!
