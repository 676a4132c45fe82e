//! A rectangular numeric container for Jacobian and Hessian results.
//!
//! Rows of equal length over a `Scalar`; viewed in specifications as a
//! sequence of row sequences. Zero-construction and entry access are
//! all the drivers need of it.

use vstd::prelude::*;

use crate::scalar::Scalar;

verus! {

/// A dense matrix in row-major order: `self@[j][i]` is the entry in
/// row `j` and column `i`.
#[derive(Clone, Debug, PartialEq)]
pub struct Matrix<S: Scalar> {
    data: Vec<Vec<S>>,
    cols: usize,
}

impl<S: Scalar> View for Matrix<S> {
    type V = Seq<Seq<S>>;

    closed spec fn view(&self) -> Seq<Seq<S>> {
        self.data@.map_values(|row: Vec<S>| row@)
    }
}

impl<S: Scalar> Matrix<S> {
    /// The column count, also meaningful for a matrix of no rows.
    pub closed spec fn ncols(self) -> int {
        self.cols as int
    }

    /// Every row has exactly `ncols` entries.
    pub open spec fn wf(self) -> bool {
        forall|j: int| 0 <= j < self@.len() ==> (#[trigger] self@[j]).len() == self.ncols()
    }

    /// A `rows` by `cols` matrix of zeros.
    pub fn zeros(rows: usize, cols: usize) -> (m: Matrix<S>)
        ensures
            m.wf(),
            m@.len() == rows,
            m.ncols() == cols,
            forall|j: int, i: int|
                0 <= j < rows && 0 <= i < cols ==> #[trigger] m@[j][i] == S::zero_s(),
    {
        let mut data: Vec<Vec<S>> = Vec::new();
        while data.len() < rows
            invariant
                data@.len() <= rows,
                forall|j: int|
                    0 <= j < data@.len() ==> (#[trigger] data@[j])@.len() == cols && forall|i: int|
                        0 <= i < cols ==> data@[j]@[i] == S::zero_s(),
            decreases rows - data@.len(),
        {
            let mut row: Vec<S> = Vec::new();
            while row.len() < cols
                invariant
                    row@.len() <= cols,
                    forall|i: int| 0 <= i < row@.len() ==> row@[i] == S::zero_s(),
                decreases cols - row@.len(),
            {
                row.push(S::zero());
            }
            data.push(row);
        }
        let m = Matrix { data, cols };
        proof {
            assert forall|j: int| 0 <= j < rows implies (#[trigger] m@[j]).len() == cols
                && forall|i: int| 0 <= i < cols ==> m@[j][i] == S::zero_s() by {
                assert(m@[j] == m.data@[j]@);
            }
        }
        m
    }

    pub fn rows(&self) -> (r: usize)
        ensures
            r == self@.len(),
    {
        self.data.len()
    }

    pub fn cols(&self) -> (c: usize)
        ensures
            c == self.ncols(),
    {
        self.cols
    }

    pub fn get(&self, j: usize, i: usize) -> (v: S)
        requires
            self.wf(),
            j < self@.len(),
            i < self.ncols(),
        ensures
            v == self@[j as int][i as int],
    {
        proof {
            assert(self@[j as int] == self.data@[j as int]@);
        }
        self.data[j][i]
    }

    /// Replace the entry in row `j`, column `i`; everything else is
    /// kept.
    pub fn set(&mut self, j: usize, i: usize, v: S)
        requires
            old(self).wf(),
            j < old(self)@.len(),
            i < old(self).ncols(),
        ensures
            final(self).wf(),
            final(self).ncols() == old(self).ncols(),
            final(self)@ == old(self)@.update(j as int, old(self)@[j as int].update(i as int, v)),
    {
        proof {
            assert(old(self)@[j as int] == old(self).data@[j as int]@);
        }
        let mut row = self.data.remove(j);
        row.set(i, v);
        self.data.insert(j, row);
        proof {
            assert(self@ =~= old(self)@.update(j as int, old(self)@[j as int].update(i as int, v)));
        }
    }
}

} // verus!
