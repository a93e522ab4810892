//! The dense matrix engine.
//!
//! A [`Matrix`] is a rectangular, row-major grid of elements of any
//! [`Group`]; its model is the sequence of its rows' models, and every
//! contract is stated over the spec-level grid algebra of [`crate::grids`].
//! Construction rejects ragged or empty grids, never truncating them.

use vstd::assert_seqs_equal;
use vstd::prelude::*;

use crate::grids::{
    det_expand, det_term, grid_cofactor, grid_compat, grid_det, grid_inv, grid_map2, grid_minor,
    grid_mul, grid_pow, grid_wf,
};
use crate::group::{ring_ops, zero_elem, Group, Operation, OperationType};

verus! {

/// Why a matrix operation was refused.
#[derive(Clone, Copy, Debug, PartialEq, Eq, Structural)]
pub enum MatrixError {
    /// The operand dimensions do not fit the requested operation.
    Shape,
    /// The element type does not support a needed operation kind.
    Capability,
    /// The matrix to invert has a zero determinant.
    Singular,
    /// An index lies outside the matrix.
    Bounds,
}

/// A dense `rows x cols` grid of group elements.
pub struct Matrix<T: Group> {
    /// `(rows, cols)`, both at least 1.
    size: (usize, usize),
    /// The grid, row-major; every row has exactly `size.1` elements.
    matrix: Vec<Vec<T>>,
}

impl<T: Group> View for Matrix<T> {
    type V = Seq<Seq<T::V>>;

    closed spec fn view(&self) -> Seq<Seq<T::V>> {
        self.matrix@.map_values(|row: Vec<T>| row@.map_values(|x: T| x@))
    }
}

impl<T: Group> Matrix<T> {
    /// The struct invariant: the recorded size matches the grid and the
    /// model is a well-formed grid.
    pub closed spec fn wf(&self) -> bool {
        &&& grid_wf::<T>(self@)
        &&& self.size.0 == self@.len()
        &&& self.size.1 == self@[0].len()
    }

    /// The recorded `(rows, cols)`.
    pub closed spec fn sp_size(&self) -> (usize, usize) {
        self.size
    }

    /// A well-formed matrix models a well-formed grid of its recorded size.
    pub proof fn lemma_wf(&self)
        requires
            self.wf(),
        ensures
            grid_wf::<T>(self@),
            self.sp_size().0 == self@.len(),
            self.sp_size().1 == self@[0].len(),
    {
    }

    /// Wrap a caller-supplied grid.  The grid must be non-empty and
    /// rectangular with at least one column; a ragged or empty grid is
    /// refused with a shape error, never truncated.
    pub fn from_vec(matrix: Vec<Vec<T>>) -> (r: Result<Self, MatrixError>)
        ensures
            (r is Ok) == (matrix@.len() >= 1 && matrix@[0]@.len() >= 1 && forall|i: int|
                0 <= i < matrix@.len() ==> (#[trigger] matrix@[i])@.len() == matrix@[0]@.len()),
            r is Ok ==> {
                let m = r->Ok_0;
                &&& m@ == matrix@.map_values(|row: Vec<T>| row@.map_values(|x: T| x@))
                &&& m.sp_size() == (matrix@.len() as usize, matrix@[0]@.len() as usize)
                &&& ((forall|i: int, j: int|
                    0 <= i < matrix@.len() && 0 <= j < matrix@[0]@.len() ==> T::sp_wf(
                        #[trigger] matrix@[i]@[j]@,
                    )) ==> m.wf())
            },
            r is Err ==> r->Err_0 == MatrixError::Shape,
    {
        if matrix.len() == 0 {
            return Err(MatrixError::Shape);
        }
        let cols = matrix[0].len();
        if cols == 0 {
            return Err(MatrixError::Shape);
        }
        let mut i: usize = 0;
        while i < matrix.len()
            invariant
                0 <= i <= matrix@.len(),
                cols == matrix@[0]@.len(),
                forall|p: int| 0 <= p < i ==> (#[trigger] matrix@[p])@.len() == cols,
            decreases matrix@.len() - i,
        {
            if matrix[i].len() != cols {
                return Err(MatrixError::Shape);
            }
            i += 1;
        }
        let rows = matrix.len();
        let m = Matrix { size: (rows, cols), matrix };
        proof {
            assert forall|i: int| 0 <= i < m@.len() implies (#[trigger] m@[i]).len()
                == m@[0].len() by {
                assert(m@[i] == m.matrix@[i]@.map_values(|x: T| x@));
            }
        }
        Ok(m)
    }

    /// Whether the matrix has as many rows as columns.
    pub fn square(&self) -> (r: bool)
        requires
            self.wf(),
        ensures
            r == (self@.len() == self@[0].len()),
    {
        self.size.0 == self.size.1
    }

    /// The number of rows.
    pub fn rows(&self) -> (r: usize)
        requires
            self.wf(),
        ensures
            r == self@.len(),
    {
        self.size.0
    }

    /// The number of columns.
    pub fn cols(&self) -> (r: usize)
        requires
            self.wf(),
        ensures
            r == self@[0].len(),
    {
        self.size.1
    }

    /// Read the cell at row `i`, column `j`.
    pub fn get(&self, i: usize, j: usize) -> (r: &T)
        requires
            self.wf(),
            i < self@.len(),
            j < self@[0].len(),
        ensures
            r@ == self@[i as int][j as int],
            T::sp_wf(r@),
    {
        proof {
            assert(self@[i as int] == self.matrix@[i as int]@.map_values(|x: T| x@));
        }
        &self.matrix[i][j]
    }

    /// Read row `i` as a slice of elements.
    pub fn row(&self, i: usize) -> (r: &Vec<T>)
        requires
            self.wf(),
            i < self@.len(),
        ensures
            r@.map_values(|x: T| x@) == self@[i as int],
            r@.len() == self@[0].len(),
    {
        proof {
            self.lemma_rows();
            assert(self.matrix@[i as int]@.len() == self@[i as int].len());
        }
        &self.matrix[i]
    }

    /// Replace row `i` whole.  The new row must have the matrix's column
    /// count, so rectangularity is preserved.
    pub fn set_row(&mut self, i: usize, row: Vec<T>)
        requires
            old(self).wf(),
            i < old(self)@.len(),
            row@.len() == old(self)@[0].len(),
            forall|q: int| 0 <= q < row@.len() ==> T::sp_wf((#[trigger] row@[q])@),
        ensures
            final(self).wf(),
            final(self)@ == old(self)@.update(i as int, row@.map_values(|x: T| x@)),
            final(self).sp_size() == old(self).sp_size(),
    {
        proof {
            self.lemma_rows();
        }
        self.matrix.set(i, row);
        proof {
            let ghost o = old(self)@;
            let ghost target = o.update(i as int, row@.map_values(|x: T| x@));
            self.lemma_rows();
            assert forall|p: int| 0 <= p < self@.len() implies #[trigger] self@[p]
                == target[p] by {
                if p != i {
                    assert(self.matrix@[p] == old(self).matrix@[p]);
                    assert(o[p] == old(self).matrix@[p]@.map_values(|x: T| x@));
                }
            }
            assert(self@ =~= target);
        }
    }

    /// Read the cell at row `i`, column `j`, refusing an index outside the
    /// matrix with a bounds error.
    pub fn get_checked(&self, i: usize, j: usize) -> (r: Result<&T, MatrixError>)
        requires
            self.wf(),
        ensures
            (r is Ok) == (i < self@.len() && j < self@[0].len()),
            r is Ok ==> r->Ok_0@ == self@[i as int][j as int],
            r is Err ==> r->Err_0 == MatrixError::Bounds,
    {
        if i < self.size.0 && j < self.size.1 {
            Ok(self.get(i, j))
        } else {
            Err(MatrixError::Bounds)
        }
    }

    /// Each row of the model is the model of the stored row.
    proof fn lemma_rows(&self)
        ensures
            self@.len() == self.matrix@.len(),
            forall|i: int|
                0 <= i < self@.len() ==> (#[trigger] self@[i]) == self.matrix@[i]@.map_values(
                    |x: T| x@,
                ),
    {
    }

    /// An independent copy of the matrix.
    pub fn dup(&self) -> (r: Self)
        requires
            self.wf(),
        ensures
            r.wf(),
            r@ == self@,
            r.sp_size() == self.sp_size(),
    {
        self.dup_grid()
    }

    /// An independent copy, available from the grid invariant alone.
    fn dup_grid(&self) -> (r: Self)
        requires
            grid_wf::<T>(self@),
        ensures
            r.wf(),
            r@ == self@,
    {
        proof {
            self.lemma_rows();
        }
        let rows = self.matrix.len();
        let cols = self.matrix[0].len();
        let mut grid: Vec<Vec<T>> = Vec::new();
        let mut i: usize = 0;
        while i < rows
            invariant
                grid_wf::<T>(self@),
                rows == self@.len(),
                cols == self@[0].len(),
                grid@.len() == i,
                0 <= i <= rows,
                forall|p: int| 0 <= p < i ==> (#[trigger] grid@[p])@.len() == cols,
                forall|p: int, q: int|
                    0 <= p < i && 0 <= q < cols ==> (#[trigger] grid@[p]@[q])@ == self@[p][q],
            decreases rows - i,
        {
            let mut row: Vec<T> = Vec::new();
            let mut j: usize = 0;
            while j < cols
                invariant
                    grid_wf::<T>(self@),
                    rows == self@.len(),
                    cols == self@[0].len(),
                    i < rows,
                    row@.len() == j,
                    0 <= j <= cols,
                    forall|q: int| 0 <= q < j ==> (#[trigger] row@[q])@ == self@[i as int][q],
                decreases cols - j,
            {
                proof {
                    self.lemma_rows();
                    assert(self.matrix@[i as int]@.len() == self@[i as int].len());
                    assert(self@[i as int][j as int] == self.matrix@[i as int]@[j as int]@);
                }
                row.push(self.matrix[i][j].dup());
                j += 1;
            }
            grid.push(row);
            i += 1;
        }
        let m = Matrix { size: (rows, cols), matrix: grid };
        proof {
            m.lemma_rows();
            assert forall|p: int| 0 <= p < rows implies #[trigger] m@[p] == self@[p] by {
                assert(m@[p] =~= self@[p]);
            }
            assert(m@ =~= self@);
        }
        m
    }

    /// Combine two same-shaped matrices cell by cell under `k`.
    fn cellwise(k: OperationType, a: &Self, b: &Self) -> (r: Self)
        requires
            T::sp_supports(k),
            grid_compat::<T>(k, a@, b@),
        ensures
            r.wf(),
            r@ == grid_map2::<T>(k, a@, b@),
            r.sp_size().0 == a@.len(),
            r.sp_size().1 == a@[0].len(),
    {
        proof {
            a.lemma_rows();
        }
        let rows = a.matrix.len();
        let cols = a.matrix[0].len();
        let ghost t = grid_map2::<T>(k, a@, b@);
        let mut grid: Vec<Vec<T>> = Vec::new();
        let mut i: usize = 0;
        while i < rows
            invariant
                T::sp_supports(k),
                grid_compat::<T>(k, a@, b@),
                t == grid_map2::<T>(k, a@, b@),
                rows == a@.len(),
                cols == a@[0].len(),
                grid@.len() == i,
                0 <= i <= rows,
                forall|p: int| 0 <= p < i ==> (#[trigger] grid@[p])@.len() == cols,
                forall|p: int, q: int|
                    0 <= p < i && 0 <= q < cols ==> (#[trigger] grid@[p]@[q])@ == t[p][q]
                        && T::sp_wf(grid@[p]@[q]@),
            decreases rows - i,
        {
            let mut row: Vec<T> = Vec::new();
            let mut j: usize = 0;
            while j < cols
                invariant
                    T::sp_supports(k),
                    grid_compat::<T>(k, a@, b@),
                    t == grid_map2::<T>(k, a@, b@),
                    rows == a@.len(),
                    cols == a@[0].len(),
                    i < rows,
                    row@.len() == j,
                    0 <= j <= cols,
                    forall|q: int|
                        0 <= q < j ==> (#[trigger] row@[q])@ == t[i as int][q] && T::sp_wf(
                            row@[q]@,
                        ),
                decreases cols - j,
            {
                proof {
                    a.lemma_rows();
                    b.lemma_rows();
                    assert(a.matrix@[i as int]@.len() == a@[i as int].len());
                    assert(b.matrix@[i as int]@.len() == b@[i as int].len());
                    assert(a@[i as int][j as int] == a.matrix@[i as int]@[j as int]@);
                    assert(b@[i as int][j as int] == b.matrix@[i as int]@[j as int]@);
                }
                row.push(T::op(k, &a.matrix[i][j], &b.matrix[i][j]));
                j += 1;
            }
            grid.push(row);
            i += 1;
        }
        let m = Matrix { size: (rows, cols), matrix: grid };
        proof {
            m.lemma_rows();
            assert forall|p: int| 0 <= p < rows implies #[trigger] m@[p] == t[p] by {
                assert(m@[p] =~= t[p]);
            }
            assert(m@ =~= t);
        }
        m
    }

    /// Whether every pair of facing cells is acceptable to `k`; the shapes
    /// must already agree.
    fn cells_compat(k: OperationType, a: &Self, b: &Self) -> (r: bool)
        requires
            grid_wf::<T>(a@),
            grid_wf::<T>(b@),
            T::sp_supports(k),
            a@.len() == b@.len(),
            a@[0].len() == b@[0].len(),
        ensures
            r == grid_compat::<T>(k, a@, b@),
    {
        proof {
            a.lemma_rows();
        }
        let rows = a.matrix.len();
        let cols = a.matrix[0].len();
        let mut i: usize = 0;
        while i < rows
            invariant
                grid_wf::<T>(a@),
                grid_wf::<T>(b@),
                T::sp_supports(k),
                a@.len() == b@.len(),
                a@[0].len() == b@[0].len(),
                rows == a@.len(),
                cols == a@[0].len(),
                0 <= i <= rows,
                forall|p: int, q: int|
                    0 <= p < i && 0 <= q < cols ==> T::sp_ok(k, #[trigger] a@[p][q], b@[p][q]),
            decreases rows - i,
        {
            let mut j: usize = 0;
            while j < cols
                invariant
                    grid_wf::<T>(a@),
                    grid_wf::<T>(b@),
                    T::sp_supports(k),
                    a@.len() == b@.len(),
                    a@[0].len() == b@[0].len(),
                    rows == a@.len(),
                    cols == a@[0].len(),
                    i < rows,
                    0 <= j <= cols,
                    forall|q: int| 0 <= q < j ==> T::sp_ok(k, #[trigger] a@[i as int][q], b@[i as int][q]),
                decreases cols - j,
            {
                proof {
                    a.lemma_rows();
                    b.lemma_rows();
                    assert(a.matrix@[i as int]@.len() == a@[i as int].len());
                    assert(b.matrix@[i as int]@.len() == b@[i as int].len());
                    assert(a@[i as int][j as int] == a.matrix@[i as int]@[j as int]@);
                    assert(b@[i as int][j as int] == b.matrix@[i as int]@[j as int]@);
                }
                if !T::compat(k, &a.matrix[i][j], &b.matrix[i][j]) {
                    return false;
                }
                j += 1;
            }
            i += 1;
        }
        true
    }

    /// Cell-wise sum of two same-shaped matrices.
    pub fn add(&self, rhs: &Self) -> (r: Self)
        requires
            self.wf(),
            rhs.wf(),
            T::sp_supports(OperationType::Add),
            grid_compat::<T>(OperationType::Add, self@, rhs@),
        ensures
            r.wf(),
            r@ == grid_map2::<T>(OperationType::Add, self@, rhs@),
            r.sp_size() == self.sp_size(),
    {
        Self::cellwise(OperationType::Add, self, rhs)
    }

    /// Cell-wise difference of two same-shaped matrices.
    pub fn sub(&self, rhs: &Self) -> (r: Self)
        requires
            self.wf(),
            rhs.wf(),
            T::sp_supports(OperationType::Sub),
            grid_compat::<T>(OperationType::Sub, self@, rhs@),
        ensures
            r.wf(),
            r@ == grid_map2::<T>(OperationType::Sub, self@, rhs@),
            r.sp_size() == self.sp_size(),
    {
        Self::cellwise(OperationType::Sub, self, rhs)
    }

    /// Cell-wise combination under `k`, refusing unsupported kinds and
    /// mismatched shapes instead of panicking.
    fn cellwise_checked(k: OperationType, a: &Self, b: &Self) -> (r: Result<Self, MatrixError>)
        requires
            a.wf(),
            b.wf(),
        ensures
            (r is Ok) == (T::sp_supports(k) && grid_compat::<T>(k, a@, b@)),
            r is Ok ==> r->Ok_0@ == grid_map2::<T>(k, a@, b@) && r->Ok_0.wf()
                && r->Ok_0.sp_size() == a.sp_size(),
            r is Err ==> r->Err_0 == (if !T::sp_supports(k) {
                MatrixError::Capability
            } else {
                MatrixError::Shape
            }),
    {
        if !T::supports(k) {
            return Err(MatrixError::Capability);
        }
        if a.size.0 != b.size.0 || a.size.1 != b.size.1 {
            return Err(MatrixError::Shape);
        }
        if !Self::cells_compat(k, a, b) {
            return Err(MatrixError::Shape);
        }
        Ok(Self::cellwise(k, a, b))
    }

    /// Checked cell-wise sum: a capability error when the element type has
    /// no addition, a shape error when the operands do not fit.
    pub fn add_checked(&self, rhs: &Self) -> (r: Result<Self, MatrixError>)
        requires
            self.wf(),
            rhs.wf(),
        ensures
            (r is Ok) == (T::sp_supports(OperationType::Add) && grid_compat::<T>(
                OperationType::Add,
                self@,
                rhs@,
            )),
            r is Ok ==> r->Ok_0@ == grid_map2::<T>(OperationType::Add, self@, rhs@)
                && r->Ok_0.wf() && r->Ok_0.sp_size() == self.sp_size(),
            r is Err ==> r->Err_0 == (if !T::sp_supports(OperationType::Add) {
                MatrixError::Capability
            } else {
                MatrixError::Shape
            }),
    {
        Self::cellwise_checked(OperationType::Add, self, rhs)
    }

    /// Checked cell-wise difference; the errors mirror [`Matrix::add_checked`].
    pub fn sub_checked(&self, rhs: &Self) -> (r: Result<Self, MatrixError>)
        requires
            self.wf(),
            rhs.wf(),
        ensures
            (r is Ok) == (T::sp_supports(OperationType::Sub) && grid_compat::<T>(
                OperationType::Sub,
                self@,
                rhs@,
            )),
            r is Ok ==> r->Ok_0@ == grid_map2::<T>(OperationType::Sub, self@, rhs@)
                && r->Ok_0.wf() && r->Ok_0.sp_size() == self.sp_size(),
            r is Err ==> r->Err_0 == (if !T::sp_supports(OperationType::Sub) {
                MatrixError::Capability
            } else {
                MatrixError::Shape
            }),
    {
        Self::cellwise_checked(OperationType::Sub, self, rhs)
    }

    /// The all-additive-identity matrix of the given size; every cell is
    /// the element type's additive identity, fetched from the canonical
    /// instance.
    pub fn new_add_identity(size: (usize, usize)) -> (r: Self)
        requires
            T::sp_supports(OperationType::Add),
            size.0 >= 1,
            size.1 >= 1,
        ensures
            r.wf(),
            r@ == crate::grids::add_identity_grid::<T>(size.0 as int, size.1 as int),
            r.sp_size() == size,
    {
        let ghost t = crate::grids::add_identity_grid::<T>(size.0 as int, size.1 as int);
        let e = T::empty();
        let mut grid: Vec<Vec<T>> = Vec::new();
        let mut i: usize = 0;
        while i < size.0
            invariant
                T::sp_supports(OperationType::Add),
                e@ == T::sp_empty(),
                T::sp_wf(e@),
                t == crate::grids::add_identity_grid::<T>(size.0 as int, size.1 as int),
                grid@.len() == i,
                0 <= i <= size.0,
                forall|p: int| 0 <= p < i ==> (#[trigger] grid@[p])@.len() == size.1,
                forall|p: int, q: int|
                    0 <= p < i && 0 <= q < size.1 ==> (#[trigger] grid@[p]@[q])@ == t[p][q]
                        && T::sp_wf(grid@[p]@[q]@),
            decreases size.0 - i,
        {
            let mut row: Vec<T> = Vec::new();
            let mut j: usize = 0;
            while j < size.1
                invariant
                    T::sp_supports(OperationType::Add),
                    e@ == T::sp_empty(),
                    T::sp_wf(e@),
                    t == crate::grids::add_identity_grid::<T>(size.0 as int, size.1 as int),
                    i < size.0,
                    row@.len() == j,
                    0 <= j <= size.1,
                    forall|q: int|
                        0 <= q < j ==> (#[trigger] row@[q])@ == t[i as int][q] && T::sp_wf(
                            row@[q]@,
                        ),
                decreases size.1 - j,
            {
                let cell = match e.identity(OperationType::Add) {
                    Some(c) => c,
                    None => vstd::pervasive::unreached(),
                };
                row.push(cell);
                j += 1;
            }
            grid.push(row);
            i += 1;
        }
        let m = Matrix { size, matrix: grid };
        proof {
            m.lemma_rows();
            assert forall|p: int| 0 <= p < size.0 implies #[trigger] m@[p] == t[p] by {
                assert(m@[p] =~= t[p]);
            }
            assert(m@ =~= t);
        }
        m
    }

    /// The `n x n` multiplicative-identity matrix: the element type's
    /// multiplicative identity on the diagonal, its zero elsewhere.
    pub fn new_mul_identity(n: usize) -> (r: Self)
        requires
            T::sp_supports(OperationType::Mul),
            n >= 1,
        ensures
            r.wf(),
            r@ == crate::grids::identity_grid::<T>(n as int),
            r.sp_size() == (n, n),
    {
        let ghost t = crate::grids::identity_grid::<T>(n as int);
        let e = T::empty();
        let mut grid: Vec<Vec<T>> = Vec::new();
        let mut i: usize = 0;
        while i < n
            invariant
                T::sp_supports(OperationType::Mul),
                e@ == T::sp_empty(),
                T::sp_wf(e@),
                t == crate::grids::identity_grid::<T>(n as int),
                grid@.len() == i,
                0 <= i <= n,
                forall|p: int| 0 <= p < i ==> (#[trigger] grid@[p])@.len() == n,
                forall|p: int, q: int|
                    0 <= p < i && 0 <= q < n ==> (#[trigger] grid@[p]@[q])@ == t[p][q] && T::sp_wf(
                        grid@[p]@[q]@,
                    ),
            decreases n - i,
        {
            let mut row: Vec<T> = Vec::new();
            let mut j: usize = 0;
            while j < n
                invariant
                    T::sp_supports(OperationType::Mul),
                    e@ == T::sp_empty(),
                    T::sp_wf(e@),
                    t == crate::grids::identity_grid::<T>(n as int),
                    i < n,
                    row@.len() == j,
                    0 <= j <= n,
                    forall|q: int|
                        0 <= q < j ==> (#[trigger] row@[q])@ == t[i as int][q] && T::sp_wf(
                            row@[q]@,
                        ),
                decreases n - j,
            {
                if i == j {
                    let cell = match e.identity(OperationType::Mul) {
                        Some(c) => c,
                        None => vstd::pervasive::unreached(),
                    };
                    row.push(cell);
                } else {
                    row.push(e.zero());
                }
                j += 1;
            }
            grid.push(row);
            i += 1;
        }
        let m = Matrix { size: (n, n), matrix: grid };
        proof {
            m.lemma_rows();
            assert forall|p: int| 0 <= p < n implies #[trigger] m@[p] == t[p] by {
                assert(m@[p] =~= t[p]);
            }
            assert(m@ =~= t);
        }
        m
    }

    /// The inner-dimension product: cell `(i, j)` is the dot product of row
    /// `i` of `self` with column `j` of `rhs`, accumulated from its first
    /// term.
    pub fn mul(&self, rhs: &Self) -> (r: Self)
        requires
            self.wf(),
            rhs.wf(),
            T::sp_supports(OperationType::Add),
            T::sp_supports(OperationType::Mul),
            self@[0].len() == rhs@.len(),
        ensures
            r.wf(),
            r@ == crate::grids::grid_mul::<T>(self@, rhs@),
            r.sp_size() == (self.sp_size().0, rhs.sp_size().1),
    {
        let rows = self.size.0;
        let inner = self.size.1;
        let cols = rhs.size.1;
        let ghost t = crate::grids::grid_mul::<T>(self@, rhs@);
        let mut grid: Vec<Vec<T>> = Vec::new();
        let mut i: usize = 0;
        while i < rows
            invariant
                self.wf(),
                rhs.wf(),
                T::sp_supports(OperationType::Add),
                T::sp_supports(OperationType::Mul),
                self@[0].len() == rhs@.len(),
                rows == self@.len(),
                inner == self@[0].len(),
                cols == rhs@[0].len(),
                t == crate::grids::grid_mul::<T>(self@, rhs@),
                grid@.len() == i,
                0 <= i <= rows,
                forall|p: int| 0 <= p < i ==> (#[trigger] grid@[p])@.len() == cols,
                forall|p: int, q: int|
                    0 <= p < i && 0 <= q < cols ==> (#[trigger] grid@[p]@[q])@ == t[p][q]
                        && T::sp_wf(grid@[p]@[q]@),
            decreases rows - i,
        {
            let mut row: Vec<T> = Vec::new();
            let mut j: usize = 0;
            while j < cols
                invariant
                    self.wf(),
                    rhs.wf(),
                    T::sp_supports(OperationType::Add),
                    T::sp_supports(OperationType::Mul),
                    self@[0].len() == rhs@.len(),
                    rows == self@.len(),
                    inner == self@[0].len(),
                    cols == rhs@[0].len(),
                    t == crate::grids::grid_mul::<T>(self@, rhs@),
                    i < rows,
                    row@.len() == j,
                    0 <= j <= cols,
                    forall|q: int|
                        0 <= q < j ==> (#[trigger] row@[q])@ == t[i as int][q] && T::sp_wf(
                            row@[q]@,
                        ),
                decreases cols - j,
            {
                let ghost a = self@[i as int];
                let ghost b = crate::grids::grid_col::<T>(rhs@, j as int);
                proof {
                    self.lemma_rows();
                    rhs.lemma_rows();
                    assert(self.matrix@[i as int]@.len() == self@[i as int].len());
                    assert(rhs.matrix@[0]@.len() == rhs@[0].len());
                    assert(self@[i as int][0] == self.matrix@[i as int]@[0]@);
                    assert(rhs@[0][j as int] == rhs.matrix@[0]@[j as int]@);
                    T::law_total(OperationType::Mul, a[0], b[0]);
                }
                let mut sum = T::op(OperationType::Mul, &self.matrix[i][0], &rhs.matrix[0][j]);
                let mut x: usize = 1;
                while x < inner
                    invariant
                        self.wf(),
                        rhs.wf(),
                        T::sp_supports(OperationType::Add),
                        T::sp_supports(OperationType::Mul),
                        self@[0].len() == rhs@.len(),
                        rows == self@.len(),
                        inner == self@[0].len(),
                        cols == rhs@[0].len(),
                        i < rows,
                        j < cols,
                        1 <= x <= inner,
                        a == self@[i as int],
                        b == crate::grids::grid_col::<T>(rhs@, j as int),
                        sum@ == crate::grids::dot::<T>(a, b, x as int),
                        T::sp_wf(sum@),
                    decreases inner - x,
                {
                    proof {
                        self.lemma_rows();
                        rhs.lemma_rows();
                        assert(self.matrix@[i as int]@.len() == self@[i as int].len());
                        assert(rhs@[x as int].len() == rhs@[0].len());
                        assert(rhs.matrix@[x as int]@.len() == rhs@[x as int].len());
                        assert(self@[i as int][x as int] == self.matrix@[i as int]@[x as int]@);
                        assert(rhs@[x as int][j as int] == rhs.matrix@[x as int]@[j as int]@);
                        T::law_total(OperationType::Mul, a[x as int], b[x as int]);
                    }
                    let term = T::op(OperationType::Mul, &self.matrix[i][x], &rhs.matrix[x][j]);
                    proof {
                        T::law_total(OperationType::Add, sum@, term@);
                    }
                    sum = T::op(OperationType::Add, &sum, &term);
                    x += 1;
                }
                proof {
                    assert(t[i as int][j as int] == crate::grids::dot::<T>(a, b, inner as int));
                }
                row.push(sum);
                j += 1;
            }
            grid.push(row);
            i += 1;
        }
        let m = Matrix { size: (rows, cols), matrix: grid };
        proof {
            m.lemma_rows();
            assert forall|p: int| 0 <= p < rows implies #[trigger] m@[p] == t[p] by {
                assert(m@[p] =~= t[p]);
            }
            assert(m@ =~= t);
        }
        m
    }

    /// Checked product: a capability error when the element type lacks
    /// addition or multiplication, a shape error when the inner dimensions
    /// disagree.
    pub fn mul_checked(&self, rhs: &Self) -> (r: Result<Self, MatrixError>)
        requires
            self.wf(),
            rhs.wf(),
        ensures
            (r is Ok) == (T::sp_supports(OperationType::Add) && T::sp_supports(OperationType::Mul)
                && self@[0].len() == rhs@.len()),
            r is Ok ==> r->Ok_0@ == crate::grids::grid_mul::<T>(self@, rhs@) && r->Ok_0.wf()
                && r->Ok_0.sp_size() == (self.sp_size().0, rhs.sp_size().1),
            r is Err ==> r->Err_0 == (if !(T::sp_supports(OperationType::Add) && T::sp_supports(
                OperationType::Mul,
            )) {
                MatrixError::Capability
            } else {
                MatrixError::Shape
            }),
    {
        if !(T::supports(OperationType::Add) && T::supports(OperationType::Mul)) {
            return Err(MatrixError::Capability);
        }
        if self.size.1 != rhs.size.0 {
            return Err(MatrixError::Shape);
        }
        Ok(self.mul(rhs))
    }

    /// In-place product: `self` becomes `self * rhs`.
    pub fn mul_assign(&mut self, rhs: &Self)
        requires
            old(self).wf(),
            rhs.wf(),
            T::sp_supports(OperationType::Add),
            T::sp_supports(OperationType::Mul),
            old(self)@[0].len() == rhs@.len(),
        ensures
            final(self).wf(),
            final(self)@ == crate::grids::grid_mul::<T>(old(self)@, rhs@),
            final(self).sp_size() == (old(self).sp_size().0, rhs.sp_size().1),
    {
        let r = self.mul(rhs);
        *self = r;
    }

    /// In-place cell-wise sum: `self` becomes `self + rhs`.
    pub fn add_assign(&mut self, rhs: &Self)
        requires
            old(self).wf(),
            rhs.wf(),
            T::sp_supports(OperationType::Add),
            grid_compat::<T>(OperationType::Add, old(self)@, rhs@),
        ensures
            final(self).wf(),
            final(self)@ == grid_map2::<T>(OperationType::Add, old(self)@, rhs@),
            final(self).sp_size() == old(self).sp_size(),
    {
        let r = Self::cellwise(OperationType::Add, self, rhs);
        *self = r;
    }

    /// In-place cell-wise difference: `self` becomes `self - rhs`.
    pub fn sub_assign(&mut self, rhs: &Self)
        requires
            old(self).wf(),
            rhs.wf(),
            T::sp_supports(OperationType::Sub),
            grid_compat::<T>(OperationType::Sub, old(self)@, rhs@),
        ensures
            final(self).wf(),
            final(self)@ == grid_map2::<T>(OperationType::Sub, old(self)@, rhs@),
            final(self).sp_size() == old(self).sp_size(),
    {
        let r = Self::cellwise(OperationType::Sub, self, rhs);
        *self = r;
    }

    /// Replace the cell at row `i`, column `j`; the shape is untouched.
    pub fn set(&mut self, i: usize, j: usize, v: T) -> (r: ())
        requires
            old(self).wf(),
            i < old(self)@.len(),
            j < old(self)@[0].len(),
            T::sp_wf(v@),
        ensures
            final(self).wf(),
            final(self)@ == old(self)@.update(
                i as int,
                old(self)@[i as int].update(j as int, v@),
            ),
            final(self).sp_size() == old(self).sp_size(),
    {
        proof {
            assert(self@[i as int] == self.matrix@[i as int]@.map_values(|x: T| x@));
            assert(self@[i as int].len() == self@[0].len());
        }
        let row = &mut self.matrix[i];
        row.set(j, v);
        proof {
            let ghost o = old(self)@;
            let ghost n = self@;
            let ghost target = o.update(i as int, o[i as int].update(j as int, v@));
            assert forall|p: int| 0 <= p < n.len() implies n[p] == target[p] by {
                assert(n[p] == self.matrix@[p]@.map_values(|x: T| x@));
                assert(o[p] == old(self).matrix@[p]@.map_values(|x: T| x@));
                if p != i {
                    assert(self.matrix@[p] == old(self).matrix@[p]);
                } else {
                    assert(self.matrix@[p]@ == old(self).matrix@[p]@.update(j as int, v));
                    assert_seqs_equal!(n[p] == target[p]);
                }
            }
            assert_seqs_equal!(self@ == target);
        }
    }
}


impl<T: Group> Matrix<T> {
    /// The matrix of the same shape holding each cell's zero element.
    fn zero_like(&self) -> (r: Self)
        requires
            grid_wf::<T>(self@),
        ensures
            r.wf(),
            r@ == Seq::new(self@.len(), |i: int|
                Seq::new(self@[0].len(), |j: int| T::sp_zero(self@[i][j]))),
    {
        let ghost t = Seq::new(self@.len(), |i: int|
            Seq::new(self@[0].len(), |j: int| T::sp_zero(self@[i][j])));
        proof {
            self.lemma_rows();
        }
        let rows = self.matrix.len();
        let cols = self.matrix[0].len();
        let mut grid: Vec<Vec<T>> = Vec::new();
        let mut i: usize = 0;
        while i < rows
            invariant
                grid_wf::<T>(self@),
                t == Seq::new(self@.len(), |i: int|
                    Seq::new(self@[0].len(), |j: int| T::sp_zero(self@[i][j]))),
                rows == self@.len(),
                cols == self@[0].len(),
                grid@.len() == i,
                0 <= i <= rows,
                forall|p: int| 0 <= p < i ==> (#[trigger] grid@[p])@.len() == cols,
                forall|p: int, q: int|
                    0 <= p < i && 0 <= q < cols ==> (#[trigger] grid@[p]@[q])@ == t[p][q]
                        && T::sp_wf(grid@[p]@[q]@),
            decreases rows - i,
        {
            let mut row: Vec<T> = Vec::new();
            let mut j: usize = 0;
            while j < cols
                invariant
                    grid_wf::<T>(self@),
                    t == Seq::new(self@.len(), |i: int|
                        Seq::new(self@[0].len(), |j: int| T::sp_zero(self@[i][j]))),
                    rows == self@.len(),
                    cols == self@[0].len(),
                    i < rows,
                    row@.len() == j,
                    0 <= j <= cols,
                    forall|q: int|
                        0 <= q < j ==> (#[trigger] row@[q])@ == t[i as int][q] && T::sp_wf(
                            row@[q]@,
                        ),
                decreases cols - j,
            {
                proof {
                    self.lemma_rows();
                    assert(self.matrix@[i as int]@.len() == self@[i as int].len());
                    assert(self@[i as int][j as int] == self.matrix@[i as int]@[j as int]@);
                }
                row.push(self.matrix[i][j].zero());
                j += 1;
            }
            grid.push(row);
            i += 1;
        }
        let m = Matrix { size: (rows, cols), matrix: grid };
        proof {
            m.lemma_rows();
            assert forall|p: int| 0 <= p < rows implies #[trigger] m@[p] == t[p] by {
                assert(m@[p] =~= t[p]);
            }
            assert(m@ =~= t);
        }
        m
    }

    /// The matrix of the same shape holding each cell's identity element
    /// for the operation kind `k`.
    fn identity_like(&self, k: OperationType) -> (r: Self)
        requires
            grid_wf::<T>(self@),
            T::sp_supports(k),
        ensures
            r.wf(),
            r@ == Seq::new(self@.len(), |i: int|
                Seq::new(self@[0].len(), |j: int| T::sp_identity(k, self@[i][j]))),
    {
        let ghost t = Seq::new(self@.len(), |i: int|
            Seq::new(self@[0].len(), |j: int| T::sp_identity(k, self@[i][j])));
        proof {
            self.lemma_rows();
        }
        let rows = self.matrix.len();
        let cols = self.matrix[0].len();
        let mut grid: Vec<Vec<T>> = Vec::new();
        let mut i: usize = 0;
        while i < rows
            invariant
                grid_wf::<T>(self@),
                T::sp_supports(k),
                t == Seq::new(self@.len(), |i: int|
                    Seq::new(self@[0].len(), |j: int| T::sp_identity(k, self@[i][j]))),
                rows == self@.len(),
                cols == self@[0].len(),
                grid@.len() == i,
                0 <= i <= rows,
                forall|p: int| 0 <= p < i ==> (#[trigger] grid@[p])@.len() == cols,
                forall|p: int, q: int|
                    0 <= p < i && 0 <= q < cols ==> (#[trigger] grid@[p]@[q])@ == t[p][q]
                        && T::sp_wf(grid@[p]@[q]@),
            decreases rows - i,
        {
            let mut row: Vec<T> = Vec::new();
            let mut j: usize = 0;
            while j < cols
                invariant
                    grid_wf::<T>(self@),
                    T::sp_supports(k),
                    t == Seq::new(self@.len(), |i: int|
                        Seq::new(self@[0].len(), |j: int| T::sp_identity(k, self@[i][j]))),
                    rows == self@.len(),
                    cols == self@[0].len(),
                    i < rows,
                    row@.len() == j,
                    0 <= j <= cols,
                    forall|q: int|
                        0 <= q < j ==> (#[trigger] row@[q])@ == t[i as int][q] && T::sp_wf(
                            row@[q]@,
                        ),
                decreases cols - j,
            {
                proof {
                    self.lemma_rows();
                    assert(self.matrix@[i as int]@.len() == self@[i as int].len());
                    assert(self@[i as int][j as int] == self.matrix@[i as int]@[j as int]@);
                }
                let cell = match self.matrix[i][j].identity(k) {
                    Some(c) => c,
                    None => vstd::pervasive::unreached(),
                };
                row.push(cell);
                j += 1;
            }
            grid.push(row);
            i += 1;
        }
        let m = Matrix { size: (rows, cols), matrix: grid };
        proof {
            m.lemma_rows();
            assert forall|p: int| 0 <= p < rows implies #[trigger] m@[p] == t[p] by {
                assert(m@[p] =~= t[p]);
            }
            assert(m@ =~= t);
        }
        m
    }

    /// Whether two matrices model the same grid.
    fn grids_same(a: &Self, b: &Self) -> (r: bool)
        requires
            grid_wf::<T>(a@),
            grid_wf::<T>(b@),
        ensures
            r == (a@ == b@),
    {
        proof {
            a.lemma_rows();
            b.lemma_rows();
        }
        if a.matrix.len() != b.matrix.len() {
            return false;
        }
        if a.matrix[0].len() != b.matrix[0].len() {
            proof {
                assert(a@[0].len() != b@[0].len());
            }
            return false;
        }
        let rows = a.matrix.len();
        let cols = a.matrix[0].len();
        let mut i: usize = 0;
        while i < rows
            invariant
                grid_wf::<T>(a@),
                grid_wf::<T>(b@),
                rows == a@.len(),
                rows == b@.len(),
                cols == a@[0].len(),
                cols == b@[0].len(),
                0 <= i <= rows,
                forall|p: int, q: int|
                    0 <= p < i && 0 <= q < cols ==> #[trigger] a@[p][q] == b@[p][q],
            decreases rows - i,
        {
            let mut j: usize = 0;
            while j < cols
                invariant
                    grid_wf::<T>(a@),
                    grid_wf::<T>(b@),
                    rows == a@.len(),
                    rows == b@.len(),
                    cols == a@[0].len(),
                    cols == b@[0].len(),
                    i < rows,
                    0 <= j <= cols,
                    forall|q: int| 0 <= q < j ==> #[trigger] a@[i as int][q] == b@[i as int][q],
                decreases cols - j,
            {
                proof {
                    a.lemma_rows();
                    b.lemma_rows();
                    assert(a.matrix@[i as int]@.len() == a@[i as int].len());
                    assert(b.matrix@[i as int]@.len() == b@[i as int].len());
                    assert(a@[i as int][j as int] == a.matrix@[i as int]@[j as int]@);
                    assert(b@[i as int][j as int] == b.matrix@[i as int]@[j as int]@);
                }
                if !a.matrix[i][j].same(&b.matrix[i][j]) {
                    return false;
                }
                j += 1;
            }
            i += 1;
        }
        proof {
            assert forall|p: int| 0 <= p < rows implies #[trigger] a@[p] == b@[p] by {
                assert(a@[p] =~= b@[p]);
            }
            assert(a@ =~= b@);
        }
        true
    }
}

/// A matrix over a group is itself a group: cell-wise addition and
/// subtraction mirror the element type's, the zero and the additive
/// identity are the same-shaped all-zero matrix, and the canonical instance
/// is a single cell.  Multiplication and division are not offered at this
/// level: the matrix product is not closed over shapes, so it stays with
/// the standalone [`Matrix::mul`] and [`Matrix::div`] operators.
impl<T: Group> Group for Matrix<T> {
    open spec fn sp_supports(k: OperationType) -> bool {
        (k == OperationType::Add || k == OperationType::Sub) && T::sp_supports(k)
    }

    open spec fn sp_wf(v: Seq<Seq<T::V>>) -> bool {
        grid_wf::<T>(v)
    }

    open spec fn sp_empty() -> Seq<Seq<T::V>> {
        seq![seq![T::sp_empty()]]
    }

    open spec fn sp_zero(v: Seq<Seq<T::V>>) -> Seq<Seq<T::V>> {
        Seq::new(v.len(), |i: int| Seq::new(v[0].len(), |j: int| T::sp_zero(v[i][j])))
    }

    open spec fn sp_identity(k: OperationType, v: Seq<Seq<T::V>>) -> Seq<Seq<T::V>> {
        Seq::new(v.len(), |i: int| Seq::new(v[0].len(), |j: int| T::sp_identity(k, v[i][j])))
    }

    open spec fn sp_ok(k: OperationType, a: Seq<Seq<T::V>>, b: Seq<Seq<T::V>>) -> bool {
        grid_compat::<T>(k, a, b)
    }

    open spec fn sp_op(k: OperationType, a: Seq<Seq<T::V>>, b: Seq<Seq<T::V>>) -> Seq<Seq<T::V>> {
        grid_map2::<T>(k, a, b)
    }

    fn empty() -> (r: Self) {
        let mut row: Vec<T> = Vec::new();
        row.push(T::empty());
        let mut grid: Vec<Vec<T>> = Vec::new();
        grid.push(row);
        let m = Matrix { size: (1, 1), matrix: grid };
        proof {
            m.lemma_rows();
            assert(m@[0] =~= seq![T::sp_empty()]);
            assert(m@ =~= seq![seq![T::sp_empty()]]);
        }
        m
    }

    fn zero(&self) -> (r: Self) {
        self.zero_like()
    }

    fn dup(&self) -> (r: Self) {
        self.dup_grid()
    }

    fn is_zero(&self) -> (r: bool) {
        let z = self.zero_like();
        Self::grids_same(self, &z)
    }

    fn same(&self, other: &Self) -> (r: bool) {
        Self::grids_same(self, other)
    }

    fn supports(k: OperationType) -> (r: bool) {
        match k {
            OperationType::Add => T::supports(OperationType::Add),
            OperationType::Sub => T::supports(OperationType::Sub),
            _ => false,
        }
    }

    fn compat(k: OperationType, a: &Self, b: &Self) -> (r: bool) {
        proof {
            a.lemma_rows();
            b.lemma_rows();
        }
        if a.matrix.len() != b.matrix.len() {
            return false;
        }
        if a.matrix[0].len() != b.matrix[0].len() {
            proof {
                assert(a@[0].len() != b@[0].len());
            }
            return false;
        }
        Self::cells_compat(k, a, b)
    }

    fn op(k: OperationType, a: &Self, b: &Self) -> (r: Self) {
        match k {
            OperationType::Add | OperationType::Sub => Self::cellwise(k, a, b),
            _ => vstd::pervasive::unreached(),
        }
    }

    fn identity(&self, k: OperationType) -> (r: Option<Self>) {
        if <Self as Group>::supports(k) {
            Some(self.identity_like(k))
        } else {
            None
        }
    }

    fn operation(&self, k: OperationType) -> (r: Option<Operation<Self>>) {
        match <Self as Group>::identity(self, k) {
            Some(e) => Some(Operation::Closed(e)),
            None => None,
        }
    }

    proof fn law_identity_compat(k: OperationType, a: Seq<Seq<T::V>>) {
        let e = Self::sp_identity(k, a);
        assert forall|i: int, j: int| 0 <= i < a.len() && 0 <= j < a[0].len() implies T::sp_wf(
            #[trigger] e[i][j],
        ) && T::sp_ok(k, a[i][j], e[i][j]) && T::sp_ok(k, e[i][j], a[i][j]) by {
            T::law_identity_compat(k, a[i][j]);
        }
    }

    proof fn law_op_wf(k: OperationType, a: Seq<Seq<T::V>>, b: Seq<Seq<T::V>>) {
        let r = Self::sp_op(k, a, b);
        assert forall|i: int, j: int| 0 <= i < r.len() && 0 <= j < r[0].len() implies T::sp_wf(
            #[trigger] r[i][j],
        ) by {
            T::law_op_wf(k, a[i][j], b[i][j]);
        }
    }

    proof fn law_identity_right(k: OperationType, a: Seq<Seq<T::V>>) {
        let e = Self::sp_identity(k, a);
        let r = Self::sp_op(k, a, e);
        assert forall|i: int, j: int|
            0 <= i < a.len() && 0 <= j < a[0].len() implies #[trigger] r[i][j] == a[i][j] by {
            T::law_identity_right(k, a[i][j]);
        }
        assert forall|i: int| 0 <= i < a.len() implies #[trigger] r[i] == a[i] by {
            assert(r[i] =~= a[i]);
        }
        assert(r =~= a);
    }

    proof fn law_identity_left(k: OperationType, a: Seq<Seq<T::V>>) {
        let e = Self::sp_identity(k, a);
        let r = Self::sp_op(k, e, a);
        assert forall|i: int, j: int|
            0 <= i < a.len() && 0 <= j < a[0].len() implies #[trigger] r[i][j] == a[i][j] by {
            T::law_identity_left(k, a[i][j]);
        }
        assert forall|i: int| 0 <= i < a.len() implies #[trigger] r[i] == a[i] by {
            assert(r[i] =~= a[i]);
        }
        assert(r =~= a);
    }

    proof fn law_zero(a: Seq<Seq<T::V>>) {
        let z = Self::sp_zero(a);
        assert forall|i: int, j: int| 0 <= i < a.len() && 0 <= j < a[0].len() implies T::sp_wf(
            #[trigger] z[i][j],
        ) by {
            T::law_zero(a[i][j]);
        }
        if Self::sp_supports(OperationType::Add) {
            let e = Self::sp_identity(OperationType::Add, a);
            assert forall|i: int, j: int|
                0 <= i < a.len() && 0 <= j < a[0].len() implies #[trigger] e[i][j] == z[i][j] by {
                T::law_zero(a[i][j]);
            }
            assert forall|i: int| 0 <= i < a.len() implies #[trigger] e[i] == z[i] by {
                assert(e[i] =~= z[i]);
            }
            assert(e =~= z);
        }
        if Self::sp_supports(OperationType::Sub) {
            let e = Self::sp_identity(OperationType::Sub, a);
            assert forall|i: int, j: int|
                0 <= i < a.len() && 0 <= j < a[0].len() implies #[trigger] e[i][j] == z[i][j] by {
                T::law_zero(a[i][j]);
            }
            assert forall|i: int| 0 <= i < a.len() implies #[trigger] e[i] == z[i] by {
                assert(e[i] =~= z[i]);
            }
            assert(e =~= z);
        }
    }

    proof fn law_absorb(a: Seq<Seq<T::V>>) {
        // A matrix group offers no multiplication, so there is nothing to
        // show: the premise of this law cannot hold.
    }

    proof fn law_add_comm(a: Seq<Seq<T::V>>, b: Seq<Seq<T::V>>) {
        let ab = Self::sp_op(OperationType::Add, a, b);
        let ba = Self::sp_op(OperationType::Add, b, a);
        assert forall|i: int, j: int| 0 <= i < a.len() && 0 <= j < a[0].len() implies T::sp_ok(
            OperationType::Add,
            #[trigger] b[i][j],
            a[i][j],
        ) && T::sp_op(OperationType::Add, a[i][j], b[i][j]) == T::sp_op(
            OperationType::Add,
            b[i][j],
            a[i][j],
        ) by {
            T::law_add_comm(a[i][j], b[i][j]);
        }
        assert forall|i: int| 0 <= i < a.len() implies #[trigger] ab[i] == ba[i] by {
            assert(ab[i] =~= ba[i]);
        }
        assert(ab =~= ba);
    }

    proof fn law_add_assoc(a: Seq<Seq<T::V>>, b: Seq<Seq<T::V>>, c: Seq<Seq<T::V>>) {
        let ab = Self::sp_op(OperationType::Add, a, b);
        let bc = Self::sp_op(OperationType::Add, b, c);
        assert forall|i: int, j: int| 0 <= i < a.len() && 0 <= j < a[0].len() implies T::sp_wf(
            #[trigger] ab[i][j],
        ) && T::sp_ok(OperationType::Add, ab[i][j], c[i][j]) by {
            T::law_op_wf(OperationType::Add, a[i][j], b[i][j]);
            T::law_add_assoc(a[i][j], b[i][j], c[i][j]);
        }
        assert forall|i: int, j: int| 0 <= i < a.len() && 0 <= j < a[0].len() implies T::sp_wf(
            #[trigger] bc[i][j],
        ) && T::sp_ok(OperationType::Add, a[i][j], bc[i][j]) by {
            T::law_op_wf(OperationType::Add, b[i][j], c[i][j]);
            T::law_add_assoc(a[i][j], b[i][j], c[i][j]);
        }
        let l = Self::sp_op(OperationType::Add, ab, c);
        let r = Self::sp_op(OperationType::Add, a, bc);
        assert forall|i: int, j: int|
            0 <= i < a.len() && 0 <= j < a[0].len() implies #[trigger] l[i][j] == r[i][j] by {
            T::law_add_assoc(a[i][j], b[i][j], c[i][j]);
        }
        assert forall|i: int| 0 <= i < a.len() implies #[trigger] l[i] == r[i] by {
            assert(l[i] =~= r[i]);
        }
        assert(l =~= r);
    }

    proof fn law_div_ok(a: Seq<Seq<T::V>>, b: Seq<Seq<T::V>>) {
        // Vacuous: a matrix group offers no division.
    }

    proof fn law_div_cancel(a: Seq<Seq<T::V>>, b: Seq<Seq<T::V>>) {
        // Vacuous: a matrix group offers no division.
    }

    proof fn law_total(k: OperationType, a: Seq<Seq<T::V>>, b: Seq<Seq<T::V>>) {
        // Vacuous: a matrix group offers no multiplication, so it never
        // claims the scalar-like totality this law describes.
    }
}


/// Which capabilities of the element type a power with exponent `exp`
/// needs: none to return the matrix itself, a multiplicative identity for
/// the zeroth power, sums and products for higher ones, and a full ring
/// with division for inversion.
pub open spec fn pow_caps<T: Group>(exp: int) -> bool {
    if exp == 1 {
        true
    } else if exp == 0 {
        T::sp_supports(OperationType::Mul)
    } else if exp >= 2 {
        T::sp_supports(OperationType::Add) && T::sp_supports(OperationType::Mul)
    } else {
        ring_ops::<T>() && T::sp_supports(OperationType::Div)
    }
}

impl<T: Group> Matrix<T> {
    /// The matrix with row `i` and column `j` removed.
    fn minor(&self, i: usize, j: usize) -> (r: Self)
        requires
            grid_wf::<T>(self@),
            self@.len() >= 2,
            self@[0].len() >= 2,
            i < self@.len(),
            j < self@[0].len(),
        ensures
            r.wf(),
            r@ == grid_minor::<T>(self@, i as int, j as int),
    {
        let ghost t = grid_minor::<T>(self@, i as int, j as int);
        proof {
            self.lemma_rows();
        }
        let rows = self.matrix.len();
        let cols = self.matrix[0].len();
        let mut grid: Vec<Vec<T>> = Vec::new();
        let mut p: usize = 0;
        while p < rows - 1
            invariant
                grid_wf::<T>(self@),
                self@.len() >= 2,
                self@[0].len() >= 2,
                i < self@.len(),
                j < self@[0].len(),
                t == grid_minor::<T>(self@, i as int, j as int),
                rows == self@.len(),
                cols == self@[0].len(),
                grid@.len() == p,
                0 <= p <= rows - 1,
                forall|x: int| 0 <= x < p ==> (#[trigger] grid@[x])@.len() == cols - 1,
                forall|x: int, y: int|
                    0 <= x < p && 0 <= y < cols - 1 ==> (#[trigger] grid@[x]@[y])@ == t[x][y],
            decreases rows - 1 - p,
        {
            let sp = if p < i {
                p
            } else {
                p + 1
            };
            let mut row: Vec<T> = Vec::new();
            let mut q: usize = 0;
            while q < cols - 1
                invariant
                    grid_wf::<T>(self@),
                    self@.len() >= 2,
                    self@[0].len() >= 2,
                    i < self@.len(),
                    j < self@[0].len(),
                    t == grid_minor::<T>(self@, i as int, j as int),
                    rows == self@.len(),
                    cols == self@[0].len(),
                    p < rows - 1,
                    sp == (if p < i { p as int } else { p + 1 }),
                    sp < rows,
                    row@.len() == q,
                    0 <= q <= cols - 1,
                    forall|y: int| 0 <= y < q ==> (#[trigger] row@[y])@ == t[p as int][y],
                decreases cols - 1 - q,
            {
                let sq = if q < j {
                    q
                } else {
                    q + 1
                };
                proof {
                    self.lemma_rows();
                    assert(self.matrix@[sp as int]@.len() == self@[sp as int].len());
                    assert(self@[sp as int][sq as int] == self.matrix@[sp as int]@[sq as int]@);
                }
                row.push(self.matrix[sp][sq].dup());
                q += 1;
            }
            grid.push(row);
            p += 1;
        }
        let m = Matrix { size: (rows - 1, cols - 1), matrix: grid };
        proof {
            m.lemma_rows();
            assert forall|x: int| 0 <= x < rows - 1 implies #[trigger] m@[x] == t[x] by {
                assert(m@[x] =~= t[x]);
            }
            assert(m@ =~= t);
        }
        m
    }

    /// The determinant of a square matrix by Laplace expansion along the
    /// first row.
    fn det_rec(&self) -> (r: T)
        requires
            grid_wf::<T>(self@),
            self@.len() == self@[0].len(),
            self@.len() == 1 || ring_ops::<T>(),
        ensures
            r@ == grid_det::<T>(self@),
            T::sp_wf(r@),
        decreases self@.len(),
    {
        proof {
            self.lemma_rows();
            assert(self.matrix@[0]@.len() == self@[0].len());
            assert(self@[0][0] == self.matrix@[0]@[0]@);
        }
        let n = self.matrix.len();
        if n == 1 {
            return self.matrix[0][0].dup();
        }
        let m0 = self.minor(0, 0);
        let d0 = m0.det_rec();
        proof {
            T::law_total(OperationType::Mul, self@[0][0], d0@);
        }
        let mut acc = T::op(OperationType::Mul, &self.matrix[0][0], &d0);
        proof {
            assert(acc@ == det_term::<T>(self@, 0));
            assert(acc@ == det_expand::<T>(self@, 1));
        }
        let mut j: usize = 1;
        while j < n
            invariant
                grid_wf::<T>(self@),
                self@.len() == self@[0].len(),
                ring_ops::<T>(),
                n == self@.len(),
                n >= 2,
                1 <= j <= n,
                acc@ == det_expand::<T>(self@, j as int),
                T::sp_wf(acc@),
            decreases n - j,
        {
            proof {
                self.lemma_rows();
                assert(self.matrix@[0]@.len() == self@[0].len());
                assert(self@[0][j as int] == self.matrix@[0]@[j as int]@);
            }
            let mj = self.minor(0, j);
            let dj = mj.det_rec();
            proof {
                T::law_total(OperationType::Mul, self@[0][j as int], dj@);
            }
            let tj = T::op(OperationType::Mul, &self.matrix[0][j], &dj);
            proof {
                assert(tj@ == det_term::<T>(self@, j as int));
            }
            if j % 2 == 0 {
                proof {
                    T::law_total(OperationType::Add, acc@, tj@);
                }
                acc = T::op(OperationType::Add, &acc, &tj);
            } else {
                proof {
                    T::law_total(OperationType::Sub, acc@, tj@);
                }
                acc = T::op(OperationType::Sub, &acc, &tj);
            }
            j += 1;
        }
        acc
    }

    /// The determinant, refusing a non-square matrix with a shape error and
    /// an element type without sums, differences and products (needed by
    /// any expansion past a single cell) with a capability error.
    pub fn det_checked(&self) -> (r: Result<T, MatrixError>)
        requires
            self.wf(),
        ensures
            (r is Ok) == (self@.len() == self@[0].len() && (self@.len() == 1 || ring_ops::<T>())),
            r is Ok ==> r->Ok_0@ == grid_det::<T>(self@),
            r is Err ==> r->Err_0 == (if self@.len() != self@[0].len() {
                MatrixError::Shape
            } else {
                MatrixError::Capability
            }),
    {
        if self.size.0 != self.size.1 {
            return Err(MatrixError::Shape);
        }
        if self.size.0 > 1 && !(T::supports(OperationType::Add) && T::supports(OperationType::Sub)
            && T::supports(OperationType::Mul)) {
            return Err(MatrixError::Capability);
        }
        Ok(self.det_rec())
    }

    /// The determinant of a square matrix over a ring-like element type.
    pub fn det(&self) -> (r: T)
        requires
            self.wf(),
            self@.len() == self@[0].len(),
            self@.len() == 1 || ring_ops::<T>(),
        ensures
            r@ == grid_det::<T>(self@),
    {
        match self.det_checked() {
            Ok(d) => d,
            Err(_) => vstd::pervasive::unreached(),
        }
    }

    /// The cofactor of cell `(i, j)`: the determinant of the minor, negated
    /// by subtraction from zero when `i + j` is odd.
    fn cofactor_at(&self, i: usize, j: usize) -> (r: T)
        requires
            self.wf(),
            self@.len() == self@[0].len(),
            ring_ops::<T>(),
            i < self@.len(),
            j < self@.len(),
        ensures
            r@ == grid_cofactor::<T>(self@, i as int, j as int),
            T::sp_wf(r@),
    {
        let n = self.matrix.len();
        proof {
            self.lemma_rows();
        }
        if n == 1 {
            let e = T::empty();
            let one = match e.identity(OperationType::Mul) {
                Some(c) => c,
                None => vstd::pervasive::unreached(),
            };
            return one;
        }
        let m = self.minor(i, j);
        let dm = m.det_rec();
        let even = (i % 2) == (j % 2);
        proof {
            assert(((i + j) as int % 2 == 0) == (i as int % 2 == j as int % 2))
                by (nonlinear_arith);
        }
        if even {
            dm
        } else {
            let z = T::empty().zero();
            proof {
                T::law_total(OperationType::Sub, z@, dm@);
            }
            T::op(OperationType::Sub, &z, &dm)
        }
    }

    /// The adjugate-over-determinant inverse of a square matrix whose
    /// determinant `d` is not the zero element.
    fn inverse(&self, d: &T) -> (r: Self)
        requires
            self.wf(),
            self@.len() == self@[0].len(),
            ring_ops::<T>(),
            T::sp_supports(OperationType::Div),
            d@ == grid_det::<T>(self@),
            T::sp_wf(d@),
            d@ != zero_elem::<T>(),
        ensures
            r.wf(),
            r@ == grid_inv::<T>(self@),
            r.sp_size() == self.sp_size(),
    {
        let ghost t = grid_inv::<T>(self@);
        proof {
            self.lemma_rows();
        }
        let n = self.matrix.len();
        let mut grid: Vec<Vec<T>> = Vec::new();
        let mut i: usize = 0;
        while i < n
            invariant
                self.wf(),
                self@.len() == self@[0].len(),
                ring_ops::<T>(),
                T::sp_supports(OperationType::Div),
                d@ == grid_det::<T>(self@),
                T::sp_wf(d@),
                d@ != zero_elem::<T>(),
                t == grid_inv::<T>(self@),
                n == self@.len(),
                grid@.len() == i,
                0 <= i <= n,
                forall|p: int| 0 <= p < i ==> (#[trigger] grid@[p])@.len() == n,
                forall|p: int, q: int|
                    0 <= p < i && 0 <= q < n ==> (#[trigger] grid@[p]@[q])@ == t[p][q]
                        && T::sp_wf(grid@[p]@[q]@),
            decreases n - i,
        {
            let mut row: Vec<T> = Vec::new();
            let mut j: usize = 0;
            while j < n
                invariant
                    self.wf(),
                    self@.len() == self@[0].len(),
                    ring_ops::<T>(),
                    T::sp_supports(OperationType::Div),
                    d@ == grid_det::<T>(self@),
                    T::sp_wf(d@),
                    d@ != zero_elem::<T>(),
                    t == grid_inv::<T>(self@),
                    n == self@.len(),
                    i < n,
                    row@.len() == j,
                    0 <= j <= n,
                    forall|q: int|
                        0 <= q < j ==> (#[trigger] row@[q])@ == t[i as int][q] && T::sp_wf(
                            row@[q]@,
                        ),
                decreases n - j,
            {
                let cof = self.cofactor_at(j, i);
                proof {
                    T::law_total(OperationType::Add, d@, T::sp_empty());
                    T::law_total(OperationType::Add, T::sp_empty(), d@);
                    T::law_zero(d@);
                    T::law_zero(T::sp_empty());
                    assert(T::sp_zero(d@) == zero_elem::<T>());
                    T::law_div_ok(cof@, d@);
                }
                let cell = T::op(OperationType::Div, &cof, d);
                proof {
                    T::law_op_wf(OperationType::Div, cof@, d@);
                }
                row.push(cell);
                j += 1;
            }
            grid.push(row);
            i += 1;
        }
        let m = Matrix { size: (n, n), matrix: grid };
        proof {
            m.lemma_rows();
            assert forall|p: int| 0 <= p < n implies #[trigger] m@[p] == t[p] by {
                assert(m@[p] =~= t[p]);
            }
            assert(m@ =~= t);
        }
        m
    }

    /// Repeated multiplication of a square matrix by itself, `e >= 1` factors.
    fn pow_loop(base: &Self, e: usize) -> (r: Self)
        requires
            base.wf(),
            base@.len() == base@[0].len(),
            e >= 1,
            e >= 2 ==> T::sp_supports(OperationType::Add) && T::sp_supports(OperationType::Mul),
        ensures
            r.wf(),
            r@ == grid_pow::<T>(base@, e as nat, base@.len() as int),
            r.sp_size() == base.sp_size(),
    {
        let mut acc = base.dup();
        let mut i: usize = 1;
        while i < e
            invariant
                base.wf(),
                base@.len() == base@[0].len(),
                e >= 2 ==> T::sp_supports(OperationType::Add) && T::sp_supports(
                    OperationType::Mul,
                ),
                1 <= i <= e,
                acc.wf(),
                acc@ == grid_pow::<T>(base@, i as nat, base@.len() as int),
                acc.sp_size() == base.sp_size(),
            decreases e - i,
        {
            proof {
                acc.lemma_wf();
                base.lemma_wf();
                assert(acc@[0].len() == base@.len());
            }
            let next = acc.mul(base);
            acc = next;
            i += 1;
        }
        acc
    }

    /// Raise a square matrix to an integer power: the zeroth power is the
    /// multiplicative-identity matrix, positive powers multiply the matrix
    /// out, and negative powers raise the adjugate-over-determinant inverse
    /// to the matching positive power.  A non-square matrix is refused with
    /// a shape error, a missing element capability with a capability error,
    /// and a zero determinant (when inverting) with a singularity error.
    pub fn pow_checked(&self, exp: isize) -> (r: Result<Self, MatrixError>)
        requires
            self.wf(),
        ensures
            (r is Ok) == (self@.len() == self@[0].len() && pow_caps::<T>(exp as int) && (exp < 0
                ==> grid_det::<T>(self@) != zero_elem::<T>())),
            r is Ok ==> {
                let m = r->Ok_0;
                &&& m@ == (if exp >= 0 {
                    grid_pow::<T>(self@, exp as nat, self@.len() as int)
                } else {
                    grid_pow::<T>(grid_inv::<T>(self@), (-(exp as int)) as nat, self@.len() as int)
                })
                &&& m.wf()
                &&& m.sp_size() == self.sp_size()
            },
            r is Err ==> r->Err_0 == (if self@.len() != self@[0].len() {
                MatrixError::Shape
            } else if !pow_caps::<T>(exp as int) {
                MatrixError::Capability
            } else {
                MatrixError::Singular
            }),
    {
        if self.size.0 != self.size.1 {
            return Err(MatrixError::Shape);
        }
        let n = self.size.0;
        if exp == 1 {
            return Ok(self.dup());
        }
        if exp == 0 {
            if !T::supports(OperationType::Mul) {
                return Err(MatrixError::Capability);
            }
            return Ok(Self::new_mul_identity(n));
        }
        if exp >= 2 {
            if !(T::supports(OperationType::Add) && T::supports(OperationType::Mul)) {
                return Err(MatrixError::Capability);
            }
            return Ok(Self::pow_loop(self, exp as usize));
        }
        if !(T::supports(OperationType::Add) && T::supports(OperationType::Sub) && T::supports(
            OperationType::Mul,
        ) && T::supports(OperationType::Div)) {
            return Err(MatrixError::Capability);
        }
        let d = self.det_rec();
        proof {
            T::law_total(OperationType::Add, d@, T::sp_empty());
            T::law_total(OperationType::Add, T::sp_empty(), d@);
            T::law_zero(d@);
            T::law_zero(T::sp_empty());
            assert(T::sp_zero(d@) == zero_elem::<T>());
        }
        if d.is_zero() {
            return Err(MatrixError::Singular);
        }
        let inv = self.inverse(&d);
        let e: usize = if exp == isize::MIN {
            (isize::MAX as usize) + 1
        } else {
            (-exp) as usize
        };
        proof {
            inv.lemma_wf();
        }
        Ok(Self::pow_loop(&inv, e))
    }

    /// Raise a square matrix to an integer power; the preconditions are the
    /// success conditions of [`Matrix::pow_checked`].
    pub fn pow(&self, exp: isize) -> (r: Self)
        requires
            self.wf(),
            self@.len() == self@[0].len(),
            pow_caps::<T>(exp as int),
            exp < 0 ==> grid_det::<T>(self@) != zero_elem::<T>(),
        ensures
            r@ == (if exp >= 0 {
                grid_pow::<T>(self@, exp as nat, self@.len() as int)
            } else {
                grid_pow::<T>(grid_inv::<T>(self@), (-(exp as int)) as nat, self@.len() as int)
            }),
            r.wf(),
            r.sp_size() == self.sp_size(),
    {
        match self.pow_checked(exp) {
            Ok(m) => m,
            Err(_) => vstd::pervasive::unreached(),
        }
    }

    /// Divide by a square matrix: `self * rhs.pow(-1)`.  A shape error when
    /// `rhs` is not square or the inner dimensions disagree, a capability
    /// error when the element type is not a ring with division, and a
    /// singularity error when `rhs` has a zero determinant.
    pub fn div_checked(&self, rhs: &Self) -> (r: Result<Self, MatrixError>)
        requires
            self.wf(),
            rhs.wf(),
        ensures
            (r is Ok) == (rhs@.len() == rhs@[0].len() && self@[0].len() == rhs@.len()
                && ring_ops::<T>() && T::sp_supports(OperationType::Div) && grid_det::<T>(rhs@)
                != zero_elem::<T>()),
            r is Ok ==> {
                let m = r->Ok_0;
                &&& m@ == grid_mul::<T>(self@, grid_inv::<T>(rhs@))
                &&& m.wf()
                &&& m.sp_size() == (self.sp_size().0, rhs.sp_size().1)
            },
            r is Err ==> r->Err_0 == (if !(rhs@.len() == rhs@[0].len() && self@[0].len()
                == rhs@.len()) {
                MatrixError::Shape
            } else if !(ring_ops::<T>() && T::sp_supports(OperationType::Div)) {
                MatrixError::Capability
            } else {
                MatrixError::Singular
            }),
    {
        if !rhs.square() || self.size.1 != rhs.size.0 {
            return Err(MatrixError::Shape);
        }
        if !(T::supports(OperationType::Add) && T::supports(OperationType::Sub) && T::supports(
            OperationType::Mul,
        ) && T::supports(OperationType::Div)) {
            return Err(MatrixError::Capability);
        }
        let inv = match rhs.pow_checked(-1) {
            Ok(m) => m,
            Err(_) => {
                return Err(MatrixError::Singular);
            },
        };
        proof {
            inv.lemma_wf();
        }
        Ok(self.mul(&inv))
    }

    /// Divide by a square matrix; the preconditions are the success
    /// conditions of [`Matrix::div_checked`].
    pub fn div(&self, rhs: &Self) -> (r: Self)
        requires
            self.wf(),
            rhs.wf(),
            rhs@.len() == rhs@[0].len(),
            self@[0].len() == rhs@.len(),
            ring_ops::<T>(),
            T::sp_supports(OperationType::Div),
            grid_det::<T>(rhs@) != zero_elem::<T>(),
        ensures
            r@ == grid_mul::<T>(self@, grid_inv::<T>(rhs@)),
            r.wf(),
            r.sp_size() == (self.sp_size().0, rhs.sp_size().1),
    {
        match self.div_checked(rhs) {
            Ok(m) => m,
            Err(_) => vstd::pervasive::unreached(),
        }
    }

    /// In-place division: `self` becomes `self * rhs.pow(-1)`.
    pub fn div_assign(&mut self, rhs: &Self)
        requires
            old(self).wf(),
            rhs.wf(),
            rhs@.len() == rhs@[0].len(),
            old(self)@[0].len() == rhs@.len(),
            ring_ops::<T>(),
            T::sp_supports(OperationType::Div),
            grid_det::<T>(rhs@) != zero_elem::<T>(),
        ensures
            final(self).wf(),
            final(self)@ == grid_mul::<T>(old(self)@, grid_inv::<T>(rhs@)),
            final(self).sp_size() == (old(self).sp_size().0, rhs.sp_size().1),
    {
        let r = self.div(rhs);
        *self = r;
    }
}

} // verus!