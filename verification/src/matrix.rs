//! Dense matrices and vectors of scalars.

use vstd::prelude::*;
use crate::error::ShapeError;
use crate::grid::{
    grid_cells, grid_dim, grid_filled, grid_get, grid_set, lane_cells, lane_filled, lane_get, lane_len, lane_set, Grid,
    Lane,
};
use crate::scalar::Scalar;

verus! {

/// The scalars that a row of patterns stands for.
pub open spec fn scalars(row: Seq<u64>) -> Seq<Scalar> {
    Seq::new(row.len(), |j: int| Scalar { bits: row[j] })
}

/// The rows of scalars that rows of patterns stand for.
pub open spec fn scalar_rows(rows: Seq<Seq<u64>>) -> Seq<Seq<Scalar>> {
    Seq::new(rows.len(), |i: int| scalars(rows[i]))
}

/// Whether `rows` is a table of `n` rows and `m` columns.
pub open spec fn is_table<T>(rows: Seq<Seq<T>>, n: nat, m: nat) -> bool {
    &&& rows.len() == n
    &&& forall|i: int| 0 <= i < n ==> (#[trigger] rows[i]).len() == m
}

/// The rows of scalars that a vector of vectors holds.
pub open spec fn rows_of(rows: Seq<Vec<Scalar>>) -> Seq<Seq<Scalar>> {
    Seq::new(rows.len(), |i: int| rows[i]@)
}

/// Whether every cell of `rows` is a real number.
pub open spec fn all_finite(rows: Seq<Seq<Scalar>>) -> bool {
    forall|i: int, j: int| 0 <= i < rows.len() && 0 <= j < rows[i].len() ==> (#[trigger] rows[i][j]).spec_is_finite()
}

/// Whether every cell of `rows` is zero.
pub open spec fn all_zero(rows: Seq<Seq<Scalar>>) -> bool {
    forall|i: int, j: int| 0 <= i < rows.len() && 0 <= j < rows[i].len() ==> (#[trigger] rows[i][j]).spec_is_zero()
}

/// Whether `m` is a matrix of `rows` rows and `cols` columns.
pub open spec fn shaped(m: Matrix, rows: nat, cols: nat) -> bool {
    m.wf() && m.spec_rows() == rows && m.spec_cols() == cols
}

/// The smaller of two numbers.
pub open spec fn least(a: nat, b: nat) -> nat {
    if a <= b {
        a
    } else {
        b
    }
}

/// The product of two factors is no larger than that of two larger ones.
proof fn lemma_area_grows(a: int, b: int, c: int, d: int)
    requires
        0 <= a <= c,
        0 <= b <= d,
    ensures
        a * b <= c * d,
{
    assert(a * b <= c * d) by (nonlinear_arith)
        requires
            0 <= a <= c,
            0 <= b <= d,
    ;
}

/// A dense matrix with at least one row and one column. Its view is the
/// sequence of its rows.
#[derive(Debug, PartialEq)]
pub struct Matrix {
    cells: Grid,
}

impl View for Matrix {
    type V = Seq<Seq<Scalar>>;

    closed spec fn view(&self) -> Seq<Seq<Scalar>> {
        scalar_rows(grid_cells(self.cells))
    }
}

impl Matrix {
    /// The number of rows, as the contracts speak of it.
    pub open spec fn spec_rows(&self) -> nat {
        self@.len()
    }

    /// The number of columns, as the contracts speak of it.
    pub open spec fn spec_cols(&self) -> nat {
        self@[0].len()
    }

    /// What holds of every matrix: it is a table with a row and a column at
    /// least, and its cells fit in the memory that the machine can address.
    pub open spec fn wf(&self) -> bool {
        &&& self.spec_rows() >= 1
        &&& self.spec_cols() >= 1
        &&& is_table(self@, self.spec_rows(), self.spec_cols())
        &&& self.spec_rows() * self.spec_cols() * 8 <= isize::MAX
    }

    #[verifier::type_invariant]
    spec fn inv(&self) -> bool {
        self.wf()
    }

    /// The number of rows.
    pub fn rows(&self) -> (n: usize)
        ensures
            n == self.spec_rows(),
            self.wf(),
    {
        proof {
            use_type_invariant(self);
        }
        grid_dim(&self.cells).0
    }

    /// The number of columns.
    pub fn cols(&self) -> (m: usize)
        ensures
            m == self.spec_cols(),
            self.wf(),
    {
        proof {
            use_type_invariant(self);
        }
        grid_dim(&self.cells).1
    }

    /// The scalar in row `i` and column `j`.
    pub fn get(&self, i: usize, j: usize) -> (s: Scalar)
        requires
            i < self.spec_rows(),
            j < self.spec_cols(),
        ensures
            s == self@[i as int][j as int],
    {
        proof {
            use_type_invariant(self);
            assert(self@[i as int].len() == grid_cells(self.cells)[i as int].len());
        }
        Scalar::from_bits(grid_get(&self.cells, i, j))
    }

    /// The matrix of `rows` rows and `cols` columns whose every cell holds
    /// the pattern that `cell` computes from its row and its column.
    pub(crate) fn tabulate<F: Fn(usize, usize) -> u64>(rows: usize, cols: usize, cell: F) -> (m: Matrix)
        requires
            1 <= rows,
            1 <= cols,
            rows * cols * 8 <= isize::MAX,
            forall|i: usize, j: usize| i < rows && j < cols ==> #[trigger] cell.requires((i, j)),
        ensures
            shaped(m, rows as nat, cols as nat),
            forall|i: usize, j: usize|
                i < rows && j < cols ==> cell.ensures((i, j), (#[trigger] m@[i as int][j as int]).bits),
    {
        let mut g = grid_filled(rows, cols, 0);
        let mut i: usize = 0;
        while i < rows
            invariant
                i <= rows,
                is_table(grid_cells(g), rows as nat, cols as nat),
                forall|a: usize, b: usize| a < rows && b < cols ==> #[trigger] cell.requires((a, b)),
                forall|a: usize, b: usize|
                    a < i && b < cols ==> cell.ensures((a, b), #[trigger] grid_cells(g)[a as int][b as int]),
            decreases rows - i,
        {
            let mut j: usize = 0;
            while j < cols
                invariant
                    i < rows,
                    j <= cols,
                    is_table(grid_cells(g), rows as nat, cols as nat),
                    forall|a: usize, b: usize| a < rows && b < cols ==> #[trigger] cell.requires((a, b)),
                    forall|a: usize, b: usize|
                        a < i && b < cols ==> cell.ensures((a, b), #[trigger] grid_cells(g)[a as int][b as int]),
                    forall|b: usize| b < j ==> cell.ensures((i, b), #[trigger] grid_cells(g)[i as int][b as int]),
                decreases cols - j,
            {
                let value: u64 = cell(i, j);
                grid_set(&mut g, i, j, value);
                j = j + 1;
            }
            i = i + 1;
        }
        let m = Matrix { cells: g };
        proof {
            assert forall|a: usize, b: usize| a < rows && b < cols implies cell.ensures(
                (a, b),
                (#[trigger] m@[a as int][b as int]).bits,
            ) by {
                assert(m@[a as int][b as int].bits == grid_cells(g)[a as int][b as int]);
            }
        }
        m
    }

    /// The matrix whose rows are those of `rows`. It refuses a table without
    /// a row or a column, one whose rows differ in length, and one too large
    /// for the machine.
    pub fn from_rows(rows: Vec<Vec<Scalar>>) -> (r: Result<Matrix, ShapeError>)
        ensures
            match r {
                Ok(m) => m.wf() && m@ == rows_of(rows@),
                Err(ShapeError::Empty) => rows.len() == 0 || rows[0].len() == 0,
                Err(ShapeError::Ragged) => rows.len() > 0 && rows[0].len() > 0 && exists|i: int|
                    0 <= i < rows.len() && (#[trigger] rows[i]).len() != rows[0].len(),
                Err(ShapeError::TooLarge) => rows.len() > 0 && rows[0].len() > 0 && (forall|i: int|
                    0 <= i < rows.len() ==> (#[trigger] rows[i]).len() == rows[0].len()) && rows.len()
                    * rows[0].len() * 8 > isize::MAX,
                Err(_) => false,
            },
    {
        let n: usize = rows.len();
        if n == 0 {
            return Err(ShapeError::Empty);
        }
        let m: usize = rows[0].len();
        if m == 0 {
            return Err(ShapeError::Empty);
        }
        let mut i: usize = 1;
        while i < n
            invariant
                1 <= i <= n,
                1 <= m,
                n == rows.len(),
                m == rows[0].len(),
                forall|a: int| 0 <= a < i ==> (#[trigger] rows[a]).len() == m,
            decreases n - i,
        {
            if rows[i].len() != m {
                assert(rows[i as int].len() != rows[0].len());
                return Err(ShapeError::Ragged);
            }
            i = i + 1;
        }
        if !fits(n, m) {
            return Err(ShapeError::TooLarge);
        }
        let cell = |i: usize, j: usize| -> (v: u64)
            requires
                i < n,
                j < m,
            ensures
                v == rows@[i as int]@[j as int].bits,
            {
                let row: &Vec<Scalar> = &rows[i];
                row[j].to_bits()
            };
        let out = Matrix::tabulate(n, m, cell);
        proof {
            assert(out@ =~~= rows_of(rows@));
        }
        Ok(out)
    }

    /// The rows of the matrix, each as a vector.
    pub fn to_rows(&self) -> (rows: Vec<Vec<Scalar>>)
        ensures
            rows_of(rows@) == self@,
    {
        let n: usize = self.rows();
        let m: usize = self.cols();
        let mut rows: Vec<Vec<Scalar>> = Vec::new();
        let mut i: usize = 0;
        while i < n
            invariant
                i <= n,
                n == self.spec_rows(),
                m == self.spec_cols(),
                self.wf(),
                rows.len() == i,
                forall|a: int| 0 <= a < i ==> (#[trigger] rows[a])@ == self@[a],
            decreases n - i,
        {
            let mut row: Vec<Scalar> = Vec::new();
            let mut j: usize = 0;
            while j < m
                invariant
                    i < n,
                    j <= m,
                    n == self.spec_rows(),
                    m == self.spec_cols(),
                    self.wf(),
                    row.len() == j,
                    forall|b: int| 0 <= b < j ==> (#[trigger] row[b]) == self@[i as int][b],
                decreases m - j,
            {
                row.push(self.get(i, j));
                j = j + 1;
            }
            proof {
                assert(row@ =~= self@[i as int]);
            }
            rows.push(row);
            i = i + 1;
        }
        proof {
            assert(rows_of(rows@) =~= self@);
        }
        rows
    }

    /// The matrix of the shape of `self` whose cells are all the positive
    /// zero.
    pub fn zeros_like(&self) -> (m: Matrix)
        ensures
            self.wf(),
            m.wf(),
            is_table(m@, self.spec_rows(), self.spec_cols()),
            all_zero(m@),
            forall|i: int, j: int|
                0 <= i < self.spec_rows() && 0 <= j < self.spec_cols() ==> (#[trigger] m@[i][j]).bits == 0,
    {
        let rows: usize = self.rows();
        let cols: usize = self.cols();
        let cells = grid_filled(rows, cols, 0);
        Matrix { cells }
    }

    /// The absolute value of every cell.
    pub fn abs(&self) -> (m: Matrix)
        ensures
            m.wf(),
            is_table(m@, self.spec_rows(), self.spec_cols()),
            forall|i: int, j: int|
                0 <= i < self.spec_rows() && 0 <= j < self.spec_cols() ==> (#[trigger] m@[i][j])
                    == self@[i][j].spec_abs(),
    {
        let rows: usize = self.rows();
        let cols: usize = self.cols();
        let cell = |i: usize, j: usize| -> (v: u64)
            requires
                i < rows,
                j < cols,
            ensures
                v == self@[i as int][j as int].spec_abs().bits,
            {
                let s: Scalar = self.get(i, j);
                s.abs().to_bits()
            };
        Matrix::tabulate(rows, cols, cell)
    }

    /// Whether the matrix has as many rows as columns.
    pub fn is_square(&self) -> (b: bool)
        ensures
            b == (self.spec_rows() == self.spec_cols()),
    {
        self.rows() == self.cols()
    }

    /// Whether `other` has the shape of `self`.
    pub fn same_shape(&self, other: &Matrix) -> (b: bool)
        ensures
            b == (self.spec_rows() == other.spec_rows() && self.spec_cols() == other.spec_cols()),
            self.wf(),
            other.wf(),
    {
        self.rows() == other.rows() && self.cols() == other.cols()
    }

    /// Whether every cell is a real number.
    pub fn is_finite(&self) -> (b: bool)
        ensures
            b == all_finite(self@),
    {
        let n: usize = self.rows();
        let m: usize = self.cols();
        let mut i: usize = 0;
        while i < n
            invariant
                i <= n,
                n == self.spec_rows(),
                m == self.spec_cols(),
                self.wf(),
                forall|a: int, b: int| 0 <= a < i && 0 <= b < m ==> (#[trigger] self@[a][b]).spec_is_finite(),
            decreases n - i,
        {
            let mut j: usize = 0;
            while j < m
                invariant
                    i < n,
                    j <= m,
                    n == self.spec_rows(),
                    m == self.spec_cols(),
                    self.wf(),
                    forall|a: int, b: int| 0 <= a < i && 0 <= b < m ==> (#[trigger] self@[a][b]).spec_is_finite(),
                    forall|b: int| 0 <= b < j ==> (#[trigger] self@[i as int][b]).spec_is_finite(),
                decreases m - j,
            {
                if !self.get(i, j).is_finite() {
                    return false;
                }
                j = j + 1;
            }
            i = i + 1;
        }
        true
    }

    /// Whether every cell is zero.
    pub fn is_zero(&self) -> (b: bool)
        ensures
            b == all_zero(self@),
    {
        let n: usize = self.rows();
        let m: usize = self.cols();
        let mut i: usize = 0;
        while i < n
            invariant
                i <= n,
                n == self.spec_rows(),
                m == self.spec_cols(),
                self.wf(),
                forall|a: int, b: int| 0 <= a < i && 0 <= b < m ==> (#[trigger] self@[a][b]).spec_is_zero(),
            decreases n - i,
        {
            let mut j: usize = 0;
            while j < m
                invariant
                    i < n,
                    j <= m,
                    n == self.spec_rows(),
                    m == self.spec_cols(),
                    self.wf(),
                    forall|a: int, b: int| 0 <= a < i && 0 <= b < m ==> (#[trigger] self@[a][b]).spec_is_zero(),
                    forall|b: int| 0 <= b < j ==> (#[trigger] self@[i as int][b]).spec_is_zero(),
                decreases m - j,
            {
                if !self.get(i, j).is_zero() {
                    return false;
                }
                j = j + 1;
            }
            i = i + 1;
        }
        true
    }

    /// The first `k` columns of the matrix.
    pub fn leading_columns(&self, k: usize) -> (r: Result<Matrix, ShapeError>)
        ensures
            match r {
                Ok(m) => m.wf() && is_table(m@, self.spec_rows(), k as nat) && (forall|i: int, j: int|
                    0 <= i < self.spec_rows() && 0 <= j < k ==> (#[trigger] m@[i][j]) == self@[i][j]),
                Err(ShapeError::OutOfRange) => k == 0 || k > self.spec_cols(),
                Err(_) => false,
            },
    {
        let n: usize = self.rows();
        let m: usize = self.cols();
        if k == 0 || k > m {
            return Err(ShapeError::OutOfRange);
        }
        proof {
            lemma_area_grows(n as int, k as int, n as int, m as int);
        }
        let cell = |i: usize, j: usize| -> (v: u64)
            requires
                i < n,
                j < k,
            ensures
                v == self@[i as int][j as int].bits,
            {
                let s: Scalar = self.get(i, j);
                s.to_bits()
            };
        Ok(Matrix::tabulate(n, k, cell))
    }
}

/// Whether a table of `rows` by `cols` cells of eight bytes fits in the
/// memory that the machine can address.
fn fits(rows: usize, cols: usize) -> (b: bool)
    ensures
        b == (rows * cols * 8 <= isize::MAX),
{
    let limit: usize = (isize::MAX as usize) / 8;
    if rows == 0 || cols == 0 {
        return true;
    }
    match rows.checked_mul(cols) {
        Some(area) => {
            area <= limit
        },
        None => {
            false
        },
    }
}

/// The index in the matrix of what stands at index `a` once the entry at
/// `gap` is deleted.
pub open spec fn skipping(a: int, gap: int) -> int {
    if a < gap {
        a
    } else {
        a + 1
    }
}

/// The matrix `x` without row `i` and column `j`. It refuses a row or a
/// column outside `x`, and a matrix of which nothing would be left.
pub fn delete_row_and_column(x: &Matrix, i: usize, j: usize) -> (r: Result<Matrix, ShapeError>)
    ensures
        match r {
            Ok(m) => m.wf() && is_table(m@, (x.spec_rows() - 1) as nat, (x.spec_cols() - 1) as nat) && (forall|
                a: int,
                b: int,
            |
                0 <= a < x.spec_rows() - 1 && 0 <= b < x.spec_cols() - 1 ==> (#[trigger] m@[a][b]) == x@[skipping(
                    a,
                    i as int,
                )][skipping(b, j as int)]),
            Err(ShapeError::OutOfRange) => i >= x.spec_rows() || j >= x.spec_cols(),
            Err(ShapeError::Empty) => i < x.spec_rows() && j < x.spec_cols() && (x.spec_rows() == 1 || x.spec_cols()
                == 1),
            Err(_) => false,
        },
{
    let n: usize = x.rows();
    let m: usize = x.cols();
    if i >= n || j >= m {
        return Err(ShapeError::OutOfRange);
    }
    if n == 1 || m == 1 {
        return Err(ShapeError::Empty);
    }
    proof {
        lemma_area_grows(n - 1, m - 1, n as int, m as int);
    }
    let cell = |a: usize, b: usize| -> (v: u64)
        requires
            a < n - 1,
            b < m - 1,
        ensures
            v == x@[skipping(a as int, i as int)][skipping(b as int, j as int)].bits,
        {
            let row: usize = if a < i {
                a
            } else {
                a + 1
            };
            let col: usize = if b < j {
                b
            } else {
                b + 1
            };
            let s: Scalar = x.get(row, col);
            s.to_bits()
        };
    Ok(Matrix::tabulate(n - 1, m - 1, cell))
}

/// A dense vector. Its view is the sequence of its cells.
#[derive(Debug, PartialEq)]
pub struct Vector {
    cells: Lane,
}

impl View for Vector {
    type V = Seq<Scalar>;

    closed spec fn view(&self) -> Seq<Scalar> {
        scalars(lane_cells(self.cells))
    }
}

impl Vector {
    /// What holds of every vector: its cells fit in the memory that the
    /// machine can address.
    pub open spec fn wf(&self) -> bool {
        self@.len() * 8 <= isize::MAX
    }

    #[verifier::type_invariant]
    spec fn inv(&self) -> bool {
        self.wf()
    }

    /// The vector of `len` cells whose every cell holds the pattern that
    /// `cell` computes from its index.
    pub(crate) fn tabulate<F: Fn(usize) -> u64>(len: usize, cell: F) -> (v: Vector)
        requires
            len * 8 <= isize::MAX,
            forall|i: usize| i < len ==> #[trigger] cell.requires((i,)),
        ensures
            v.wf(),
            v@.len() == len,
            forall|i: usize| i < len ==> cell.ensures((i,), (#[trigger] v@[i as int]).bits),
    {
        let mut cells = lane_filled(len, 0);
        let mut i: usize = 0;
        while i < len
            invariant
                i <= len,
                lane_cells(cells).len() == len,
                forall|a: usize| a < len ==> #[trigger] cell.requires((a,)),
                forall|a: usize| a < i ==> cell.ensures((a,), #[trigger] lane_cells(cells)[a as int]),
            decreases len - i,
        {
            let value: u64 = cell(i);
            lane_set(&mut cells, i, value);
            i = i + 1;
        }
        let v = Vector { cells };
        proof {
            assert forall|a: usize| a < len implies cell.ensures((a,), (#[trigger] v@[a as int]).bits) by {
                assert(v@[a as int].bits == lane_cells(cells)[a as int]);
            }
        }
        v
    }

    /// The vector that holds the scalars of `values`, in their order.
    pub fn from_vec(values: Vec<Scalar>) -> (r: Result<Vector, ShapeError>)
        ensures
            match r {
                Ok(v) => v.wf() && v@ == values@,
                Err(ShapeError::TooLarge) => values.len() * 8 > isize::MAX,
                Err(_) => false,
            },
    {
        let n: usize = values.len();
        if n > (isize::MAX as usize) / 8 {
            return Err(ShapeError::TooLarge);
        }
        let cell = |i: usize| -> (v: u64)
            requires
                i < n,
            ensures
                v == values@[i as int].bits,
            { values[i].to_bits() };
        let out = Vector::tabulate(n, cell);
        proof {
            assert(out@ =~= values@);
        }
        Ok(out)
    }

    /// The scalars of the vector, in their order.
    pub fn to_vec(&self) -> (values: Vec<Scalar>)
        ensures
            values@ == self@,
    {
        let n: usize = self.len();
        let mut values: Vec<Scalar> = Vec::new();
        let mut i: usize = 0;
        while i < n
            invariant
                i <= n,
                n == self@.len(),
                values.len() == i,
                forall|a: int| 0 <= a < i ==> (#[trigger] values[a]) == self@[a],
            decreases n - i,
        {
            values.push(self.get(i));
            i = i + 1;
        }
        proof {
            assert(values@ =~= self@);
        }
        values
    }

    /// The number of cells.
    pub fn len(&self) -> (n: usize)
        ensures
            n == self@.len(),
            self.wf(),
    {
        proof {
            use_type_invariant(self);
        }
        lane_len(&self.cells)
    }

    /// The scalar at index `i`.
    pub fn get(&self, i: usize) -> (s: Scalar)
        requires
            i < self@.len(),
        ensures
            s == self@[i as int],
    {
        Scalar::from_bits(lane_get(&self.cells, i))
    }
}

} // verus!
