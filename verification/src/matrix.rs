use vstd::prelude::*;

use crate::complex::{
    c_add, c_conj, c_div, c_mul, c_norm, c_one, c_scale, c_sub, c_zero, Complex, ComplexArithmetic,
};
use crate::error::MathError;
use crate::scalar::Scalar;
use crate::vector::{inner_spec, normalize_spec, Vector, VectorType};

verus! {

/// A rectangular grid of complex numbers, stored as one vector per row.
/// The number of stored rows always equals `num_rows`, and every row
/// always holds `num_columns` elements.
pub struct Matrix<F: Scalar> {
    pub num_rows: usize,
    pub num_columns: usize,
    pub elements: Vec<Vector<F>>,
}

impl<F: Scalar> View for Matrix<F> {
    type V = Seq<Seq<Complex<F>>>;

    closed spec fn view(&self) -> Seq<Seq<Complex<F>>> {
        self.elements@.map_values(|v: Vector<F>| v@)
    }
}

/// The grid `g` has exactly `rows` rows of `cols` elements each.
pub open spec fn grid_shaped<F: Scalar>(g: Seq<Seq<Complex<F>>>, rows: int, cols: int) -> bool {
    g.len() == rows && (forall|r: int| 0 <= r < rows ==> (#[trigger] g[r]).len() == cols)
}

/// The transpose of a `rows × cols` grid: entry `(r, c)` of the result is
/// entry `(c, r)` of the argument.
pub open spec fn mat_transpose_spec<F: Scalar>(
    g: Seq<Seq<Complex<F>>>,
    rows: int,
    cols: int,
) -> Seq<Seq<Complex<F>>> {
    Seq::new(cols as nat, |r: int| Seq::new(rows as nat, |c: int| g[c][r]))
}

/// Every entry conjugated, shape unchanged.
pub open spec fn mat_conj_spec<F: Scalar>(g: Seq<Seq<Complex<F>>>) -> Seq<Seq<Complex<F>>> {
    g.map_values(|row: Seq<Complex<F>>| row.map_values(|e: Complex<F>| c_conj(e)))
}

/// The adjoint (conjugate transpose) of a `rows × cols` grid.
pub open spec fn mat_adjoint_spec<F: Scalar>(
    g: Seq<Seq<Complex<F>>>,
    rows: int,
    cols: int,
) -> Seq<Seq<Complex<F>>> {
    Seq::new(cols as nat, |r: int| Seq::new(rows as nat, |c: int| c_conj(g[c][r])))
}

/// Entry `(r, c)` of a matrix product: the sum `Σ a[r][k]·b[k][c]` over
/// the first `n` values of `k`, accumulated left to right from complex
/// zero.
pub open spec fn mat_cell_spec<F: Scalar>(
    a: Seq<Seq<Complex<F>>>,
    b: Seq<Seq<Complex<F>>>,
    r: int,
    c: int,
    n: int,
) -> Complex<F>
    decreases n,
{
    if n <= 0 {
        c_zero::<F>()
    } else {
        c_add(mat_cell_spec(a, b, r, c, n - 1), c_mul(a[r][n - 1], b[n - 1][c]))
    }
}

/// The `rows × cols` product grid of two grids sharing the inner
/// dimension `inner`.
pub open spec fn mat_mul_spec<F: Scalar>(
    a: Seq<Seq<Complex<F>>>,
    b: Seq<Seq<Complex<F>>>,
    rows: int,
    cols: int,
    inner: int,
) -> Seq<Seq<Complex<F>>> {
    Seq::new(rows as nat, |r: int| Seq::new(cols as nat, |c: int| mat_cell_spec(a, b, r, c, inner)))
}

/// A sequence of `n` complex zeros.
pub open spec fn zero_seq<F: Scalar>(n: int) -> Seq<Complex<F>> {
    Seq::new(n as nat, |i: int| c_zero::<F>())
}

/// Element-wise sum of two equally long element sequences.
pub open spec fn seq_add_spec<F: Scalar>(a: Seq<Complex<F>>, b: Seq<Complex<F>>) -> Seq<
    Complex<F>,
> {
    Seq::new(a.len(), |i: int| c_add(a[i], b[i]))
}

/// Element-wise difference, realized — as [`Vector::subtract`] does — by
/// adding the subtrahend scaled by minus one.
pub open spec fn seq_sub_spec<F: Scalar>(a: Seq<Complex<F>>, b: Seq<Complex<F>>) -> Seq<
    Complex<F>,
> {
    Seq::new(a.len(), |i: int| c_add(a[i], c_scale(b[i], F::one_s().neg_s())))
}

/// The projection of `v` through the outer-product matrix `u·uᵀ`: entry
/// `i` is the contraction of row `i` of that matrix with `v`.
pub open spec fn outer_apply_spec<F: Scalar>(u: Seq<Complex<F>>, v: Seq<Complex<F>>) -> Seq<
    Complex<F>,
> {
    Seq::new(
        v.len(),
        |i: int| inner_spec(Seq::new(u.len(), |t: int| c_mul(u[i], u[t])), v, v.len() as int),
    )
}

/// The accumulated projections of `v` onto the first `j` vectors of `us`,
/// summed in order from the zero vector.
pub open spec fn proj_sum_spec<F: Scalar>(
    us: Seq<Seq<Complex<F>>>,
    v: Seq<Complex<F>>,
    j: int,
) -> Seq<Complex<F>>
    decreases j,
{
    if j <= 0 {
        zero_seq(v.len() as int)
    } else {
        seq_add_spec(proj_sum_spec(us, v, j - 1), outer_apply_spec(us[j - 1], v))
    }
}

/// The classical (unmodified) Gram-Schmidt outputs for the first `k`
/// input vectors: each input, minus its projections onto every output
/// produced before it, normalized to unit L2 norm.
pub open spec fn gs_spec<F: Scalar>(input: Seq<Seq<Complex<F>>>, k: int) -> Seq<Seq<Complex<F>>>
    decreases k,
{
    if k <= 0 {
        Seq::empty()
    } else {
        let prev = gs_spec(input, k - 1);
        prev.push(
            normalize_spec(seq_sub_spec(input[k - 1], proj_sum_spec(prev, input[k - 1], k - 1))),
        )
    }
}

/// The `n × n` identity grid.
pub open spec fn identity_spec<F: Scalar>(n: int) -> Seq<Seq<Complex<F>>> {
    Seq::new(
        n as nat,
        |r: int|
            Seq::new(
                n as nat,
                |c: int|
                    if r == c {
                        c_one::<F>()
                    } else {
                        c_zero::<F>()
                    },
            ),
    )
}

/// The outcome of the QR iteration with the given fuel, together with
/// the accumulated product of the orthonormal factors of every step
/// taken — the similarity transform that carries eigenvectors of the
/// final iterate back to eigenvectors of the original matrix.
pub open spec fn schur_iteration_spec<F: Scalar>(
    a: Seq<Seq<Complex<F>>>,
    v: Seq<Seq<Complex<F>>>,
    n: int,
    fuel: int,
) -> Result<(Seq<Seq<Complex<F>>>, Seq<Seq<Complex<F>>>), MathError>
    decreases fuel,
{
    if near_upper_triangular_spec(a, n) {
        Ok((a, v))
    } else if fuel <= 0 {
        Err(MathError::NonConvergence)
    } else {
        schur_iteration_spec(
            qr_step_spec(a, n),
            mat_mul_spec(v, qr_q_spec(a, n), n, n, n),
            n,
            fuel - 1,
        )
    }
}

/// The length-`n` sequence that is complex one at index `i` and complex
/// zero elsewhere.
pub open spec fn unit_seq<F: Scalar>(n: int, i: int) -> Seq<Complex<F>> {
    Seq::new(
        n as nat,
        |j: int|
            if j == i {
                c_one::<F>()
            } else {
                c_zero::<F>()
            },
    )
}

/// The sum `Σ trow[t]·y[t]` over `lo <= t < k`, accumulated left to
/// right from complex zero.
pub open spec fn range_sum_spec<F: Scalar>(
    trow: Seq<Complex<F>>,
    y: Seq<Complex<F>>,
    lo: int,
    k: int,
) -> Complex<F>
    decreases k - lo,
{
    if k <= lo {
        c_zero::<F>()
    } else {
        c_add(range_sum_spec(trow, y, lo, k - 1), c_mul(trow[k - 1], y[k - 1]))
    }
}

/// Back-substitution against the near-triangular grid `t` for its
/// eigenvalue at diagonal index `i`, after `k` rows above the pivot have
/// been processed: starting from the unit vector at `i`, each row
/// `r = i - k` downward receives `(Σ_{t>r} t[r][t]·y[t]) / (λ − t[r][r])`.
/// A near-zero denominator (a repeated eigenvalue) fails with
/// `DivisionByZero`.
pub open spec fn backsub_y_spec<F: Scalar>(t: Seq<Seq<Complex<F>>>, n: int, i: int, k: int) -> Result<
    Seq<Complex<F>>,
    MathError,
>
    decreases k,
{
    if k <= 0 {
        Ok(unit_seq(n, i))
    } else {
        match backsub_y_spec(t, n, i, k - 1) {
            Err(e) => Err(e),
            Ok(y) => {
                let r = i - k;
                match c_div(range_sum_spec(t[r], y, r + 1, n), c_sub(t[i][i], t[r][r])) {
                    Err(e) => Err(e),
                    Ok(value) => Ok(y.update(r, value)),
                }
            },
        }
    }
}

/// The matrix-vector product of a grid with `rows` rows and a vector of
/// length `inner`.
pub open spec fn mat_vec_spec<F: Scalar>(
    g: Seq<Seq<Complex<F>>>,
    y: Seq<Complex<F>>,
    rows: int,
    inner: int,
) -> Seq<Complex<F>> {
    Seq::new(rows as nat, |r: int| inner_spec(g[r], y, inner))
}

/// The first `k` eigenvectors recovered from the converged triangular
/// grid `t` and the accumulated similarity transform `v`: for each
/// diagonal index in order, the back-substituted vector carried through
/// `v` and normalized.
pub open spec fn eigenvectors_spec<F: Scalar>(
    t: Seq<Seq<Complex<F>>>,
    v: Seq<Seq<Complex<F>>>,
    n: int,
    k: int,
) -> Result<Seq<Seq<Complex<F>>>, MathError>
    decreases k,
{
    if k <= 0 {
        Ok(Seq::empty())
    } else {
        match eigenvectors_spec(t, v, n, k - 1) {
            Err(e) => Err(e),
            Ok(prev) => match backsub_y_spec(t, n, k - 1, k - 1) {
                Err(e) => Err(e),
                Ok(y) => Ok(prev.push(normalize_spec(mat_vec_spec(v, y, n, n)))),
            },
        }
    }
}

impl<F: Scalar> Matrix<F> {
    /// The shape invariant: the stored grid has exactly `num_rows` rows of
    /// `num_columns` elements each. Constructors establish it and every
    /// operation preserves it.
    pub open spec fn wf(self) -> bool {
        grid_shaped(self@, self.num_rows as int, self.num_columns as int)
    }

    /// Builds a matrix from a prepared list of rows.
    pub(crate) fn from_rows(num_rows: usize, num_columns: usize, rows: Vec<Vector<F>>) -> (r: Self)
        requires
            rows@.len() == num_rows,
            forall|k: int| 0 <= k < num_rows ==> (#[trigger] rows@[k])@.len() == num_columns,
        ensures
            r.wf(),
            r.num_rows == num_rows,
            r.num_columns == num_columns,
            r@ == rows@.map_values(|v: Vector<F>| v@),
    {
        Matrix { num_rows, num_columns, elements: rows }
    }

    /// The `num_rows × num_cols` matrix with every entry zero.
    pub fn zeros(num_rows: usize, num_cols: usize) -> (r: Self)
        ensures
            r.wf(),
            r.num_rows == num_rows,
            r.num_columns == num_cols,
            forall|i: int, j: int|
                0 <= i < num_rows && 0 <= j < num_cols ==> r@[i][j] == c_zero::<F>(),
    {
        let mut rows: Vec<Vector<F>> = Vec::new();
        let mut i: usize = 0;
        while i < num_rows
            invariant
                i <= num_rows,
                rows@.len() == i,
                forall|k: int|
                    0 <= k < i ==> (#[trigger] rows@[k])@.len() == num_cols && (forall|j: int|
                        0 <= j < num_cols ==> rows@[k]@[j] == c_zero::<F>()),
            decreases num_rows - i,
        {
            rows.push(Vector::zeros(num_cols));
            i += 1;
        }
        Matrix::from_rows(num_rows, num_cols, rows)
    }

    /// The `num_rows × num_cols` matrix filled row-major from the given
    /// flat element sequence; fails with `DimensionMismatch` exactly when
    /// the sequence length is not `num_rows · num_cols`.
    pub fn from_array(num_rows: usize, num_cols: usize, arr: &[Complex<F>]) -> (r: Result<
        Self,
        MathError,
    >)
        requires
            num_rows * num_cols <= usize::MAX,
        ensures
            r is Ok <==> arr@.len() == num_rows * num_cols,
            r is Err ==> r == Err::<Self, MathError>(MathError::DimensionMismatch),
            r matches Ok(m) ==> m.wf() && m.num_rows == num_rows && m.num_columns == num_cols && (
            forall|i: int, j: int|
                0 <= i < num_rows && 0 <= j < num_cols ==> m@[i][j] == arr@[i * (num_cols as int)
                    + j]),
    {
        let total_elements = num_rows * num_cols;
        if arr.len() != total_elements {
            return Err(MathError::DimensionMismatch);
        }
        let mut rows: Vec<Vector<F>> = Vec::new();
        let mut i: usize = 0;
        while i < num_rows
            invariant
                arr@.len() == num_rows * num_cols,
                num_rows * num_cols <= usize::MAX,
                i <= num_rows,
                rows@.len() == i,
                forall|k: int|
                    0 <= k < i ==> (#[trigger] rows@[k])@.len() == num_cols && (forall|j: int|
                        0 <= j < num_cols ==> rows@[k]@[j] == arr@[k * (num_cols as int) + j]),
            decreases num_rows - i,
        {
            proof {
                lemma_row_block_in_range(i as int, num_rows as int, num_cols as int);
            }
            let start_index = i * num_cols;
            let mut row: Vec<Complex<F>> = Vec::new();
            let mut j: usize = 0;
            while j < num_cols
                invariant
                    arr@.len() == num_rows * num_cols,
                    num_rows * num_cols <= usize::MAX,
                    i < num_rows,
                    start_index == i * num_cols,
                    start_index + num_cols <= arr@.len(),
                    j <= num_cols,
                    row@.len() == j,
                    forall|t: int|
                        0 <= t < j ==> row@[t] == arr@[i * (num_cols as int) + t],
                decreases num_cols - j,
            {
                row.push(arr[start_index + j]);
                j += 1;
            }
            rows.push(Vector::from_vec(row));
            i += 1;
        }
        Ok(Matrix::from_rows(num_rows, num_cols, rows))
    }

    /// Whether the matrix is square — the precondition of the
    /// eigen-operations.
    pub fn is_quadratic(&self) -> (r: bool)
        ensures
            r == (self.num_rows == self.num_columns),
    {
        self.num_columns == self.num_rows
    }

    /// The entry at the given row and column; fails with `OutOfBounds`
    /// exactly when either index reaches past the corresponding extent.
    pub fn get_element(&self, row_index: usize, col_index: usize) -> (r: Result<
        Complex<F>,
        MathError,
    >)
        requires
            self.wf(),
        ensures
            r is Ok <==> (row_index < self.num_rows && col_index < self.num_columns),
            r is Err ==> r == Err::<Complex<F>, MathError>(MathError::OutOfBounds),
            r matches Ok(v) ==> v == self@[row_index as int][col_index as int],
    {
        if row_index >= self.num_rows || col_index >= self.num_columns {
            Err(MathError::OutOfBounds)
        } else {
            let row = &self.elements[row_index];
            proof {
                assert(row@ == self@[row_index as int]);
            }
            Ok(row.get_element(col_index).unwrap())
        }
    }

    /// Replaces the entry at the given row and column; fails with
    /// `OutOfBounds` exactly when either index reaches past the
    /// corresponding extent, leaving the matrix unchanged.
    pub fn set_element(&mut self, row_index: usize, col_index: usize, element: Complex<F>) -> (r:
        Result<(), MathError>)
        requires
            old(self).wf(),
        ensures
            final(self).wf(),
            final(self).num_rows == old(self).num_rows,
            final(self).num_columns == old(self).num_columns,
            r is Ok <==> (row_index < old(self).num_rows && col_index < old(self).num_columns),
            r is Err ==> r == Err::<(), MathError>(MathError::OutOfBounds) && *final(self) == *old(
                self),
            r is Ok ==> final(self)@ == old(self)@.update(
                row_index as int,
                old(self)@[row_index as int].update(col_index as int, element),
            ),
    {
        if row_index >= self.num_rows || col_index >= self.num_columns {
            return Err(MathError::OutOfBounds);
        }
        proof {
            assert(old(self).elements@[row_index as int]@ == old(self)@[row_index as int]);
        }
        let row = &mut self.elements[row_index];
        let result = row.set_element(col_index, element);
        proof {
            assert(result is Ok);
            assert(final(self)@ =~= old(self)@.update(
                row_index as int,
                old(self)@[row_index as int].update(col_index as int, element),
            ));
        }
        Ok(())
    }

    /// Element-wise addition of two matrices of identical shape; `None`
    /// exactly when the shapes disagree.
    pub fn add(&self, other: &Self) -> (r: Option<Self>)
        requires
            self.wf(),
            other.wf(),
        ensures
            r is Some <==> (self.num_rows == other.num_rows && self.num_columns
                == other.num_columns),
            r matches Some(m) ==> m.wf() && m.num_rows == self.num_rows && m.num_columns
                == self.num_columns && (forall|i: int, j: int|
                0 <= i < self.num_rows && 0 <= j < self.num_columns ==> m@[i][j] == c_add(
                    self@[i][j],
                    other@[i][j],
                )),
    {
        if self.num_rows != other.num_rows || self.num_columns != other.num_columns {
            return None;
        }
        let num_rows = self.num_rows;
        let num_cols = self.num_columns;
        let mut rows: Vec<Vector<F>> = Vec::new();
        let mut i: usize = 0;
        while i < num_rows
            invariant
                self.wf(),
                other.wf(),
                num_rows == self.num_rows,
                num_cols == self.num_columns,
                num_rows == other.num_rows,
                num_cols == other.num_columns,
                i <= num_rows,
                rows@.len() == i,
                forall|k: int|
                    0 <= k < i ==> (#[trigger] rows@[k])@.len() == num_cols && (forall|j: int|
                        0 <= j < num_cols ==> rows@[k]@[j] == c_add(self@[k][j], other@[k][j])),
            decreases num_rows - i,
        {
            let mut row: Vec<Complex<F>> = Vec::new();
            let mut j: usize = 0;
            while j < num_cols
                invariant
                    self.wf(),
                    other.wf(),
                    num_rows == self.num_rows,
                    num_cols == self.num_columns,
                    num_rows == other.num_rows,
                    num_cols == other.num_columns,
                    i < num_rows,
                    j <= num_cols,
                    row@.len() == j,
                    forall|t: int|
                        0 <= t < j ==> row@[t] == c_add(self@[i as int][t], other@[i as int][t]),
                decreases num_cols - j,
            {
                let num1 = self.get_element(i, j).unwrap();
                let num2 = other.get_element(i, j).unwrap();
                row.push(num1.addition(&num2));
                j += 1;
            }
            rows.push(Vector::from_vec(row));
            i += 1;
        }
        Some(Matrix::from_rows(num_rows, num_cols, rows))
    }

    /// In-place transposition: swaps the extents and rebuilds the rows
    /// from the columns.
    pub fn transpose(&mut self)
        requires
            old(self).wf(),
        ensures
            final(self).wf(),
            final(self).num_rows == old(self).num_columns,
            final(self).num_columns == old(self).num_rows,
            forall|r: int, c: int|
                0 <= r < old(self).num_columns && 0 <= c < old(self).num_rows ==> final(self)@[r][c]
                    == old(self)@[c][r],
            final(self)@ == mat_transpose_spec(
                old(self)@,
                old(self).num_rows as int,
                old(self).num_columns as int,
            ),
    {
        let old_rows = self.num_rows;
        let old_cols = self.num_columns;
        let mut rows: Vec<Vector<F>> = Vec::new();
        let mut r: usize = 0;
        while r < old_cols
            invariant
                self.wf(),
                old_rows == self.num_rows,
                old_cols == self.num_columns,
                r <= old_cols,
                rows@.len() == r,
                forall|k: int|
                    0 <= k < r ==> (#[trigger] rows@[k])@.len() == old_rows && (forall|c: int|
                        0 <= c < old_rows ==> rows@[k]@[c] == self@[c][k]),
            decreases old_cols - r,
        {
            let mut row: Vec<Complex<F>> = Vec::new();
            let mut c: usize = 0;
            while c < old_rows
                invariant
                    self.wf(),
                    old_rows == self.num_rows,
                    old_cols == self.num_columns,
                    r < old_cols,
                    c <= old_rows,
                    row@.len() == c,
                    forall|t: int| 0 <= t < c ==> row@[t] == self@[t][r as int],
                decreases old_rows - c,
            {
                row.push(self.get_element(c, r).unwrap());
                c += 1;
            }
            rows.push(Vector::from_vec(row));
            r += 1;
        }
        self.num_rows = old_cols;
        self.num_columns = old_rows;
        self.elements = rows;
        proof {
            assert(self@ =~~= mat_transpose_spec(
                old(self)@,
                old(self).num_rows as int,
                old(self).num_columns as int,
            ));
        }
    }

    /// In-place conjugation of every entry.
    pub fn conjugate(&mut self)
        requires
            old(self).wf(),
        ensures
            final(self).wf(),
            final(self).num_rows == old(self).num_rows,
            final(self).num_columns == old(self).num_columns,
            forall|r: int, c: int|
                0 <= r < old(self).num_rows && 0 <= c < old(self).num_columns ==> final(self)@[r][c] == c_conj(old(self)@[r][c]),
            final(self)@ == mat_conj_spec(old(self)@),
    {
        let num_rows = self.num_rows;
        let num_cols = self.num_columns;
        let mut rows: Vec<Vector<F>> = Vec::new();
        let mut i: usize = 0;
        while i < num_rows
            invariant
                self.wf(),
                num_rows == self.num_rows,
                num_cols == self.num_columns,
                i <= num_rows,
                rows@.len() == i,
                forall|k: int|
                    0 <= k < i ==> (#[trigger] rows@[k])@.len() == num_cols && (forall|j: int|
                        0 <= j < num_cols ==> rows@[k]@[j] == c_conj(self@[k][j])),
            decreases num_rows - i,
        {
            let mut row: Vec<Complex<F>> = Vec::new();
            let mut j: usize = 0;
            while j < num_cols
                invariant
                    self.wf(),
                    num_rows == self.num_rows,
                    num_cols == self.num_columns,
                    i < num_rows,
                    j <= num_cols,
                    row@.len() == j,
                    forall|t: int| 0 <= t < j ==> row@[t] == c_conj(self@[i as int][t]),
                decreases num_cols - j,
            {
                let mut elem = self.get_element(i, j).unwrap();
                elem.conjugate();
                row.push(elem);
                j += 1;
            }
            rows.push(Vector::from_vec(row));
            i += 1;
        }
        self.elements = rows;
        proof {
            assert(self@ =~~= mat_conj_spec(old(self)@));
        }
    }

    /// In-place adjoint: conjugates every entry, then transposes. Entry
    /// `(r, c)` of the result is the conjugate of entry `(c, r)` of the
    /// original.
    pub fn adjoint(&mut self)
        requires
            old(self).wf(),
        ensures
            final(self).wf(),
            final(self).num_rows == old(self).num_columns,
            final(self).num_columns == old(self).num_rows,
            forall|r: int, c: int|
                0 <= r < old(self).num_columns && 0 <= c < old(self).num_rows ==> final(self)@[r][c]
                    == c_conj(old(self)@[c][r]),
            final(self)@ == mat_adjoint_spec(
                old(self)@,
                old(self).num_rows as int,
                old(self).num_columns as int,
            ),
    {
        self.conjugate();
        self.transpose();
        proof {
            assert(self@ =~~= mat_adjoint_spec(
                old(self)@,
                old(self).num_rows as int,
                old(self).num_columns as int,
            ));
        }
    }

    /// The matrix product `self · other`; fails with `DimensionMismatch`
    /// exactly when the column count of `self` differs from the row count
    /// of `other`. The result has the row count of `self` and the column
    /// count of `other`, and each entry is the contraction of a row of
    /// `self` with a column of `other`.
    pub fn multiply(&self, other: &Self) -> (r: Result<Self, MathError>)
        requires
            self.wf(),
            other.wf(),
        ensures
            r is Ok <==> self.num_columns == other.num_rows,
            r is Err ==> r == Err::<Self, MathError>(MathError::DimensionMismatch),
            r matches Ok(m) ==> m.wf() && m.num_rows == self.num_rows && m.num_columns
                == other.num_columns && (forall|i: int, j: int|
                0 <= i < self.num_rows && 0 <= j < other.num_columns ==> m@[i][j] == mat_cell_spec(
                    self@,
                    other@,
                    i,
                    j,
                    self.num_columns as int,
                )),
    {
        if self.num_columns != other.num_rows {
            return Err(MathError::DimensionMismatch);
        }
        let num_rows = self.num_rows;
        let num_cols = other.num_columns;
        let inner = self.num_columns;
        let mut rows: Vec<Vector<F>> = Vec::new();
        let mut i: usize = 0;
        while i < num_rows
            invariant
                self.wf(),
                other.wf(),
                num_rows == self.num_rows,
                num_cols == other.num_columns,
                inner == self.num_columns,
                inner == other.num_rows,
                i <= num_rows,
                rows@.len() == i,
                forall|k: int|
                    0 <= k < i ==> (#[trigger] rows@[k])@.len() == num_cols && (forall|j: int|
                        0 <= j < num_cols ==> rows@[k]@[j] == mat_cell_spec(
                            self@,
                            other@,
                            k,
                            j,
                            inner as int,
                        )),
            decreases num_rows - i,
        {
            let mut row: Vec<Complex<F>> = Vec::new();
            let mut j: usize = 0;
            while j < num_cols
                invariant
                    self.wf(),
                    other.wf(),
                    num_rows == self.num_rows,
                    num_cols == other.num_columns,
                    inner == self.num_columns,
                    inner == other.num_rows,
                    i < num_rows,
                    j <= num_cols,
                    row@.len() == j,
                    forall|t: int|
                        0 <= t < j ==> row@[t] == mat_cell_spec(
                            self@,
                            other@,
                            i as int,
                            t,
                            inner as int,
                        ),
                decreases num_cols - j,
            {
                let mut matrix_element: Complex<F> = Complex::new();
                let mut k: usize = 0;
                while k < inner
                    invariant
                        self.wf(),
                        other.wf(),
                        num_rows == self.num_rows,
                        num_cols == other.num_columns,
                        inner == self.num_columns,
                        inner == other.num_rows,
                        i < num_rows,
                        j < num_cols,
                        k <= inner,
                        matrix_element == mat_cell_spec(self@, other@, i as int, j as int, k as int),
                    decreases inner - k,
                {
                    let lhs_element = self.get_element(i, k).unwrap();
                    let rhs_element = other.get_element(k, j).unwrap();
                    let product = lhs_element.multiplication(&rhs_element);
                    matrix_element = matrix_element.addition(&product);
                    k += 1;
                }
                row.push(matrix_element);
                j += 1;
            }
            rows.push(Vector::from_vec(row));
            i += 1;
        }
        Ok(Matrix::from_rows(num_rows, num_cols, rows))
    }

    /// The matrix-vector product: a column vector whose entry `i` is the
    /// contraction of row `i` with the given vector; fails with
    /// `ShapeMismatch` exactly when the column count differs from the
    /// vector's length.
    pub fn multiply_vector(&self, vector: &Vector<F>) -> (r: Result<Vector<F>, MathError>)
        requires
            self.wf(),
        ensures
            r is Ok <==> self.num_columns == vector@.len(),
            r is Err ==> r == Err::<Vector<F>, MathError>(MathError::ShapeMismatch),
            r matches Ok(v) ==> v@.len() == self.num_rows && v.orientation()
                == VectorType::COLUMN_VECTOR && (forall|i: int|
                0 <= i < self.num_rows ==> v@[i] == inner_spec(
                    self@[i],
                    vector@,
                    self.num_columns as int,
                )),
    {
        if self.num_columns != vector.size() {
            return Err(MathError::ShapeMismatch);
        }
        let num_rows = self.num_rows;
        let num_cols = self.num_columns;
        let mut collector: Vec<Complex<F>> = Vec::new();
        let mut i: usize = 0;
        while i < num_rows
            invariant
                self.wf(),
                num_rows == self.num_rows,
                num_cols == self.num_columns,
                num_cols == vector@.len(),
                i <= num_rows,
                collector@.len() == i,
                forall|k: int|
                    0 <= k < i ==> collector@[k] == inner_spec(self@[k], vector@, num_cols as int),
            decreases num_rows - i,
        {
            let mut entry: Complex<F> = Complex::new();
            let mut t: usize = 0;
            while t < num_cols
                invariant
                    self.wf(),
                    num_rows == self.num_rows,
                    num_cols == self.num_columns,
                    num_cols == vector@.len(),
                    i < num_rows,
                    t <= num_cols,
                    entry == inner_spec(self@[i as int], vector@, t as int),
                decreases num_cols - t,
            {
                let lhs = self.get_element(i, t).unwrap();
                let rhs = vector.get_element(t).unwrap();
                let product = lhs.multiplication(&rhs);
                entry = entry.addition(&product);
                t += 1;
            }
            collector.push(entry);
            i += 1;
        }
        Ok(Vector::from_vec(collector))
    }

    /// In-place scaling: multiplies every entry by the given real factor.
    pub fn scale(&mut self, factor: F)
        requires
            old(self).wf(),
        ensures
            final(self).wf(),
            final(self).num_rows == old(self).num_rows,
            final(self).num_columns == old(self).num_columns,
            forall|r: int, c: int|
                0 <= r < old(self).num_rows && 0 <= c < old(self).num_columns ==> final(self)@[r][c] == c_scale(old(self)@[r][c], factor),
    {
        let num_rows = self.num_rows;
        let num_cols = self.num_columns;
        let mut rows: Vec<Vector<F>> = Vec::new();
        let mut i: usize = 0;
        while i < num_rows
            invariant
                self.wf(),
                num_rows == self.num_rows,
                num_cols == self.num_columns,
                i <= num_rows,
                rows@.len() == i,
                forall|k: int|
                    0 <= k < i ==> (#[trigger] rows@[k])@.len() == num_cols && (forall|j: int|
                        0 <= j < num_cols ==> rows@[k]@[j] == c_scale(self@[k][j], factor)),
            decreases num_rows - i,
        {
            let mut row: Vec<Complex<F>> = Vec::new();
            let mut j: usize = 0;
            while j < num_cols
                invariant
                    self.wf(),
                    num_rows == self.num_rows,
                    num_cols == self.num_columns,
                    i < num_rows,
                    j <= num_cols,
                    row@.len() == j,
                    forall|t: int| 0 <= t < j ==> row@[t] == c_scale(self@[i as int][t], factor),
                decreases num_cols - j,
            {
                let elem = self.get_element(i, j).unwrap();
                row.push(elem.scale(factor));
                j += 1;
            }
            rows.push(Vector::from_vec(row));
            i += 1;
        }
        self.elements = rows;
    }

    /// The Kronecker product of an `m × n` and a `p × q` matrix: the
    /// `(m·p) × (n·q)` block matrix whose entry `(i, j)` is
    /// `self[i div p][j div q] · other[i mod p][j mod q]`. Fails with
    /// `InvalidDimension` exactly when either operand has a zero extent.
    pub fn kronecker_product(&self, other: &Self) -> (r: Result<Self, MathError>)
        requires
            self.wf(),
            other.wf(),
            self.num_rows * other.num_rows <= usize::MAX,
            self.num_columns * other.num_columns <= usize::MAX,
        ensures
            r is Ok <==> (self.num_rows > 0 && self.num_columns > 0 && other.num_rows > 0
                && other.num_columns > 0),
            r is Err ==> r == Err::<Self, MathError>(MathError::InvalidDimension),
            r matches Ok(m) ==> m.wf() && m.num_rows == self.num_rows * other.num_rows
                && m.num_columns == self.num_columns * other.num_columns && (forall|i: int, j: int|
                0 <= i < m.num_rows && 0 <= j < m.num_columns ==> m@[i][j] == c_mul(
                    self@[i / (other.num_rows as int)][j / (other.num_columns as int)],
                    other@[i % (other.num_rows as int)][j % (other.num_columns as int)],
                )),
    {
        let row_dimension = self.num_rows * other.num_rows;
        let column_dimension = self.num_columns * other.num_columns;
        proof {
            lemma_product_zero(self.num_rows as int, other.num_rows as int);
            lemma_product_zero(self.num_columns as int, other.num_columns as int);
        }
        if row_dimension == 0 || column_dimension == 0 {
            return Err(MathError::InvalidDimension);
        }
        let p = other.num_rows;
        let q = other.num_columns;
        let mut rows: Vec<Vector<F>> = Vec::new();
        let mut i: usize = 0;
        while i < row_dimension
            invariant
                self.wf(),
                other.wf(),
                row_dimension == self.num_rows * other.num_rows,
                column_dimension == self.num_columns * other.num_columns,
                p == other.num_rows,
                q == other.num_columns,
                p > 0,
                q > 0,
                self.num_rows > 0,
                self.num_columns > 0,
                i <= row_dimension,
                rows@.len() == i,
                forall|k: int|
                    0 <= k < i ==> (#[trigger] rows@[k])@.len() == column_dimension && (forall|
                        j: int,
                    |
                        0 <= j < column_dimension ==> rows@[k]@[j] == c_mul(
                            self@[k / (p as int)][j / (q as int)],
                            other@[k % (p as int)][j % (q as int)],
                        )),
            decreases row_dimension - i,
        {
            proof {
                lemma_div_mod_in_range(i as int, self.num_rows as int, p as int);
            }
            let lhs_row = i / p;
            let rhs_row = i % p;
            let mut row: Vec<Complex<F>> = Vec::new();
            let mut j: usize = 0;
            while j < column_dimension
                invariant
                    self.wf(),
                    other.wf(),
                    column_dimension == self.num_columns * other.num_columns,
                    p == other.num_rows,
                    q == other.num_columns,
                    q > 0,
                    self.num_columns > 0,
                    i < row_dimension,
                    lhs_row == i as int / (p as int),
                    rhs_row == i as int % (p as int),
                    lhs_row < self.num_rows,
                    rhs_row < p,
                    j <= column_dimension,
                    row@.len() == j,
                    forall|t: int|
                        0 <= t < j ==> row@[t] == c_mul(
                            self@[i as int / (p as int)][t / (q as int)],
                            other@[i as int % (p as int)][t % (q as int)],
                        ),
                decreases column_dimension - j,
            {
                proof {
                    lemma_div_mod_in_range(j as int, self.num_columns as int, q as int);
                }
                let lhs_col = j / q;
                let rhs_col = j % q;
                let lhs = self.get_element(lhs_row, lhs_col).unwrap();
                let rhs = other.get_element(rhs_row, rhs_col).unwrap();
                row.push(lhs.multiplication(&rhs));
                j += 1;
            }
            rows.push(Vector::from_vec(row));
            i += 1;
        }
        Ok(Matrix::from_rows(row_dimension, column_dimension, rows))
    }
}

/// The iteration budget of the QR eigenvalue algorithm.
pub const MAX_QR_ITERATIONS: usize = 100;

/// The orthonormal factor of a QR decomposition of a square grid: the
/// Gram-Schmidt orthonormalization of its columns, put back as columns.
pub open spec fn qr_q_spec<F: Scalar>(a: Seq<Seq<Complex<F>>>, n: int) -> Seq<Seq<Complex<F>>> {
    mat_transpose_spec(gs_spec(mat_transpose_spec(a, n, n), n), n, n)
}

/// One QR iteration step on a square grid: with `Q` the orthonormal
/// factor and `R = Q*·A` the triangular factor, the next iterate is
/// `R·Q`.
pub open spec fn qr_step_spec<F: Scalar>(a: Seq<Seq<Complex<F>>>, n: int) -> Seq<Seq<Complex<F>>> {
    let q = qr_q_spec(a, n);
    mat_mul_spec(mat_mul_spec(mat_adjoint_spec(q, n, n), a, n, n, n), q, n, n, n)
}

/// Whether every entry strictly below the diagonal has a modulus within
/// the scalar type's near-zero threshold — the convergence test of the
/// QR iteration.
pub open spec fn near_upper_triangular_spec<F: Scalar>(a: Seq<Seq<Complex<F>>>, n: int) -> bool {
    forall|r: int, c: int| 0 <= c < r < n ==> (#[trigger] c_norm(a[r][c])).near_zero_s()
}

/// The outcome of the QR iteration with the given fuel: the first
/// iterate within tolerance of upper-triangular form, or
/// `NonConvergence` once the budget is exhausted.
pub open spec fn qr_iteration_spec<F: Scalar>(a: Seq<Seq<Complex<F>>>, n: int, fuel: int) -> Result<
    Seq<Seq<Complex<F>>>,
    MathError,
>
    decreases fuel,
{
    if near_upper_triangular_spec(a, n) {
        Ok(a)
    } else if fuel <= 0 {
        Err(MathError::NonConvergence)
    } else {
        qr_iteration_spec(qr_step_spec(a, n), n, fuel - 1)
    }
}

impl<F: Scalar> Matrix<F> {
    /// Classical (unmodified) Gram-Schmidt orthonormalization of an
    /// ordered set of column vectors of equal length. Each input vector,
    /// in order, has its projection onto every already-produced output
    /// subtracted (through the outer-product projection matrix of that
    /// output) and the residual normalized to unit L2 norm. Fails with
    /// `ShapeMismatch` exactly when some input differs in length from the
    /// first, or is not a column vector. A residual of near-zero norm (a
    /// linearly dependent input) is left to the scalar type's division,
    /// as in [`Vector::normalize`].
    pub fn gram_schmidt_decomposition(vectors: Vec<Vector<F>>) -> (r: Result<
        Vec<Vector<F>>,
        MathError,
    >)
        ensures
            r is Ok <==> (forall|i: int|
                0 <= i < vectors@.len() ==> (#[trigger] vectors@[i])@.len() == vectors@[0]@.len()
                    && vectors@[i].orientation() == VectorType::COLUMN_VECTOR),
            r is Err ==> r == Err::<Vec<Vector<F>>, MathError>(MathError::ShapeMismatch),
            r matches Ok(out) ==> out@.len() == vectors@.len() && out@.map_values(
                |v: Vector<F>| v@,
            ) == gs_spec(vectors@.map_values(|v: Vector<F>| v@), vectors@.len() as int) && (forall|
                i: int,
            |
                0 <= i < out@.len() ==> (#[trigger] out@[i])@.len() == vectors@[0]@.len()
                    && out@[i].orientation() == VectorType::COLUMN_VECTOR),
    {
        let ghost input_views = vectors@.map_values(|v: Vector<F>| v@);
        let num_vectors = vectors.len();
        let mut i: usize = 0;
        while i < num_vectors
            invariant
                num_vectors == vectors@.len(),
                i <= num_vectors,
                forall|k: int|
                    0 <= k < i ==> (#[trigger] vectors@[k])@.len() == vectors@[0]@.len()
                        && vectors@[k].orientation() == VectorType::COLUMN_VECTOR,
            decreases num_vectors - i,
        {
            if vectors[i].size() != vectors[0].size() {
                return Err(MathError::ShapeMismatch);
            }
            if vectors[i].get_type() != VectorType::COLUMN_VECTOR {
                return Err(MathError::ShapeMismatch);
            }
            i += 1;
        }
        let mut normalized_vecs: Vec<Vector<F>> = Vec::new();
        proof {
            assert(normalized_vecs@.map_values(|v: Vector<F>| v@) =~= gs_spec(input_views, 0));
        }
        let mut i: usize = 0;
        while i < num_vectors
            invariant
                num_vectors == vectors@.len(),
                input_views == vectors@.map_values(|v: Vector<F>| v@),
                forall|k: int|
                    0 <= k < num_vectors ==> (#[trigger] vectors@[k])@.len() == vectors@[0]@.len()
                        && vectors@[k].orientation() == VectorType::COLUMN_VECTOR,
                i <= num_vectors,
                normalized_vecs@.len() == i,
                normalized_vecs@.map_values(|v: Vector<F>| v@) == gs_spec(input_views, i as int),
                forall|k: int|
                    0 <= k < i ==> (#[trigger] normalized_vecs@[k])@.len() == vectors@[0]@.len()
                        && normalized_vecs@[k].orientation() == VectorType::COLUMN_VECTOR,
            decreases num_vectors - i,
        {
            let vector = &vectors[i];
            let ghost n_int = vector@.len() as int;
            let mut projections_sum = Vector::zeros(vector.size());
            proof {
                assert(projections_sum@ =~= zero_seq::<F>(n_int));
                assert(projections_sum@ =~= proj_sum_spec(
                    normalized_vecs@.map_values(|v: Vector<F>| v@),
                    vector@,
                    0,
                ));
            }
            let mut j: usize = 0;
            while j < i
                invariant
                    num_vectors == vectors@.len(),
                    i < num_vectors,
                    forall|k: int|
                        0 <= k < num_vectors ==> (#[trigger] vectors@[k])@.len()
                            == vectors@[0]@.len() && vectors@[k].orientation()
                            == VectorType::COLUMN_VECTOR,
                    vector == vectors@[i as int],
                    n_int == vector@.len() as int,
                    normalized_vecs@.len() == i,
                    forall|k: int|
                        0 <= k < i ==> (#[trigger] normalized_vecs@[k])@.len()
                            == vectors@[0]@.len() && normalized_vecs@[k].orientation()
                            == VectorType::COLUMN_VECTOR,
                    j <= i,
                    projections_sum@.len() == vector@.len(),
                    projections_sum.orientation() == VectorType::COLUMN_VECTOR,
                    projections_sum@ == proj_sum_spec(
                        normalized_vecs@.map_values(|v: Vector<F>| v@),
                        vector@,
                        j as int,
                    ),
                decreases i - j,
            {
                let normed_vec = &normalized_vecs[j];
                let projection_matrix = normed_vec.outer_product(normed_vec).unwrap();
                let projected_vector = projection_matrix.multiply_vector(vector).unwrap();
                proof {
                    assert forall|a: int| 0 <= a < n_int implies projection_matrix@[a] =~= Seq::new(
                        normed_vec@.len(),
                        |t: int| c_mul(normed_vec@[a], normed_vec@[t]),
                    ) by {}
                    assert(projected_vector@ =~= outer_apply_spec(normed_vec@, vector@));
                }
                let next_sum = projections_sum.add(&projected_vector).unwrap();
                proof {
                    assert(next_sum@ =~= seq_add_spec(
                        projections_sum@,
                        outer_apply_spec(normed_vec@, vector@),
                    ));
                }
                projections_sum = next_sum;
                j += 1;
            }
            let mut orthogonal_vector = vector.subtract(&projections_sum).unwrap();
            proof {
                assert(orthogonal_vector@ =~= seq_sub_spec(vector@, projections_sum@));
            }
            orthogonal_vector.normalize();
            normalized_vecs.push(orthogonal_vector);
            proof {
                assert(normalized_vecs@.map_values(|v: Vector<F>| v@) =~= gs_spec(
                    input_views,
                    i + 1,
                ));
            }
            i += 1;
        }
        Ok(normalized_vecs)
    }

    /// A copy of this matrix.
    fn duplicate(&self) -> (r: Self)
        requires
            self.wf(),
        ensures
            r.wf(),
            r.num_rows == self.num_rows,
            r.num_columns == self.num_columns,
            r@ == self@,
    {
        let num_rows = self.num_rows;
        let num_cols = self.num_columns;
        let mut rows: Vec<Vector<F>> = Vec::new();
        let mut i: usize = 0;
        while i < num_rows
            invariant
                self.wf(),
                num_rows == self.num_rows,
                num_cols == self.num_columns,
                i <= num_rows,
                rows@.len() == i,
                forall|k: int|
                    0 <= k < i ==> (#[trigger] rows@[k])@.len() == num_cols && (forall|j: int|
                        0 <= j < num_cols ==> rows@[k]@[j] == self@[k][j]),
            decreases num_rows - i,
        {
            let mut row: Vec<Complex<F>> = Vec::new();
            let mut j: usize = 0;
            while j < num_cols
                invariant
                    self.wf(),
                    num_rows == self.num_rows,
                    num_cols == self.num_columns,
                    i < num_rows,
                    j <= num_cols,
                    row@.len() == j,
                    forall|t: int| 0 <= t < j ==> row@[t] == self@[i as int][t],
                decreases num_cols - j,
            {
                row.push(self.get_element(i, j).unwrap());
                j += 1;
            }
            rows.push(Vector::from_vec(row));
            i += 1;
        }
        let result = Matrix::from_rows(num_rows, num_cols, rows);
        proof {
            assert(result@ =~~= self@);
        }
        result
    }

    /// Whether every entry strictly below the diagonal has a modulus
    /// within the scalar type's near-zero threshold.
    fn near_upper_triangular(&self) -> (r: bool)
        requires
            self.wf(),
            self.num_rows == self.num_columns,
        ensures
            r == near_upper_triangular_spec(self@, self.num_rows as int),
    {
        let n = self.num_rows;
        let mut row_index: usize = 0;
        while row_index < n
            invariant
                self.wf(),
                n == self.num_rows,
                n == self.num_columns,
                row_index <= n,
                forall|r: int, c: int|
                    0 <= c < r < row_index ==> (#[trigger] c_norm(self@[r][c])).near_zero_s(),
            decreases n - row_index,
        {
            let mut col_index: usize = 0;
            while col_index < row_index
                invariant
                    self.wf(),
                    n == self.num_rows,
                    n == self.num_columns,
                    row_index < n,
                    col_index <= row_index,
                    forall|r: int, c: int|
                        0 <= c < r < row_index ==> (#[trigger] c_norm(self@[r][c])).near_zero_s(),
                    forall|c: int|
                        0 <= c < col_index ==> (#[trigger] c_norm(
                            self@[row_index as int][c],
                        )).near_zero_s(),
                decreases row_index - col_index,
            {
                let entry = self.get_element(row_index, col_index).unwrap();
                if !entry.norm().near_zero_e() {
                    return false;
                }
                col_index += 1;
            }
            row_index += 1;
        }
        true
    }

    /// The orthonormal factor `Q` of a QR decomposition: the Gram-Schmidt
    /// orthonormalization of the columns, put back as columns. Fails with
    /// `NotQuadratic` exactly when the matrix is not square.
    #[allow(non_snake_case)]
    pub fn QR_decomposition(&self) -> (r: Result<Self, MathError>)
        requires
            self.wf(),
        ensures
            r is Ok <==> self.num_rows == self.num_columns,
            r is Err ==> r == Err::<Self, MathError>(MathError::NotQuadratic),
            r matches Ok(q) ==> q.wf() && q.num_rows == self.num_rows && q.num_columns
                == self.num_rows && q@ == qr_q_spec(self@, self.num_rows as int),
    {
        if !self.is_quadratic() {
            return Err(MathError::NotQuadratic);
        }
        let n = self.num_rows;
        let ghost transposed = mat_transpose_spec(self@, n as int, n as int);
        let mut columns: Vec<Vector<F>> = Vec::new();
        let mut c: usize = 0;
        while c < n
            invariant
                self.wf(),
                n == self.num_rows,
                n == self.num_columns,
                transposed == mat_transpose_spec(self@, n as int, n as int),
                c <= n,
                columns@.len() == c,
                forall|k: int|
                    0 <= k < c ==> (#[trigger] columns@[k])@.len() == n
                        && columns@[k].orientation() == VectorType::COLUMN_VECTOR
                        && columns@[k]@ == transposed[k],
            decreases n - c,
        {
            let mut column: Vec<Complex<F>> = Vec::new();
            let mut r_idx: usize = 0;
            while r_idx < n
                invariant
                    self.wf(),
                    n == self.num_rows,
                    n == self.num_columns,
                    c < n,
                    r_idx <= n,
                    column@.len() == r_idx,
                    forall|t: int| 0 <= t < r_idx ==> column@[t] == self@[t][c as int],
                decreases n - r_idx,
            {
                column.push(self.get_element(r_idx, c).unwrap());
                r_idx += 1;
            }
            let column_vector = Vector::from_vec(column);
            proof {
                assert(column_vector@ =~= transposed[c as int]);
            }
            columns.push(column_vector);
            c += 1;
        }
        proof {
            assert(columns@.map_values(|v: Vector<F>| v@) =~= transposed);
        }
        let orthonormal = Matrix::gram_schmidt_decomposition(columns).unwrap();
        let mut q = Matrix::from_rows(n, n, orthonormal);
        q.transpose();
        proof {
            assert(q@ == qr_q_spec(self@, n as int));
        }
        Ok(q)
    }

    /// One QR iteration step: decomposes the current iterate into `Q`
    /// and `R = Q*·A`, and recombines them in reverse order as `R·Q`.
    fn qr_step(&self) -> (r: Self)
        requires
            self.wf(),
            self.num_rows == self.num_columns,
        ensures
            r.wf(),
            r.num_rows == self.num_rows,
            r.num_columns == self.num_columns,
            r@ == qr_step_spec(self@, self.num_rows as int),
    {
        let ghost n_int = self.num_rows as int;
        let q = self.QR_decomposition().unwrap();
        let mut q_adjoint = q.duplicate();
        q_adjoint.adjoint();
        let r_matrix = q_adjoint.multiply(self).unwrap();
        proof {
            assert(r_matrix@ =~~= mat_mul_spec(
                mat_adjoint_spec(q@, n_int, n_int),
                self@,
                n_int,
                n_int,
                n_int,
            ));
        }
        let next = r_matrix.multiply(&q).unwrap();
        proof {
            assert(next@ =~~= mat_mul_spec(r_matrix@, q@, n_int, n_int, n_int));
            assert(next@ == qr_step_spec(self@, n_int));
        }
        next
    }

    /// Repeated QR decomposition and recombination, up to
    /// [`MAX_QR_ITERATIONS`] steps, stopping at the first iterate within
    /// tolerance of upper-triangular form. Fails with `NotQuadratic` on a
    /// non-square matrix and with `NonConvergence` when the budget is
    /// exhausted before a triangular iterate appears.
    #[allow(non_snake_case)]
    pub fn QR_algorithm(&self) -> (r: Result<Self, MathError>)
        requires
            self.wf(),
        ensures
            self.num_rows != self.num_columns ==> r == Err::<Self, MathError>(
                MathError::NotQuadratic,
            ),
            self.num_rows == self.num_columns ==> (match qr_iteration_spec(
                self@,
                self.num_rows as int,
                MAX_QR_ITERATIONS as int,
            ) {
                Ok(t) => r is Ok && r->Ok_0.wf() && r->Ok_0.num_rows == self.num_rows
                    && r->Ok_0.num_columns == self.num_rows && r->Ok_0@ == t
                    && near_upper_triangular_spec(t, self.num_rows as int),
                Err(e) => r == Err::<Self, MathError>(e),
            }),
    {
        if !self.is_quadratic() {
            return Err(MathError::NotQuadratic);
        }
        proof {
            if qr_iteration_spec(self@, self.num_rows as int, MAX_QR_ITERATIONS as int) is Ok {
                lemma_qr_iteration_triangular(
                    self@,
                    self.num_rows as int,
                    MAX_QR_ITERATIONS as int,
                );
            }
        }
        let n = self.num_rows;
        let mut current = self.duplicate();
        let mut iterations: usize = 0;
        while iterations < MAX_QR_ITERATIONS
            invariant
                self.wf(),
                n == self.num_rows,
                n == self.num_columns,
                current.wf(),
                current.num_rows == n,
                current.num_columns == n,
                iterations <= MAX_QR_ITERATIONS,
                qr_iteration_spec(self@, n as int, MAX_QR_ITERATIONS as int) == qr_iteration_spec(
                    current@,
                    n as int,
                    MAX_QR_ITERATIONS as int - iterations,
                ),
            decreases MAX_QR_ITERATIONS - iterations,
        {
            if current.near_upper_triangular() {
                return Ok(current);
            }
            current = current.qr_step();
            iterations += 1;
        }
        if current.near_upper_triangular() {
            return Ok(current);
        }
        Err(MathError::NonConvergence)
    }

    /// The eigenvalues of a square matrix: the diagonal of the iterate
    /// the QR iteration converged to, in row order. Fails with
    /// `NotQuadratic` on a non-square matrix and with `NonConvergence`
    /// when the iteration budget runs out.
    pub fn calculate_eigenvalues(&self) -> (r: Result<Vec<Complex<F>>, MathError>)
        requires
            self.wf(),
        ensures
            self.num_rows != self.num_columns ==> r == Err::<Vec<Complex<F>>, MathError>(
                MathError::NotQuadratic,
            ),
            self.num_rows == self.num_columns ==> (match qr_iteration_spec(
                self@,
                self.num_rows as int,
                MAX_QR_ITERATIONS as int,
            ) {
                Ok(t) => r is Ok && r->Ok_0@.len() == self.num_rows && (forall|i: int|
                    0 <= i < self.num_rows ==> r->Ok_0@[i] == t[i][i]),
                Err(e) => r == Err::<Vec<Complex<F>>, MathError>(e),
            }),
    {
        let converged = self.QR_algorithm()?;
        let n = converged.num_rows;
        let mut eigenvalues: Vec<Complex<F>> = Vec::new();
        let mut i: usize = 0;
        while i < n
            invariant
                converged.wf(),
                n == converged.num_rows,
                n == converged.num_columns,
                i <= n,
                eigenvalues@.len() == i,
                forall|k: int| 0 <= k < i ==> eigenvalues@[k] == converged@[k][k],
            decreases n - i,
        {
            eigenvalues.push(converged.get_element(i, i).unwrap());
            i += 1;
        }
        Ok(eigenvalues)
    }

    /// The `n × n` identity matrix.
    fn identity(n: usize) -> (r: Self)
        ensures
            r.wf(),
            r.num_rows == n,
            r.num_columns == n,
            r@ == identity_spec::<F>(n as int),
    {
        let mut rows: Vec<Vector<F>> = Vec::new();
        let mut i: usize = 0;
        while i < n
            invariant
                i <= n,
                rows@.len() == i,
                forall|k: int|
                    0 <= k < i ==> (#[trigger] rows@[k])@.len() == n && (forall|j: int|
                        0 <= j < n ==> rows@[k]@[j] == identity_spec::<F>(n as int)[k][j]),
            decreases n - i,
        {
            let mut row: Vec<Complex<F>> = Vec::new();
            let mut j: usize = 0;
            while j < n
                invariant
                    i < n,
                    j <= n,
                    row@.len() == j,
                    forall|t: int|
                        0 <= t < j ==> row@[t] == identity_spec::<F>(n as int)[i as int][t],
                decreases n - j,
            {
                if j == i {
                    row.push(Complex::from(F::one_e(), F::zero_e()));
                } else {
                    row.push(Complex::new());
                }
                j += 1;
            }
            rows.push(Vector::from_vec(row));
            i += 1;
        }
        let result = Matrix::from_rows(n, n, rows);
        proof {
            assert(result@ =~~= identity_spec::<F>(n as int));
        }
        result
    }

    /// The QR iteration of [`Matrix::QR_algorithm`], additionally
    /// accumulating the product of the orthonormal factors of every step
    /// taken.
    fn schur_iteration(&self) -> (r: Result<(Self, Self), MathError>)
        requires
            self.wf(),
            self.num_rows == self.num_columns,
        ensures
            match schur_iteration_spec(
                self@,
                identity_spec::<F>(self.num_rows as int),
                self.num_rows as int,
                MAX_QR_ITERATIONS as int,
            ) {
                Ok(pair) => r is Ok && r->Ok_0.0.wf() && r->Ok_0.0.num_rows == self.num_rows
                    && r->Ok_0.0.num_columns == self.num_rows && r->Ok_0.0@ == pair.0
                    && r->Ok_0.1.wf() && r->Ok_0.1.num_rows == self.num_rows
                    && r->Ok_0.1.num_columns == self.num_rows && r->Ok_0.1@ == pair.1,
                Err(e) => r == Err::<(Self, Self), MathError>(e),
            },
    {
        let n = self.num_rows;
        let mut current = self.duplicate();
        let mut accumulated = Matrix::identity(n);
        let mut iterations: usize = 0;
        while iterations < MAX_QR_ITERATIONS
            invariant
                self.wf(),
                n == self.num_rows,
                n == self.num_columns,
                current.wf(),
                current.num_rows == n,
                current.num_columns == n,
                accumulated.wf(),
                accumulated.num_rows == n,
                accumulated.num_columns == n,
                iterations <= MAX_QR_ITERATIONS,
                schur_iteration_spec(
                    self@,
                    identity_spec::<F>(n as int),
                    n as int,
                    MAX_QR_ITERATIONS as int,
                ) == schur_iteration_spec(
                    current@,
                    accumulated@,
                    n as int,
                    MAX_QR_ITERATIONS as int - iterations,
                ),
            decreases MAX_QR_ITERATIONS - iterations,
        {
            if current.near_upper_triangular() {
                return Ok((current, accumulated));
            }
            let ghost n_int = n as int;
            let q = current.QR_decomposition().unwrap();
            let mut q_adjoint = q.duplicate();
            q_adjoint.adjoint();
            let r_matrix = q_adjoint.multiply(&current).unwrap();
            proof {
                assert(r_matrix@ =~~= mat_mul_spec(
                    mat_adjoint_spec(q@, n_int, n_int),
                    current@,
                    n_int,
                    n_int,
                    n_int,
                ));
            }
            let next = r_matrix.multiply(&q).unwrap();
            let next_accumulated = accumulated.multiply(&q).unwrap();
            proof {
                assert(next@ =~~= mat_mul_spec(r_matrix@, q@, n_int, n_int, n_int));
                assert(next@ == qr_step_spec(current@, n_int));
                assert(next_accumulated@ =~~= mat_mul_spec(
                    accumulated@,
                    qr_q_spec(current@, n_int),
                    n_int,
                    n_int,
                    n_int,
                ));
            }
            current = next;
            accumulated = next_accumulated;
            iterations += 1;
        }
        if current.near_upper_triangular() {
            return Ok((current, accumulated));
        }
        Err(MathError::NonConvergence)
    }

    /// One unit-norm eigenvector per eigenvalue, ordered as
    /// [`Matrix::calculate_eigenvalues`] orders the eigenvalues: each is
    /// recovered by back-substitution against the converged
    /// near-triangular form and carried back through the accumulated
    /// orthonormal factors. Fails with `NotQuadratic` on a non-square
    /// matrix, with `NonConvergence` when the QR iteration budget runs
    /// out, and with `DivisionByZero` when back-substitution meets a
    /// near-zero pivot gap (a repeated eigenvalue).
    pub fn calculate_eigenvectors(&self) -> (r: Result<Vec<Vector<F>>, MathError>)
        requires
            self.wf(),
        ensures
            self.num_rows != self.num_columns ==> r == Err::<Vec<Vector<F>>, MathError>(
                MathError::NotQuadratic,
            ),
            self.num_rows == self.num_columns ==> (match schur_iteration_spec(
                self@,
                identity_spec::<F>(self.num_rows as int),
                self.num_rows as int,
                MAX_QR_ITERATIONS as int,
            ) {
                Err(e) => r == Err::<Vec<Vector<F>>, MathError>(e),
                Ok(pair) => (match eigenvectors_spec(
                    pair.0,
                    pair.1,
                    self.num_rows as int,
                    self.num_rows as int,
                ) {
                    Err(e) => r == Err::<Vec<Vector<F>>, MathError>(e),
                    Ok(out) => r is Ok && r->Ok_0@.len() == self.num_rows && r->Ok_0@.map_values(
                        |v: Vector<F>| v@,
                    ) == out && (forall|i: int|
                        0 <= i < self.num_rows ==> (#[trigger] r->Ok_0@[i])@.len() == self.num_rows
                            && r->Ok_0@[i].orientation() == VectorType::COLUMN_VECTOR),
                }),
            }),
    {
        if !self.is_quadratic() {
            return Err(MathError::NotQuadratic);
        }
        let n = self.num_rows;
        let ghost n_int = n as int;
        let pair = match self.schur_iteration() {
            Ok(pair) => pair,
            Err(e) => {
                return Err(e);
            },
        };
        let triangular = pair.0;
        let accumulated = pair.1;
        let ghost t_view = triangular@;
        let ghost v_view = accumulated@;
        let mut result: Vec<Vector<F>> = Vec::new();
        proof {
            assert(result@.map_values(|v: Vector<F>| v@) =~= eigenvectors_spec(
                t_view,
                v_view,
                n_int,
                0,
            )->Ok_0);
        }
        let mut i: usize = 0;
        while i < n
            invariant
                self.wf(),
                n == self.num_rows,
                n == self.num_columns,
                schur_iteration_spec(
                    self@,
                    identity_spec::<F>(n as int),
                    n as int,
                    MAX_QR_ITERATIONS as int,
                ) matches Ok(pair) && pair.0 == t_view && pair.1 == v_view,
                triangular.wf(),
                triangular.num_rows == n,
                triangular.num_columns == n,
                accumulated.wf(),
                accumulated.num_rows == n,
                accumulated.num_columns == n,
                t_view == triangular@,
                v_view == accumulated@,
                n_int == n as int,
                i <= n,
                result@.len() == i,
                eigenvectors_spec(t_view, v_view, n_int, i as int) is Ok,
                result@.map_values(|v: Vector<F>| v@) == eigenvectors_spec(
                    t_view,
                    v_view,
                    n_int,
                    i as int,
                )->Ok_0,
                forall|k: int|
                    0 <= k < i ==> (#[trigger] result@[k])@.len() == n && result@[k].orientation()
                        == VectorType::COLUMN_VECTOR,
            decreases n - i,
        {
            let lambda = triangular.get_element(i, i).unwrap();
            let mut y: Vec<Complex<F>> = Vec::new();
            let mut j: usize = 0;
            while j < n
                invariant
                    i < n,
                    n_int == n as int,
                    j <= n,
                    y@.len() == j,
                    forall|t: int| 0 <= t < j ==> y@[t] == unit_seq::<F>(n_int, i as int)[t],
                decreases n - j,
            {
                if j == i {
                    y.push(Complex::from(F::one_e(), F::zero_e()));
                } else {
                    y.push(Complex::new());
                }
                j += 1;
            }
            proof {
                assert(y@ =~= unit_seq::<F>(n_int, i as int));
                assert(y@ == backsub_y_spec(t_view, n_int, i as int, 0)->Ok_0);
            }
            let mut k: usize = 0;
            while k < i
                invariant
                    self.wf(),
                    n == self.num_rows,
                    n == self.num_columns,
                    schur_iteration_spec(
                        self@,
                        identity_spec::<F>(n as int),
                        n as int,
                        MAX_QR_ITERATIONS as int,
                    ) matches Ok(pair) && pair.0 == t_view && pair.1 == v_view,
                    triangular.wf(),
                    triangular.num_rows == n,
                    triangular.num_columns == n,
                    t_view == triangular@,
                    n_int == n as int,
                    i < n,
                    eigenvectors_spec(t_view, v_view, n_int, i as int) is Ok,
                    lambda == t_view[i as int][i as int],
                    k <= i,
                    y@.len() == n,
                    backsub_y_spec(t_view, n_int, i as int, k as int) is Ok,
                    y@ == backsub_y_spec(t_view, n_int, i as int, k as int)->Ok_0,
                decreases i - k,
            {
                let row_index = i - 1 - k;
                let mut sum: Complex<F> = Complex::new();
                let mut t_idx: usize = row_index + 1;
                while t_idx < n
                    invariant
                        triangular.wf(),
                        triangular.num_rows == n,
                        triangular.num_columns == n,
                        t_view == triangular@,
                        n_int == n as int,
                        row_index < n,
                        row_index + 1 <= t_idx <= n,
                        y@.len() == n,
                        sum == range_sum_spec(
                            t_view[row_index as int],
                            y@,
                            row_index as int + 1,
                            t_idx as int,
                        ),
                    decreases n - t_idx,
                {
                    let factor = triangular.get_element(row_index, t_idx).unwrap();
                    let product = factor.multiplication(&y[t_idx]);
                    sum = sum.addition(&product);
                    t_idx += 1;
                }
                let diagonal = triangular.get_element(row_index, row_index).unwrap();
                let denominator = lambda.subtraction(&diagonal);
                let value = match sum.division(&denominator) {
                    Ok(value) => value,
                    Err(e) => {
                        proof {
                            assert(backsub_y_spec(t_view, n_int, i as int, k as int + 1) is Err);
                            lemma_backsub_err_persists(
                                t_view,
                                n_int,
                                i as int,
                                k as int + 1,
                                i as int,
                            );
                            assert(eigenvectors_spec(t_view, v_view, n_int, i as int + 1) is Err);
                            lemma_eigenvectors_err_persists(
                                t_view,
                                v_view,
                                n_int,
                                i as int + 1,
                                n_int,
                            );
                        }
                        return Err(e);
                    },
                };
                y[row_index] = value;
                k += 1;
            }
            let y_vector = Vector::from_vec(y);
            let x = accumulated.multiply_vector(&y_vector).unwrap();
            proof {
                assert(x@ =~= mat_vec_spec(v_view, y_vector@, n_int, n_int));
            }
            let mut eigenvector = x;
            eigenvector.normalize();
            result.push(eigenvector);
            proof {
                assert(result@.map_values(|v: Vector<F>| v@) =~= eigenvectors_spec(
                    t_view,
                    v_view,
                    n_int,
                    i + 1,
                )->Ok_0);
            }
            i += 1;
        }
        Ok(result)
    }
}

/// Whatever iterate the QR iteration accepts is itself within tolerance
/// of upper-triangular form — the property that makes its diagonal the
/// eigenvalue estimates.
proof fn lemma_qr_iteration_triangular<F: Scalar>(a: Seq<Seq<Complex<F>>>, n: int, fuel: int)
    requires
        qr_iteration_spec(a, n, fuel) is Ok,
    ensures
        near_upper_triangular_spec(qr_iteration_spec(a, n, fuel)->Ok_0, n),
    decreases fuel,
{
    if !near_upper_triangular_spec(a, n) && fuel > 0 {
        lemma_qr_iteration_triangular(qr_step_spec(a, n), n, fuel - 1);
    }
}

/// Once back-substitution has failed, it stays failed — with the same
/// error — for any larger number of processed rows.
proof fn lemma_backsub_err_persists<F: Scalar>(
    t: Seq<Seq<Complex<F>>>,
    n: int,
    i: int,
    k: int,
    k2: int,
)
    requires
        0 <= k <= k2,
        backsub_y_spec(t, n, i, k) is Err,
    ensures
        backsub_y_spec(t, n, i, k2) == backsub_y_spec(t, n, i, k),
    decreases k2 - k,
{
    if k2 > k {
        lemma_backsub_err_persists(t, n, i, k, k2 - 1);
    }
}

/// Once eigenvector recovery has failed, it stays failed — with the
/// same error — for any larger number of recovered vectors.
proof fn lemma_eigenvectors_err_persists<F: Scalar>(
    t: Seq<Seq<Complex<F>>>,
    v: Seq<Seq<Complex<F>>>,
    n: int,
    k: int,
    k2: int,
)
    requires
        0 <= k <= k2,
        eigenvectors_spec(t, v, n, k) is Err,
    ensures
        eigenvectors_spec(t, v, n, k2) == eigenvectors_spec(t, v, n, k),
    decreases k2 - k,
{
    if k2 > k {
        lemma_eigenvectors_err_persists(t, v, n, k, k2 - 1);
    }
}

/// The adjoint is an involution: taking the conjugate transpose of a
/// well-shaped grid twice restores the original grid exactly — negating
/// an imaginary part twice is the identity for every scalar value, so no
/// tolerance is needed.
pub proof fn lemma_adjoint_involution<F: Scalar>(g: Seq<Seq<Complex<F>>>, rows: int, cols: int)
    requires
        grid_shaped(g, rows, cols),
    ensures
        mat_adjoint_spec(mat_adjoint_spec(g, rows, cols), cols, rows) == g,
{
    let twice = mat_adjoint_spec(mat_adjoint_spec(g, rows, cols), cols, rows);
    assert forall|r: int| 0 <= r < rows implies twice[r] =~= g[r] by {
        assert forall|c: int| 0 <= c < cols implies twice[r][c] == g[r][c] by {
            F::lemma_neg_neg(g[r][c].imaginary);
        }
    }
    assert(twice =~= g);
}

/// A product of two nonnegative factors is zero exactly when one of the
/// factors is.
proof fn lemma_product_zero(a: int, b: int)
    requires
        0 <= a,
        0 <= b,
    ensures
        a * b == 0 <==> (a == 0 || b == 0),
        a > 0 && b > 0 ==> a * b > 0,
{
    assert((a * b == 0 <==> (a == 0 || b == 0)) && (a > 0 && b > 0 ==> a * b > 0))
        by (nonlinear_arith)
        requires
            0 <= a,
            0 <= b,
    ;
}

/// For `0 <= i < rows` and `cols > 0`, the row-major block
/// `[i·cols, (i+1)·cols)` lies within `rows·cols`.
proof fn lemma_row_block_in_range(i: int, rows: int, cols: int)
    requires
        0 <= i < rows,
        0 <= cols,
    ensures
        i * cols + cols <= rows * cols,
        0 <= i * cols,
{
    assert(i * cols + cols <= rows * cols && 0 <= i * cols) by (nonlinear_arith)
        requires
            0 <= i < rows,
            0 <= cols,
    ;
}

/// For `0 <= i < m·p` with `p > 0`: `i / p < m` and `i % p < p`.
proof fn lemma_div_mod_in_range(i: int, m: int, p: int)
    requires
        0 <= i,
        p > 0,
        i < m * p,
    ensures
        0 <= i / p < m,
        0 <= i % p < p,
{
    assert(m * p == p * m) by (nonlinear_arith);
    vstd::arithmetic::div_mod::lemma_multiply_divide_lt(i, p, m);
    vstd::arithmetic::div_mod::lemma_div_pos_is_pos(i, p);
    vstd::arithmetic::div_mod::lemma_mod_division_less_than_divisor(i, p);
}

} // verus!
