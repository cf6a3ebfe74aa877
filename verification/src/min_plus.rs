//! The min tropical (min-plus) semiring: "addition" is the minimum of the
//! operands, "multiplication" is their ordinary sum, the additive identity
//! is positive infinity and the multiplicative identity is zero; together
//! with dense matrix addition and multiplication over that semiring.

use vstd::prelude::*;
use crate::extended::Extended;
use crate::extended::spec_min;
use crate::extended::spec_sum;
use crate::extended::spec_eq;
use crate::extended::is_finite;
use crate::extended::finite_value;
use crate::DimensionMismatch;

verus! {

/// An element of the min tropical semiring: an extended number whose
/// semiring sum is the minimum and whose semiring product is the ordinary
/// sum.
#[derive(Clone, Copy, Debug)]
pub struct MinTropical(pub Extended);

/// Semiring addition: the smaller operand (an indeterminate operand is
/// ignored, as the IEEE minimum ignores it).
pub open spec fn spec_add(a: MinTropical, b: MinTropical) -> MinTropical {
    MinTropical(spec_min(a.0, b.0))
}

/// Semiring multiplication: the ordinary sum of the operands on the
/// extended number line.
pub open spec fn spec_multiply(a: MinTropical, b: MinTropical) -> MinTropical {
    MinTropical(spec_sum(a.0, b.0))
}

impl MinTropical {
    /// The additive identity of the semiring: positive infinity.
    pub fn inf() -> (r: MinTropical)
        ensures
            r == MinTropical(Extended::PosInf),
    {
        MinTropical(Extended::PosInf)
    }

    /// The multiplicative identity of the semiring: zero.
    pub fn zero() -> (r: MinTropical)
        ensures
            r == MinTropical(Extended::Finite(0)),
    {
        MinTropical(Extended::Finite(0))
    }

    /// Semiring addition: the smaller of `self` and `other`.
    pub fn add(self, other: MinTropical) -> (r: MinTropical)
        ensures
            r == spec_add(self, other),
    {
        MinTropical(self.0.min_with(other.0))
    }

    /// Semiring multiplication: the sum of `self` and `other`.
    pub fn multiply(self, other: MinTropical) -> (r: MinTropical)
        ensures
            r == spec_multiply(self, other),
    {
        MinTropical(self.0.plus(other.0))
    }

    /// Replaces `self` with the semiring sum of `self` and `other`.
    pub fn add_assign(&mut self, other: MinTropical)
        ensures
            *final(self) == spec_add(*old(self), other),
    {
        let cur = *self;
        *self = cur.add(other);
    }

    /// The textual form of the element, as IEEE floating point prints:
    /// decimal digits for a finite value, `inf`, `-inf`, or `NaN`.
    pub fn display_string(self) -> (r: String)
        ensures
            r@ == crate::extended::display_spec(self.0),
    {
        self.0.display_string()
    }

    /// Replaces `self` with the semiring product of `self` and `other`.
    pub fn multiply_assign(&mut self, other: MinTropical)
        ensures
            *final(self) == spec_multiply(*old(self), other),
    {
        let cur = *self;
        *self = cur.multiply(other);
    }
}

impl PartialEq for MinTropical {
    fn eq(&self, other: &MinTropical) -> (r: bool) {
        self.0 == other.0
    }
}

impl PartialOrd for MinTropical {
    fn partial_cmp(&self, other: &MinTropical) -> (r: Option<core::cmp::Ordering>) {
        self.0.partial_cmp(&other.0)
    }
}

impl vstd::std_specs::cmp::PartialOrdSpecImpl for MinTropical {
    open spec fn obeys_partial_cmp_spec() -> bool {
        true
    }

    open spec fn partial_cmp_spec(&self, other: &MinTropical) -> Option<core::cmp::Ordering> {
        crate::extended::spec_cmp(self.0, other.0)
    }
}

impl vstd::std_specs::cmp::PartialEqSpecImpl for MinTropical {
    open spec fn obeys_eq_spec() -> bool {
        true
    }

    open spec fn eq_spec(&self, other: &MinTropical) -> bool {
        spec_eq(self.0, other.0)
    }
}

/// Semiring addition is commutative, for every pair of elements, the
/// infinities and the indeterminate value included.
pub proof fn lemma_add_commutative(a: MinTropical, b: MinTropical)
    ensures
        spec_add(a, b) == spec_add(b, a),
{
}

/// Semiring addition is associative, for all elements.
pub proof fn lemma_add_associative(a: MinTropical, b: MinTropical, c: MinTropical)
    ensures
        spec_add(spec_add(a, b), c) == spec_add(a, spec_add(b, c)),
{
}

/// Semiring addition is idempotent for every element but the indeterminate
/// value: the minimum of an element and itself is that element.
pub proof fn lemma_add_idempotent(a: MinTropical)
    requires
        !(a.0 is Nan),
    ensures
        spec_add(a, a) == a,
{
}

/// Semiring multiplication is commutative, for every pair of elements.
pub proof fn lemma_multiply_commutative(a: MinTropical, b: MinTropical)
    ensures
        spec_multiply(a, b) == spec_multiply(b, a),
{
}

/// Semiring multiplication is associative for finite elements whose
/// partial sums stay in the representable range (at the edge of the range
/// a sum overflows to an infinity, which absorbs, so the two groupings can
/// differ there).
pub proof fn lemma_multiply_associative(a: MinTropical, b: MinTropical, c: MinTropical)
    requires
        is_finite(a.0),
        is_finite(b.0),
        is_finite(c.0),
        i64::MIN <= finite_value(a.0) + finite_value(b.0) <= i64::MAX,
        i64::MIN <= finite_value(b.0) + finite_value(c.0) <= i64::MAX,
        i64::MIN <= finite_value(a.0) + finite_value(b.0) + finite_value(c.0) <= i64::MAX,
    ensures
        spec_multiply(spec_multiply(a, b), c) == spec_multiply(a, spec_multiply(b, c)),
{
}

/// Adding the additive identity changes nothing, for every element that is
/// not the indeterminate value (the minimum ignores an indeterminate
/// operand, so adding the identity to it yields the identity instead).
pub proof fn lemma_add_identity(a: MinTropical)
    requires
        !(a.0 is Nan),
    ensures
        spec_add(a, MinTropical(Extended::PosInf)) == a,
{
}

/// Multiplying by the multiplicative identity changes nothing, for every
/// element, the infinities and the indeterminate value included.
pub proof fn lemma_multiply_identity(a: MinTropical)
    ensures
        spec_multiply(a, MinTropical(Extended::Finite(0))) == a,
{
}

/// Multiplication distributes over addition for finite elements whose
/// products stay in the representable range.
pub proof fn lemma_distributive(a: MinTropical, b: MinTropical, c: MinTropical)
    requires
        is_finite(a.0),
        is_finite(b.0),
        is_finite(c.0),
        i64::MIN <= finite_value(a.0) + finite_value(b.0) <= i64::MAX,
        i64::MIN <= finite_value(a.0) + finite_value(c.0) <= i64::MAX,
    ensures
        spec_multiply(a, spec_add(b, c)) == spec_add(spec_multiply(a, b), spec_multiply(a, c)),
{
}

proof fn lemma_row_major_zero(cols: int)
    by (nonlinear_arith)
    ensures
        0 * cols == 0,
{
}

proof fn lemma_row_major_step(i: int, cols: int)
    by (nonlinear_arith)
    ensures
        (i + 1) * cols == i * cols + cols,
{
}

/// A dense rectangular matrix of min tropical scalars.
///
/// The entries live in a two-dimensional `ndarray` array. Verus sees the
/// array only through the names `min_mat_entries` and `min_mat_cols` and
/// the trusted accessors below; everything built on them is verified.
#[derive(Debug, PartialEq)]
#[verifier::external_body]
pub struct MinMatrix {
    inner: ndarray::Array2<MinTropical>,
}

/// The rows of `m`: the entries the underlying array holds, row by row.
pub uninterp spec fn min_mat_entries(m: MinMatrix) -> Seq<Seq<MinTropical>>;

/// The column count `m` was built with (each row holds this many entries,
/// also when there are no rows).
pub uninterp spec fn min_mat_cols(m: MinMatrix) -> int;

/// Relies on ndarray's `Array2::from_shape_vec`: a row-major vector of
/// length `rows * cols` becomes the `rows` x `cols` array of its entries.
#[verifier::external_body]
fn raw_from_flat(rows: usize, cols: usize, data: Vec<MinTropical>) -> (m: MinMatrix)
    requires
        data.len() == rows * cols,
    ensures
        min_mat_entries(m).len() == rows,
        min_mat_cols(m) == cols,
        forall|i: int| 0 <= i < rows ==> (#[trigger] min_mat_entries(m)[i]).len() == cols,
        forall|i: int, j: int|
            0 <= i < rows && 0 <= j < cols ==> #[trigger] min_mat_entries(m)[i][j] == data[i * cols
                + j],
{
    MinMatrix { inner: ndarray::Array2::from_shape_vec((rows, cols), data).unwrap() }
}

/// Relies on ndarray's `nrows`: the number of rows of the array.
#[verifier::external_body]
fn raw_nrows(m: &MinMatrix) -> (r: usize)
    ensures
        r == min_mat_entries(*m).len(),
{
    m.inner.nrows()
}

/// Relies on ndarray's `ncols`: the number of columns of the array, which
/// the length of every row of a two-dimensional array equals.
#[verifier::external_body]
fn raw_ncols(m: &MinMatrix) -> (r: usize)
    ensures
        r == min_mat_cols(*m),
        forall|i: int|
            0 <= i < min_mat_entries(*m).len() ==> (#[trigger] min_mat_entries(*m)[i]).len() == r,
{
    m.inner.ncols()
}

/// Relies on ndarray's indexing: the entry of the array at row `i`,
/// column `j`.
#[verifier::external_body]
fn raw_entry(m: &MinMatrix, i: usize, j: usize) -> (v: MinTropical)
    requires
        i < min_mat_entries(*m).len(),
        j < min_mat_cols(*m),
    ensures
        v == min_mat_entries(*m)[i as int][j as int],
{
    m.inner[[i, j]]
}

/// Whether `e` is a well-formed `rows` x `cols` matrix: `rows` rows, each
/// of length `cols`.
pub open spec fn is_matrix(e: Seq<Seq<MinTropical>>, rows: int, cols: int) -> bool {
    e.len() == rows && (forall|i: int| 0 <= i < rows ==> (#[trigger] e[i]).len() == cols)
}

/// Whether every row of `rows` has the length of the first.
pub open spec fn rows_rectangular(rows: Seq<Seq<MinTropical>>) -> bool {
    forall|i: int| 0 <= i < rows.len() ==> (#[trigger] rows[i]).len() == rows[0].len()
}

/// Whether the row-major sequence `data`, `cols` entries wide, already
/// holds entry (`r`, `c`) of the matrix `e`.
spec fn stored(data: Seq<MinTropical>, e: Seq<Seq<MinTropical>>, cols: int, r: int, c: int) -> bool {
    r * cols + c < data.len() && data[r * cols + c] == e[r][c]
}

/// Whether no entry of `e` is the indeterminate value.
pub open spec fn no_nan(e: Seq<Seq<MinTropical>>) -> bool {
    forall|i: int, j: int|
        0 <= i < e.len() && 0 <= j < e[i].len() ==> !((#[trigger] e[i][j]).0 is Nan)
}

/// The elementwise semiring sum of two equally shaped matrices.
pub open spec fn mat_add_spec(a: Seq<Seq<MinTropical>>, b: Seq<Seq<MinTropical>>) -> Seq<
    Seq<MinTropical>,
> {
    Seq::new(a.len(), |i: int| Seq::new(a[i].len(), |j: int| spec_add(a[i][j], b[i][j])))
}

/// The semiring dot product of the first `t` terms of row `i` of `a`
/// against column `j` of `b`: the running minimum, started at the additive
/// identity, of the products a[i][u] (x) b[u][j] for u < t.
pub open spec fn dot_prefix(
    a: Seq<Seq<MinTropical>>,
    b: Seq<Seq<MinTropical>>,
    i: int,
    j: int,
    t: nat,
) -> MinTropical
    decreases t,
{
    if t == 0 {
        MinTropical(Extended::PosInf)
    } else {
        spec_add(
            dot_prefix(a, b, i, j, (t - 1) as nat),
            spec_multiply(a[i][t - 1], b[t - 1][j]),
        )
    }
}

/// The semiring matrix product of `a` and `b`, where `b` has `cols`
/// columns: entry (i, j) is the semiring dot product of row `i` of `a`
/// against column `j` of `b`, over the shared inner dimension.
pub open spec fn mat_mul_spec(
    a: Seq<Seq<MinTropical>>,
    b: Seq<Seq<MinTropical>>,
    cols: int,
) -> Seq<Seq<MinTropical>> {
    Seq::new(a.len(), |i: int| Seq::new(cols as nat, |j: int| dot_prefix(a, b, i, j, b.len())))
}

/// The `rows` x `cols` matrix whose every entry is the additive identity.
pub open spec fn zero_matrix_spec(rows: int, cols: int) -> Seq<Seq<MinTropical>> {
    Seq::new(rows as nat, |i: int| Seq::new(cols as nat, |j: int| MinTropical(Extended::PosInf)))
}

/// The identity matrix of order `n`: the multiplicative identity on the
/// diagonal and the additive identity everywhere else.
pub open spec fn identity_matrix_spec(n: int) -> Seq<Seq<MinTropical>> {
    Seq::new(
        n as nat,
        |i: int|
            Seq::new(
                n as nat,
                |j: int|
                    if i == j {
                        MinTropical(Extended::Finite(0))
                    } else {
                        MinTropical(Extended::PosInf)
                    },
            ),
    )
}

impl MinMatrix {
    /// Builds a matrix from its rows. Every row must have the length of
    /// the first; ragged input comes back as `None`. An empty vector
    /// builds the 0 x 0 matrix.
    #[verifier::loop_isolation(false)]
    pub fn from_rows(rows: Vec<Vec<MinTropical>>) -> (r: Option<MinMatrix>)
        ensures
            match r {
                Some(m) => rows_rectangular(rows@.map_values(|row: Vec<MinTropical>| row@))
                    && min_mat_entries(m) == rows@.map_values(|row: Vec<MinTropical>| row@)
                    && min_mat_cols(m) == (if rows@.len() == 0 {
                        0int
                    } else {
                        rows@[0]@.len() as int
                    }),
                None => !rows_rectangular(rows@.map_values(|row: Vec<MinTropical>| row@)),
            },
    {
        let ghost target = rows@.map_values(|row: Vec<MinTropical>| row@);
        if rows.len() == 0 {
            let m = raw_from_flat(0, 0, Vec::new());
            proof {
                assert(min_mat_entries(m) =~~= target);
            }
            return Some(m);
        }
        let rcount = rows.len();
        let cols = rows[0].len();
        let mut data: Vec<MinTropical> = Vec::new();
        let mut i: usize = 0;
        proof {
            lemma_row_major_zero(cols as int);
            assert(target[0] == rows@[0]@);
        }
        while i < rcount
            invariant
                rcount == target.len(),
                cols == target[0].len(),
                i <= rcount,
                data@.len() == i * cols,
                forall|r2: int| 0 <= r2 < i ==> (#[trigger] target[r2]).len() == cols,
                forall|r2: int, c2: int|
                    0 <= r2 < i && 0 <= c2 < cols ==> #[trigger] stored(
                        data@,
                        target,
                        cols as int,
                        r2,
                        c2,
                    ),
            decreases rcount - i,
        {
            proof {
                assert(target[i as int] == rows@[i as int]@);
            }
            if rows[i].len() != cols {
                proof {
                    assert(target[i as int].len() != target[0].len());
                    assert(!rows_rectangular(target));
                }
                return None;
            }
            let mut j: usize = 0;
            while j < cols
                invariant
                    i < rcount,
                    target[i as int].len() == cols,
                    j <= cols,
                    data@.len() == i * cols + j,
                    forall|r2: int, c2: int|
                        0 <= r2 < i && 0 <= c2 < cols ==> #[trigger] stored(
                            data@,
                            target,
                            cols as int,
                            r2,
                            c2,
                        ),
                    forall|c2: int|
                        0 <= c2 < j ==> #[trigger] stored(data@, target, cols as int, i as int, c2),
                decreases cols - j,
            {
                let v = rows[i][j];
                proof {
                    assert(v == target[i as int][j as int]);
                }
                let ghost prev = data@;
                data.push(v);
                proof {
                    assert forall|r2: int, c2: int|
                        0 <= r2 < i && 0 <= c2 < cols implies #[trigger] stored(
                        data@,
                        target,
                        cols as int,
                        r2,
                        c2,
                    ) by {
                        assert(stored(prev, target, cols as int, r2, c2));
                    }
                    assert forall|c2: int| 0 <= c2 < j + 1 implies #[trigger] stored(
                        data@,
                        target,
                        cols as int,
                        i as int,
                        c2,
                    ) by {
                        if c2 < j {
                            assert(stored(prev, target, cols as int, i as int, c2));
                        } else {
                            assert(data@[i * cols + j] == v);
                        }
                    }
                }
                j += 1;
            }
            proof {
                lemma_row_major_step(i as int, cols as int);
                assert forall|r2: int, c2: int|
                    0 <= r2 < i + 1 && 0 <= c2 < cols implies #[trigger] stored(
                    data@,
                    target,
                    cols as int,
                    r2,
                    c2,
                ) by {
                    if r2 == i {
                        assert(stored(data@, target, cols as int, i as int, c2));
                    } else {
                        assert(stored(data@, target, cols as int, r2, c2));
                    }
                }
            }
            i += 1;
        }
        let m = raw_from_flat(rcount, cols, data);
        proof {
            assert forall|i2: int| 0 <= i2 < rcount implies min_mat_entries(m)[i2] =~= target[i2] by {
                assert(target[i2].len() == cols);
                assert forall|j2: int| 0 <= j2 < cols implies min_mat_entries(m)[i2][j2] == target[i2][j2] by {
                    assert(stored(data@, target, cols as int, i2, j2));
                }
            }
            assert(min_mat_entries(m) =~~= target);
        }
        Some(m)
    }

    /// The number of rows.
    pub fn nrows(&self) -> (r: usize)
        ensures
            r == min_mat_entries(*self).len(),
    {
        raw_nrows(self)
    }

    /// The number of columns; every row of the matrix has this length.
    pub fn ncols(&self) -> (r: usize)
        ensures
            r == min_mat_cols(*self),
            forall|i: int|
                0 <= i < min_mat_entries(*self).len() ==> (#[trigger] min_mat_entries(
                    *self,
                )[i]).len() == r,
    {
        raw_ncols(self)
    }

    /// The entry at row `i`, column `j`, or `None` outside the shape.
    pub fn entry(&self, i: usize, j: usize) -> (r: Option<MinTropical>)
        ensures
            match r {
                Some(v) => i < min_mat_entries(*self).len() && j < min_mat_cols(*self) && v
                    == min_mat_entries(*self)[i as int][j as int],
                None => i >= min_mat_entries(*self).len() || j >= min_mat_cols(*self),
            },
    {
        if i < self.nrows() && j < self.ncols() {
            Some(raw_entry(self, i, j))
        } else {
            None
        }
    }
}

/// Matrix addition in the min tropical semiring: the elementwise semiring
/// sum of two equally shaped matrices.
#[verifier::loop_isolation(false)]
pub fn min_tropical_mat_add(lhs: &MinMatrix, rhs: &MinMatrix) -> (r: MinMatrix)
    requires
        min_mat_entries(*lhs).len() == min_mat_entries(*rhs).len(),
        min_mat_cols(*lhs) == min_mat_cols(*rhs),
    ensures
        min_mat_entries(r) == mat_add_spec(min_mat_entries(*lhs), min_mat_entries(*rhs)),
        min_mat_cols(r) == min_mat_cols(*lhs),
{
    let ghost ae = min_mat_entries(*lhs);
    let ghost be = min_mat_entries(*rhs);
    let rows = raw_nrows(lhs);
    let cols = raw_ncols(lhs);
    let rhs_cols = raw_ncols(rhs);
    let mut data: Vec<MinTropical> = Vec::new();
    let mut i: usize = 0;
    proof {
        lemma_row_major_zero(cols as int);
    }
    while i < rows
        invariant
            i <= rows,
            data@.len() == i * cols,
            forall|r2: int, c2: int|
                0 <= r2 < i && 0 <= c2 < cols ==> r2 * cols + c2 < data@.len() && data@[r2 * cols
                    + c2] == spec_add(#[trigger] ae[r2][c2], be[r2][c2]),
        decreases rows - i,
    {
        let mut j: usize = 0;
        while j < cols
            invariant
                i < rows,
                j <= cols,
                data@.len() == i * cols + j,
                forall|r2: int, c2: int|
                    0 <= r2 < i && 0 <= c2 < cols ==> r2 * cols + c2 < data@.len() && data@[r2
                        * cols + c2] == spec_add(#[trigger] ae[r2][c2], be[r2][c2]),
                forall|c2: int|
                    0 <= c2 < j ==> i * cols + c2 < data@.len() && data@[i * cols + c2]
                        == spec_add(#[trigger] ae[i as int][c2], be[i as int][c2]),
            decreases cols - j,
        {
            let v = raw_entry(lhs, i, j).add(raw_entry(rhs, i, j));
            data.push(v);
            j += 1;
        }
        proof {
            lemma_row_major_step(i as int, cols as int);
        }
        i += 1;
    }
    let m = raw_from_flat(rows, cols, data);
    proof {
        assert(min_mat_entries(m) =~~= mat_add_spec(ae, be));
    }
    m
}

/// Matrix addition with the shape check: two matrices combine elementwise
/// only when their shapes agree exactly; otherwise the pair of shapes
/// comes back as the error and nothing is computed.
pub fn min_tropical_mat_add_checked(lhs: &MinMatrix, rhs: &MinMatrix) -> (r: Result<
    MinMatrix,
    DimensionMismatch,
>)
    ensures
        match r {
            Ok(m) => min_mat_entries(*lhs).len() == min_mat_entries(*rhs).len() && min_mat_cols(
                *lhs,
            ) == min_mat_cols(*rhs) && min_mat_entries(m) == mat_add_spec(
                min_mat_entries(*lhs),
                min_mat_entries(*rhs),
            ) && min_mat_cols(m) == min_mat_cols(*lhs),
            Err(e) => (min_mat_entries(*lhs).len() != min_mat_entries(*rhs).len() || min_mat_cols(
                *lhs,
            ) != min_mat_cols(*rhs)) && e == (DimensionMismatch {
                lhs_rows: min_mat_entries(*lhs).len() as usize,
                lhs_cols: min_mat_cols(*lhs) as usize,
                rhs_rows: min_mat_entries(*rhs).len() as usize,
                rhs_cols: min_mat_cols(*rhs) as usize,
            }),
        },
{
    let lhs_rows = raw_nrows(lhs);
    let lhs_cols = raw_ncols(lhs);
    let rhs_rows = raw_nrows(rhs);
    let rhs_cols = raw_ncols(rhs);
    if lhs_rows == rhs_rows && lhs_cols == rhs_cols {
        Ok(min_tropical_mat_add(lhs, rhs))
    } else {
        Err(DimensionMismatch { lhs_rows, lhs_cols, rhs_rows, rhs_cols })
    }
}

/// Matrix multiplication in the min tropical semiring: entry (i, j) of the
/// result is the semiring dot product of row `i` of `lhs` against column
/// `j` of `rhs`, folded in increasing order of the inner index from the
/// additive identity.
#[verifier::loop_isolation(false)]
pub fn min_tropical_mat_mul(lhs: &MinMatrix, rhs: &MinMatrix) -> (r: MinMatrix)
    requires
        min_mat_cols(*lhs) == min_mat_entries(*rhs).len(),
    ensures
        min_mat_entries(r) == mat_mul_spec(
            min_mat_entries(*lhs),
            min_mat_entries(*rhs),
            min_mat_cols(*rhs),
        ),
        min_mat_cols(r) == min_mat_cols(*rhs),
{
    let ghost ae = min_mat_entries(*lhs);
    let ghost be = min_mat_entries(*rhs);
    let rows = raw_nrows(lhs);
    let inner = raw_ncols(lhs);
    let cols = raw_ncols(rhs);
    let mut data: Vec<MinTropical> = Vec::new();
    let mut i: usize = 0;
    proof {
        lemma_row_major_zero(cols as int);
    }
    while i < rows
        invariant
            i <= rows,
            data@.len() == i * cols,
            forall|r2: int, c2: int|
                0 <= r2 < i && 0 <= c2 < cols ==> r2 * cols + c2 < data@.len() && data@[r2 * cols
                    + c2] == dot_prefix(ae, be, r2, c2, be.len()),
        decreases rows - i,
    {
        let mut j: usize = 0;
        while j < cols
            invariant
                i < rows,
                j <= cols,
                data@.len() == i * cols + j,
                forall|r2: int, c2: int|
                    0 <= r2 < i && 0 <= c2 < cols ==> r2 * cols + c2 < data@.len() && data@[r2
                        * cols + c2] == dot_prefix(ae, be, r2, c2, be.len()),
                forall|c2: int|
                    0 <= c2 < j ==> i * cols + c2 < data@.len() && data@[i * cols + c2]
                        == dot_prefix(ae, be, i as int, c2, be.len()),
            decreases cols - j,
        {
            let mut acc = MinTropical(Extended::PosInf);
            let mut t: usize = 0;
            while t < inner
                invariant
                    i < rows,
                    j < cols,
                    t <= inner,
                    acc == dot_prefix(ae, be, i as int, j as int, t as nat),
                decreases inner - t,
            {
                let term = raw_entry(lhs, i, t).multiply(raw_entry(rhs, t, j));
                acc = acc.add(term);
                t += 1;
            }
            data.push(acc);
            j += 1;
        }
        proof {
            lemma_row_major_step(i as int, cols as int);
        }
        i += 1;
    }
    let m = raw_from_flat(rows, cols, data);
    proof {
        assert(min_mat_entries(m) =~~= mat_mul_spec(ae, be, min_mat_cols(*rhs)));
    }
    m
}

/// Matrix multiplication with the shape check: the inner dimensions must
/// agree exactly; otherwise the pair of shapes comes back as the error and
/// nothing is computed.
pub fn min_tropical_mat_mul_checked(lhs: &MinMatrix, rhs: &MinMatrix) -> (r: Result<
    MinMatrix,
    DimensionMismatch,
>)
    ensures
        match r {
            Ok(m) => min_mat_cols(*lhs) == min_mat_entries(*rhs).len() && min_mat_entries(m)
                == mat_mul_spec(
                min_mat_entries(*lhs),
                min_mat_entries(*rhs),
                min_mat_cols(*rhs),
            ) && min_mat_cols(m) == min_mat_cols(*rhs),
            Err(e) => min_mat_cols(*lhs) != min_mat_entries(*rhs).len() && e == (DimensionMismatch {
                lhs_rows: min_mat_entries(*lhs).len() as usize,
                lhs_cols: min_mat_cols(*lhs) as usize,
                rhs_rows: min_mat_entries(*rhs).len() as usize,
                rhs_cols: min_mat_cols(*rhs) as usize,
            }),
        },
{
    let lhs_rows = raw_nrows(lhs);
    let lhs_cols = raw_ncols(lhs);
    let rhs_rows = raw_nrows(rhs);
    let rhs_cols = raw_ncols(rhs);
    if lhs_cols == rhs_rows {
        Ok(min_tropical_mat_mul(lhs, rhs))
    } else {
        Err(DimensionMismatch { lhs_rows, lhs_cols, rhs_rows, rhs_cols })
    }
}

/// Adding the all-identity matrix changes nothing: for a matrix without
/// indeterminate entries, the elementwise semiring sum with the matrix of
/// additive identities is the matrix itself.
pub proof fn lemma_mat_add_zero(a: Seq<Seq<MinTropical>>, rows: int, cols: int)
    requires
        is_matrix(a, rows, cols),
        no_nan(a),
        cols >= 0,
    ensures
        mat_add_spec(a, zero_matrix_spec(rows, cols)) == a,
{
    assert(mat_add_spec(a, zero_matrix_spec(rows, cols)) =~~= a);
}

proof fn lemma_dot_prefix_identity(a: Seq<Seq<MinTropical>>, n: int, i: int, j: int, t: nat)
    requires
        0 <= i < a.len(),
        a[i].len() == n,
        0 <= j < n,
        t <= n,
        !(a[i][j].0 is Nan),
    ensures
        dot_prefix(a, identity_matrix_spec(n), i, j, t) == (if j < t {
            a[i][j]
        } else {
            MinTropical(Extended::PosInf)
        }),
    decreases t,
{
    if t > 0 {
        lemma_dot_prefix_identity(a, n, i, j, (t - 1) as nat);
    }
}

/// Multiplying by the identity matrix changes nothing: for a matrix
/// without indeterminate entries, the semiring product with the identity
/// matrix of its column count is the matrix itself.
pub proof fn lemma_mat_mul_identity(a: Seq<Seq<MinTropical>>, rows: int, cols: int)
    requires
        is_matrix(a, rows, cols),
        no_nan(a),
        cols >= 0,
    ensures
        mat_mul_spec(a, identity_matrix_spec(cols), cols) == a,
{
    let id = identity_matrix_spec(cols);
    assert forall|i: int, j: int|
        0 <= i < rows && 0 <= j < cols implies mat_mul_spec(a, id, cols)[i][j] == a[i][j] by {
        lemma_dot_prefix_identity(a, cols, i, j, cols as nat);
    }
    assert(mat_mul_spec(a, id, cols) =~~= a);
}

} // verus!
