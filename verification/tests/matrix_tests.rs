use tropical::DimensionMismatch;
use tropical::Extended;
use tropical::MaxMatrix;
use tropical::MaxTropical;
use tropical::MinMatrix;
use tropical::MinTropical;
use tropical::max_tropical_mat_add;
use tropical::max_tropical_mat_add_checked;
use tropical::max_tropical_mat_mul;
use tropical::max_tropical_mat_mul_checked;
use tropical::min_tropical_mat_add;
use tropical::min_tropical_mat_add_checked;
use tropical::min_tropical_mat_mul;
use tropical::min_tropical_mat_mul_checked;

fn mx(v: i64) -> MaxTropical {
    MaxTropical(Extended::Finite(v))
}

fn mn(v: i64) -> MinTropical {
    MinTropical(Extended::Finite(v))
}

fn max_mat(rows: Vec<Vec<MaxTropical>>) -> MaxMatrix {
    MaxMatrix::from_rows(rows).unwrap()
}

fn min_mat(rows: Vec<Vec<MinTropical>>) -> MinMatrix {
    MinMatrix::from_rows(rows).unwrap()
}

#[test]
fn max_matrix_addition() {
    let x = max_mat(vec![vec![mx(2), mx(4)], vec![mx(1), mx(0)]]);
    let y = max_mat(vec![vec![mx(5), MaxTropical::ninf()], vec![mx(6), mx(-3)]]);
    let z = max_mat(vec![vec![mx(5), mx(4)], vec![mx(6), mx(0)]]);
    assert_eq!(max_tropical_mat_add(&x, &y), z);
}

#[test]
fn max_matrix_multiplication() {
    let x = max_mat(vec![vec![mx(2), mx(4)], vec![mx(1), mx(0)]]);
    let y = max_mat(vec![vec![mx(5), MaxTropical::ninf()], vec![mx(6), mx(-3)]]);
    let z = max_mat(vec![vec![mx(10), mx(1)], vec![mx(6), mx(-3)]]);
    assert_eq!(max_tropical_mat_mul(&x, &y), z);
}

#[test]
fn min_matrix_addition() {
    let x = min_mat(vec![vec![mn(2), mn(4)], vec![mn(1), mn(0)]]);
    let y = min_mat(vec![vec![mn(5), MinTropical::inf()], vec![mn(6), mn(-3)]]);
    let z = min_mat(vec![vec![mn(2), mn(4)], vec![mn(1), mn(-3)]]);
    assert_eq!(min_tropical_mat_add(&x, &y), z);
}

#[test]
fn min_matrix_multiplication() {
    let x = min_mat(vec![vec![mn(2), mn(4)], vec![mn(1), mn(0)]]);
    let y = min_mat(vec![vec![mn(5), MinTropical::inf()], vec![mn(6), mn(-3)]]);
    let z = min_mat(vec![vec![mn(7), mn(1)], vec![mn(6), mn(-3)]]);
    assert_eq!(min_tropical_mat_mul(&x, &y), z);
}

#[test]
fn max_matrix_add_zero_matrix() {
    // Adding the matrix of additive identities returns the matrix unchanged.
    let x = max_mat(vec![vec![mx(2), mx(4)], vec![mx(1), mx(0)]]);
    let zero = max_mat(vec![
        vec![MaxTropical::ninf(), MaxTropical::ninf()],
        vec![MaxTropical::ninf(), MaxTropical::ninf()],
    ]);
    assert_eq!(max_tropical_mat_add(&x, &zero), x);
}

#[test]
fn min_matrix_add_zero_matrix() {
    let x = min_mat(vec![vec![mn(2), mn(4)], vec![mn(1), mn(0)]]);
    let zero = min_mat(vec![
        vec![MinTropical::inf(), MinTropical::inf()],
        vec![MinTropical::inf(), MinTropical::inf()],
    ]);
    assert_eq!(min_tropical_mat_add(&x, &zero), x);
}

#[test]
fn max_matrix_multiply_identity_matrix() {
    // Multiplying by the identity matrix returns the matrix unchanged.
    let x = max_mat(vec![vec![mx(2), mx(4)], vec![mx(1), mx(0)]]);
    let id = max_mat(vec![
        vec![MaxTropical::zero(), MaxTropical::ninf()],
        vec![MaxTropical::ninf(), MaxTropical::zero()],
    ]);
    assert_eq!(max_tropical_mat_mul(&x, &id), x);
}

#[test]
fn min_matrix_multiply_identity_matrix() {
    let x = min_mat(vec![vec![mn(2), mn(4)], vec![mn(1), mn(0)]]);
    let id = min_mat(vec![
        vec![MinTropical::zero(), MinTropical::inf()],
        vec![MinTropical::inf(), MinTropical::zero()],
    ]);
    assert_eq!(min_tropical_mat_mul(&x, &id), x);
}

#[test]
fn max_matrix_addition_dimension_mismatch() {
    let x = max_mat(vec![vec![mx(1), mx(2)], vec![mx(3), mx(4)]]);
    let y = max_mat(vec![vec![mx(1), mx(2), mx(3)], vec![mx(4), mx(5), mx(6)]]);
    let e = max_tropical_mat_add_checked(&x, &y).unwrap_err();
    assert_eq!(
        e,
        DimensionMismatch { lhs_rows: 2, lhs_cols: 2, rhs_rows: 2, rhs_cols: 3 },
    );
}

#[test]
fn max_matrix_multiplication_dimension_mismatch() {
    let x = max_mat(vec![vec![mx(1), mx(2), mx(3)], vec![mx(4), mx(5), mx(6)]]);
    let y = max_mat(vec![vec![mx(1), mx(2)], vec![mx(3), mx(4)]]);
    let e = max_tropical_mat_mul_checked(&x, &y).unwrap_err();
    assert_eq!(
        e,
        DimensionMismatch { lhs_rows: 2, lhs_cols: 3, rhs_rows: 2, rhs_cols: 2 },
    );
}

#[test]
fn min_matrix_dimension_mismatch() {
    let x = min_mat(vec![vec![mn(1), mn(2)], vec![mn(3), mn(4)]]);
    let y = min_mat(vec![vec![mn(1), mn(2), mn(3)], vec![mn(4), mn(5), mn(6)]]);
    assert!(min_tropical_mat_add_checked(&x, &y).is_err());
    assert!(min_tropical_mat_mul_checked(&y, &x).is_err());
}

#[test]
fn checked_operations_agree_with_direct_ones() {
    let x = max_mat(vec![vec![mx(2), mx(4)], vec![mx(1), mx(0)]]);
    let y = max_mat(vec![vec![mx(5), MaxTropical::ninf()], vec![mx(6), mx(-3)]]);
    assert_eq!(max_tropical_mat_add_checked(&x, &y).unwrap(), max_tropical_mat_add(&x, &y));
    assert_eq!(max_tropical_mat_mul_checked(&x, &y).unwrap(), max_tropical_mat_mul(&x, &y));
    let u = min_mat(vec![vec![mn(2), mn(4)], vec![mn(1), mn(0)]]);
    let v = min_mat(vec![vec![mn(5), MinTropical::inf()], vec![mn(6), mn(-3)]]);
    assert_eq!(min_tropical_mat_add_checked(&u, &v).unwrap(), min_tropical_mat_add(&u, &v));
    assert_eq!(min_tropical_mat_mul_checked(&u, &v).unwrap(), min_tropical_mat_mul(&u, &v));
}

#[test]
fn rectangular_matrix_multiplication() {
    // A 2 x 3 by 3 x 1 product folds over the full inner dimension.
    let x = max_mat(vec![vec![mx(1), mx(2), mx(3)], vec![mx(4), mx(5), mx(6)]]);
    let y = max_mat(vec![vec![mx(10)], vec![mx(20)], vec![mx(0)]]);
    let z = max_mat(vec![vec![mx(22)], vec![mx(25)]]);
    assert_eq!(max_tropical_mat_mul(&x, &y), z);
}

#[test]
fn matrix_accessors() {
    let x = max_mat(vec![vec![mx(1), mx(2), mx(3)], vec![mx(4), mx(5), mx(6)]]);
    assert_eq!(x.nrows(), 2);
    assert_eq!(x.ncols(), 3);
    assert_eq!(x.entry(0, 0), Some(mx(1)));
    assert_eq!(x.entry(1, 2), Some(mx(6)));
    assert_eq!(x.entry(2, 0), None);
    assert_eq!(x.entry(0, 3), None);
}

#[test]
fn from_rows_refuses_ragged_input() {
    let r = MaxMatrix::from_rows(vec![vec![mx(1), mx(2)], vec![mx(3)]]);
    assert!(r.is_none());
    let r = MinMatrix::from_rows(vec![vec![mn(1)], vec![mn(2), mn(3)]]);
    assert!(r.is_none());
}

#[test]
fn from_rows_empty_matrix() {
    let m = MaxMatrix::from_rows(vec![]).unwrap();
    assert_eq!(m.nrows(), 0);
    assert_eq!(m.ncols(), 0);
    assert_eq!(m.entry(0, 0), None);
}

#[test]
fn indeterminate_entries_propagate_through_multiplication() {
    // A product of the opposite infinities inside the dot fold is
    // indeterminate and is then ignored by the running maximum.
    let x = max_mat(vec![vec![MaxTropical(Extended::PosInf), mx(0)]]);
    let y = max_mat(vec![vec![MaxTropical::ninf()], vec![mx(7)]]);
    let z = max_mat(vec![vec![mx(7)]]);
    assert_eq!(max_tropical_mat_mul(&x, &y), z);
}
