use tropical::Extended;
use tropical::MaxTropical;
use tropical::MinTropical;

fn mx(v: i64) -> MaxTropical {
    MaxTropical(Extended::Finite(v))
}

fn mn(v: i64) -> MinTropical {
    MinTropical(Extended::Finite(v))
}

#[test]
fn max_addition() {
    let x = mx(5);
    let y = mx(1);
    assert_eq!(x.add(y), mx(5));
}

#[test]
fn max_addition_assign() {
    let mut x = mx(5);
    x.add_assign(mx(1));
    assert_eq!(x, mx(5));
}

#[test]
fn max_multiplication() {
    let x = mx(5);
    let y = mx(1);
    assert_eq!(x.multiply(y), mx(6));
}

#[test]
fn max_multiplication_assign() {
    let mut x = mx(5);
    x.multiply_assign(mx(1));
    assert_eq!(x, mx(6));
}

#[test]
fn max_identity_addition() {
    let ninf = MaxTropical::ninf();
    let x = mx(5);
    assert_eq!(x.add(ninf), mx(5));
}

#[test]
fn max_identity_multiplication() {
    let zero = mx(0);
    let x = mx(5);
    assert_eq!(x.multiply(zero), mx(5));
}

#[test]
fn min_addition() {
    let x = mn(5);
    let y = mn(1);
    assert_eq!(x.add(y), mn(1));
}

#[test]
fn min_addition_assign() {
    let mut x = mn(5);
    x.add_assign(mn(1));
    assert_eq!(x, mn(1));
}

#[test]
fn min_multiplication() {
    let x = mn(5);
    let y = mn(1);
    assert_eq!(x.multiply(y), mn(6));
}

#[test]
fn min_multiplication_assign() {
    let mut x = mn(5);
    x.multiply_assign(mn(1));
    assert_eq!(x, mn(6));
}

#[test]
fn min_identity_addition() {
    let inf = MinTropical::inf();
    let x = mn(5);
    assert_eq!(x.add(inf), mn(5));
}

#[test]
fn min_identity_multiplication() {
    let zero = mn(0);
    let x = mn(5);
    assert_eq!(x.multiply(zero), mn(5));
}

#[test]
fn max_addition_commutative() {
    assert_eq!(mx(3).add(mx(-7)), mx(-7).add(mx(3)));
    assert_eq!(mx(3).multiply(mx(-7)), mx(-7).multiply(mx(3)));
}

#[test]
fn min_addition_commutative() {
    assert_eq!(mn(3).add(mn(-7)), mn(-7).add(mn(3)));
    assert_eq!(mn(3).multiply(mn(-7)), mn(-7).multiply(mn(3)));
}

#[test]
fn max_associative() {
    let (a, b, c) = (mx(2), mx(-4), mx(9));
    assert_eq!(a.add(b).add(c), a.add(b.add(c)));
    assert_eq!(a.multiply(b).multiply(c), a.multiply(b.multiply(c)));
}

#[test]
fn min_associative() {
    let (a, b, c) = (mn(2), mn(-4), mn(9));
    assert_eq!(a.add(b).add(c), a.add(b.add(c)));
    assert_eq!(a.multiply(b).multiply(c), a.multiply(b.multiply(c)));
}

#[test]
fn max_distributive() {
    let (a, b, c) = (mx(2), mx(-4), mx(9));
    assert_eq!(a.multiply(b.add(c)), a.multiply(b).add(a.multiply(c)));
}

#[test]
fn min_distributive() {
    let (a, b, c) = (mn(2), mn(-4), mn(9));
    assert_eq!(a.multiply(b.add(c)), a.multiply(b).add(a.multiply(c)));
}

#[test]
fn max_identity_constants() {
    assert_eq!(MaxTropical::ninf(), MaxTropical(Extended::NegInf));
    assert_eq!(MaxTropical::zero(), mx(0));
}

#[test]
fn min_identity_constants() {
    assert_eq!(MinTropical::inf(), MinTropical(Extended::PosInf));
    assert_eq!(MinTropical::zero(), mn(0));
}

#[test]
fn opposite_infinities_multiply_to_indeterminate() {
    // The product of the opposite infinities is the indeterminate value,
    // which equals nothing, itself included.
    let p = MaxTropical(Extended::NegInf).multiply(MaxTropical(Extended::PosInf));
    assert!(matches!(p.0, Extended::Nan));
    assert_ne!(p, p);
    let q = MinTropical(Extended::PosInf).multiply(MinTropical(Extended::NegInf));
    assert!(matches!(q.0, Extended::Nan));
    assert_ne!(q, q);
}

#[test]
fn addition_ignores_indeterminate() {
    let nan = MaxTropical(Extended::Nan);
    assert_eq!(nan.add(mx(5)), mx(5));
    assert_eq!(mx(5).add(nan), mx(5));
    let nan = MinTropical(Extended::Nan);
    assert_eq!(nan.add(mn(5)), mn(5));
    assert_eq!(mn(5).add(nan), mn(5));
}

#[test]
fn multiplication_propagates_indeterminate() {
    let p = MaxTropical(Extended::Nan).multiply(mx(5));
    assert!(matches!(p.0, Extended::Nan));
    let q = mn(5).multiply(MinTropical(Extended::Nan));
    assert!(matches!(q.0, Extended::Nan));
}

#[test]
fn finite_overflow_becomes_infinity() {
    let big = mx(i64::MAX);
    assert_eq!(big.multiply(mx(1)), MaxTropical(Extended::PosInf));
    let low = mn(i64::MIN);
    assert_eq!(low.multiply(mn(-1)), MinTropical(Extended::NegInf));
}

#[test]
fn extended_operations() {
    assert_eq!(Extended::Finite(3).max_with(Extended::Finite(8)), Extended::Finite(8));
    assert_eq!(Extended::Finite(3).min_with(Extended::Finite(8)), Extended::Finite(3));
    assert_eq!(Extended::Finite(3).plus(Extended::Finite(8)), Extended::Finite(11));
    assert_eq!(Extended::NegInf.max_with(Extended::Finite(8)), Extended::Finite(8));
    assert_eq!(Extended::PosInf.min_with(Extended::Finite(8)), Extended::Finite(8));
    assert_eq!(Extended::PosInf.plus(Extended::Finite(8)), Extended::PosInf);
}

#[test]
fn display_strings() {
    assert_eq!(mx(5).display_string(), "5");
    assert_eq!(mx(-37).display_string(), "-37");
    assert_eq!(mx(0).display_string(), "0");
    assert_eq!(MaxTropical::ninf().display_string(), "-inf");
    assert_eq!(MinTropical::inf().display_string(), "inf");
    assert_eq!(MaxTropical(Extended::Nan).display_string(), "NaN");
    assert_eq!(mn(1234567).display_string(), "1234567");
}

#[test]
fn ordering_follows_the_extended_number_line() {
    assert!(mx(1) < mx(5));
    assert!(MaxTropical::ninf() < mx(0));
    assert!(mx(0) < MaxTropical(Extended::PosInf));
    assert!(mn(5) > mn(1));
    let nan = MaxTropical(Extended::Nan);
    assert!(!(nan < mx(0)));
    assert!(!(nan >= mx(0)));
    assert_eq!(nan.partial_cmp(&nan), None);
    assert_eq!(
        mx(3).partial_cmp(&mx(3)),
        Some(std::cmp::Ordering::Equal),
    );
}
