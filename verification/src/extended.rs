//! The extended number line that both tropical semirings are built on: a
//! finite 64-bit integer, one of the two infinities, or the indeterminate
//! value `Nan` that arises when the opposite infinities are summed.
//!
//! The operations mirror IEEE-754 arithmetic on the extended reals:
//! `max_with` and `min_with` ignore an indeterminate operand, `plus`
//! propagates it, a sum of opposite infinities is indeterminate, and a
//! finite sum that leaves the representable range becomes the infinity of
//! its sign. Equality treats `Nan` as unequal to everything, itself
//! included.

use vstd::prelude::*;

verus! {

/// A point of the extended number line.
#[derive(Clone, Copy, Debug)]
pub enum Extended {
    /// Negative infinity: below every finite value.
    NegInf,
    /// A finite value.
    Finite(i64),
    /// Positive infinity: above every finite value.
    PosInf,
    /// The indeterminate value, produced by summing opposite infinities.
    Nan,
}

/// What `==` means on `Extended`: the same point of the extended number
/// line, except that `Nan` equals nothing, itself included.
pub open spec fn spec_eq(a: Extended, b: Extended) -> bool {
    !(a is Nan) && !(b is Nan) && a == b
}

/// Whether `a` is a finite value.
pub open spec fn is_finite(a: Extended) -> bool {
    a is Finite
}

/// The finite value that `a` holds, or zero where it holds none.
pub open spec fn finite_value(a: Extended) -> int {
    match a {
        Extended::Finite(x) => x as int,
        _ => 0,
    }
}

/// The larger of two extended numbers; an indeterminate operand is ignored.
pub open spec fn spec_max(a: Extended, b: Extended) -> Extended {
    match (a, b) {
        (Extended::Nan, _) => b,
        (_, Extended::Nan) => a,
        (Extended::PosInf, _) => Extended::PosInf,
        (_, Extended::PosInf) => Extended::PosInf,
        (Extended::NegInf, _) => b,
        (_, Extended::NegInf) => a,
        (Extended::Finite(x), Extended::Finite(y)) => if x >= y { a } else { b },
    }
}

/// The smaller of two extended numbers; an indeterminate operand is ignored.
pub open spec fn spec_min(a: Extended, b: Extended) -> Extended {
    match (a, b) {
        (Extended::Nan, _) => b,
        (_, Extended::Nan) => a,
        (Extended::NegInf, _) => Extended::NegInf,
        (_, Extended::NegInf) => Extended::NegInf,
        (Extended::PosInf, _) => b,
        (_, Extended::PosInf) => a,
        (Extended::Finite(x), Extended::Finite(y)) => if x <= y { a } else { b },
    }
}

/// The finite value `v` if it is representable, else the infinity of its
/// sign.
pub open spec fn clamp_finite(v: int) -> Extended {
    if v > i64::MAX {
        Extended::PosInf
    } else if v < i64::MIN {
        Extended::NegInf
    } else {
        Extended::Finite(v as i64)
    }
}

/// The sum of two extended numbers: an indeterminate operand propagates,
/// opposite infinities are indeterminate, a like infinity absorbs, and a
/// finite sum that leaves the representable range becomes the infinity of
/// its sign.
pub open spec fn spec_sum(a: Extended, b: Extended) -> Extended {
    match (a, b) {
        (Extended::Nan, _) => Extended::Nan,
        (_, Extended::Nan) => Extended::Nan,
        (Extended::PosInf, Extended::NegInf) => Extended::Nan,
        (Extended::NegInf, Extended::PosInf) => Extended::Nan,
        (Extended::PosInf, _) => Extended::PosInf,
        (_, Extended::PosInf) => Extended::PosInf,
        (Extended::NegInf, _) => Extended::NegInf,
        (_, Extended::NegInf) => Extended::NegInf,
        (Extended::Finite(x), Extended::Finite(y)) => clamp_finite(x + y),
    }
}

impl Extended {
    /// The larger of `self` and `other`, ignoring an indeterminate operand.
    pub fn max_with(self, other: Extended) -> (r: Extended)
        ensures
            r == spec_max(self, other),
    {
        match (self, other) {
            (Extended::Nan, _) => other,
            (_, Extended::Nan) => self,
            (Extended::PosInf, _) => Extended::PosInf,
            (_, Extended::PosInf) => Extended::PosInf,
            (Extended::NegInf, _) => other,
            (_, Extended::NegInf) => self,
            (Extended::Finite(x), Extended::Finite(y)) => if x >= y {
                self
            } else {
                other
            },
        }
    }

    /// The smaller of `self` and `other`, ignoring an indeterminate operand.
    pub fn min_with(self, other: Extended) -> (r: Extended)
        ensures
            r == spec_min(self, other),
    {
        match (self, other) {
            (Extended::Nan, _) => other,
            (_, Extended::Nan) => self,
            (Extended::NegInf, _) => Extended::NegInf,
            (_, Extended::NegInf) => Extended::NegInf,
            (Extended::PosInf, _) => other,
            (_, Extended::PosInf) => self,
            (Extended::Finite(x), Extended::Finite(y)) => if x <= y {
                self
            } else {
                other
            },
        }
    }

    /// The sum of `self` and `other` on the extended number line.
    pub fn plus(self, other: Extended) -> (r: Extended)
        ensures
            r == spec_sum(self, other),
    {
        match (self, other) {
            (Extended::Nan, _) => Extended::Nan,
            (_, Extended::Nan) => Extended::Nan,
            (Extended::PosInf, Extended::NegInf) => Extended::Nan,
            (Extended::NegInf, Extended::PosInf) => Extended::Nan,
            (Extended::PosInf, _) => Extended::PosInf,
            (_, Extended::PosInf) => Extended::PosInf,
            (Extended::NegInf, _) => Extended::NegInf,
            (_, Extended::NegInf) => Extended::NegInf,
            (Extended::Finite(x), Extended::Finite(y)) => {
                let s: i128 = x as i128 + y as i128;
                if s > i64::MAX as i128 {
                    Extended::PosInf
                } else if s < i64::MIN as i128 {
                    Extended::NegInf
                } else {
                    Extended::Finite(s as i64)
                }
            },
        }
    }
}

/// The character of a single decimal digit.
pub open spec fn digit_char(d: int) -> char {
    if d == 0 {
        '0'
    } else if d == 1 {
        '1'
    } else if d == 2 {
        '2'
    } else if d == 3 {
        '3'
    } else if d == 4 {
        '4'
    } else if d == 5 {
        '5'
    } else if d == 6 {
        '6'
    } else if d == 7 {
        '7'
    } else if d == 8 {
        '8'
    } else {
        '9'
    }
}

/// The decimal digits of a nonnegative value, most significant first.
pub open spec fn dec_digits(n: nat) -> Seq<char>
    decreases n,
{
    if n < 10 {
        seq![digit_char(n as int)]
    } else {
        dec_digits(n / 10).push(digit_char((n % 10) as int))
    }
}

/// The decimal rendering of an integer: its digits, with a leading minus
/// sign when it is negative.
pub open spec fn dec_int_str(v: int) -> Seq<char> {
    if v < 0 {
        seq!['-'] + dec_digits((-v) as nat)
    } else {
        dec_digits(v as nat)
    }
}

/// The textual form of an extended number, as IEEE floating point prints:
/// decimal digits for a finite value, `inf`, `-inf`, or `NaN`.
pub open spec fn display_spec(a: Extended) -> Seq<char> {
    match a {
        Extended::NegInf => "-inf"@,
        Extended::Finite(x) => dec_int_str(x as int),
        Extended::PosInf => "inf"@,
        Extended::Nan => "NaN"@,
    }
}

/// Relies on std's integer formatting: `format!` renders an `i64` as its
/// decimal digits, with a leading minus sign when it is negative.
#[verifier::external_body]
fn i64_decimal(v: i64) -> (r: String)
    ensures
        r@ == dec_int_str(v as int),
{
    format!("{}", v)
}

impl Extended {
    /// The textual form of the number, as IEEE floating point prints:
    /// decimal digits for a finite value, `inf`, `-inf`, or `NaN`.
    pub fn display_string(self) -> (r: String)
        ensures
            r@ == display_spec(self),
    {
        match self {
            Extended::NegInf => "-inf".to_owned(),
            Extended::Finite(x) => i64_decimal(x),
            Extended::PosInf => "inf".to_owned(),
            Extended::Nan => "NaN".to_owned(),
        }
    }
}

/// How two extended numbers compare: the indeterminate value compares to
/// nothing; otherwise negative infinity lies below every other value,
/// positive infinity above, and finite values compare by value.
pub open spec fn spec_cmp(a: Extended, b: Extended) -> Option<core::cmp::Ordering> {
    match (a, b) {
        (Extended::Nan, _) => None,
        (_, Extended::Nan) => None,
        (Extended::NegInf, Extended::NegInf) => Some(core::cmp::Ordering::Equal),
        (Extended::NegInf, _) => Some(core::cmp::Ordering::Less),
        (_, Extended::NegInf) => Some(core::cmp::Ordering::Greater),
        (Extended::PosInf, Extended::PosInf) => Some(core::cmp::Ordering::Equal),
        (_, Extended::PosInf) => Some(core::cmp::Ordering::Less),
        (Extended::PosInf, _) => Some(core::cmp::Ordering::Greater),
        (Extended::Finite(x), Extended::Finite(y)) => if x < y {
            Some(core::cmp::Ordering::Less)
        } else if x == y {
            Some(core::cmp::Ordering::Equal)
        } else {
            Some(core::cmp::Ordering::Greater)
        },
    }
}

impl PartialOrd for Extended {
    fn partial_cmp(&self, other: &Extended) -> (r: Option<core::cmp::Ordering>) {
        match (self, other) {
            (Extended::Nan, _) => None,
            (_, Extended::Nan) => None,
            (Extended::NegInf, Extended::NegInf) => Some(core::cmp::Ordering::Equal),
            (Extended::NegInf, _) => Some(core::cmp::Ordering::Less),
            (_, Extended::NegInf) => Some(core::cmp::Ordering::Greater),
            (Extended::PosInf, Extended::PosInf) => Some(core::cmp::Ordering::Equal),
            (_, Extended::PosInf) => Some(core::cmp::Ordering::Less),
            (Extended::PosInf, _) => Some(core::cmp::Ordering::Greater),
            (Extended::Finite(x), Extended::Finite(y)) => if x < y {
                Some(core::cmp::Ordering::Less)
            } else if x == y {
                Some(core::cmp::Ordering::Equal)
            } else {
                Some(core::cmp::Ordering::Greater)
            },
        }
    }
}

impl vstd::std_specs::cmp::PartialOrdSpecImpl for Extended {
    open spec fn obeys_partial_cmp_spec() -> bool {
        true
    }

    open spec fn partial_cmp_spec(&self, other: &Extended) -> Option<core::cmp::Ordering> {
        spec_cmp(*self, *other)
    }
}

impl PartialEq for Extended {
    fn eq(&self, other: &Extended) -> (r: bool) {
        match (self, other) {
            (Extended::NegInf, Extended::NegInf) => true,
            (Extended::PosInf, Extended::PosInf) => true,
            (Extended::Finite(x), Extended::Finite(y)) => x == y,
            _ => false,
        }
    }
}

impl vstd::std_specs::cmp::PartialEqSpecImpl for Extended {
    open spec fn obeys_eq_spec() -> bool {
        true
    }

    open spec fn eq_spec(&self, other: &Extended) -> bool {
        spec_eq(*self, *other)
    }
}

} // verus!
