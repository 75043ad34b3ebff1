//! The language's fractional numbers, held exactly as a whole count of
//! millionths. Sums and differences are exact; products and quotients are
//! cut toward zero to six fractional digits; a result whose units leave the
//! range of `i64` is an overflow, which the operators report.
use vstd::prelude::*;
use crate::text::{fixed_digits, nat_text, push_char, push_fixed_digits, push_nat};

verus! {

/// The number of units in one: a `Decimal` has six fractional digits.
pub const SCALE: i64 = 1000000;

/// The number of fractional digits that a `Decimal` holds.
pub const FRACTION_DIGITS: u64 = 6;

/// A fractional number: `units` millionths.
#[derive(Clone, Copy, Debug, PartialEq, Eq, Structural)]
pub struct Decimal {
    pub units: i64,
}

pub open spec fn fits_i64(x: int) -> bool {
    i64::MIN <= x <= i64::MAX
}

pub open spec fn abs(x: int) -> nat {
    if x < 0 { (-x) as nat } else { x as nat }
}

/// Division that rounds toward zero.
pub open spec fn trunc_div(a: int, b: int) -> int {
    if (a < 0) != (b < 0) {
        -((abs(a) / abs(b)) as int)
    } else {
        (abs(a) / abs(b)) as int
    }
}

/// The units of the product of two decimals, cut to six digits.
pub open spec fn mul_units(a: int, b: int) -> int {
    trunc_div(a * b, SCALE as int)
}

/// The units of the quotient of two decimals, cut to six digits.
pub open spec fn div_units(a: int, b: int) -> int {
    trunc_div(a * SCALE, b)
}

/// Drops trailing zero digits from the `k` fractional digits `f`.
pub open spec fn trim_fraction(f: nat, k: nat) -> (nat, nat)
    decreases k,
{
    if k > 0 && f % 10 == 0 {
        trim_fraction(f / 10, (k - 1) as nat)
    } else {
        (f, k)
    }
}

/// The text of a decimal: its whole part, then `.` and the fractional digits
/// without trailing zeros when there are any.
pub open spec fn decimal_text(units: int) -> Seq<char> {
    let m = abs(units);
    let sign = if units < 0 { seq!['-'] } else { Seq::<char>::empty() };
    let whole = nat_text(m / (SCALE as nat));
    let frac = m % (SCALE as nat);
    if frac == 0 {
        sign + whole
    } else {
        let t = trim_fraction(frac, FRACTION_DIGITS as nat);
        sign + whole + seq!['.'] + fixed_digits(t.0, t.1)
    }
}

/// Divides, rounding toward zero.
pub fn trunc_div_i128(a: i128, b: i128) -> (q: i128)
    requires
        b != 0,
        i128::MIN < a,
        i128::MIN < b,
    ensures
        q == trunc_div(a as int, b as int),
{
    let ua: u128 = if a < 0 { (-a) as u128 } else { a as u128 };
    let ub: u128 = if b < 0 { (-b) as u128 } else { b as u128 };
    let m: u128 = ua / ub;
    assert(m <= ua) by (nonlinear_arith)
        requires m == ua / ub, ub > 0;
    if (a < 0) != (b < 0) {
        -(m as i128)
    } else {
        m as i128
    }
}

impl Decimal {
    /// The decimal equal to an integer.
    pub fn from_int(n: i32) -> (r: Decimal)
        ensures
            r.units == n as int * SCALE as int,
    {
        Decimal { units: n as i64 * SCALE }
    }

    pub fn is_zero(&self) -> (r: bool)
        ensures
            r == (self.units == 0),
    {
        self.units == 0
    }

    /// The sum, or `None` when it does not fit.
    pub fn checked_add(&self, o: &Decimal) -> (r: Option<Decimal>)
        ensures
            r == (if fits_i64(self.units + o.units) {
                Some(Decimal { units: (self.units + o.units) as i64 })
            } else {
                None::<Decimal>
            }),
    {
        match self.units.checked_add(o.units) {
            Some(u) => Some(Decimal { units: u }),
            None => None,
        }
    }

    /// The difference, or `None` when it does not fit.
    pub fn checked_sub(&self, o: &Decimal) -> (r: Option<Decimal>)
        ensures
            r == (if fits_i64(self.units - o.units) {
                Some(Decimal { units: (self.units - o.units) as i64 })
            } else {
                None::<Decimal>
            }),
    {
        match self.units.checked_sub(o.units) {
            Some(u) => Some(Decimal { units: u }),
            None => None,
        }
    }

    /// The product cut to six digits, or `None` when it does not fit.
    pub fn checked_mul(&self, o: &Decimal) -> (r: Option<Decimal>)
        ensures
            r == (if fits_i64(mul_units(self.units as int, o.units as int)) {
                Some(Decimal { units: mul_units(self.units as int, o.units as int) as i64 })
            } else {
                None::<Decimal>
            }),
    {
        let a = self.units as i128;
        let b = o.units as i128;
        assert(-0x8000_0000_0000_0000_0000_0000_0000_0000 < a * b < 0x8000_0000_0000_0000_0000_0000_0000_0000) by (nonlinear_arith)
            requires -0x8000_0000_0000_0000 <= a <= 0x7fff_ffff_ffff_ffff, -0x8000_0000_0000_0000 <= b <= 0x7fff_ffff_ffff_ffff;
        let q = trunc_div_i128(a * b, SCALE as i128);
        if q < i64::MIN as i128 || q > i64::MAX as i128 {
            None
        } else {
            Some(Decimal { units: q as i64 })
        }
    }

    /// The quotient cut to six digits, or `None` when `o` is zero or the
    /// quotient does not fit.
    pub fn checked_div(&self, o: &Decimal) -> (r: Option<Decimal>)
        ensures
            r == (if o.units != 0 && fits_i64(div_units(self.units as int, o.units as int)) {
                Some(Decimal { units: div_units(self.units as int, o.units as int) as i64 })
            } else {
                None::<Decimal>
            }),
    {
        if o.units == 0 {
            return None;
        }
        let a = self.units as i128;
        assert(-0x8000_0000_0000_0000_0000_0000_0000 < a * 1000000 < 0x8000_0000_0000_0000_0000_0000_0000) by (nonlinear_arith)
            requires -0x8000_0000_0000_0000 <= a <= 0x7fff_ffff_ffff_ffff;
        let q = trunc_div_i128(a * SCALE as i128, o.units as i128);
        if q < i64::MIN as i128 || q > i64::MAX as i128 {
            None
        } else {
            Some(Decimal { units: q as i64 })
        }
    }

    /// The text of the number.
    pub fn to_string(&self) -> (r: String)
        ensures
            r@ == decimal_text(self.units as int),
    {
        let mut s = String::new();
        let neg = self.units < 0;
        let m: u64 = if neg { (-(self.units as i128)) as u64 } else { self.units as u64 };
        if neg {
            push_char(&mut s, '-');
        }
        let sc = SCALE as u64;
        push_nat(&mut s, m / sc);
        let mut f: u64 = m % sc;
        if f != 0 {
            push_char(&mut s, '.');
            let mut k: u64 = FRACTION_DIGITS;
            while k > 0 && f % 10 == 0
                invariant
                    trim_fraction(f as nat, k as nat) == trim_fraction((m % sc) as nat, FRACTION_DIGITS as nat),
                    k <= FRACTION_DIGITS,
                decreases k,
            {
                f = f / 10;
                k = k - 1;
            }
            push_fixed_digits(&mut s, f, k);
        }
        proof {
            assert(s@ =~= decimal_text(self.units as int));
        }
        s
    }
}

} // verus!
