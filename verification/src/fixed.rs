//! A fixed-point scalar with sixteen fractional bits.
use crate::scalar::{strict_order, units_distinct, Scalar};
use vstd::prelude::*;

verus! {

/// The number of fractional bits.
pub const FRACTION_BITS: u32 = 16;

/// The raw value of the number one.
pub const UNIT: i64 = 65536;

/// The number `raw / 65536`. Arithmetic is exact where the result is a
/// multiple of `1 / 65536` within the range of `i64`; otherwise it rounds
/// toward zero and stops at the ends of the range.
#[derive(Clone, Copy, Debug, PartialEq, Eq, Hash)]
pub struct Fixed {
    pub raw: i64,
}

/// The value `v` where it fits in 64 bits, and the nearest end of the range
/// where it does not.
pub open spec fn saturated_spec(v: int) -> i64 {
    if v > i64::MAX {
        i64::MAX
    } else if v < i64::MIN {
        i64::MIN
    } else {
        v as i64
    }
}

/// The magnitude of `v`.
pub open spec fn magnitude_spec(v: int) -> int {
    if v < 0 {
        -v
    } else {
        v
    }
}

/// The quotient `n / d` rounded toward zero, for a divisor that is not zero.
pub open spec fn quotient_spec(n: int, d: int) -> int {
    if (n < 0) == (d < 0) {
        magnitude_spec(n) / magnitude_spec(d)
    } else {
        -(magnitude_spec(n) / magnitude_spec(d))
    }
}

/// A quotient that comes out even is the plain quotient.
pub proof fn lemma_quotient_exact(n: int, d: int, q: int)
    requires
        d > 0,
        n == d * q,
    ensures
        quotient_spec(n, d) == q,
{
    if q >= 0 {
        assert(n >= 0) by (nonlinear_arith)
            requires
                n == d * q,
                d > 0,
                q >= 0,
        ;
        assert(n / d == q) by (nonlinear_arith)
            requires
                n == d * q,
                d > 0,
        ;
    } else {
        assert(n < 0) by (nonlinear_arith)
            requires
                n == d * q,
                d > 0,
                q < 0,
        ;
        assert(-n == d * (-q)) by (nonlinear_arith)
            requires
                n == d * q,
        ;
        assert((-n) / d == -q) by (nonlinear_arith)
            requires
                -n == d * (-q),
                d > 0,
        ;
    }
}

/// A quotient rounded toward zero misses the true quotient by less than one.
pub proof fn lemma_quotient_near(n: int, d: int)
    requires
        d > 0,
    ensures
        -d < n - d * quotient_spec(n, d) < d,
        n >= 0 ==> 0 <= d * quotient_spec(n, d) <= n,
        n <= 0 ==> n <= d * quotient_spec(n, d) <= 0,
{
    if n >= 0 {
        assert(0 <= n - d * (n / d) < d && 0 <= d * (n / d)) by (nonlinear_arith)
            requires
                n >= 0,
                d > 0,
        ;
    } else {
        let m = -n;
        assert(0 <= m - d * (m / d) < d && 0 <= d * (m / d)) by (nonlinear_arith)
            requires
                m >= 0,
                d > 0,
        ;
        assert(d * (-(m / d)) == -(d * (m / d))) by (nonlinear_arith);
    }
}

/// Whether `r` is the integer square root of `n`: the largest integer whose
/// square is not above `n`.
pub open spec fn is_root_spec(n: int, r: int) -> bool {
    r >= 0 && r * r <= n < (r + 1) * (r + 1)
}

/// The integer square root of `n`.
pub open spec fn root_spec(n: int) -> int {
    choose|r: int| is_root_spec(n, r)
}

/// A number has at most one integer square root.
pub proof fn lemma_root_unique(n: int, r1: int, r2: int)
    requires
        is_root_spec(n, r1),
        is_root_spec(n, r2),
    ensures
        r1 == r2,
{
    if r1 < r2 {
        assert((r1 + 1) * (r1 + 1) <= r2 * r2) by (nonlinear_arith)
            requires
                0 <= r1 + 1 <= r2,
        ;
    }
    if r2 < r1 {
        assert((r2 + 1) * (r2 + 1) <= r1 * r1) by (nonlinear_arith)
            requires
                0 <= r2 + 1 <= r1,
        ;
    }
}

/// Brings a wide value into the range of 64 bits.
pub fn saturated(v: i128) -> (r: i64)
    ensures
        r == saturated_spec(v as int),
{
    if v > i64::MAX as i128 {
        i64::MAX
    } else if v < i64::MIN as i128 {
        i64::MIN
    } else {
        v as i64
    }
}

/// The quotient `n / d` rounded toward zero.
pub fn quotient(n: i128, d: i128) -> (r: i128)
    requires
        d != 0,
        -0x4000_0000_0000_0000_0000_0000_0000_0000 <= n <= 0x4000_0000_0000_0000_0000_0000_0000_0000,
        -0x4000_0000_0000_0000_0000_0000_0000_0000 <= d <= 0x4000_0000_0000_0000_0000_0000_0000_0000,
    ensures
        r == quotient_spec(n as int, d as int),
{
    let top: u128 = if n < 0 {
        (-n) as u128
    } else {
        n as u128
    };
    let bottom: u128 = if d < 0 {
        (-d) as u128
    } else {
        d as u128
    };
    let q: u128 = top / bottom;
    assert(q <= top) by (nonlinear_arith)
        requires
            q == top / bottom,
            bottom >= 1,
    ;
    if (n < 0) == (d < 0) {
        q as i128
    } else {
        -(q as i128)
    }
}

/// The integer square root of `n`.
pub fn root(n: u128) -> (r: u64)
    requires
        n < 0x1_0000_0000_0000_0000_0000,
    ensures
        is_root_spec(n as int, r as int),
        r == root_spec(n as int),
        r < 0x100_0000_0000,
{
    let mut low: u64 = 0;
    let mut high: u64 = 0x100_0000_0000;
    assert(0x100_0000_0000 * 0x100_0000_0000 == 0x1_0000_0000_0000_0000_0000) by (nonlinear_arith);
    while high - low > 1
        invariant
            low < high <= 0x100_0000_0000,
            low * low <= n < high * high,
        decreases high - low,
    {
        let middle: u64 = low + (high - low) / 2;
        assert(middle * middle <= 0x100_0000_0000 * 0x100_0000_0000) by (nonlinear_arith)
            requires
                0 <= middle <= 0x100_0000_0000,
        ;
        let square: u128 = (middle as u128) * (middle as u128);
        if square <= n {
            low = middle;
        } else {
            high = middle;
        }
    }
    proof {
        assert(is_root_spec(n as int, low as int));
        lemma_root_unique(n as int, low as int, root_spec(n as int));
    }
    low
}

impl Fixed {
    /// The number with the given raw value.
    pub fn from_raw(raw: i64) -> (r: Self)
        ensures
            r == (Fixed { raw }),
    {
        Fixed { raw }
    }

    /// The raw value: the number times 65536.
    pub fn raw(self) -> (r: i64)
        ensures
            r == self.raw,
    {
        self.raw
    }
}

/// The tolerance is the smallest positive number, `1 / 65536`: one
/// hundred-thousandth lies below it and would round to zero.
/// Sums, differences, products and quotients stop at the ends of the range;
/// products and quotients round toward zero. A quotient by zero is the end
/// of the range on the side of the dividend, and zero for zero by zero. The
/// square root of a number that is not positive is zero; that of a positive
/// number is rounded down.
impl Scalar for Fixed {
    open spec fn from_int_spec(n: int) -> Self {
        Fixed { raw: saturated_spec(n * UNIT) }
    }

    open spec fn max_value_spec() -> Self {
        Fixed { raw: i64::MAX }
    }

    open spec fn epsilon_spec() -> Self {
        Fixed { raw: 1 }
    }

    open spec fn add_spec(self, rhs: Self) -> Self {
        Fixed { raw: saturated_spec(self.raw + rhs.raw) }
    }

    open spec fn sub_spec(self, rhs: Self) -> Self {
        Fixed { raw: saturated_spec(self.raw - rhs.raw) }
    }

    open spec fn mul_spec(self, rhs: Self) -> Self {
        Fixed { raw: saturated_spec(quotient_spec(self.raw * rhs.raw, UNIT as int)) }
    }

    open spec fn div_spec(self, rhs: Self) -> Self {
        if rhs.raw == 0 {
            Fixed {
                raw: if self.raw > 0 {
                    i64::MAX
                } else if self.raw < 0 {
                    i64::MIN
                } else {
                    0
                },
            }
        } else {
            Fixed { raw: saturated_spec(quotient_spec(self.raw * UNIT, rhs.raw as int)) }
        }
    }

    open spec fn neg_spec(self) -> Self {
        Fixed { raw: saturated_spec(-self.raw) }
    }

    open spec fn abs_spec(self) -> Self {
        Fixed { raw: saturated_spec(magnitude_spec(self.raw as int)) }
    }

    open spec fn sqrt_spec(self) -> Self {
        if self.raw <= 0 {
            Fixed { raw: 0 }
        } else {
            Fixed { raw: root_spec(self.raw * UNIT) as i64 }
        }
    }

    open spec fn lt_spec(self, rhs: Self) -> bool {
        self.raw < rhs.raw
    }

    open spec fn le_spec(self, rhs: Self) -> bool {
        self.raw <= rhs.raw
    }

    open spec fn eq_spec(self, rhs: Self) -> bool {
        self.raw == rhs.raw
    }

    fn from_int(n: i32) -> (r: Self) {
        Fixed { raw: saturated((n as i128) * 65536) }
    }

    fn max_value() -> (r: Self) {
        Fixed { raw: i64::MAX }
    }

    fn epsilon() -> (r: Self) {
        Fixed { raw: 1 }
    }

    fn add(self, rhs: Self) -> (r: Self) {
        Fixed { raw: saturated(self.raw as i128 + rhs.raw as i128) }
    }

    fn sub(self, rhs: Self) -> (r: Self) {
        Fixed { raw: saturated(self.raw as i128 - rhs.raw as i128) }
    }

    fn mul(self, rhs: Self) -> (r: Self) {
        assert(-0x4000_0000_0000_0000_0000_0000_0000_0000 <= self.raw * rhs.raw
            <= 0x4000_0000_0000_0000_0000_0000_0000_0000) by (nonlinear_arith)
            requires
                -0x8000_0000_0000_0000 <= self.raw <= 0x7fff_ffff_ffff_ffff,
                -0x8000_0000_0000_0000 <= rhs.raw <= 0x7fff_ffff_ffff_ffff,
        ;
        Fixed { raw: saturated(quotient((self.raw as i128) * (rhs.raw as i128), 65536)) }
    }

    fn div(self, rhs: Self) -> (r: Self) {
        if rhs.raw == 0 {
            if self.raw > 0 {
                Fixed { raw: i64::MAX }
            } else if self.raw < 0 {
                Fixed { raw: i64::MIN }
            } else {
                Fixed { raw: 0 }
            }
        } else {
            Fixed { raw: saturated(quotient((self.raw as i128) * 65536, rhs.raw as i128)) }
        }
    }

    fn neg(self) -> (r: Self) {
        Fixed { raw: saturated(-(self.raw as i128)) }
    }

    fn abs(self) -> (r: Self) {
        if self.raw < 0 {
            Fixed { raw: saturated(-(self.raw as i128)) }
        } else {
            Fixed { raw: self.raw }
        }
    }

    fn sqrt(self) -> (r: Self) {
        if self.raw <= 0 {
            Fixed { raw: 0 }
        } else {
            Fixed { raw: root((self.raw as u128) * 65536) as i64 }
        }
    }

    fn lt(self, rhs: Self) -> (r: bool) {
        self.raw < rhs.raw
    }

    fn le(self, rhs: Self) -> (r: bool) {
        self.raw <= rhs.raw
    }

    fn eq(self, rhs: Self) -> (r: bool) {
        self.raw == rhs.raw
    }
}

/// The order of fixed-point numbers is a strict order, and zero and one
/// differ.
pub proof fn lemma_fixed_is_ordered()
    ensures
        strict_order::<Fixed>(),
        units_distinct::<Fixed>(),
{
}

/// Two fixed-point numbers are approximately equal where their raw values
/// differ by one at most. The tolerance is positive.
pub proof fn lemma_fixed_tolerance(a: Fixed, b: Fixed)
    ensures
        crate::scalar::approx_eq_spec(a, b) <==> -1 <= b.raw - a.raw <= 1,
        Fixed::from_int_spec(0).lt_spec(Fixed::epsilon_spec()),
{
}

/// Every number that is not negative has an integer square root.
pub proof fn lemma_root_exists(n: int)
    requires
        n >= 0,
    ensures
        is_root_spec(n, root_spec(n)),
    decreases n,
{
    if n == 0 {
        assert(is_root_spec(0, 0));
    } else {
        lemma_root_exists(n - 1);
        let r = root_spec(n - 1);
        if (r + 1) * (r + 1) <= n {
            assert((r + 2) * (r + 2) > (r + 1) * (r + 1)) by (nonlinear_arith)
                requires
                    r >= 0,
            ;
            assert(is_root_spec(n, r + 1));
        } else {
            assert(is_root_spec(n, r));
        }
    }
}

/// A quotient rounded toward zero misses the true quotient by less than
/// one, whatever the sign of the divisor.
pub proof fn lemma_quotient_near_signed(n: int, d: int)
    requires
        d != 0,
    ensures
        -magnitude_spec(d) < n - d * quotient_spec(n, d) < magnitude_spec(d),
        -magnitude_spec(n) <= d * quotient_spec(n, d) <= magnitude_spec(n),
{
    if d > 0 {
        lemma_quotient_near(n, d);
    } else {
        lemma_quotient_near(-n, -d);
        assert(quotient_spec(n, d) == quotient_spec(-n, -d));
        let q = quotient_spec(n, d);
        assert((-d) * q == -(d * q)) by (nonlinear_arith);
    }
}

} // verus!
