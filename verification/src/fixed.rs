//! Fixed-point numbers: the scalar that this crate supplies.

use vstd::prelude::*;
use crate::scalar::Scalar;

verus! {

/// The raw value of the number one: two to the power of thirty-two.
pub const ONE: i64 = 4294967296;

/// The raw value of the circle constant, rounded down.
pub const PI: i64 = 13493037704;

/// A signed number with thirty-two binary digits after the point.
///
/// The number that `raw` stands for is `raw / ONE`. Results that fall outside
/// the range of `raw` saturate at its ends; results that fall between two
/// raw values are rounded towards zero.
#[derive(Clone, Copy, Debug, PartialEq, Eq, Structural)]
pub struct Fixed {
    pub raw: i64,
}

impl View for Fixed {
    type V = int;

    /// The number in units of `1 / ONE`.
    open spec fn view(&self) -> int {
        self.raw as int
    }
}

/// `v`, or the end of the raw range that is nearest to it.
pub open spec fn clamp(v: int) -> i64 {
    if v > i64::MAX {
        i64::MAX
    } else if v < i64::MIN {
        i64::MIN
    } else {
        v as i64
    }
}

/// The distance of `v` from zero.
pub open spec fn magnitude(v: int) -> int {
    if v < 0 {
        -v
    } else {
        v
    }
}

/// `num / den` rounded towards zero, for a `den` other than zero.
pub open spec fn truncated(num: int, den: int) -> int {
    if (num >= 0) == (den > 0) {
        magnitude(num) / magnitude(den)
    } else {
        -(magnitude(num) / magnitude(den))
    }
}

/// Whether `r` is the square root of `v`, rounded down.
pub open spec fn is_floor_root(v: int, r: int) -> bool {
    0 <= r && r * r <= v < (r + 1) * (r + 1)
}

/// The square root of `v`, rounded down.
pub open spec fn floor_root(v: int) -> int {
    choose|r: int| is_floor_root(v, r)
}

/// The sine of `u / ONE` radians in units of `1 / ONE`, for an angle in the
/// first half turn: `0 <= u <= PI`.
///
/// This is Bhaskara's quotient, `16 w / (5 pi^2 - 4 w)` with
/// `w = u (pi - u)`, rounded down. It is exact at both ends and in the
/// middle of the half turn.
pub open spec fn half_wave(u: int) -> int {
    16 * (u * (PI - u)) * ONE / (5 * (PI * PI) - 4 * (u * (PI - u)))
}

/// The sine of `x / ONE` radians in units of `1 / ONE`.
///
/// The angle is reduced to one turn of `2 * PI`. The second half turn
/// mirrors the first, and a negative angle mirrors the positive one.
pub open spec fn sine_raw(x: int) -> int {
    let t = magnitude(x) % (2 * PI);
    let half = if t > PI {
        -half_wave(t - PI)
    } else {
        half_wave(t)
    };
    if x < 0 {
        -half
    } else {
        half
    }
}

fn exec_magnitude(v: i64) -> (m: u128)
    ensures
        m == magnitude(v as int),
        m <= 0x8000_0000_0000_0000,
{
    if v < 0 {
        (-(v as i128)) as u128
    } else {
        v as u128
    }
}

fn exec_clamp(v: i128) -> (r: i64)
    ensures
        r == clamp(v as int),
{
    if v > i64::MAX as i128 {
        i64::MAX
    } else if v < i64::MIN as i128 {
        i64::MIN
    } else {
        v as i64
    }
}

/// The raw value with magnitude `m` and the given sign, saturated.
fn exec_signed(negative: bool, m: u128) -> (r: i64)
    ensures
        r == clamp(if negative { -(m as int) } else { m as int }),
{
    if negative {
        if m >= 0x8000_0000_0000_0000 {
            i64::MIN
        } else {
            -(m as i64)
        }
    } else {
        if m > i64::MAX as u128 {
            i64::MAX
        } else {
            m as i64
        }
    }
}

fn exec_floor_root(v: u128) -> (r: u64)
    requires
        v < 0x1_0000_0000_0000_0000_0000_0000,
    ensures
        is_floor_root(v as int, r as int),
        r < 0x1_0000_0000_0000,
{
    let mut lo: u128 = 0;
    let mut hi: u128 = 0x1_0000_0000_0000;
    while hi - lo > 1
        invariant
            lo < hi <= 0x1_0000_0000_0000,
            lo * lo <= v < hi * hi,
        decreases hi - lo,
    {
        let mid = lo + (hi - lo) / 2;
        assert(mid * mid <= 0x1_0000_0000_0000 * 0x1_0000_0000_0000) by (nonlinear_arith)
            requires
                mid <= 0x1_0000_0000_0000,
        ;
        if mid * mid <= v {
            lo = mid;
        } else {
            hi = mid;
        }
    }
    lo as u64
}

impl Scalar for Fixed {
    open spec fn nil() -> Fixed {
        Fixed { raw: 0 }
    }

    open spec fn count(n: u16) -> Fixed {
        Fixed { raw: (n * ONE) as i64 }
    }

    open spec fn signed(v: isize) -> Fixed {
        Fixed { raw: clamp(v * ONE) }
    }

    open spec fn length(v: usize) -> Fixed {
        Fixed { raw: clamp(v * ONE) }
    }

    open spec fn half_turn() -> Fixed {
        Fixed { raw: PI }
    }

    open spec fn sum(self, other: Fixed) -> Fixed {
        Fixed { raw: clamp(self.raw + other.raw) }
    }

    open spec fn difference(self, other: Fixed) -> Fixed {
        Fixed { raw: clamp(self.raw - other.raw) }
    }

    open spec fn product(self, other: Fixed) -> Fixed {
        Fixed { raw: clamp(truncated(self.raw * other.raw, ONE as int)) }
    }

    /// Division by zero saturates in the direction of the dividend's sign,
    /// and gives zero for zero.
    open spec fn quotient(self, other: Fixed) -> Fixed {
        if other.raw == 0 {
            Fixed {
                raw: if self.raw > 0 {
                    i64::MAX
                } else if self.raw < 0 {
                    i64::MIN
                } else {
                    0
                },
            }
        } else {
            Fixed { raw: clamp(truncated(self.raw * ONE, other.raw as int)) }
        }
    }

    /// The root is rounded down; a negative number has the root zero.
    open spec fn root(self) -> Fixed {
        if self.raw <= 0 {
            Fixed { raw: 0 }
        } else {
            Fixed { raw: floor_root(self.raw * ONE) as i64 }
        }
    }

    open spec fn sine(self) -> Fixed {
        Fixed { raw: sine_raw(self.raw as int) as i64 }
    }

    /// Halves round away from zero; what is negative becomes zero.
    open spec fn pixel(self) -> u16 {
        if self.raw < 0 {
            0
        } else if (self.raw + ONE / 2) / (ONE as int) > u16::MAX {
            u16::MAX
        } else {
            ((self.raw + ONE / 2) / (ONE as int)) as u16
        }
    }

    fn zero() -> (r: Fixed) {
        Fixed { raw: 0 }
    }

    fn from_count(n: u16) -> (r: Fixed) {
        Fixed { raw: n as i64 * ONE }
    }

    fn from_isize(v: isize) -> (r: Fixed) {
        Fixed { raw: exec_clamp(v as i128 * (ONE as i128)) }
    }

    fn from_usize(v: usize) -> (r: Fixed) {
        assert(v * ONE <= u64::MAX * ONE) by (nonlinear_arith)
            requires
                v <= u64::MAX,
        ;
        Fixed { raw: exec_signed(false, v as u128 * (ONE as u128)) }
    }

    fn pi() -> (r: Fixed) {
        Fixed { raw: PI }
    }

    fn add(self, other: Fixed) -> (r: Fixed) {
        Fixed { raw: exec_clamp(self.raw as i128 + other.raw as i128) }
    }

    fn sub(self, other: Fixed) -> (r: Fixed) {
        Fixed { raw: exec_clamp(self.raw as i128 - other.raw as i128) }
    }

    fn mul(self, other: Fixed) -> (r: Fixed) {
        let a = exec_magnitude(self.raw);
        let b = exec_magnitude(other.raw);
        proof {
            lemma_magnitude_of_product(self.raw as int, other.raw as int);
            assert(a * b <= 0x8000_0000_0000_0000 * 0x8000_0000_0000_0000) by (nonlinear_arith)
                requires
                    a <= 0x8000_0000_0000_0000,
                    b <= 0x8000_0000_0000_0000,
            ;
        }
        let q = a * b / (ONE as u128);
        let negative = (self.raw < 0) != (other.raw < 0) && q != 0;
        proof {
            let p = self.raw * other.raw;
            assert(a * b == magnitude(p));
            assert(q == magnitude(p) / (ONE as int));
            assert(negative ==> p < 0) by {
                if negative && p >= 0 {
                    assert(p == 0);
                    assert(q == 0);
                }
            }
            assert(!negative && p < 0 ==> q == 0);
        }
        Fixed { raw: exec_signed(negative, q) }
    }

    fn div(self, other: Fixed) -> (r: Fixed) {
        if other.raw == 0 {
            let end: i64 = if self.raw > 0 {
                i64::MAX
            } else if self.raw < 0 {
                i64::MIN
            } else {
                0
            };
            return Fixed { raw: end };
        }
        let a = exec_magnitude(self.raw);
        let b = exec_magnitude(other.raw);
        proof {
            lemma_magnitude_of_product(self.raw as int, ONE as int);
        }
        let q = a * (ONE as u128) / b;
        Fixed { raw: exec_signed((self.raw < 0) != (other.raw < 0) && q != 0, q) }
    }

    fn sqrt(self) -> (r: Fixed) {
        if self.raw <= 0 {
            return Fixed { raw: 0 };
        }
        let v = self.raw as u128 * (ONE as u128);
        let root = exec_floor_root(v);
        proof {
            lemma_floor_root_unique(v as int, root as int, floor_root(v as int));
        }
        Fixed { raw: root as i64 }
    }

    fn to_pixel(self) -> (r: u16) {
        if self.raw < 0 {
            return 0;
        }
        let whole = (self.raw as u128 + (ONE as u128) / 2) / (ONE as u128);
        if whole > u16::MAX as u128 {
            u16::MAX
        } else {
            whole as u16
        }
    }

    fn sin(self) -> (r: Fixed) {
        let t = exec_magnitude(self.raw) % (2 * PI as u128);
        let past_half = t > PI as u128;
        let u = if past_half {
            t - PI as u128
        } else {
            t
        };
        proof {
            lemma_half_wave_within_unit(u as int);
        }
        let w = u * (PI as u128 - u);
        let b = 16 * w * (ONE as u128) / (5 * (PI as u128 * PI as u128) - 4 * w);
        let raw = if (self.raw < 0) != past_half {
            -(b as i64)
        } else {
            b as i64
        };
        Fixed { raw }
    }
}

/// The magnitude of a product is the product of the magnitudes, and its sign
/// is the product of the signs.
proof fn lemma_magnitude_of_product(a: int, b: int)
    ensures
        magnitude(a * b) == magnitude(a) * magnitude(b),
        a * b < 0 <==> (a < 0 && b > 0) || (a > 0 && b < 0),
        a * b == 0 <==> a == 0 || b == 0,
{
    assert(a * b == 0 <==> a == 0 || b == 0) by (nonlinear_arith);
    assert(magnitude(a * b) == magnitude(a) * magnitude(b)) by (nonlinear_arith);
    assert(a * b < 0 <==> (a < 0 && b > 0) || (a > 0 && b < 0)) by (nonlinear_arith);
}

/// A number has one rounded-down square root at most.
pub proof fn lemma_floor_root_unique(v: int, r1: int, r2: int)
    requires
        is_floor_root(v, r1),
    ensures
        is_floor_root(v, r2) ==> r1 == r2,
        floor_root(v) == r1,
{
    assert(is_floor_root(v, r2) ==> r1 == r2) by (nonlinear_arith)
        requires
            is_floor_root(v, r1),
    {
        if is_floor_root(v, r2) {
            if r1 < r2 {
                assert((r1 + 1) * (r1 + 1) <= r2 * r2);
            } else if r2 < r1 {
                assert((r2 + 1) * (r2 + 1) <= r1 * r1);
            }
        }
    }
    let r = floor_root(v);
    assert(is_floor_root(v, r));
    assert(r == r1) by (nonlinear_arith)
        requires
            is_floor_root(v, r1),
            is_floor_root(v, r),
    {
        if r1 < r {
            assert((r1 + 1) * (r1 + 1) <= r * r);
        } else if r < r1 {
            assert((r + 1) * (r + 1) <= r1 * r1);
        }
    }
}

/// On the first half turn the sine lies between zero and one.
pub proof fn lemma_half_wave_within_unit(u: int)
    requires
        0 <= u <= PI,
    ensures
        0 <= u * (PI - u) <= PI * PI,
        4 * (u * (PI - u)) <= PI * PI,
        0 <= half_wave(u) <= ONE,
{
    let w = u * (PI - u);
    assert(0 <= w <= PI * PI && 4 * w <= PI * PI) by (nonlinear_arith)
        requires
            0 <= u <= PI,
            w == u * (PI - u),
    {
        assert((PI - 2 * u) * (PI - 2 * u) >= 0);
        assert((PI - 2 * u) * (PI - 2 * u) == PI * PI - 4 * (u * (PI - u)));
    }
    let num = 16 * w * ONE;
    let den = 5 * (PI * PI) - 4 * w;
    assert(0 <= num <= ONE * den && den > 0) by (nonlinear_arith)
        requires
            0 <= w,
            4 * w <= PI * PI,
            num == 16 * w * ONE,
            den == 5 * (PI * PI) - 4 * w,
    ;
    assert(0 <= num / den <= ONE) by (nonlinear_arith)
        requires
            0 <= num <= ONE * den,
            den > 0,
    ;
}

/// The sine lies between minus one and one, and the sine of a negative
/// angle is the negative of the sine of the positive one.
pub proof fn lemma_sine_within_unit(x: int)
    ensures
        -ONE <= sine_raw(x) <= ONE,
        sine_raw(-x) == -sine_raw(x),
{
    let t = magnitude(x) % (2 * PI);
    if t > PI {
        lemma_half_wave_within_unit(t - PI);
    } else {
        lemma_half_wave_within_unit(t);
    }
    if x == 0 {
        assert(0 * (PI - 0) == 0);
        assert(half_wave(0) == 0);
        vstd::arithmetic::div_mod::lemma_small_mod(0, (2 * PI) as nat);
    }
}

} // verus!
