//! The numeric value domain: signed 32-bit fixed-point numbers with 16
//! fractional bits.
//!
//! A [`CellData`] is its raw bit pattern. The arithmetic itself is done by the
//! `fixed` crate; every call into it is a small function of this module whose
//! contract states, over the raw bits, what the call returns.

use vstd::prelude::*;

verus! {

/// Number of fractional bits.
pub const FRAC_BITS: u32 = 16;

/// The raw value of 1.0.
pub const ONE_BITS: i32 = 0x1_0000;

/// The raw value of -1.0.
pub const MINUS_ONE_BITS: i32 = -0x1_0000;

/// The raw value of 2.0.
pub const TWO_BITS: i32 = 0x2_0000;

/// The raw value of 2π, rounded to the nearest representable number.
pub const PI2_BITS: i32 = 411775;

/// Largest integer that has a fixed-point representation.
pub const INT_MAX: i32 = 32767;

/// Smallest integer that has a fixed-point representation.
pub const INT_MIN: i32 = -32768;

/// The integer `x` reduced into the range of `i32` modulo 2^32.
pub open spec fn wrap_i32(x: int) -> i32 {
    let m = x % 0x1_0000_0000;
    if m >= 0x8000_0000 {
        (m - 0x1_0000_0000) as i32
    } else {
        m as i32
    }
}

/// Quotient of `x` by `y`, rounded towards zero. `y` is not zero.
pub open spec fn trunc_div(x: int, y: int) -> int
    recommends
        y != 0,
{
    if x >= 0 {
        if y > 0 {
            x / y
        } else {
            -(x / (-y))
        }
    } else {
        if y > 0 {
            -((-x) / y)
        } else {
            (-x) / (-y)
        }
    }
}

/// Remainder of `x` by `y` that goes with [`trunc_div`]: it has the sign of `x`.
pub open spec fn trunc_rem(x: int, y: int) -> int
    recommends
        y != 0,
{
    x - y * trunc_div(x, y)
}

/// Raw bits of the wrapping sum.
pub open spec fn add_bits(a: i32, b: i32) -> i32 {
    wrap_i32(a as int + b as int)
}

/// Raw bits of the wrapping difference.
pub open spec fn sub_bits(a: i32, b: i32) -> i32 {
    wrap_i32(a as int - b as int)
}

/// Raw bits of the wrapping product: the exact product, rounded down to a
/// multiple of 2^-16, then wrapped.
pub open spec fn mul_bits(a: i32, b: i32) -> i32 {
    wrap_i32((a as int * b as int) / 0x1_0000)
}

/// Raw bits of the quotient, rounded towards zero and then wrapped. The
/// divisor is not zero.
pub open spec fn div_bits(a: i32, b: i32) -> i32
    recommends
        b != 0,
{
    wrap_i32(trunc_div(a as int * 0x1_0000, b as int))
}

/// Raw bits of the remainder, with the sign of the dividend; `None` where the
/// divisor is zero.
pub open spec fn rem_bits(a: i32, b: i32) -> Option<i32> {
    if b == 0 {
        None
    } else {
        Some(trunc_rem(a as int, b as int) as i32)
    }
}

/// Raw bits of the absolute value; the minimum stays what it is.
pub open spec fn abs_bits(a: i32) -> i32 {
    if a == i32::MIN {
        a
    } else if a < 0 {
        (-a) as i32
    } else {
        a
    }
}

/// Raw bits of the fractional part: the low 16 bits.
pub open spec fn frac_bits(a: i32) -> i32 {
    a & 0xffff
}

/// Raw bits of the integer `n`, where it is representable.
pub open spec fn int_bits(n: i32) -> Option<i32> {
    if INT_MIN <= n <= INT_MAX {
        Some((n as int * 0x1_0000) as i32)
    } else {
        None
    }
}

/// The integer part, rounded towards negative infinity.
pub open spec fn floor_bits(a: i32) -> i32 {
    (a as int / 0x1_0000) as i32
}

/// Raw bits of the sine that the `cordic` crate computes for the angle with
/// raw bits `a`, in radians.
pub uninterp spec fn cordic_sin_bits(a: i32) -> i32;

/// `fixed::FixedI32::<U16>::checked_from_num` on an `i32`: the number with
/// that integer value, or `None` when the integer is outside -32768..=32767.
#[verifier::external_body]
fn fixed_from_int(n: i32) -> (r: Option<i32>)
    ensures
        r == int_bits(n),
{
    fixed::FixedI32::<fixed::types::extra::U16>::checked_from_num(n).map(|f| f.to_bits())
}

/// `fixed::FixedI32::<U16>::to_num::<i32>`: the fractional bits are dropped,
/// which rounds towards negative infinity.
#[verifier::external_body]
fn fixed_to_int(a: i32) -> (r: i32)
    ensures
        r == floor_bits(a),
{
    fixed::FixedI32::<fixed::types::extra::U16>::from_bits(a).to_num::<i32>()
}

/// `fixed::FixedI32::<U16>::wrapping_add`: the sum of the raw bits, wrapped.
#[verifier::external_body]
fn fixed_add(a: i32, b: i32) -> (r: i32)
    ensures
        r == add_bits(a, b),
{
    let x = fixed::FixedI32::<fixed::types::extra::U16>::from_bits(a);
    let y = fixed::FixedI32::<fixed::types::extra::U16>::from_bits(b);
    x.wrapping_add(y).to_bits()
}

/// `fixed::FixedI32::<U16>::wrapping_sub`: the difference of the raw bits,
/// wrapped.
#[verifier::external_body]
fn fixed_sub(a: i32, b: i32) -> (r: i32)
    ensures
        r == sub_bits(a, b),
{
    let x = fixed::FixedI32::<fixed::types::extra::U16>::from_bits(a);
    let y = fixed::FixedI32::<fixed::types::extra::U16>::from_bits(b);
    x.wrapping_sub(y).to_bits()
}

/// `fixed::FixedI32::<U16>::wrapping_mul`: the product of the raw bits is
/// taken in 64 bits and shifted right by 16, keeping the low 32 bits.
#[verifier::external_body]
fn fixed_mul(a: i32, b: i32) -> (r: i32)
    ensures
        r == mul_bits(a, b),
{
    let x = fixed::FixedI32::<fixed::types::extra::U16>::from_bits(a);
    let y = fixed::FixedI32::<fixed::types::extra::U16>::from_bits(b);
    x.wrapping_mul(y).to_bits()
}

/// `fixed::FixedI32::<U16>::wrapping_div`, which panics on a zero divisor:
/// the dividend's bits shifted left by 16 are divided in 64 bits by the
/// divisor's bits, rounding towards zero, and the low 32 bits are kept.
#[verifier::external_body]
fn fixed_div(a: i32, b: i32) -> (r: i32)
    requires
        b != 0,
    ensures
        r == div_bits(a, b),
{
    let x = fixed::FixedI32::<fixed::types::extra::U16>::from_bits(a);
    let y = fixed::FixedI32::<fixed::types::extra::U16>::from_bits(b);
    x.wrapping_div(y).to_bits()
}

/// `fixed::FixedI32::<U16>::checked_rem`: `None` for a zero divisor; else the
/// remainder of the raw bits, with the sign of the dividend.
#[verifier::external_body]
fn fixed_rem(a: i32, b: i32) -> (r: Option<i32>)
    ensures
        r == rem_bits(a, b),
{
    let x = fixed::FixedI32::<fixed::types::extra::U16>::from_bits(a);
    let y = fixed::FixedI32::<fixed::types::extra::U16>::from_bits(b);
    x.checked_rem(y).map(|f| f.to_bits())
}

/// `fixed::FixedI32::<U16>::wrapping_abs`: the absolute value of the raw
/// bits, where the minimum wraps to itself.
#[verifier::external_body]
fn fixed_abs(a: i32) -> (r: i32)
    ensures
        r == abs_bits(a),
{
    fixed::FixedI32::<fixed::types::extra::U16>::from_bits(a).wrapping_abs().to_bits()
}

/// `fixed::FixedI32::<U16>::frac`: the raw bits masked to the 16 fractional
/// bits.
#[verifier::external_body]
fn fixed_frac(a: i32) -> (r: i32)
    ensures
        r == frac_bits(a),
{
    fixed::FixedI32::<fixed::types::extra::U16>::from_bits(a).frac().to_bits()
}

/// `cordic::sin` on a `FixedI32<U16>`: the result is a function of the angle
/// alone, and is given the name [`cordic_sin_bits`].
#[verifier::external_body]
fn cordic_sin(a: i32) -> (r: i32)
    ensures
        r == cordic_sin_bits(a),
{
    cordic::sin(fixed::FixedI32::<fixed::types::extra::U16>::from_bits(a)).to_bits()
}

/// A fixed-point number, held as its raw bits.
#[derive(Clone, Copy, Debug, PartialEq, Eq, Structural)]
pub struct CellData {
    pub bits: i32,
}

impl CellData {
    /// The number with the given raw bits.
    pub fn from_bits(bits: i32) -> (r: CellData)
        ensures
            r.bits == bits,
    {
        CellData { bits }
    }

    /// The raw bits.
    pub fn to_bits(self) -> (r: i32)
        ensures
            r == self.bits,
    {
        self.bits
    }

    /// The largest number.
    pub fn max_value() -> (r: CellData)
        ensures
            r.bits == i32::MAX,
    {
        CellData { bits: i32::MAX }
    }

    /// Zero.
    pub fn zero() -> (r: CellData)
        ensures
            r.bits == 0,
    {
        CellData { bits: 0 }
    }

    /// One.
    pub fn one() -> (r: CellData)
        ensures
            r.bits == ONE_BITS,
    {
        CellData { bits: ONE_BITS }
    }

    /// The number with integer value `n`, or `None` when `n` is outside
    /// -32768..=32767.
    pub fn checked_from_num(n: i32) -> (r: Option<CellData>)
        ensures
            r == match int_bits(n) {
                Some(b) => Some(CellData { bits: b }),
                None => None,
            },
    {
        match fixed_from_int(n) {
            Some(bits) => Some(CellData { bits }),
            None => None,
        }
    }

    /// The number with integer value `n`.
    pub fn from_num(n: i32) -> (r: CellData)
        requires
            INT_MIN <= n <= INT_MAX,
        ensures
            Some(r.bits) == int_bits(n),
    {
        match fixed_from_int(n) {
            Some(bits) => CellData { bits },
            None => CellData { bits: 0 },
        }
    }

    /// 1 for `true`, 0 for `false`.
    pub fn from_bool(b: bool) -> (r: CellData)
        ensures
            r.bits == if b { ONE_BITS } else { 0 },
    {
        if b {
            CellData { bits: ONE_BITS }
        } else {
            CellData { bits: 0 }
        }
    }

    /// The integer part, rounded towards negative infinity.
    pub fn to_num(self) -> (r: i32)
        ensures
            r == floor_bits(self.bits),
    {
        fixed_to_int(self.bits)
    }

    /// Sum, wrapping on overflow.
    pub fn wrapping_add(self, rhs: CellData) -> (r: CellData)
        ensures
            r.bits == add_bits(self.bits, rhs.bits),
    {
        CellData { bits: fixed_add(self.bits, rhs.bits) }
    }

    /// Difference, wrapping on overflow.
    pub fn wrapping_sub(self, rhs: CellData) -> (r: CellData)
        ensures
            r.bits == sub_bits(self.bits, rhs.bits),
    {
        CellData { bits: fixed_sub(self.bits, rhs.bits) }
    }

    /// Product, wrapping on overflow.
    pub fn wrapping_mul(self, rhs: CellData) -> (r: CellData)
        ensures
            r.bits == mul_bits(self.bits, rhs.bits),
    {
        CellData { bits: fixed_mul(self.bits, rhs.bits) }
    }

    /// Quotient, wrapping on overflow; `None` where the divisor is zero.
    pub fn checked_div(self, rhs: CellData) -> (r: Option<CellData>)
        ensures
            r == if rhs.bits == 0 {
                None
            } else {
                Some(CellData { bits: div_bits(self.bits, rhs.bits) })
            },
    {
        if rhs.bits == 0 {
            None
        } else {
            Some(CellData { bits: fixed_div(self.bits, rhs.bits) })
        }
    }

    /// Remainder; `None` where the divisor is zero.
    pub fn checked_rem(self, rhs: CellData) -> (r: Option<CellData>)
        ensures
            r == match rem_bits(self.bits, rhs.bits) {
                Some(b) => Some(CellData { bits: b }),
                None => None,
            },
    {
        match fixed_rem(self.bits, rhs.bits) {
            Some(bits) => Some(CellData { bits }),
            None => None,
        }
    }

    /// Bitwise and of the raw bits.
    pub fn bitand(self, rhs: CellData) -> (r: CellData)
        ensures
            r.bits == self.bits & rhs.bits,
    {
        CellData { bits: self.bits & rhs.bits }
    }

    /// Bitwise or of the raw bits.
    pub fn bitor(self, rhs: CellData) -> (r: CellData)
        ensures
            r.bits == self.bits | rhs.bits,
    {
        CellData { bits: self.bits | rhs.bits }
    }

    /// Absolute value, wrapping at the minimum.
    pub fn abs(self) -> (r: CellData)
        ensures
            r.bits == abs_bits(self.bits),
    {
        CellData { bits: fixed_abs(self.bits) }
    }

    /// Fractional part, in 0..1.
    pub fn frac(self) -> (r: CellData)
        ensures
            r.bits == frac_bits(self.bits),
    {
        CellData { bits: fixed_frac(self.bits) }
    }

    /// Sine of the angle in radians.
    pub fn sin(self) -> (r: CellData)
        ensures
            r.bits == cordic_sin_bits(self.bits),
    {
        CellData { bits: cordic_sin(self.bits) }
    }
}

} // verus!
