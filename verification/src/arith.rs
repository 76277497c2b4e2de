//! Fixed-point arithmetic primitives of the evaluator: the quantisation
//! constants, the squared-clipped-ReLU activation, truncating integer
//! division, and little-endian decoding of stored weights.

use vstd::arithmetic::div_mod::lemma_div_nonincreasing;
use vstd::prelude::*;

verus! {

/// Input-quantisation scale: accumulator lanes are clamped to `[0, QA]`
/// before squaring.
pub const QA: i16 = 255;

/// Output-quantisation scale applied to the output layer.
pub const QB: i16 = 64;

/// Fixed scoring scale the dequantised network output is multiplied by.
pub const SCALE: i32 = 400;

/// Largest hidden-layer width a weight store accepts: keeps every
/// intermediate sum of the forward pass comfortably inside `i64`.
pub const HIDDEN_MAX: usize = 1048576;

/// Largest feature count a weight store accepts: keeps the blob-size
/// computation inside `u64`.
pub const FEATURE_MAX: usize = 1048576;

/// `x` clamped to `[0, QA]`.
pub open spec fn clamp_spec(x: int) -> int {
    if x < 0 {
        0
    } else if x > QA as int {
        QA as int
    } else {
        x
    }
}

/// Squared clipped ReLU on unbounded integers: clamp to `[0, QA]`, then
/// square.
pub open spec fn screlu_spec(x: int) -> int {
    clamp_spec(x) * clamp_spec(x)
}

/// Squared Clipped ReLU - Activation Function.
/// Takes i16 input and returns i32 output.
pub fn screlu(x: i16) -> (r: i32)
    ensures
        r as int == screlu_spec(x as int),
        0 <= r as int <= (QA as int) * (QA as int),
{
    let xi: i32 = x as i32;
    let clamped: i32 = if xi < 0 {
        0
    } else if xi > QA as i32 {
        QA as i32
    } else {
        xi
    };
    proof {
        assert(0 <= clamped * clamped <= 255 * 255) by (nonlinear_arith)
            requires
                0 <= clamped <= 255,
        ;
    }
    clamped * clamped
}

/// Integer division truncating toward zero, for a positive divisor; the
/// semantics of the host language's `/` on signed integers.
pub open spec fn div_trunc(a: int, b: int) -> int {
    if a >= 0 {
        a / b
    } else {
        -((-a) / b)
    }
}

/// Truncating division on `i64`; the quotient never exceeds the dividend
/// in magnitude.
pub fn div_trunc_i64(a: i64, b: i64) -> (r: i64)
    requires
        b > 0,
        a > i64::MIN,
    ensures
        r as int == div_trunc(a as int, b as int),
        a >= 0 ==> 0 <= r <= a,
        a < 0 ==> a <= r <= 0,
{
    if a >= 0 {
        let q: u64 = (a as u64) / (b as u64);
        proof {
            lemma_div_nonincreasing(a as int, b as int);
        }
        q as i64
    } else {
        let n: u64 = (-a) as u64;
        let q: u64 = n / (b as u64);
        proof {
            lemma_div_nonincreasing(n as int, b as int);
        }
        -(q as i64)
    }
}

/// The signed 16-bit value stored little-endian as the byte pair
/// `(lo, hi)`.
pub open spec fn i16_le_spec(lo: u8, hi: u8) -> int {
    let raw = lo as int + 256 * (hi as int);
    if raw < 32768 {
        raw
    } else {
        raw - 65536
    }
}

/// Decodes one little-endian signed 16-bit value from its two bytes.
pub fn i16_from_le(lo: u8, hi: u8) -> (r: i16)
    ensures
        r as int == i16_le_spec(lo, hi),
{
    let raw: u32 = lo as u32 + 256 * (hi as u32);
    if raw < 32768 {
        raw as i16
    } else {
        ((raw as i32) - 65536) as i16
    }
}

} // verus!
