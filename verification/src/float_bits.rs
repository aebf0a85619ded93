//! Geographic coordinates reach this library as IEEE-754 double-precision bit
//! patterns carried in `u64` values. The verifier has no model of floating
//! point, so everything the projection logic needs to *decide* (class tests
//! and ordering) is implemented here directly on the bits and proved against
//! spec functions, while the four arithmetic steps of the affine projection
//! go through trusted wrappers around real double arithmetic.
use vstd::prelude::*;
use byteorder::ByteOrder;

verus! {

/// The quiet NaN bit pattern used to canonicalize NaN results.
pub const CANON_NAN_BITS: u64 = 0x7FF8_0000_0000_0000;

/// Exponent field of a double's bit pattern.
pub open spec fn f64_bits_exp(b: u64) -> u64 {
    (b >> 52) & 0x7FF
}

/// Fraction (mantissa) field of a double's bit pattern.
pub open spec fn f64_bits_frac(b: u64) -> u64 {
    b & 0x000F_FFFF_FFFF_FFFF
}

/// Magnitude: the bit pattern with the sign bit cleared.
pub open spec fn f64_bits_mag(b: u64) -> u64 {
    b & 0x7FFF_FFFF_FFFF_FFFF
}

/// The bit pattern encodes a NaN.
pub open spec fn f64_bits_is_nan(b: u64) -> bool {
    f64_bits_exp(b) == 0x7FF && f64_bits_frac(b) != 0
}

/// The bit pattern encodes a positive or negative infinity.
pub open spec fn f64_bits_is_infinite(b: u64) -> bool {
    f64_bits_exp(b) == 0x7FF && f64_bits_frac(b) == 0
}

/// The bit pattern encodes a (positive or negative) zero.
pub open spec fn f64_bits_is_zero(b: u64) -> bool {
    f64_bits_mag(b) == 0
}

/// NaN payloads of arithmetic results are not pinned down by IEEE-754, so
/// every NaN is collapsed to one canonical pattern before anything is said
/// about it; all other patterns are left alone.
pub open spec fn f64_bits_canon(b: u64) -> u64 {
    if f64_bits_is_nan(b) {
        CANON_NAN_BITS
    } else {
        b
    }
}

/// Order key of a non-NaN double: for same-sign doubles the magnitude bits
/// order exactly as the values do, and negative values order reversed.
/// Both zeros map to key 0, so `-0.0 < 0.0` is false, as for doubles.
pub open spec fn f64_bits_key(b: u64) -> int {
    if b >> 63 == 1 {
        -(f64_bits_mag(b) as int)
    } else {
        f64_bits_mag(b) as int
    }
}

/// The IEEE-754 `<` relation on doubles, read off the bit patterns:
/// false whenever either side is NaN, otherwise a comparison of order keys.
pub open spec fn f64_bits_lt(a: u64, b: u64) -> bool {
    &&& !f64_bits_is_nan(a)
    &&& !f64_bits_is_nan(b)
    &&& f64_bits_key(a) < f64_bits_key(b)
}

pub fn is_nan_bits(b: u64) -> (r: bool)
    ensures
        r == f64_bits_is_nan(b),
{
    (b >> 52) & 0x7FF == 0x7FF && b & 0x000F_FFFF_FFFF_FFFF != 0
}

pub fn is_infinite_bits(b: u64) -> (r: bool)
    ensures
        r == f64_bits_is_infinite(b),
{
    (b >> 52) & 0x7FF == 0x7FF && b & 0x000F_FFFF_FFFF_FFFF == 0
}

pub fn is_zero_bits(b: u64) -> (r: bool)
    ensures
        r == f64_bits_is_zero(b),
{
    b & 0x7FFF_FFFF_FFFF_FFFF == 0
}

/// Canonicalization touches only NaN patterns, so it never changes which
/// class a pattern belongs to.
pub proof fn lemma_canon_class(b: u64)
    ensures
        f64_bits_is_nan(f64_bits_canon(b)) == f64_bits_is_nan(b),
        f64_bits_is_infinite(f64_bits_canon(b)) == f64_bits_is_infinite(b),
        f64_bits_is_zero(f64_bits_canon(b)) == f64_bits_is_zero(b),
        !f64_bits_is_nan(b) ==> f64_bits_canon(b) == b,
{
    assert((0x7FF8_0000_0000_0000u64 >> 52) & 0x7FF == 0x7FF) by (bit_vector);
    assert(0x7FF8_0000_0000_0000u64 & 0x000F_FFFF_FFFF_FFFF != 0) by (bit_vector);
    assert(0x7FF8_0000_0000_0000u64 & 0x7FFF_FFFF_FFFF_FFFF != 0) by (bit_vector);
    assert(b & 0x000F_FFFF_FFFF_FFFF != 0 ==> b & 0x7FFF_FFFF_FFFF_FFFF != 0) by (bit_vector);
}

/// The `<` of doubles, computed on the bit patterns.
pub fn lt_bits(a: u64, b: u64) -> (r: bool)
    ensures
        r == f64_bits_lt(a, b),
{
    if is_nan_bits(a) || is_nan_bits(b) {
        false
    } else {
        let sa: u64 = a >> 63;
        let sb: u64 = b >> 63;
        let ma: u64 = a & 0x7FFF_FFFF_FFFF_FFFF;
        let mb: u64 = b & 0x7FFF_FFFF_FFFF_FFFF;
        proof {
            assert(a >> 63 == 0 || a >> 63 == 1) by (bit_vector);
            assert(b >> 63 == 0 || b >> 63 == 1) by (bit_vector);
        }
        if sa == 1 {
            if sb == 1 {
                mb < ma
            } else {
                ma != 0 || mb != 0
            }
        } else {
            if sb == 1 {
                false
            } else {
                ma < mb
            }
        }
    }
}

/// Canonicalized bits of the double difference of two canonical patterns.
pub uninterp spec fn sub_bits(a: u64, b: u64) -> u64;

/// Canonicalized bits of the double product of two canonical patterns.
pub uninterp spec fn mul_bits(a: u64, b: u64) -> u64;

/// Canonicalized bits of the double quotient of two canonical patterns.
pub uninterp spec fn div_bits(a: u64, b: u64) -> u64;

/// Bits of the double that exactly represents the given u32.
pub uninterp spec fn u32_to_bits(w: u32) -> u64;

/// Canonicalized bits of rounding the double with the given canonical bits
/// to the nearest integer, ties away from zero.
pub uninterp spec fn round_bits(b: u64) -> u64;

/// The `as i32` cast of the double with the given canonical bits.
pub uninterp spec fn bits_to_i32(b: u64) -> i32;

/// The `as u32` cast of the double with the given canonical bits.
pub uninterp spec fn bits_to_u32(b: u64) -> u32;

/// Relies on f64 subtraction (and on byteorder's read_f64/write_f64, which
/// move between a double and its IEEE-754 bits unchanged). The value of a
/// difference depends on the operand values alone; only the payload of a NaN
/// result is left open by IEEE-754, which the canonicalization hides.
#[verifier::external_body]
pub(crate) fn f64_sub(a: u64, b: u64) -> (r: u64)
    ensures
        f64_bits_canon(r) == sub_bits(f64_bits_canon(a), f64_bits_canon(b)),
{
    let x = byteorder::BigEndian::read_f64(&a.to_be_bytes());
    let y = byteorder::BigEndian::read_f64(&b.to_be_bytes());
    let mut out = [0u8; 8];
    byteorder::BigEndian::write_f64(&mut out, x - y);
    u64::from_be_bytes(out)
}

/// Relies on f64 multiplication; see `f64_sub` for the representation.
#[verifier::external_body]
pub(crate) fn f64_mul(a: u64, b: u64) -> (r: u64)
    ensures
        f64_bits_canon(r) == mul_bits(f64_bits_canon(a), f64_bits_canon(b)),
{
    let x = byteorder::BigEndian::read_f64(&a.to_be_bytes());
    let y = byteorder::BigEndian::read_f64(&b.to_be_bytes());
    let mut out = [0u8; 8];
    byteorder::BigEndian::write_f64(&mut out, x * y);
    u64::from_be_bytes(out)
}

/// Relies on f64 division; see `f64_sub` for the representation.
#[verifier::external_body]
pub(crate) fn f64_div(a: u64, b: u64) -> (r: u64)
    ensures
        f64_bits_canon(r) == div_bits(f64_bits_canon(a), f64_bits_canon(b)),
{
    let x = byteorder::BigEndian::read_f64(&a.to_be_bytes());
    let y = byteorder::BigEndian::read_f64(&b.to_be_bytes());
    let mut out = [0u8; 8];
    byteorder::BigEndian::write_f64(&mut out, x / y);
    u64::from_be_bytes(out)
}

/// Relies on the exact u32-to-f64 conversion (num_traits::cast, which is
/// total and lossless on this pair of types): the result is finite, and
/// truncating it back to i32 returns the value, saturated to i32's range.
#[verifier::external_body]
pub(crate) fn f64_from_u32(w: u32) -> (r: u64)
    ensures
        r == u32_to_bits(w),
        !f64_bits_is_nan(r),
        bits_to_i32(r) == if w <= i32::MAX as u32 {
            w as i32
        } else {
            i32::MAX
        },
{
    let v = num_traits::cast(w).unwrap();
    let mut out = [0u8; 8];
    byteorder::BigEndian::write_f64(&mut out, v);
    u64::from_be_bytes(out)
}

/// Relies on f64::round: the nearest integer, ties away from zero, a value
/// function of the argument alone; see `f64_sub` for the representation.
#[verifier::external_body]
pub(crate) fn f64_round(b: u64) -> (r: u64)
    ensures
        f64_bits_canon(r) == round_bits(f64_bits_canon(b)),
{
    let x = byteorder::BigEndian::read_f64(&b.to_be_bytes());
    let mut out = [0u8; 8];
    byteorder::BigEndian::write_f64(&mut out, x.round());
    u64::from_be_bytes(out)
}

/// Relies on Rust's f64-to-i32 `as` cast: truncation toward zero, saturating
/// at i32's bounds, with every NaN (and in particular the zero pattern's
/// value 0.0) going to 0.
#[verifier::external_body]
pub(crate) fn f64_to_i32(b: u64) -> (r: i32)
    ensures
        r == bits_to_i32(f64_bits_canon(b)),
        b == 0 ==> r == 0,
{
    let x = byteorder::BigEndian::read_f64(&b.to_be_bytes());
    x as i32
}

/// Relies on Rust's f64-to-u32 `as` cast: truncation toward zero, saturating
/// at u32's bounds, with every NaN going to 0.
#[verifier::external_body]
pub(crate) fn f64_to_u32(b: u64) -> (r: u32)
    ensures
        r == bits_to_u32(f64_bits_canon(b)),
{
    let x = byteorder::BigEndian::read_f64(&b.to_be_bytes());
    x as u32
}

} // verus!
