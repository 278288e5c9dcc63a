//! Lane-wise arithmetic on four-lane vectors.
//!
//! A 256-bit register is held as `[u64; 4]`, a 128-bit register as
//! `[u32; 4]`. Every operation works lane by lane, and no lane reads
//! another.

use vstd::prelude::*;
use crate::scalar::rotate_right_32;

verus! {

/// 2^32, the number of values a 32-bit half can take.
pub open spec fn half() -> int {
    0x1_0000_0000
}

/// 2^64, the number of values a 64-bit lane can take.
pub open spec fn word() -> int {
    0x1_0000_0000_0000_0000
}

/// The 64-bit value whose low half is the low half of `lo` and whose high
/// half is the low half of `hi`.
pub open spec fn join_halves(lo: u64, hi: u64) -> u64 {
    ((lo as int % half()) + half() * (hi as int % half())) as u64
}

/// The product of `x` and `y` modulo 2^64.
pub open spec fn mul_mod_word(x: u64, y: u64) -> u64 {
    ((x as int * y as int) % word()) as u64
}

/// Product of the low halves of `a` and `b`, which always fits a lane.
fn mul_low_halves(a: u64, b: u64) -> (r: u64)
    ensures
        r == (a as int % half()) * (b as int % half()),
{
    let al: u64 = a & 0xffff_ffff;
    let bl: u64 = b & 0xffff_ffff;
    assert(al == a % 0x1_0000_0000) by (bit_vector)
        requires
            al == a & 0xffff_ffff,
    ;
    assert(bl == b % 0x1_0000_0000) by (bit_vector)
        requires
            bl == b & 0xffff_ffff,
    ;
    assert(al * bl <= 0xffff_ffff * 0xffff_ffff) by (nonlinear_arith)
        requires
            al <= 0xffff_ffff,
            bl <= 0xffff_ffff,
    ;
    al * bl
}

/// `a` shifted left by 32 bits within its lane: the bits that leave the lane
/// are lost.
fn shift_left_half(a: u64) -> (r: u64)
    ensures
        r == (a as int * half()) % word(),
{
    let r: u64 = a << 32;
    assert(r == (a * 0x1_0000_0000) % 0x1_0000_0000_0000_0000) by (bit_vector)
        requires
            r == a << 32,
    ;
    r
}

/// Sum of `a` and `b` modulo 2^64.
fn add_lane(a: u64, b: u64) -> (r: u64)
    ensures
        r == (a as int + b as int) % word(),
{
    a.wrapping_add(b)
}

/// Schoolbook product of `x` and the multiplier held as two halves: three
/// 32-by-32 partial products, the two cross terms moved up by 32 bits.
fn mullo_lane(x: u64, ml: u64, mh: u64) -> (r: u64)
    ensures
        r == mul_mod_word(x, join_halves(ml, mh)),
{
    let xl: u64 = x & 0x0000_0000_ffff_ffff;
    let xh: u64 = x >> 32;
    assert(xl == x % 0x1_0000_0000 && xh == x / 0x1_0000_0000) by (bit_vector)
        requires
            xl == x & 0x0000_0000_ffff_ffff,
            xh == x >> 32,
    ;
    let hl: u64 = shift_left_half(mul_low_halves(xh, ml));
    let lh: u64 = shift_left_half(mul_low_halves(xl, mh));
    let ll: u64 = mul_low_halves(xl, ml);
    let r: u64 = add_lane(ll, add_lane(hl, lh));
    proof {
        lemma_schoolbook(x as int, ml as int % half(), mh as int % half(), r as int);
    }
    r
}

/// The low 64 bits of a product are the low-by-low partial product plus the
/// two cross terms moved up by 32 bits; the high-by-high term lies wholly
/// above bit 63.
proof fn lemma_schoolbook(x: int, yl: int, yh: int, r: int)
    requires
        0 <= x < word(),
        0 <= yl < half(),
        0 <= yh < half(),
        r == ((x % half()) * yl + ((((x / half()) * yl) * half()) % word() + (((x % half()) * yh)
            * half()) % word()) % word()) % word(),
    ensures
        r == (x * (yl + half() * yh)) % word(),
{
    let xl = x % 0x1_0000_0000;
    let xh = x / 0x1_0000_0000;
    let ll = xl * yl;
    let hl = xh * yl;
    let lh = xl * yh;
    let hh = xh * yh;
    let y = yl + 0x1_0000_0000 * yh;
    assert(x * y == ll + 0x1_0000_0000 * hl + 0x1_0000_0000 * lh + 0x1_0000_0000_0000_0000 * hh)
        by (nonlinear_arith)
        requires
            x == xl + 0x1_0000_0000 * xh,
            y == yl + 0x1_0000_0000 * yh,
            ll == xl * yl,
            hl == xh * yl,
            lh == xl * yh,
            hh == xh * yh,
    ;
    let w = word();
    let hl_up = hl * 0x1_0000_0000;
    let lh_up = lh * 0x1_0000_0000;
    let cross = hl_up % w + lh_up % w;
    let total = ll + cross % w;
    let k = hl_up / w + lh_up / w + cross / w + total / w + hh;
    assert(x * y == k * w + r);
    vstd::arithmetic::div_mod::lemma_fundamental_div_mod_converse(x * y, w, k, r);
}

/// Logical left shift of a 32-bit lane by a variable count. A count of 32
/// or more empties the lane.
fn sllv_lane(v: u32, count: u32) -> (r: u32)
    ensures
        r == (if count >= 32 { 0 } else { v << count }),
{
    if count >= 32 {
        0
    } else {
        v << count
    }
}

/// Logical right shift of a 32-bit lane by a variable count. A count of 32
/// or more empties the lane.
fn srlv_lane(v: u32, count: u32) -> (r: u32)
    ensures
        r == (if count >= 32 { 0 } else { v >> count }),
{
    if count >= 32 {
        0
    } else {
        v >> count
    }
}

/// Rotation of one 32-bit lane, from the two variable shifts. With `r == 0`
/// the left shift has count 32 and gives 0, so the right shift alone gives
/// the lane back.
fn rorv_lane(v: u32, r: u32) -> (out: u32)
    requires
        r < 32,
    ensures
        out == rotate_right_32(v, r),
{
    let left: u32 = sllv_lane(v, 32 - r);
    let right: u32 = srlv_lane(v, r);
    let out: u32 = left | right;
    assert(r == 0 ==> out == v) by (bit_vector)
        requires
            r == 0 ==> left == 0 && right == v >> 0,
            out == left | right,
    ;
    assert(r != 0 ==> out == (v >> r) | (v << ((32 - r) as u32))) by (bit_vector)
        requires
            r != 0 ==> left == v << ((32 - r) as u32) && right == v >> r,
            out == left | right,
    ;
    out
}

/// Element-wise sum modulo 2^64.
pub(crate) fn add_epi64(a: [u64; 4], b: [u64; 4]) -> (r: [u64; 4])
    ensures
        forall|i: int| 0 <= i < 4 ==> #[trigger] r[i] == (a[i] as int + b[i] as int) % word(),
{
    [add_lane(a[0], b[0]), add_lane(a[1], b[1]), add_lane(a[2], b[2]), add_lane(a[3], b[3])]
}

/// Element-wise logical right shift of the 64-bit lanes by one count.
pub(crate) fn srli_epi64(a: [u64; 4], count: u32) -> (r: [u64; 4])
    requires
        count < 64,
    ensures
        forall|i: int| 0 <= i < 4 ==> #[trigger] r[i] == a[i] >> count,
{
    [a[0] >> count, a[1] >> count, a[2] >> count, a[3] >> count]
}

/// Bitwise exclusive or of two vectors.
pub(crate) fn xor_si256(a: [u64; 4], b: [u64; 4]) -> (r: [u64; 4])
    ensures
        forall|i: int| 0 <= i < 4 ==> #[trigger] r[i] == a[i] ^ b[i],
{
    [a[0] ^ b[0], a[1] ^ b[1], a[2] ^ b[2], a[3] ^ b[3]]
}

/// The low 32 bits of each 64-bit lane, gathered into four adjacent 32-bit
/// lanes in lane order.
pub(crate) fn gather_low_halves(a: [u64; 4]) -> (r: [u32; 4])
    ensures
        forall|i: int| 0 <= i < 4 ==> #[trigger] r[i] == a[i] as u32,
{
    [
        #[verifier::truncate]
        (a[0] as u32),
        #[verifier::truncate]
        (a[1] as u32),
        #[verifier::truncate]
        (a[2] as u32),
        #[verifier::truncate]
        (a[3] as u32),
    ]
}

/// Element-wise 64-bit product modulo 2^64 of `x` and a multiplier given as
/// two vectors: `ml` holds its low half and `mh` its high half, each in the
/// low 32 bits of the lane. Only 32-by-32 multiplications are used.
pub fn _mm256_mullo_epi64(x: [u64; 4], ml: [u64; 4], mh: [u64; 4]) -> (r: [u64; 4])
    ensures
        forall|i: int|
            0 <= i < 4 ==> #[trigger] r[i] == mul_mod_word(x[i], join_halves(ml[i], mh[i])),
{
    [
        mullo_lane(x[0], ml[0], mh[0]),
        mullo_lane(x[1], ml[1], mh[1]),
        mullo_lane(x[2], ml[2], mh[2]),
        mullo_lane(x[3], ml[3], mh[3]),
    ]
}

/// Element-wise rotation to the right of the 32-bit lanes of `x`, each by
/// the amount in the same lane of `r`, from left and right shifts alone.
pub fn _mm256_rorv_epi32(x: [u32; 4], r: [u32; 4]) -> (out: [u32; 4])
    requires
        forall|i: int| 0 <= i < 4 ==> r[i] < 32,
    ensures
        forall|i: int| 0 <= i < 4 ==> #[trigger] out[i] == rotate_right_32(x[i], r[i]),
{
    [
        rorv_lane(x[0], r[0]),
        rorv_lane(x[1], r[1]),
        rorv_lane(x[2], r[2]),
        rorv_lane(x[3], r[3]),
    ]
}

} // verus!
