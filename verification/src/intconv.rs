//! Conversions between the interpreter's 64-bit integers and the host's
//! integer types. A value that does not fit wraps around, as two's
//! complement arithmetic does.

use vstd::prelude::*;

verus! {

/// The representative of `n` in the range `lo..lo + size`.
pub open spec fn spec_wrap(n: int, lo: int, size: int) -> int {
    lo + (n - lo) % size
}

/// The interpreter integer that stands for the unsigned `x`.
pub open spec fn spec_from_unsigned(x: int) -> int {
    spec_wrap(x, -0x8000_0000_0000_0000, 0x1_0000_0000_0000_0000)
}

/// An unsigned 64-bit value comes back from the interpreter integer that
/// stands for it.
pub proof fn lemma_unsigned_round_trip(x: int)
    requires
        0 <= x < 0x1_0000_0000_0000_0000,
    ensures
        -0x8000_0000_0000_0000 <= spec_from_unsigned(x) < 0x8000_0000_0000_0000,
        x < 0x8000_0000_0000_0000 ==> spec_from_unsigned(x) == x,
        x >= 0x8000_0000_0000_0000 ==> spec_from_unsigned(x) == x - 0x1_0000_0000_0000_0000,
        spec_wrap(spec_from_unsigned(x), 0, 0x1_0000_0000_0000_0000) == x,
{
    let m = 0x1_0000_0000_0000_0000int;
    let h = 0x8000_0000_0000_0000int;
    if x < h {
        vstd::arithmetic::div_mod::lemma_fundamental_div_mod_converse(x + h, m, 0, x + h);
        vstd::arithmetic::div_mod::lemma_fundamental_div_mod_converse(x, m, 0, x);
    } else {
        vstd::arithmetic::div_mod::lemma_fundamental_div_mod_converse(x + h, m, 1, x + h - m);
        vstd::arithmetic::div_mod::lemma_fundamental_div_mod_converse(x - m, m, -1, x);
    }
}

/// The interpreter integer that stands for the unsigned `x`: `x` itself
/// where it fits, and `x - 2^64` above that.
pub fn from_unsigned(x: u64) -> (r: i64)
    ensures
        r == spec_from_unsigned(x as int),
        x <= i64::MAX ==> r == x,
{
    if x <= 0x7fff_ffff_ffff_ffff {
        x as i64
    } else {
        (x as i128 - 0x1_0000_0000_0000_0000) as i64
    }
}

/// Wraps an interpreter integer into `i8`.
pub fn wrap_i8(n: i64) -> (r: i8)
    ensures
        r == spec_wrap(n as int, -0x80, 0x100),
        i8::MIN <= n <= i8::MAX ==> r == n,
{
    let m: i128 = (n as i128 + 0x80 + 0x1_0000_0000_0000_0000) % 0x100;
    (m - 0x80) as i8
}

/// Wraps an interpreter integer into `i16`.
pub fn wrap_i16(n: i64) -> (r: i16)
    ensures
        r == spec_wrap(n as int, -0x8000, 0x1_0000),
        i16::MIN <= n <= i16::MAX ==> r == n,
{
    let m: i128 = (n as i128 + 0x8000 + 0x1_0000_0000_0000_0000) % 0x1_0000;
    (m - 0x8000) as i16
}

/// Wraps an interpreter integer into `i32`.
pub fn wrap_i32(n: i64) -> (r: i32)
    ensures
        r == spec_wrap(n as int, -0x8000_0000, 0x1_0000_0000),
        i32::MIN <= n <= i32::MAX ==> r == n,
{
    let m: i128 = (n as i128 + 0x8000_0000 + 0x1_0000_0000_0000_0000) % 0x1_0000_0000;
    (m - 0x8000_0000) as i32
}

/// Wraps an interpreter integer into `u8`.
pub fn wrap_u8(n: i64) -> (r: u8)
    ensures
        r == spec_wrap(n as int, 0, 0x100),
        0 <= n <= u8::MAX ==> r == n,
{
    let m: i128 = (n as i128 + 0x1_0000_0000_0000_0000) % 0x100;
    m as u8
}

/// Wraps an interpreter integer into `u16`.
pub fn wrap_u16(n: i64) -> (r: u16)
    ensures
        r == spec_wrap(n as int, 0, 0x1_0000),
        0 <= n <= u16::MAX ==> r == n,
{
    let m: i128 = (n as i128 + 0x1_0000_0000_0000_0000) % 0x1_0000;
    m as u16
}

/// Wraps an interpreter integer into `u32`.
pub fn wrap_u32(n: i64) -> (r: u32)
    ensures
        r == spec_wrap(n as int, 0, 0x1_0000_0000),
        0 <= n <= u32::MAX ==> r == n,
{
    let m: i128 = (n as i128 + 0x1_0000_0000_0000_0000) % 0x1_0000_0000;
    m as u32
}

/// Wraps an interpreter integer into `u64`.
pub fn wrap_u64(n: i64) -> (r: u64)
    ensures
        r == spec_wrap(n as int, 0, 0x1_0000_0000_0000_0000),
        0 <= n ==> r == n,
        spec_from_unsigned(r as int) == n,
{
    if n >= 0 {
        n as u64
    } else {
        (n as i128 + 0x1_0000_0000_0000_0000) as u64
    }
}

/// Wraps an interpreter integer into `isize`.
pub fn wrap_isize(n: i64) -> (r: isize)
    ensures
        r == spec_wrap(n as int, isize::MIN as int, usize::MAX + 1),
        isize::MIN <= n <= isize::MAX ==> r == n,
{
    if usize::BITS == 32 {
        assert(isize::MIN == -0x8000_0000 && usize::MAX + 1 == 0x1_0000_0000);
        wrap_i32(n) as isize
    } else {
        assert(isize::MIN == -0x8000_0000_0000_0000 && usize::MAX + 1
            == 0x1_0000_0000_0000_0000);
        n as isize
    }
}

/// Wraps an interpreter integer into `usize`.
pub fn wrap_usize(n: i64) -> (r: usize)
    ensures
        r == spec_wrap(n as int, 0, usize::MAX + 1),
        0 <= n <= usize::MAX ==> r == n,
{
    if usize::BITS == 32 {
        wrap_u32(n) as usize
    } else {
        wrap_u64(n) as usize
    }
}

} // verus!
