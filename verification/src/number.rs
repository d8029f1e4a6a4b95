//! Floating-point numbers as the interpreter holds them: by the 64 bits
//! of their IEEE-754 binary64 encoding. Everything here is integer
//! arithmetic on that encoding.

use vstd::prelude::*;
use vstd::arithmetic::power2::{
    lemma2_to64, lemma2_to64_rest, lemma_pow2_adds, lemma_pow2_pos,
    lemma_pow2_strictly_increases, lemma_pow2_unfold, pow2,
};

verus! {

/// Two to the power 52: the weight of the hidden bit of a significand.
pub const HIDDEN_BIT: u64 = 0x10_0000_0000_0000;

/// The encoding's sign bit.
pub const SIGN_BIT: u64 = 0x8000_0000_0000_0000;

/// Whether the sign bit is set.
pub open spec fn spec_negative(b: u64) -> bool {
    b >= SIGN_BIT
}

/// The biased exponent field, `0..=2047`.
pub open spec fn spec_raw_exponent(b: u64) -> int {
    (b as int / HIDDEN_BIT as int) % 2048
}

/// The fraction field, `0..2^52`.
pub open spec fn spec_fraction(b: u64) -> int {
    b as int % HIDDEN_BIT as int
}

/// Whether the encoding is a NaN.
pub open spec fn spec_is_nan(b: u64) -> bool {
    spec_raw_exponent(b) == 2047 && spec_fraction(b) != 0
}

/// Whether the encoding is an infinity.
pub open spec fn spec_is_infinite(b: u64) -> bool {
    spec_raw_exponent(b) == 2047 && spec_fraction(b) == 0
}

/// Whether the encoding is a finite number.
pub open spec fn spec_is_finite(b: u64) -> bool {
    spec_raw_exponent(b) != 2047
}

/// The significand `m` of a finite number, whose absolute value is
/// `m * 2^e` with `e` its exponent.
pub open spec fn spec_significand(b: u64) -> int {
    if spec_raw_exponent(b) == 0 {
        spec_fraction(b)
    } else {
        spec_fraction(b) + HIDDEN_BIT as int
    }
}

/// The exponent `e` of a finite number.
pub open spec fn spec_exponent(b: u64) -> int {
    if spec_raw_exponent(b) == 0 {
        -1074
    } else {
        spec_raw_exponent(b) - 1075
    }
}

/// The absolute value of a finite number, rounded towards zero.
pub open spec fn spec_magnitude(b: u64) -> int {
    let m = spec_significand(b);
    let e = spec_exponent(b);
    if e >= 0 {
        m * pow2(e as nat)
    } else {
        m / (pow2((-e) as nat) as int)
    }
}

/// Whether the number is finite and has no fractional part.
pub open spec fn spec_is_integral(b: u64) -> bool {
    let m = spec_significand(b);
    let e = spec_exponent(b);
    spec_is_finite(b) && (e >= 0 || m % (pow2((-e) as nat) as int) == 0)
}

/// A finite number rounded towards zero.
pub open spec fn spec_truncated(b: u64) -> int {
    if spec_negative(b) {
        -spec_magnitude(b)
    } else {
        spec_magnitude(b)
    }
}

/// The integer that the number is exactly, if it is one that fits the
/// interpreter's integers.
pub open spec fn spec_to_integer(b: u64) -> Option<i64> {
    if spec_is_integral(b) && i64::MIN <= spec_truncated(b) <= i64::MAX {
        Some(spec_truncated(b) as i64)
    } else {
        None
    }
}

/// The number rounded towards zero and brought into `lo..=hi`: NaN gives
/// zero, and what lies outside the range gives the nearer bound.
pub open spec fn spec_saturated(b: u64, lo: int, hi: int) -> int {
    if spec_is_nan(b) {
        0
    } else if spec_is_infinite(b) {
        if spec_negative(b) {
            lo
        } else {
            hi
        }
    } else if spec_truncated(b) < lo {
        lo
    } else if spec_truncated(b) > hi {
        hi
    } else {
        spec_truncated(b)
    }
}

/// A floating-point number taken apart and rounded towards zero.
#[derive(Clone, Copy, Debug, PartialEq, Eq, Structural)]
pub enum Truncated {
    /// Not a number.
    NotANumber,
    /// A number whose magnitude is below two to the power 64.
    Finite { negative: bool, magnitude: u64, exact: bool },
    /// An infinity, or a number whose magnitude is at least two to the
    /// power 64.
    Huge { negative: bool },
}

/// Two to the power `k`.
pub fn pow2_u64(k: u64) -> (r: u64)
    requires
        k <= 63,
    ensures
        r == pow2(k as nat),
{
    let mut r: u64 = 1;
    let mut i: u64 = 0;
    proof {
        lemma2_to64();
    }
    while i < k
        invariant
            i <= k <= 63,
            r == pow2(i as nat),
        decreases k - i,
    {
        proof {
            lemma_pow2_unfold((i + 1) as nat);
            lemma2_to64_rest();
            if i + 1 < 63 {
                lemma_pow2_strictly_increases((i + 1) as nat, 63);
            }
        }
        r = r * 2;
        i = i + 1;
    }
    r
}

/// Whether the encoding is a zero, positive or negative.
pub open spec fn spec_is_zero(b: u64) -> bool {
    b == 0 || b == SIGN_BIT
}

/// Whether the encoding is a zero, positive or negative.
pub fn is_zero(bits: u64) -> (r: bool)
    ensures
        r == spec_is_zero(bits),
{
    bits == 0 || bits == SIGN_BIT
}

/// Whether the encoding is a NaN.
pub fn is_nan(bits: u64) -> (r: bool)
    ensures
        r == spec_is_nan(bits),
{
    (bits / HIDDEN_BIT) % 2048 == 2047 && bits % HIDDEN_BIT != 0
}

/// Takes a number apart and rounds it towards zero.
pub fn truncate(bits: u64) -> (t: Truncated)
    ensures
        match t {
            Truncated::NotANumber => spec_is_nan(bits),
            Truncated::Finite { negative, magnitude, exact } => {
                &&& spec_is_finite(bits)
                &&& negative == spec_negative(bits)
                &&& magnitude == spec_magnitude(bits)
                &&& exact == spec_is_integral(bits)
            },
            Truncated::Huge { negative } => {
                &&& negative == spec_negative(bits)
                &&& !spec_is_nan(bits)
                &&& (spec_is_infinite(bits) || (spec_is_integral(bits) && spec_magnitude(bits)
                    > u64::MAX))
            },
        },
{
    let raw: u64 = (bits / HIDDEN_BIT) % 2048;
    let frac: u64 = bits % HIDDEN_BIT;
    let negative = bits >= SIGN_BIT;
    proof {
        lemma2_to64();
        lemma2_to64_rest();
    }
    if raw == 2047 {
        if frac != 0 {
            Truncated::NotANumber
        } else {
            Truncated::Huge { negative }
        }
    } else if raw == 0 {
        proof {
            lemma_pow2_strictly_increases(52, 1074);
            let p = pow2(1074) as int;
            assert(frac < p);
            vstd::arithmetic::div_mod::lemma_basic_div(frac as int, p);
            vstd::arithmetic::div_mod::lemma_small_mod(frac as nat, p as nat);
        }
        Truncated::Finite { negative, magnitude: 0, exact: frac == 0 }
    } else {
        let m: u64 = frac + HIDDEN_BIT;
        if raw >= 1075 {
            let e: u64 = raw - 1075;
            if e >= 12 {
                proof {
                    if e > 12 {
                        lemma_pow2_strictly_increases(12, e as nat);
                    }
                    let p = pow2(e as nat) as int;
                    assert(m * p > u64::MAX) by (nonlinear_arith)
                        requires
                            m >= 0x10_0000_0000_0000,
                            p >= 0x1000,
                    ;
                }
                Truncated::Huge { negative }
            } else {
                let p = pow2_u64(e);
                proof {
                    if e < 11 {
                        lemma_pow2_strictly_increases(e as nat, 11);
                    }
                    assert(m * p <= u64::MAX) by (nonlinear_arith)
                        requires
                            0 <= m < 0x20_0000_0000_0000,
                            0 <= p <= 0x800,
                    ;
                }
                Truncated::Finite { negative, magnitude: m * p, exact: true }
            }
        } else {
            let k: u64 = 1075 - raw;
            if k >= 53 {
                proof {
                    if k > 53 {
                        lemma_pow2_strictly_increases(53, k as nat);
                    }
                    let p = pow2(k as nat) as int;
                    assert(m < p);
                    vstd::arithmetic::div_mod::lemma_basic_div(m as int, p);
                    vstd::arithmetic::div_mod::lemma_small_mod(m as nat, p as nat);
                }
                Truncated::Finite { negative, magnitude: 0, exact: false }
            } else {
                let p = pow2_u64(k);
                proof {
                    lemma_pow2_pos(k as nat);
                }
                Truncated::Finite { negative, magnitude: m / p, exact: m % p == 0 }
            }
        }
    }
}

/// The integer that a number is exactly, if it is one that fits the
/// interpreter's integers.
pub fn to_integer(bits: u64) -> (r: Option<i64>)
    ensures
        r == spec_to_integer(bits),
{
    match truncate(bits) {
        Truncated::Finite { negative, magnitude, exact } => {
            if !exact {
                None
            } else if negative {
                if magnitude <= SIGN_BIT {
                    Some((0 - magnitude as i128) as i64)
                } else {
                    None
                }
            } else if magnitude < SIGN_BIT {
                Some(magnitude as i64)
            } else {
                None
            }
        },
        _ => None,
    }
}

/// Rounds a number towards zero and brings it into `lo..=hi`, the way a
/// saturating conversion to a signed integer type does.
pub fn saturate(bits: u64, lo: i64, hi: i64) -> (r: i64)
    requires
        lo <= 0 <= hi,
    ensures
        r == spec_saturated(bits, lo as int, hi as int),
{
    match truncate(bits) {
        Truncated::NotANumber => 0,
        Truncated::Huge { negative } => if negative {
            lo
        } else {
            hi
        },
        Truncated::Finite { negative, magnitude, exact } => {
            if negative {
                if magnitude as i128 > 0 - lo as i128 {
                    lo
                } else {
                    (0 - magnitude as i128) as i64
                }
            } else if magnitude > hi as u64 {
                hi
            } else {
                magnitude as i64
            }
        },
    }
}

/// Rounds a number towards zero and brings it into `0..=hi`, the way a
/// saturating conversion to an unsigned integer type does.
pub fn saturate_unsigned(bits: u64, hi: u64) -> (r: u64)
    ensures
        r == spec_saturated(bits, 0, hi as int),
{
    match truncate(bits) {
        Truncated::NotANumber => 0,
        Truncated::Huge { negative } => if negative {
            0
        } else {
            hi
        },
        Truncated::Finite { negative, magnitude, exact } => {
            if negative {
                0
            } else if magnitude > hi {
                hi
            } else {
                magnitude
            }
        },
    }
}

/// The position of the highest set bit of `a`, looked for from bit `i`
/// down: the largest `p <= i` with `2^p <= a`, and 0 where there is none.
pub open spec fn spec_high_bit(a: int, i: nat) -> nat
    decreases i,
{
    if i == 0 || a >= pow2(i) {
        i
    } else {
        spec_high_bit(a, (i - 1) as nat)
    }
}

/// The significand of the floating-point number nearest to the positive
/// integer `a`, whose highest set bit is bit `p`: `a` scaled to 53 bits,
/// rounded to nearest where bits are lost, ties to even.
pub open spec fn spec_rounded_significand(a: int, p: nat) -> int {
    if p <= 52 {
        a * pow2((52 - p) as nat)
    } else {
        let unit = pow2((p - 52) as nat) as int;
        let half = pow2((p - 53) as nat) as int;
        let q = a / unit;
        let r = a % unit;
        if r > half || (r == half && q % 2 == 1) {
            q + 1
        } else {
            q
        }
    }
}

/// The encoding of the floating-point number nearest to the integer `n`.
pub open spec fn spec_from_integer(n: i64) -> u64 {
    if n == 0 {
        0
    } else {
        let a: int = if n < 0 {
            -(n as int)
        } else {
            n as int
        };
        let p = spec_high_bit(a, 63);
        let m = spec_rounded_significand(a, p);
        let sign: int = if n < 0 {
            SIGN_BIT as int
        } else {
            0
        };
        (sign + (p + 1023) * HIDDEN_BIT + (m - HIDDEN_BIT)) as u64
    }
}

/// The highest set bit of a positive number is the one bit `p` with
/// `2^p <= a < 2^(p+1)`.
pub proof fn lemma_high_bit(a: int, i: nat)
    requires
        1 <= a < pow2(i + 1),
    ensures
        spec_high_bit(a, i) <= i,
        pow2(spec_high_bit(a, i)) <= a < pow2(spec_high_bit(a, i) + 1),
    decreases i,
{
    lemma2_to64();
    if i == 0 || a >= pow2(i) {
    } else {
        lemma_high_bit(a, (i - 1) as nat);
    }
}

/// The position of the highest set bit of a positive number.
pub fn high_bit(a: u64) -> (p: u64)
    requires
        a >= 1,
    ensures
        p == spec_high_bit(a as int, 63),
        p <= 63,
        pow2(p as nat) <= a,
        p < 63 ==> a < pow2((p + 1) as nat),
{
    let mut i: u64 = 63;
    proof {
        lemma2_to64();
        lemma2_to64_rest();
    }
    while i > 0 && a < pow2_u64(i)
        invariant
            i <= 63,
            a >= 1,
            spec_high_bit(a as int, 63) == spec_high_bit(a as int, i as nat),
            i < 63 ==> a < pow2((i + 1) as nat),
        decreases i,
    {
        i = i - 1;
    }
    proof {
        lemma2_to64();
    }
    i
}

/// The encoding of the floating-point number nearest to the integer `n`,
/// ties to even.
pub fn from_integer(n: i64) -> (bits: u64)
    ensures
        bits == spec_from_integer(n),
        spec_is_finite(bits),
        spec_negative(bits) == (n < 0),
{
    if n == 0 {
        proof {
            lemma2_to64();
        }
        return 0;
    }
    let a: u64 = if n < 0 {
        (0 - n as i128) as u64
    } else {
        n as u64
    };
    let p = high_bit(a);
    proof {
        lemma2_to64();
        lemma2_to64_rest();
    }
    let m: u64 = if p <= 52 {
        let scale = pow2_u64(52 - p);
        proof {
            lemma_pow2_adds(p as nat, (52 - p) as nat);
            lemma_pow2_adds((p + 1) as nat, (52 - p) as nat);
            lemma_pow2_pos((52 - p) as nat);
            assert(a * scale < 0x20_0000_0000_0000) by (nonlinear_arith)
                requires
                    a < pow2((p + 1) as nat),
                    scale == pow2((52 - p) as nat),
                    pow2((p + 1) as nat) * pow2((52 - p) as nat) == 0x20_0000_0000_0000,
                    scale > 0,
            ;
            assert(a * scale >= 0x10_0000_0000_0000) by (nonlinear_arith)
                requires
                    a >= pow2(p as nat),
                    scale == pow2((52 - p) as nat),
                    pow2(p as nat) * pow2((52 - p) as nat) == 0x10_0000_0000_0000,
                    scale > 0,
            ;
        }
        a * scale
    } else {
        let unit = pow2_u64(p - 52);
        let half = pow2_u64(p - 53);
        let q = a / unit;
        let r = a % unit;
        proof {
            lemma_pow2_pos((p - 52) as nat);
            lemma_pow2_adds((p - 52) as nat, 52);
            if p < 63 {
                lemma_pow2_adds((p - 52) as nat, 53);
            }
            let u = unit as int;
            vstd::arithmetic::div_mod::lemma_fundamental_div_mod(a as int, u);
            assert(q >= 0x10_0000_0000_0000 && q < 0x20_0000_0000_0000) by (nonlinear_arith)
                requires
                    a == u * q + r,
                    0 <= r < u,
                    u > 0,
                    a >= u * 0x10_0000_0000_0000,
                    a < u * 0x20_0000_0000_0000,
            ;
        }
        if r > half || (r == half && q % 2 == 1) {
            q + 1
        } else {
            q
        }
    };
    let sign: u64 = if n < 0 {
        SIGN_BIT
    } else {
        0
    };
    assert(0x10_0000_0000_0000 <= m <= 0x20_0000_0000_0000);
    assert(m == spec_rounded_significand(a as int, p as nat));
    let bits = sign + (p + 1023) * HIDDEN_BIT + (m - HIDDEN_BIT);
    proof {
        let raw = (p + 1023) as int;
        let hb = HIDDEN_BIT as int;
        if m < 0x20_0000_0000_0000 {
            vstd::arithmetic::div_mod::lemma_fundamental_div_mod_converse(
                bits as int,
                hb,
                raw + (if n < 0 {
                    2048int
                } else {
                    0int
                }),
                m - hb,
            );
        } else {
            vstd::arithmetic::div_mod::lemma_fundamental_div_mod_converse(
                bits as int,
                hb,
                raw + 1 + (if n < 0 {
                    2048int
                } else {
                    0int
                }),
                0,
            );
        }
    }
    bits
}

/// An integer of at most 53 bits comes back exactly from the
/// floating-point number nearest to it.
pub proof fn lemma_from_integer_exact(n: i64)
    requires
        -0x20_0000_0000_0000 <= n <= 0x20_0000_0000_0000,
    ensures
        spec_to_integer(spec_from_integer(n)) == Some(n),
{
    lemma2_to64();
    lemma2_to64_rest();
    if n != 0 {
        let a: int = if n < 0 {
            -(n as int)
        } else {
            n as int
        };
        lemma_high_bit(a, 63);
        let p = spec_high_bit(a, 63);
        if p > 53 {
            lemma_pow2_strictly_increases(53, p);
        }
        let m = spec_rounded_significand(a, p);
        let bits = spec_from_integer(n);
        let sign: int = if n < 0 {
            SIGN_BIT as int
        } else {
            0
        };
        if p <= 52 {
            let scale = pow2((52 - p) as nat) as int;
            lemma_pow2_pos((52 - p) as nat);
            lemma_pow2_adds(p, (52 - p) as nat);
            lemma_pow2_adds(p + 1, (52 - p) as nat);
            assert(0x10_0000_0000_0000 <= m < 0x20_0000_0000_0000) by (nonlinear_arith)
                requires
                    m == a * scale,
                    pow2(p) <= a < pow2(p + 1),
                    pow2(p) * scale == 0x10_0000_0000_0000,
                    pow2(p + 1) * scale == 0x20_0000_0000_0000,
                    scale > 0,
            ;
            let f = m - HIDDEN_BIT;
            assert(bits as int == sign + (p + 1023) * HIDDEN_BIT + f);
            assert(spec_fraction(bits) == f);
            assert(spec_raw_exponent(bits) == p + 1023);
            assert(spec_significand(bits) == m);
            assert(spec_exponent(bits) == p - 52);
            if p == 52 {
                assert(m * pow2(0) == a) by (nonlinear_arith)
                    requires
                        m == a * scale,
                        scale == 1,
                        pow2(0) == 1,
                ;
            } else {
                vstd::arithmetic::div_mod::lemma_div_by_multiple(a, scale);
                vstd::arithmetic::div_mod::lemma_mod_multiples_basic(a, scale);
            }
            assert(spec_magnitude(bits) == a);
            assert(spec_is_integral(bits));
        } else {
            // a == 2^53
            assert(p == 53);
            assert(a == 0x20_0000_0000_0000);
            assert(pow2(0) == 1 && pow2(1) == 2);
            assert(a / 2 == 0x10_0000_0000_0000 && a % 2 == 0);
            assert(m == 0x10_0000_0000_0000);
            assert(bits as int == sign + 1076 * HIDDEN_BIT);
            assert(spec_fraction(bits) == 0);
            assert(spec_raw_exponent(bits) == 1076);
            assert(spec_significand(bits) == 0x10_0000_0000_0000);
            assert(spec_exponent(bits) == 1);
            assert(spec_magnitude(bits) == 0x10_0000_0000_0000 * pow2(1));
            assert(spec_magnitude(bits) == a);
        }
        assert(spec_is_finite(bits));
        assert(spec_is_integral(bits));
        assert(spec_negative(bits) == (n < 0));
        assert(spec_truncated(bits) == n);
    } else {
        lemma_pow2_pos(1074);
        let d = pow2(1074) as int;
        assert(0int / d == 0 && 0int % d == 0) by (nonlinear_arith)
            requires
                d > 0,
        ;
        assert(spec_raw_exponent(0) == 0 && spec_fraction(0) == 0);
        assert(spec_magnitude(0) == 0);
    }
}

/// The absolute value of an integer.
pub open spec fn spec_abs(n: int) -> int {
    if n < 0 {
        -n
    } else {
        n
    }
}

/// The floating-point number made from an integer of more than 53 bits is
/// the nearest one: it is a multiple of the spacing of floats at that
/// size, it is no further from the integer than half the spacing, and
/// where the integer lies half-way between two floats, the one with the
/// even significand is taken.
pub proof fn lemma_from_integer_nearest(n: i64)
    requires
        spec_abs(n as int) >= 0x20_0000_0000_0000,
    ensures
        ({
            let bits = spec_from_integer(n);
            let p = spec_high_bit(spec_abs(n as int), 63);
            let unit = pow2((p - 52) as nat) as int;
            &&& p >= 53
            &&& spec_is_finite(bits)
            &&& spec_is_integral(bits)
            &&& spec_negative(bits) == (n < 0)
            &&& spec_magnitude(bits) % unit == 0
            &&& 2 * spec_abs(spec_truncated(bits) - n) <= unit
            &&& 2 * spec_abs(spec_truncated(bits) - n) == unit ==> (spec_magnitude(bits) / unit) % 2
                == 0
        }),
{
    lemma2_to64();
    lemma2_to64_rest();
    let a = spec_abs(n as int);
    lemma_high_bit(a, 63);
    let p = spec_high_bit(a, 63);
    if p < 53 {
        if p < 52 {
            lemma_pow2_strictly_increases(p + 1, 53);
        }
        assert(false);
    }
    let shift = (p - 52) as nat;
    let unit = pow2(shift) as int;
    let half = pow2((p - 53) as nat) as int;
    lemma_pow2_pos(shift);
    lemma_pow2_unfold(shift);
    assert(unit == 2 * half);
    lemma_pow2_adds(shift, 52);
    lemma_pow2_adds(shift, 53);
    let q = a / unit;
    let r = a % unit;
    vstd::arithmetic::div_mod::lemma_fundamental_div_mod(a, unit);
    assert(0 <= r < unit);
    assert(0x10_0000_0000_0000 <= q < 0x20_0000_0000_0000) by (nonlinear_arith)
        requires
            a == unit * q + r,
            0 <= r < unit,
            unit > 0,
            a >= unit * 0x10_0000_0000_0000,
            a < unit * 0x20_0000_0000_0000,
    ;
    let m = spec_rounded_significand(a, p);
    assert(m == q || m == q + 1);
    let bits = spec_from_integer(n);
    let sign: int = if n < 0 {
        SIGN_BIT as int
    } else {
        0
    };
    let hb = HIDDEN_BIT as int;
    assert(bits as int == sign + (p + 1023) * hb + (m - hb));
    // what the encoding holds: the significand and the exponent
    let (sig, e): (int, int) = if m < 0x20_0000_0000_0000 {
        (m, p - 52)
    } else {
        (hb, p - 51)
    };
    if m < 0x20_0000_0000_0000 {
        assert(spec_fraction(bits) == m - hb);
        assert(spec_raw_exponent(bits) == p + 1023);
    } else {
        assert(bits as int == sign + (p + 1024) * hb);
        assert(spec_fraction(bits) == 0);
        assert(spec_raw_exponent(bits) == p + 1024);
        lemma_pow2_unfold((p - 51) as nat);
    }
    assert(spec_significand(bits) == sig);
    assert(spec_exponent(bits) == e);
    assert(spec_magnitude(bits) == sig * pow2(e as nat));
    assert(spec_magnitude(bits) == m * unit) by (nonlinear_arith)
        requires
            spec_magnitude(bits) == sig * pow2(e as nat),
            m < 0x20_0000_0000_0000 ==> sig == m && pow2(e as nat) == unit,
            m >= 0x20_0000_0000_0000 ==> m == 0x20_0000_0000_0000 && sig
                == 0x10_0000_0000_0000 && pow2(e as nat) == 2 * unit,
    ;
    vstd::arithmetic::div_mod::lemma_mod_multiples_basic(m, unit);
    vstd::arithmetic::div_mod::lemma_div_by_multiple(m, unit);
    let mag = spec_magnitude(bits);
    assert(mag - a == m * unit - (unit * q + r));
    assert(mag - a == (m - q) * unit - r) by (nonlinear_arith)
        requires
            mag - a == m * unit - (unit * q + r),
    ;
    if m == q {
        assert(mag - a == -r) by (nonlinear_arith)
            requires
                mag - a == (m - q) * unit - r,
                m == q,
        ;
    } else {
        assert(mag - a == unit - r) by (nonlinear_arith)
            requires
                mag - a == (m - q) * unit - r,
                m == q + 1,
        ;
    }
    assert(spec_abs(spec_truncated(bits) - n) == spec_abs(mag - a));
}

} // verus!
