//! Integer numerals: the strings that are read as integers where a number
//! is asked for.
//!
//! A numeral is a run of decimal digits, or `0x` and a run of hexadecimal
//! digits, with an optional sign before it and white space around it. A
//! decimal numeral that is no 64-bit integer is no integer numeral; a
//! hexadecimal one wraps around.

use vstd::prelude::*;
use crate::intconv::spec_wrap;

verus! {

/// The largest magnitude that a decimal numeral is followed up to: one
/// more than the magnitude of the least integer.
pub const DECIMAL_CAP: u64 = 0x8000_0000_0000_0001;

/// Whether `c` is white space: a blank, or a control from the horizontal
/// tab to the carriage return.
pub open spec fn spec_is_space(c: u8) -> bool {
    c == 32 || (9 <= c && c <= 13)
}

/// The value of `c` as a digit, hexadecimal if `hex` and decimal
/// otherwise; `None` where it is no digit.
pub open spec fn spec_digit(c: u8, hex: bool) -> Option<int> {
    if 48 <= c && c <= 57 {
        Some(c - 48)
    } else if hex && 97 <= c && c <= 102 {
        Some(c - 87)
    } else if hex && 65 <= c && c <= 70 {
        Some(c - 55)
    } else {
        None
    }
}

/// The base that digits are counted in.
pub open spec fn spec_base(hex: bool) -> int {
    if hex {
        16
    } else {
        10
    }
}

/// The first position from `i` on that holds no white space.
pub open spec fn spec_skip(text: Seq<u8>, i: int) -> int
    decreases text.len() - i,
{
    if 0 <= i && i < text.len() && spec_is_space(text[i]) {
        spec_skip(text, i + 1)
    } else {
        i
    }
}

/// The first position from `i` on that holds no digit.
pub open spec fn spec_run(text: Seq<u8>, i: int, hex: bool) -> int
    decreases text.len() - i,
{
    if 0 <= i && i < text.len() && spec_digit(text[i], hex).is_some() {
        spec_run(text, i + 1, hex)
    } else {
        i
    }
}

/// The number that the digits of `text` from `from` up to `to` spell.
pub open spec fn spec_value(text: Seq<u8>, from: int, to: int, hex: bool) -> int
    decreases to - from,
{
    if 0 <= from && from < to && to <= text.len() {
        spec_value(text, from, to - 1, hex) * spec_base(hex) + match spec_digit(text[to - 1], hex) {
            Some(d) => d,
            None => 0,
        }
    } else {
        0
    }
}

/// The integer that the hexadecimal digits of `text` from `b` on stand
/// for, negated if `neg` and counted modulo 2^64, if nothing but white
/// space follows them.
pub open spec fn spec_hex_numeral(text: Seq<u8>, b: int, neg: bool) -> Option<i64> {
    let e = spec_run(text, b, true);
    let v = spec_value(text, b, e, true);
    if e > b && spec_skip(text, e) == text.len() {
        Some(
            spec_wrap(
                if neg {
                    -v
                } else {
                    v
                },
                -0x8000_0000_0000_0000,
                0x1_0000_0000_0000_0000,
            ) as i64,
        )
    } else {
        None
    }
}

/// The integer that the decimal digits of `text` from `b` on stand for,
/// negated if `neg`, if nothing but white space follows them and the
/// integer has 64 bits.
pub open spec fn spec_decimal_numeral(text: Seq<u8>, b: int, neg: bool) -> Option<i64> {
    let e = spec_run(text, b, false);
    let v = spec_value(text, b, e, false);
    if e > b && spec_skip(text, e) == text.len() && v <= (if neg {
        0x8000_0000_0000_0000int
    } else {
        0x7fff_ffff_ffff_ffffint
    }) {
        Some(
            (if neg {
                -v
            } else {
                v
            }) as i64,
        )
    } else {
        None
    }
}

/// The integer that the numeral `text` stands for, if `text` is an
/// integer numeral.
pub open spec fn spec_numeral(text: Seq<u8>) -> Option<i64> {
    let a = spec_skip(text, 0);
    let neg = a < text.len() && text[a] == 45;
    let b = if a < text.len() && (text[a] == 45 || text[a] == 43) {
        a + 1
    } else {
        a
    };
    if b + 1 < text.len() && text[b] == 48 && (text[b + 1] == 120 || text[b + 1] == 88) {
        spec_hex_numeral(text, b + 2, neg)
    } else {
        spec_decimal_numeral(text, b, neg)
    }
}

/// Whether `c` is white space.
pub fn is_space(c: u8) -> (r: bool)
    ensures
        r == spec_is_space(c),
{
    c == 32 || (9 <= c && c <= 13)
}

/// The value of `c` as a digit, hexadecimal if `hex` and decimal
/// otherwise.
pub fn digit(c: u8, hex: bool) -> (r: Option<u8>)
    ensures
        match r {
            Some(d) => spec_digit(c, hex) == Some(d as int) && d < spec_base(hex),
            None => spec_digit(c, hex).is_none(),
        },
{
    if 48 <= c && c <= 57 {
        Some(c - 48)
    } else if hex && 97 <= c && c <= 102 {
        Some(c - 87)
    } else if hex && 65 <= c && c <= 70 {
        Some(c - 55)
    } else {
        None
    }
}

/// The first position from `i` on that holds no white space.
pub fn skip(text: &[u8], i: usize) -> (j: usize)
    requires
        i <= text@.len(),
    ensures
        j == spec_skip(text@, i as int),
        i <= j && j <= text@.len(),
{
    let mut j: usize = i;
    while j < text.len() && is_space(text[j])
        invariant
            i <= j && j <= text@.len(),
            spec_skip(text@, j as int) == spec_skip(text@, i as int),
        decreases text@.len() - j,
    {
        j = j + 1;
    }
    j
}

/// Follows the run of decimal digits from `i` on: where it ends, and the
/// number that it spells, or `DECIMAL_CAP` where that is less.
pub fn decimal_run(text: &[u8], i: usize) -> (r: (usize, u64))
    requires
        i <= text@.len(),
    ensures
        r.0 == spec_run(text@, i as int, false),
        i <= r.0 && r.0 <= text@.len(),
        r.1 == if spec_value(text@, i as int, r.0 as int, false) < DECIMAL_CAP {
            spec_value(text@, i as int, r.0 as int, false)
        } else {
            DECIMAL_CAP as int
        },
{
    let mut j: usize = i;
    let mut a: u64 = 0;
    while j < text.len()
        invariant
            i <= j && j <= text@.len(),
            spec_run(text@, j as int, false) == spec_run(text@, i as int, false),
            0 <= spec_value(text@, i as int, j as int, false),
            a == if spec_value(text@, i as int, j as int, false) < DECIMAL_CAP {
                spec_value(text@, i as int, j as int, false)
            } else {
                DECIMAL_CAP as int
            },
        decreases text@.len() - j,
    {
        match digit(text[j], false) {
            Some(d) => {
                a = if a > 922337203685477580 {
                    DECIMAL_CAP
                } else if a * 10 + d as u64 > DECIMAL_CAP {
                    DECIMAL_CAP
                } else {
                    a * 10 + d as u64
                };
                j = j + 1;
            },
            None => {
                return (j, a);
            },
        }
    }
    (j, a)
}

/// Follows the run of hexadecimal digits from `i` on: where it ends, and
/// the low 64 bits of the number that it spells.
pub fn hex_run(text: &[u8], i: usize) -> (r: (usize, u64))
    requires
        i <= text@.len(),
    ensures
        r.0 == spec_run(text@, i as int, true),
        i <= r.0 && r.0 <= text@.len(),
        0 <= spec_value(text@, i as int, r.0 as int, true),
        r.1 == spec_value(text@, i as int, r.0 as int, true) % 0x1_0000_0000_0000_0000,
{
    let mut j: usize = i;
    let mut a: u64 = 0;
    while j < text.len()
        invariant
            i <= j && j <= text@.len(),
            spec_run(text@, j as int, true) == spec_run(text@, i as int, true),
            0 <= spec_value(text@, i as int, j as int, true),
            a == spec_value(text@, i as int, j as int, true) % 0x1_0000_0000_0000_0000,
        decreases text@.len() - j,
    {
        match digit(text[j], true) {
            Some(d) => {
                a = (a % 0x1000_0000_0000_0000) * 16 + d as u64;
                j = j + 1;
            },
            None => {
                return (j, a);
            },
        }
    }
    (j, a)
}

/// Wrapping a number around gives what wrapping its low 64 bits gives.
pub proof fn lemma_wrap_low(v: int, neg: bool)
    requires
        0 <= v,
    ensures
        spec_wrap(
            if neg {
                -v
            } else {
                v
            },
            -0x8000_0000_0000_0000,
            0x1_0000_0000_0000_0000,
        ) == spec_wrap(
            if neg {
                -(v % 0x1_0000_0000_0000_0000)
            } else {
                v % 0x1_0000_0000_0000_0000
            },
            -0x8000_0000_0000_0000,
            0x1_0000_0000_0000_0000,
        ),
{
}

/// The 64-bit integer that the magnitude `a` stands for, negated if
/// `neg`, counted modulo 2^64.
pub fn signed(a: u64, neg: bool) -> (r: i64)
    ensures
        r == spec_wrap(
            if neg {
                -(a as int)
            } else {
                a as int
            },
            -0x8000_0000_0000_0000,
            0x1_0000_0000_0000_0000,
        ),
{
    if neg {
        if a == 0 {
            0
        } else if a <= 0x8000_0000_0000_0000 {
            ((0x8000_0000_0000_0000 - a) as i64) + i64::MIN
        } else {
            (u64::MAX - a + 1) as i64
        }
    } else if a <= 0x7fff_ffff_ffff_ffff {
        a as i64
    } else {
        ((a - 0x8000_0000_0000_0000) as i64) + i64::MIN
    }
}

/// The integer that the hexadecimal digits of `text` from `b` on stand
/// for, negated if `neg`.
pub fn hex_numeral(text: &[u8], b: usize, neg: bool) -> (r: Option<i64>)
    requires
        b <= text@.len(),
    ensures
        r == spec_hex_numeral(text@, b as int, neg),
{
    let (e, v) = hex_run(text, b);
    if e > b && skip(text, e) == text.len() {
        let r = signed(v, neg);
        proof {
            let full = spec_value(text@, b as int, e as int, true);
            lemma_wrap_low(full, neg);
        }
        Some(r)
    } else {
        None
    }
}

/// The integer that the decimal digits of `text` from `b` on stand for,
/// negated if `neg`.
pub fn decimal_numeral(text: &[u8], b: usize, neg: bool) -> (r: Option<i64>)
    requires
        b <= text@.len(),
    ensures
        r == spec_decimal_numeral(text@, b as int, neg),
{
    let (e, v) = decimal_run(text, b);
    if e > b && skip(text, e) == text.len() {
        if neg {
            if v < 0x8000_0000_0000_0000 {
                Some(-(v as i64))
            } else if v == 0x8000_0000_0000_0000 {
                Some(i64::MIN)
            } else {
                None
            }
        } else if v <= 0x7fff_ffff_ffff_ffff {
            Some(v as i64)
        } else {
            None
        }
    } else {
        None
    }
}

/// The integer that the numeral `text` stands for, if `text` is an
/// integer numeral.
pub fn numeral(text: &[u8]) -> (r: Option<i64>)
    ensures
        r == spec_numeral(text@),
{
    let n: usize = text.len();
    let a: usize = skip(text, 0);
    let neg = a < n && text[a] == 45;
    let b: usize = if a < n && (text[a] == 45 || text[a] == 43) {
        a + 1
    } else {
        a
    };
    if b < n && n - b > 1 && text[b] == 48 && (text[b + 1] == 120 || text[b + 1] == 88) {
        hex_numeral(text, b + 2, neg)
    } else {
        decimal_numeral(text, b, neg)
    }
}

} // verus!
