//! The conversion protocol for the host's integer types.
//!
//! An integer is pushed as an interpreter integer. It is read from an
//! interpreter integer by wrapping, and from a floating-point number by
//! rounding towards zero and saturating; a string that is an integer
//! numeral is read as the floating-point number nearest to that integer.
//! Read strictly, only an interpreter integer is accepted.

use vstd::prelude::*;
use vstd::string::StringSliceAdditionalSpecFns;
use crate::convert::{lemma_extends_slot, lemma_pushed_slot, FromLua, RoundTrip, Strict, ToLua};
use crate::error::text;
use crate::intconv::{
    from_unsigned, lemma_unsigned_round_trip, spec_from_unsigned, spec_wrap, wrap_i16, wrap_i32, wrap_i8, wrap_isize,
    wrap_u16, wrap_u32, wrap_u64, wrap_u8, wrap_usize,
};
use crate::number::{saturate, saturate_unsigned, spec_saturated};
use crate::slot::Slot;
use crate::stack::Index;
use crate::state::{State, StateView};

verus! {

impl ToLua for i8 {
    open spec fn spec_is_top() -> bool {
        false
    }

    open spec fn spec_pushable(&self, pre: StateView) -> bool {
        true
    }

    open spec fn spec_pushed(&self, pre: StateView) -> StateView {
        pre.pushed(Slot::Int(*self as i64))
    }

    proof fn lemma_pushed(&self, pre: StateView) {
        lemma_pushed_slot(pre, Slot::Int(*self as i64));
    }

    fn is_top() -> (b: bool) {
        false
    }

    fn to_lua(self, s: &mut State) {
        s.push_integer(self as i64);
    }
}

impl FromLua for i8 {
    open spec fn spec_tname() -> Seq<u8> {
        "i8".spec_bytes()
    }

    open spec fn spec_from_lua(s: StateView, i: int) -> Option<i8> {
        match s.slot_at(i) {
            Some(Slot::Int(n)) => Some(spec_wrap(n as int, -0x80, 0x100) as i8),
            Some(Slot::Num(b)) => Some(spec_saturated(b, i8::MIN as int, i8::MAX as int) as i8),
            _ => match s.number_at(i) {
                Some(b) => Some(spec_saturated(b, i8::MIN as int, i8::MAX as int) as i8),
                None => None,
            },
        }
    }

    fn tname() -> (n: Vec<u8>) {
        text("i8")
    }

    fn from_lua(s: &State, i: Index) -> (r: Option<Self>) {
        match s.slot(i) {
            Some(Slot::Int(n)) => Some(wrap_i8(n)),
            Some(Slot::Num(b)) => Some(saturate(b, i8::MIN as i64, i8::MAX as i64) as i8),
            _ => match s.to_numberx(i) {
                Some(b) => Some(saturate(b, i8::MIN as i64, i8::MAX as i64) as i8),
                None => None,
            },
        }
    }
}

impl FromLua for Strict<i8> {
    open spec fn spec_tname() -> Seq<u8> {
        "strict i8".spec_bytes()
    }

    open spec fn spec_from_lua(s: StateView, i: int) -> Option<i8> {
        match s.slot_at(i) {
            Some(Slot::Int(n)) => Some(spec_wrap(n as int, -0x80, 0x100) as i8),
            _ => None,
        }
    }

    fn tname() -> (n: Vec<u8>) {
        text("strict i8")
    }

    fn from_lua(s: &State, i: Index) -> (r: Option<Self>) {
        match s.slot(i) {
            Some(Slot::Int(n)) => Some(Strict(wrap_i8(n))),
            _ => None,
        }
    }
}

impl RoundTrip for i8 {
    open spec fn spec_representable(&self, pre: StateView) -> bool {
        true
    }

    proof fn lemma_round_trip(&self, pre: StateView) {
        lemma_pushed_slot(pre, Slot::Int(*self as i64));
    }

    proof fn lemma_stays(&self, pre: StateView, post: StateView) {
        self.lemma_round_trip(pre);
        lemma_extends_slot(self.spec_pushed(pre), post, pre.top() + 1);
    }
}

impl ToLua for i16 {
    open spec fn spec_is_top() -> bool {
        false
    }

    open spec fn spec_pushable(&self, pre: StateView) -> bool {
        true
    }

    open spec fn spec_pushed(&self, pre: StateView) -> StateView {
        pre.pushed(Slot::Int(*self as i64))
    }

    proof fn lemma_pushed(&self, pre: StateView) {
        lemma_pushed_slot(pre, Slot::Int(*self as i64));
    }

    fn is_top() -> (b: bool) {
        false
    }

    fn to_lua(self, s: &mut State) {
        s.push_integer(self as i64);
    }
}

impl FromLua for i16 {
    open spec fn spec_tname() -> Seq<u8> {
        "i16".spec_bytes()
    }

    open spec fn spec_from_lua(s: StateView, i: int) -> Option<i16> {
        match s.slot_at(i) {
            Some(Slot::Int(n)) => Some(spec_wrap(n as int, -0x8000, 0x1_0000) as i16),
            Some(Slot::Num(b)) => Some(spec_saturated(b, i16::MIN as int, i16::MAX as int) as i16),
            _ => match s.number_at(i) {
                Some(b) => Some(spec_saturated(b, i16::MIN as int, i16::MAX as int) as i16),
                None => None,
            },
        }
    }

    fn tname() -> (n: Vec<u8>) {
        text("i16")
    }

    fn from_lua(s: &State, i: Index) -> (r: Option<Self>) {
        match s.slot(i) {
            Some(Slot::Int(n)) => Some(wrap_i16(n)),
            Some(Slot::Num(b)) => Some(saturate(b, i16::MIN as i64, i16::MAX as i64) as i16),
            _ => match s.to_numberx(i) {
                Some(b) => Some(saturate(b, i16::MIN as i64, i16::MAX as i64) as i16),
                None => None,
            },
        }
    }
}

impl FromLua for Strict<i16> {
    open spec fn spec_tname() -> Seq<u8> {
        "strict i16".spec_bytes()
    }

    open spec fn spec_from_lua(s: StateView, i: int) -> Option<i16> {
        match s.slot_at(i) {
            Some(Slot::Int(n)) => Some(spec_wrap(n as int, -0x8000, 0x1_0000) as i16),
            _ => None,
        }
    }

    fn tname() -> (n: Vec<u8>) {
        text("strict i16")
    }

    fn from_lua(s: &State, i: Index) -> (r: Option<Self>) {
        match s.slot(i) {
            Some(Slot::Int(n)) => Some(Strict(wrap_i16(n))),
            _ => None,
        }
    }
}

impl RoundTrip for i16 {
    open spec fn spec_representable(&self, pre: StateView) -> bool {
        true
    }

    proof fn lemma_round_trip(&self, pre: StateView) {
        lemma_pushed_slot(pre, Slot::Int(*self as i64));
    }

    proof fn lemma_stays(&self, pre: StateView, post: StateView) {
        self.lemma_round_trip(pre);
        lemma_extends_slot(self.spec_pushed(pre), post, pre.top() + 1);
    }
}

impl ToLua for i32 {
    open spec fn spec_is_top() -> bool {
        false
    }

    open spec fn spec_pushable(&self, pre: StateView) -> bool {
        true
    }

    open spec fn spec_pushed(&self, pre: StateView) -> StateView {
        pre.pushed(Slot::Int(*self as i64))
    }

    proof fn lemma_pushed(&self, pre: StateView) {
        lemma_pushed_slot(pre, Slot::Int(*self as i64));
    }

    fn is_top() -> (b: bool) {
        false
    }

    fn to_lua(self, s: &mut State) {
        s.push_integer(self as i64);
    }
}

impl FromLua for i32 {
    open spec fn spec_tname() -> Seq<u8> {
        "i32".spec_bytes()
    }

    open spec fn spec_from_lua(s: StateView, i: int) -> Option<i32> {
        match s.slot_at(i) {
            Some(Slot::Int(n)) => Some(spec_wrap(n as int, -0x8000_0000, 0x1_0000_0000) as i32),
            Some(Slot::Num(b)) => Some(spec_saturated(b, i32::MIN as int, i32::MAX as int) as i32),
            _ => match s.number_at(i) {
                Some(b) => Some(spec_saturated(b, i32::MIN as int, i32::MAX as int) as i32),
                None => None,
            },
        }
    }

    fn tname() -> (n: Vec<u8>) {
        text("i32")
    }

    fn from_lua(s: &State, i: Index) -> (r: Option<Self>) {
        match s.slot(i) {
            Some(Slot::Int(n)) => Some(wrap_i32(n)),
            Some(Slot::Num(b)) => Some(saturate(b, i32::MIN as i64, i32::MAX as i64) as i32),
            _ => match s.to_numberx(i) {
                Some(b) => Some(saturate(b, i32::MIN as i64, i32::MAX as i64) as i32),
                None => None,
            },
        }
    }
}

impl FromLua for Strict<i32> {
    open spec fn spec_tname() -> Seq<u8> {
        "strict i32".spec_bytes()
    }

    open spec fn spec_from_lua(s: StateView, i: int) -> Option<i32> {
        match s.slot_at(i) {
            Some(Slot::Int(n)) => Some(spec_wrap(n as int, -0x8000_0000, 0x1_0000_0000) as i32),
            _ => None,
        }
    }

    fn tname() -> (n: Vec<u8>) {
        text("strict i32")
    }

    fn from_lua(s: &State, i: Index) -> (r: Option<Self>) {
        match s.slot(i) {
            Some(Slot::Int(n)) => Some(Strict(wrap_i32(n))),
            _ => None,
        }
    }
}

impl RoundTrip for i32 {
    open spec fn spec_representable(&self, pre: StateView) -> bool {
        true
    }

    proof fn lemma_round_trip(&self, pre: StateView) {
        lemma_pushed_slot(pre, Slot::Int(*self as i64));
    }

    proof fn lemma_stays(&self, pre: StateView, post: StateView) {
        self.lemma_round_trip(pre);
        lemma_extends_slot(self.spec_pushed(pre), post, pre.top() + 1);
    }
}

impl ToLua for i64 {
    open spec fn spec_is_top() -> bool {
        false
    }

    open spec fn spec_pushable(&self, pre: StateView) -> bool {
        true
    }

    open spec fn spec_pushed(&self, pre: StateView) -> StateView {
        pre.pushed(Slot::Int(*self as i64))
    }

    proof fn lemma_pushed(&self, pre: StateView) {
        lemma_pushed_slot(pre, Slot::Int(*self as i64));
    }

    fn is_top() -> (b: bool) {
        false
    }

    fn to_lua(self, s: &mut State) {
        s.push_integer(self);
    }
}

impl FromLua for i64 {
    open spec fn spec_tname() -> Seq<u8> {
        "i64".spec_bytes()
    }

    open spec fn spec_from_lua(s: StateView, i: int) -> Option<i64> {
        match s.slot_at(i) {
            Some(Slot::Int(n)) => Some(n),
            Some(Slot::Num(b)) => Some(spec_saturated(b, i64::MIN as int, i64::MAX as int) as i64),
            _ => match s.number_at(i) {
                Some(b) => Some(spec_saturated(b, i64::MIN as int, i64::MAX as int) as i64),
                None => None,
            },
        }
    }

    fn tname() -> (n: Vec<u8>) {
        text("i64")
    }

    fn from_lua(s: &State, i: Index) -> (r: Option<Self>) {
        match s.slot(i) {
            Some(Slot::Int(n)) => Some(n),
            Some(Slot::Num(b)) => Some(saturate(b, i64::MIN, i64::MAX)),
            _ => match s.to_numberx(i) {
                Some(b) => Some(saturate(b, i64::MIN, i64::MAX)),
                None => None,
            },
        }
    }
}

impl FromLua for Strict<i64> {
    open spec fn spec_tname() -> Seq<u8> {
        "strict i64".spec_bytes()
    }

    open spec fn spec_from_lua(s: StateView, i: int) -> Option<i64> {
        match s.slot_at(i) {
            Some(Slot::Int(n)) => Some(n),
            _ => None,
        }
    }

    fn tname() -> (n: Vec<u8>) {
        text("strict i64")
    }

    fn from_lua(s: &State, i: Index) -> (r: Option<Self>) {
        match s.slot(i) {
            Some(Slot::Int(n)) => Some(Strict(n)),
            _ => None,
        }
    }
}

impl RoundTrip for i64 {
    open spec fn spec_representable(&self, pre: StateView) -> bool {
        true
    }

    proof fn lemma_round_trip(&self, pre: StateView) {
        lemma_pushed_slot(pre, Slot::Int(*self as i64));
    }

    proof fn lemma_stays(&self, pre: StateView, post: StateView) {
        self.lemma_round_trip(pre);
        lemma_extends_slot(self.spec_pushed(pre), post, pre.top() + 1);
    }
}

impl ToLua for isize {
    open spec fn spec_is_top() -> bool {
        false
    }

    open spec fn spec_pushable(&self, pre: StateView) -> bool {
        true
    }

    open spec fn spec_pushed(&self, pre: StateView) -> StateView {
        pre.pushed(Slot::Int(*self as i64))
    }

    proof fn lemma_pushed(&self, pre: StateView) {
        lemma_pushed_slot(pre, Slot::Int(*self as i64));
    }

    fn is_top() -> (b: bool) {
        false
    }

    fn to_lua(self, s: &mut State) {
        s.push_integer(self as i64);
    }
}

impl FromLua for isize {
    open spec fn spec_tname() -> Seq<u8> {
        "isize".spec_bytes()
    }

    open spec fn spec_from_lua(s: StateView, i: int) -> Option<isize> {
        match s.slot_at(i) {
            Some(Slot::Int(n)) => Some(spec_wrap(n as int, isize::MIN as int, usize::MAX + 1) as isize),
            Some(Slot::Num(b)) => Some(spec_saturated(b, isize::MIN as int, isize::MAX as int) as isize),
            _ => match s.number_at(i) {
                Some(b) => Some(spec_saturated(b, isize::MIN as int, isize::MAX as int) as isize),
                None => None,
            },
        }
    }

    fn tname() -> (n: Vec<u8>) {
        text("isize")
    }

    fn from_lua(s: &State, i: Index) -> (r: Option<Self>) {
        match s.slot(i) {
            Some(Slot::Int(n)) => Some(wrap_isize(n)),
            Some(Slot::Num(b)) => Some(saturate(b, isize::MIN as i64, isize::MAX as i64) as isize),
            _ => match s.to_numberx(i) {
                Some(b) => Some(saturate(b, isize::MIN as i64, isize::MAX as i64) as isize),
                None => None,
            },
        }
    }
}

impl FromLua for Strict<isize> {
    open spec fn spec_tname() -> Seq<u8> {
        "strict isize".spec_bytes()
    }

    open spec fn spec_from_lua(s: StateView, i: int) -> Option<isize> {
        match s.slot_at(i) {
            Some(Slot::Int(n)) => Some(spec_wrap(n as int, isize::MIN as int, usize::MAX + 1) as isize),
            _ => None,
        }
    }

    fn tname() -> (n: Vec<u8>) {
        text("strict isize")
    }

    fn from_lua(s: &State, i: Index) -> (r: Option<Self>) {
        match s.slot(i) {
            Some(Slot::Int(n)) => Some(Strict(wrap_isize(n))),
            _ => None,
        }
    }
}

impl RoundTrip for isize {
    open spec fn spec_representable(&self, pre: StateView) -> bool {
        true
    }

    proof fn lemma_round_trip(&self, pre: StateView) {
        lemma_pushed_slot(pre, Slot::Int(*self as i64));
        let n = *self as int;
        vstd::arithmetic::div_mod::lemma_small_mod((n - (isize::MIN as int)) as nat, (usize::MAX + 1) as nat);
    }

    proof fn lemma_stays(&self, pre: StateView, post: StateView) {
        self.lemma_round_trip(pre);
        lemma_extends_slot(self.spec_pushed(pre), post, pre.top() + 1);
    }
}

impl ToLua for u8 {
    open spec fn spec_is_top() -> bool {
        false
    }

    open spec fn spec_pushable(&self, pre: StateView) -> bool {
        true
    }

    open spec fn spec_pushed(&self, pre: StateView) -> StateView {
        pre.pushed(Slot::Int(*self as i64))
    }

    proof fn lemma_pushed(&self, pre: StateView) {
        lemma_pushed_slot(pre, Slot::Int(*self as i64));
    }

    fn is_top() -> (b: bool) {
        false
    }

    fn to_lua(self, s: &mut State) {
        s.push_integer(self as i64);
    }
}

impl FromLua for u8 {
    open spec fn spec_tname() -> Seq<u8> {
        "u8".spec_bytes()
    }

    open spec fn spec_from_lua(s: StateView, i: int) -> Option<u8> {
        match s.slot_at(i) {
            Some(Slot::Int(n)) => Some(spec_wrap(n as int, 0, 0x100) as u8),
            Some(Slot::Num(b)) => Some(spec_saturated(b, 0, u8::MAX as int) as u8),
            _ => match s.number_at(i) {
                Some(b) => Some(spec_saturated(b, 0, u8::MAX as int) as u8),
                None => None,
            },
        }
    }

    fn tname() -> (n: Vec<u8>) {
        text("u8")
    }

    fn from_lua(s: &State, i: Index) -> (r: Option<Self>) {
        match s.slot(i) {
            Some(Slot::Int(n)) => Some(wrap_u8(n)),
            Some(Slot::Num(b)) => Some(saturate_unsigned(b, u8::MAX as u64) as u8),
            _ => match s.to_numberx(i) {
                Some(b) => Some(saturate_unsigned(b, u8::MAX as u64) as u8),
                None => None,
            },
        }
    }
}

impl FromLua for Strict<u8> {
    open spec fn spec_tname() -> Seq<u8> {
        "strict u8".spec_bytes()
    }

    open spec fn spec_from_lua(s: StateView, i: int) -> Option<u8> {
        match s.slot_at(i) {
            Some(Slot::Int(n)) => Some(spec_wrap(n as int, 0, 0x100) as u8),
            _ => None,
        }
    }

    fn tname() -> (n: Vec<u8>) {
        text("strict u8")
    }

    fn from_lua(s: &State, i: Index) -> (r: Option<Self>) {
        match s.slot(i) {
            Some(Slot::Int(n)) => Some(Strict(wrap_u8(n))),
            _ => None,
        }
    }
}

impl RoundTrip for u8 {
    open spec fn spec_representable(&self, pre: StateView) -> bool {
        true
    }

    proof fn lemma_round_trip(&self, pre: StateView) {
        lemma_pushed_slot(pre, Slot::Int(*self as i64));
    }

    proof fn lemma_stays(&self, pre: StateView, post: StateView) {
        self.lemma_round_trip(pre);
        lemma_extends_slot(self.spec_pushed(pre), post, pre.top() + 1);
    }
}

impl ToLua for u16 {
    open spec fn spec_is_top() -> bool {
        false
    }

    open spec fn spec_pushable(&self, pre: StateView) -> bool {
        true
    }

    open spec fn spec_pushed(&self, pre: StateView) -> StateView {
        pre.pushed(Slot::Int(*self as i64))
    }

    proof fn lemma_pushed(&self, pre: StateView) {
        lemma_pushed_slot(pre, Slot::Int(*self as i64));
    }

    fn is_top() -> (b: bool) {
        false
    }

    fn to_lua(self, s: &mut State) {
        s.push_integer(self as i64);
    }
}

impl FromLua for u16 {
    open spec fn spec_tname() -> Seq<u8> {
        "u16".spec_bytes()
    }

    open spec fn spec_from_lua(s: StateView, i: int) -> Option<u16> {
        match s.slot_at(i) {
            Some(Slot::Int(n)) => Some(spec_wrap(n as int, 0, 0x1_0000) as u16),
            Some(Slot::Num(b)) => Some(spec_saturated(b, 0, u16::MAX as int) as u16),
            _ => match s.number_at(i) {
                Some(b) => Some(spec_saturated(b, 0, u16::MAX as int) as u16),
                None => None,
            },
        }
    }

    fn tname() -> (n: Vec<u8>) {
        text("u16")
    }

    fn from_lua(s: &State, i: Index) -> (r: Option<Self>) {
        match s.slot(i) {
            Some(Slot::Int(n)) => Some(wrap_u16(n)),
            Some(Slot::Num(b)) => Some(saturate_unsigned(b, u16::MAX as u64) as u16),
            _ => match s.to_numberx(i) {
                Some(b) => Some(saturate_unsigned(b, u16::MAX as u64) as u16),
                None => None,
            },
        }
    }
}

impl FromLua for Strict<u16> {
    open spec fn spec_tname() -> Seq<u8> {
        "strict u16".spec_bytes()
    }

    open spec fn spec_from_lua(s: StateView, i: int) -> Option<u16> {
        match s.slot_at(i) {
            Some(Slot::Int(n)) => Some(spec_wrap(n as int, 0, 0x1_0000) as u16),
            _ => None,
        }
    }

    fn tname() -> (n: Vec<u8>) {
        text("strict u16")
    }

    fn from_lua(s: &State, i: Index) -> (r: Option<Self>) {
        match s.slot(i) {
            Some(Slot::Int(n)) => Some(Strict(wrap_u16(n))),
            _ => None,
        }
    }
}

impl RoundTrip for u16 {
    open spec fn spec_representable(&self, pre: StateView) -> bool {
        true
    }

    proof fn lemma_round_trip(&self, pre: StateView) {
        lemma_pushed_slot(pre, Slot::Int(*self as i64));
    }

    proof fn lemma_stays(&self, pre: StateView, post: StateView) {
        self.lemma_round_trip(pre);
        lemma_extends_slot(self.spec_pushed(pre), post, pre.top() + 1);
    }
}

impl ToLua for u32 {
    open spec fn spec_is_top() -> bool {
        false
    }

    open spec fn spec_pushable(&self, pre: StateView) -> bool {
        true
    }

    open spec fn spec_pushed(&self, pre: StateView) -> StateView {
        pre.pushed(Slot::Int(*self as i64))
    }

    proof fn lemma_pushed(&self, pre: StateView) {
        lemma_pushed_slot(pre, Slot::Int(*self as i64));
    }

    fn is_top() -> (b: bool) {
        false
    }

    fn to_lua(self, s: &mut State) {
        s.push_integer(self as i64);
    }
}

impl FromLua for u32 {
    open spec fn spec_tname() -> Seq<u8> {
        "u32".spec_bytes()
    }

    open spec fn spec_from_lua(s: StateView, i: int) -> Option<u32> {
        match s.slot_at(i) {
            Some(Slot::Int(n)) => Some(spec_wrap(n as int, 0, 0x1_0000_0000) as u32),
            Some(Slot::Num(b)) => Some(spec_saturated(b, 0, u32::MAX as int) as u32),
            _ => match s.number_at(i) {
                Some(b) => Some(spec_saturated(b, 0, u32::MAX as int) as u32),
                None => None,
            },
        }
    }

    fn tname() -> (n: Vec<u8>) {
        text("u32")
    }

    fn from_lua(s: &State, i: Index) -> (r: Option<Self>) {
        match s.slot(i) {
            Some(Slot::Int(n)) => Some(wrap_u32(n)),
            Some(Slot::Num(b)) => Some(saturate_unsigned(b, u32::MAX as u64) as u32),
            _ => match s.to_numberx(i) {
                Some(b) => Some(saturate_unsigned(b, u32::MAX as u64) as u32),
                None => None,
            },
        }
    }
}

impl FromLua for Strict<u32> {
    open spec fn spec_tname() -> Seq<u8> {
        "strict u32".spec_bytes()
    }

    open spec fn spec_from_lua(s: StateView, i: int) -> Option<u32> {
        match s.slot_at(i) {
            Some(Slot::Int(n)) => Some(spec_wrap(n as int, 0, 0x1_0000_0000) as u32),
            _ => None,
        }
    }

    fn tname() -> (n: Vec<u8>) {
        text("strict u32")
    }

    fn from_lua(s: &State, i: Index) -> (r: Option<Self>) {
        match s.slot(i) {
            Some(Slot::Int(n)) => Some(Strict(wrap_u32(n))),
            _ => None,
        }
    }
}

impl RoundTrip for u32 {
    open spec fn spec_representable(&self, pre: StateView) -> bool {
        true
    }

    proof fn lemma_round_trip(&self, pre: StateView) {
        lemma_pushed_slot(pre, Slot::Int(*self as i64));
    }

    proof fn lemma_stays(&self, pre: StateView, post: StateView) {
        self.lemma_round_trip(pre);
        lemma_extends_slot(self.spec_pushed(pre), post, pre.top() + 1);
    }
}

impl ToLua for u64 {
    open spec fn spec_is_top() -> bool {
        false
    }

    open spec fn spec_pushable(&self, pre: StateView) -> bool {
        true
    }

    open spec fn spec_pushed(&self, pre: StateView) -> StateView {
        pre.pushed(Slot::Int(spec_from_unsigned(*self as int) as i64))
    }

    proof fn lemma_pushed(&self, pre: StateView) {
        lemma_pushed_slot(pre, Slot::Int(spec_from_unsigned(*self as int) as i64));
    }

    fn is_top() -> (b: bool) {
        false
    }

    fn to_lua(self, s: &mut State) {
        s.push_integer(from_unsigned(self));
    }
}

impl FromLua for u64 {
    open spec fn spec_tname() -> Seq<u8> {
        "u64".spec_bytes()
    }

    open spec fn spec_from_lua(s: StateView, i: int) -> Option<u64> {
        match s.slot_at(i) {
            Some(Slot::Int(n)) => Some(spec_wrap(n as int, 0, 0x1_0000_0000_0000_0000) as u64),
            Some(Slot::Num(b)) => Some(spec_saturated(b, 0, u64::MAX as int) as u64),
            _ => match s.number_at(i) {
                Some(b) => Some(spec_saturated(b, 0, u64::MAX as int) as u64),
                None => None,
            },
        }
    }

    fn tname() -> (n: Vec<u8>) {
        text("u64")
    }

    fn from_lua(s: &State, i: Index) -> (r: Option<Self>) {
        match s.slot(i) {
            Some(Slot::Int(n)) => Some(wrap_u64(n)),
            Some(Slot::Num(b)) => Some(saturate_unsigned(b, u64::MAX)),
            _ => match s.to_numberx(i) {
                Some(b) => Some(saturate_unsigned(b, u64::MAX)),
                None => None,
            },
        }
    }
}

impl FromLua for Strict<u64> {
    open spec fn spec_tname() -> Seq<u8> {
        "strict u64".spec_bytes()
    }

    open spec fn spec_from_lua(s: StateView, i: int) -> Option<u64> {
        match s.slot_at(i) {
            Some(Slot::Int(n)) => Some(spec_wrap(n as int, 0, 0x1_0000_0000_0000_0000) as u64),
            _ => None,
        }
    }

    fn tname() -> (n: Vec<u8>) {
        text("strict u64")
    }

    fn from_lua(s: &State, i: Index) -> (r: Option<Self>) {
        match s.slot(i) {
            Some(Slot::Int(n)) => Some(Strict(wrap_u64(n))),
            _ => None,
        }
    }
}

impl RoundTrip for u64 {
    open spec fn spec_representable(&self, pre: StateView) -> bool {
        true
    }

    proof fn lemma_round_trip(&self, pre: StateView) {
        lemma_pushed_slot(pre, Slot::Int(spec_from_unsigned(*self as int) as i64));
        lemma_unsigned_round_trip(*self as int);
    }

    proof fn lemma_stays(&self, pre: StateView, post: StateView) {
        self.lemma_round_trip(pre);
        lemma_extends_slot(self.spec_pushed(pre), post, pre.top() + 1);
    }
}

impl ToLua for usize {
    open spec fn spec_is_top() -> bool {
        false
    }

    open spec fn spec_pushable(&self, pre: StateView) -> bool {
        true
    }

    open spec fn spec_pushed(&self, pre: StateView) -> StateView {
        pre.pushed(Slot::Int(spec_from_unsigned(*self as int) as i64))
    }

    proof fn lemma_pushed(&self, pre: StateView) {
        lemma_pushed_slot(pre, Slot::Int(spec_from_unsigned(*self as int) as i64));
    }

    fn is_top() -> (b: bool) {
        false
    }

    fn to_lua(self, s: &mut State) {
        s.push_integer(from_unsigned(self as u64));
    }
}

impl FromLua for usize {
    open spec fn spec_tname() -> Seq<u8> {
        "usize".spec_bytes()
    }

    open spec fn spec_from_lua(s: StateView, i: int) -> Option<usize> {
        match s.slot_at(i) {
            Some(Slot::Int(n)) => Some(spec_wrap(n as int, 0, usize::MAX + 1) as usize),
            Some(Slot::Num(b)) => Some(spec_saturated(b, 0, usize::MAX as int) as usize),
            _ => match s.number_at(i) {
                Some(b) => Some(spec_saturated(b, 0, usize::MAX as int) as usize),
                None => None,
            },
        }
    }

    fn tname() -> (n: Vec<u8>) {
        text("usize")
    }

    fn from_lua(s: &State, i: Index) -> (r: Option<Self>) {
        match s.slot(i) {
            Some(Slot::Int(n)) => Some(wrap_usize(n)),
            Some(Slot::Num(b)) => Some(saturate_unsigned(b, usize::MAX as u64) as usize),
            _ => match s.to_numberx(i) {
                Some(b) => Some(saturate_unsigned(b, usize::MAX as u64) as usize),
                None => None,
            },
        }
    }
}

impl FromLua for Strict<usize> {
    open spec fn spec_tname() -> Seq<u8> {
        "strict usize".spec_bytes()
    }

    open spec fn spec_from_lua(s: StateView, i: int) -> Option<usize> {
        match s.slot_at(i) {
            Some(Slot::Int(n)) => Some(spec_wrap(n as int, 0, usize::MAX + 1) as usize),
            _ => None,
        }
    }

    fn tname() -> (n: Vec<u8>) {
        text("strict usize")
    }

    fn from_lua(s: &State, i: Index) -> (r: Option<Self>) {
        match s.slot(i) {
            Some(Slot::Int(n)) => Some(Strict(wrap_usize(n))),
            _ => None,
        }
    }
}

impl RoundTrip for usize {
    open spec fn spec_representable(&self, pre: StateView) -> bool {
        true
    }

    proof fn lemma_round_trip(&self, pre: StateView) {
        lemma_pushed_slot(pre, Slot::Int(spec_from_unsigned(*self as int) as i64));
        lemma_unsigned_round_trip(*self as int);
        if usize::MAX < u64::MAX {
            let n = spec_from_unsigned(*self as int);
            vstd::arithmetic::div_mod::lemma_small_mod(n as nat, (usize::MAX + 1) as nat);
        } else {
            assert(usize::MAX + 1 == 0x1_0000_0000_0000_0000);
        }
    }

    proof fn lemma_stays(&self, pre: StateView, post: StateView) {
        self.lemma_round_trip(pre);
        lemma_extends_slot(self.spec_pushed(pre), post, pre.top() + 1);
    }
}

} // verus!
