//! The conversion protocol for floating-point numbers, which the library
//! holds by the bits of their binary64 encoding.

use vstd::prelude::*;
use vstd::string::StringSliceAdditionalSpecFns;
use crate::convert::{lemma_extends_slot, lemma_pushed_slot, FromLua, RoundTrip, ToLua};
use crate::error::text;
use crate::number::{from_integer, spec_from_integer};
use crate::slot::Slot;
use crate::stack::Index;
use crate::state::{State, StateView};

verus! {

/// A floating-point number, by the bits of its binary64 encoding.
#[derive(Clone, Copy, Debug, PartialEq, Eq, Hash, Structural)]
pub struct Number(pub u64);

impl DeepView for Number {
    type V = u64;

    open spec fn deep_view(&self) -> u64 {
        self.0
    }
}

impl StateView {
    /// The floating-point number that `i` refers to: a float as it is,
    /// an integer as the float nearest to it, and a string that is an
    /// integer numeral as the float nearest to that integer.
    pub open spec fn number_at(self, i: int) -> Option<u64> {
        match self.slot_at(i) {
            Some(Slot::Num(b)) => Some(b),
            Some(Slot::Int(n)) => Some(spec_from_integer(n)),
            _ => match self.numeral_at(i) {
                Some(n) => Some(spec_from_integer(n)),
                None => None,
            },
        }
    }
}

impl State {
    /// The floating-point number that `index` refers to, by its bits: a
    /// float as it is, and an integer, or a string that is an integer
    /// numeral, as the float nearest to it.
    pub fn to_numberx(&self, index: Index) -> (r: Option<u64>)
        requires
            self.wf(),
        ensures
            r == self@.number_at(index as int),
    {
        match self.slot(index) {
            Some(Slot::Num(b)) => Some(b),
            Some(Slot::Int(n)) => Some(from_integer(n)),
            _ => match self.numeral(index) {
                Some(n) => Some(from_integer(n)),
                None => None,
            },
        }
    }

    /// The floating-point number that `index` refers to, and zero where
    /// it refers to no number.
    pub fn to_number(&self, index: Index) -> (r: u64)
        requires
            self.wf(),
        ensures
            r == match self@.number_at(index as int) {
                Some(b) => b,
                None => 0,
            },
    {
        match self.to_numberx(index) {
            Some(b) => b,
            None => 0,
        }
    }
}

impl ToLua for Number {
    open spec fn spec_is_top() -> bool {
        false
    }

    open spec fn spec_pushable(&self, pre: StateView) -> bool {
        true
    }

    open spec fn spec_pushed(&self, pre: StateView) -> StateView {
        pre.pushed(Slot::Num(self.0))
    }

    proof fn lemma_pushed(&self, pre: StateView) {
        lemma_pushed_slot(pre, Slot::Num(self.0));
    }

    fn is_top() -> (b: bool) {
        false
    }

    fn to_lua(self, s: &mut State) {
        s.push_number(self.0);
    }
}

impl FromLua for Number {
    open spec fn spec_tname() -> Seq<u8> {
        "f64".spec_bytes()
    }

    open spec fn spec_from_lua(s: StateView, i: int) -> Option<u64> {
        s.number_at(i)
    }

    fn tname() -> (n: Vec<u8>) {
        text("f64")
    }

    fn from_lua(s: &State, i: Index) -> (r: Option<Self>) {
        match s.to_numberx(i) {
            Some(b) => Some(Number(b)),
            None => None,
        }
    }
}

impl RoundTrip for Number {
    open spec fn spec_representable(&self, pre: StateView) -> bool {
        true
    }

    proof fn lemma_round_trip(&self, pre: StateView) {
        lemma_pushed_slot(pre, Slot::Num(self.0));
    }

    proof fn lemma_stays(&self, pre: StateView, post: StateView) {
        lemma_pushed_slot(pre, Slot::Num(self.0));
        lemma_extends_slot(self.spec_pushed(pre), post, pre.top() + 1);
    }
}

} // verus!
