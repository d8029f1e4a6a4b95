//! The multi-value conversion protocol for tuples: a tuple is pushed
//! element by element, left to right, and read from consecutive cells.

use vstd::prelude::*;
use crate::convert::{FromLua, RoundTrip, ToLua};
use crate::convert_multi::{
    lemma_extends_refl, lemma_extends_trans, FromLuaMulti, ToLuaMulti,
};
use crate::error::{Error, ErrorView};
use crate::stack::Index;
use crate::state::{State, StateView};

verus! {

/// Pushing a tuple of one grows the stack by the number of values that
/// it hands over, and extends the context.
pub proof fn lemma_tuple_height_1<A: ToLua>(t: (A,), pre: StateView)
    requires
        t.spec_pushable_multi(pre),
    ensures
        t.spec_pushed_multi(pre).top() == pre.top() + t.spec_count(),
        0 <= t.spec_count() <= 1,
        t.spec_pushed_multi(pre).extends(pre),
{
    t.0.lemma_pushed(pre);
}

impl<A: ToLua> ToLuaMulti for (A,) {
    open spec fn spec_raises(&self) -> Option<Seq<u8>> {
        None
    }

    open spec fn spec_pushable_multi(&self, pre: StateView) -> bool {
        self.0.spec_pushable(pre)
    }

    open spec fn spec_count(&self) -> int {
        if A::spec_is_top() {
            0
        } else {
            1
        }
    }

    open spec fn spec_pushed_multi(&self, pre: StateView) -> StateView {
        self.0.spec_pushed(pre)
    }

    proof fn lemma_pushed_multi(&self, pre: StateView) {
        self.0.lemma_pushed(pre);
    }

    fn to_lua(self, s: &mut State) -> (r: Result<i32, Error>) {
        ToLua::to_lua(self.0, s);
        Ok(if A::is_top() {
            0
        } else {
            1
        })
    }

    fn to_lua_result(self, s: &mut State) -> (r: Result<i32, Error>) {
        ToLuaMulti::to_lua(self, s)
    }
}

impl<A: FromLua> FromLuaMulti for (A,) {
    open spec fn spec_count() -> int {
        1
    }

    open spec fn spec_from_lua_multi(s: StateView, begin: int) -> Option<(<A as DeepView>::V,)> {
        match A::spec_from_lua(s, begin) {
            Some(v) => Some((v,)),
            None => None,
        }
    }

    fn count() -> (n: i32) {
        1
    }

    open spec fn spec_check_error(s: StateView, begin: int) -> Option<ErrorView> {
        if A::spec_from_lua(s, begin).is_none() {
            Some(s.type_error(begin, A::spec_tname()))
        } else {
            None
        }
    }

    fn from_lua(s: &State, begin: Index) -> (r: Option<Self>) {
        match <A as FromLua>::from_lua(s, begin) {
            Some(v) => Some((v,)),
            None => None,
        }
    }

    fn check(s: &State, begin: Index) -> (r: Result<Self, Error>) {
        match s.check_arg::<A>(begin) {
            Ok(v) => Ok((v,)),
            Err(e) => Err(e),
        }
    }
}

/// The read of a tuple of one gives a value exactly where the read of
/// its element gives one: a cell that is missing or of another type makes
/// it give nothing. The checked read gives no error in exactly that case.
pub proof fn lemma_tuple_reads_1<A: FromLua>(s: StateView, begin: int)
    ensures
        <(A,) as FromLuaMulti>::spec_from_lua_multi(s, begin).is_some() <==> A::spec_from_lua(
            s,
            begin,
        ).is_some(),
        <(A,) as FromLuaMulti>::spec_check_error(s, begin).is_none() <==> <(
            A,
        ) as FromLuaMulti>::spec_from_lua_multi(s, begin).is_some(),
{
}

/// Whether the element of the tuple is a value that the interpreter can
/// hold without loss, in the context in which it is pushed.
pub open spec fn spec_representable_1<A: RoundTrip>(t: (A,), pre: StateView) -> bool {
    &&& t.0.spec_pushable(pre)
    &&& t.0.spec_representable(pre)
    &&& !A::spec_is_top()
}

/// A tuple of one that was pushed stays readable from where it begins,
/// whatever is pushed or created after it.
pub proof fn lemma_tuple_stays_1<A: RoundTrip>(t: (A,), pre: StateView, post: StateView)
    requires
        spec_representable_1(t, pre),
        post.extends(t.spec_pushed_multi(pre)),
    ensures
        <(A,) as FromLuaMulti>::spec_from_lua_multi(post, pre.top() + 1) == Some(t.deep_view()),
        t.spec_pushed_multi(pre).top() == pre.top() + 1,
        t.spec_pushed_multi(pre).extends(pre),
{
    t.0.lemma_pushed(pre);
    t.0.lemma_stays(pre, post);
}

/// A tuple of one that is pushed and read back from where it begins is
/// the tuple that was pushed.
pub proof fn lemma_tuple_round_trip_1<A: RoundTrip>(t: (A,), pre: StateView)
    requires
        spec_representable_1(t, pre),
    ensures
        <(A,) as FromLuaMulti>::spec_from_lua_multi(t.spec_pushed_multi(pre), pre.top() + 1)
            == Some(t.deep_view()),
        t.spec_pushed_multi(pre).top() == pre.top() + 1,
{
    lemma_extends_refl(t.spec_pushed_multi(pre));
    lemma_tuple_stays_1(t, pre, t.spec_pushed_multi(pre));
}

/// Pushing a tuple of two grows the stack by the number of
/// values that it hands over, and extends the context.
pub proof fn lemma_tuple_height_2<A: ToLua, B: ToLua>(t: (A, B), pre: StateView)
    requires
        t.spec_pushable_multi(pre),
    ensures
        t.spec_pushed_multi(pre).top() == pre.top() + t.spec_count(),
        0 <= t.spec_count() <= 2,
        t.spec_pushed_multi(pre).extends(pre),
{
    let head = (t.0,);
    let mid = head.spec_pushed_multi(pre);
    lemma_tuple_height_1(head, pre);
    t.1.lemma_pushed(mid);
    lemma_extends_trans(pre, mid, t.spec_pushed_multi(pre));
}

impl<A: ToLua, B: ToLua> ToLuaMulti for (A, B) {
    open spec fn spec_raises(&self) -> Option<Seq<u8>> {
        None
    }

    open spec fn spec_pushable_multi(&self, pre: StateView) -> bool {
        let head = (self.0,);
        &&& head.spec_pushable_multi(pre)
        &&& self.1.spec_pushable(head.spec_pushed_multi(pre))
    }

    open spec fn spec_count(&self) -> int {
        (self.0,).spec_count() + if B::spec_is_top() {
            0int
        } else {
            1int
        }
    }

    open spec fn spec_pushed_multi(&self, pre: StateView) -> StateView {
        self.1.spec_pushed((self.0,).spec_pushed_multi(pre))
    }

    proof fn lemma_pushed_multi(&self, pre: StateView) {
        lemma_tuple_height_2(*self, pre);
    }

    fn to_lua(self, s: &mut State) -> (r: Result<i32, Error>) {
        let (x0, x1) = self;
        let head = (x0,);
        proof {
            lemma_tuple_height_1(head, s@);
        }
        let pushed: i32 = match ToLuaMulti::to_lua(head, s) {
            Ok(k) => k,
            Err(e) => {
                return Err(e);
            },
        };
        ToLua::to_lua(x1, s);
        Ok(pushed + if B::is_top() {
            0
        } else {
            1
        })
    }

    fn to_lua_result(self, s: &mut State) -> (r: Result<i32, Error>) {
        ToLuaMulti::to_lua(self, s)
    }
}

impl<A: FromLua, B: FromLua> FromLuaMulti for (A, B) {
    open spec fn spec_count() -> int {
        2
    }

    open spec fn spec_from_lua_multi(s: StateView, begin: int) -> Option<(<A as DeepView>::V, <B as DeepView>::V)> {
        match <(A,) as FromLuaMulti>::spec_from_lua_multi(s, begin) {
            Some(p) => match B::spec_from_lua(s, begin + 1) {
                Some(v) => Some((p.0, v)),
                None => None,
            },
            None => None,
        }
    }

    fn count() -> (n: i32) {
        2
    }

    open spec fn spec_check_error(s: StateView, begin: int) -> Option<ErrorView> {
        match <(A,) as FromLuaMulti>::spec_check_error(s, begin) {
            Some(e) => Some(e),
            None => if B::spec_from_lua(s, begin + 1).is_none() {
                Some(s.type_error(begin + 1, B::spec_tname()))
            } else {
                None
            },
        }
    }

    fn from_lua(s: &State, begin: Index) -> (r: Option<Self>) {
        match <(A,) as FromLuaMulti>::from_lua(s, begin) {
            Some(p) => match <B as FromLua>::from_lua(s, begin + 1) {
                Some(v) => Some((p.0, v)),
                None => None,
            },
            None => None,
        }
    }

    fn check(s: &State, begin: Index) -> (r: Result<Self, Error>) {
        match <(A,) as FromLuaMulti>::check(s, begin) {
            Ok(p) => match s.check_arg::<B>(begin + 1) {
                Ok(v) => Ok((p.0, v)),
                Err(e) => Err(e),
            },
            Err(e) => Err(e),
        }
    }
}

/// The read of a tuple of two gives a value exactly where the
/// reads of all its elements give one, each at its place: a cell that is
/// missing or of another type makes it give nothing. The checked read
/// gives no error in exactly that case.
pub proof fn lemma_tuple_reads_2<A: FromLua, B: FromLua>(s: StateView, begin: int)
    ensures
        <(A, B) as FromLuaMulti>::spec_from_lua_multi(s, begin).is_some() <==> (<(A,) as FromLuaMulti>::spec_from_lua_multi(
            s,
            begin,
        ).is_some() && B::spec_from_lua(s, begin + 1).is_some()),
        <(A, B) as FromLuaMulti>::spec_check_error(s, begin).is_none() <==> <(A, B) as FromLuaMulti>::spec_from_lua_multi(
            s,
            begin,
        ).is_some(),
{
    lemma_tuple_reads_1::<A>(s, begin);
}

/// Whether each element of the tuple is a value that the interpreter can
/// hold without loss, in the context in which it is pushed.
pub open spec fn spec_representable_2<A: RoundTrip, B: RoundTrip>(t: (A, B), pre: StateView) -> bool {
    let head = (t.0,);
    let mid = head.spec_pushed_multi(pre);
    &&& spec_representable_1(head, pre)
    &&& t.1.spec_pushable(mid)
    &&& t.1.spec_representable(mid)
    &&& !B::spec_is_top()
}

/// A tuple of two that was pushed stays readable from where it
/// begins, whatever is pushed or created after it.
pub proof fn lemma_tuple_stays_2<A: RoundTrip, B: RoundTrip>(t: (A, B), pre: StateView, post: StateView)
    requires
        spec_representable_2(t, pre),
        post.extends(t.spec_pushed_multi(pre)),
    ensures
        <(A, B) as FromLuaMulti>::spec_from_lua_multi(post, pre.top() + 1) == Some(t.deep_view()),
        t.spec_pushed_multi(pre).top() == pre.top() + 2,
        t.spec_pushed_multi(pre).extends(pre),
{
    let head = (t.0,);
    let mid = head.spec_pushed_multi(pre);
    let fin = t.spec_pushed_multi(pre);
    t.1.lemma_pushed(mid);
    lemma_extends_trans(mid, fin, post);
    lemma_tuple_stays_1(head, pre, post);
    t.1.lemma_stays(mid, post);
    lemma_extends_trans(pre, mid, fin);
}

/// A tuple of two that is pushed and read back from where it
/// begins is the tuple that was pushed.
pub proof fn lemma_tuple_round_trip_2<A: RoundTrip, B: RoundTrip>(t: (A, B), pre: StateView)
    requires
        spec_representable_2(t, pre),
    ensures
        <(A, B) as FromLuaMulti>::spec_from_lua_multi(t.spec_pushed_multi(pre), pre.top() + 1)
            == Some(t.deep_view()),
        t.spec_pushed_multi(pre).top() == pre.top() + 2,
{
    lemma_extends_refl(t.spec_pushed_multi(pre));
    lemma_tuple_stays_2(t, pre, t.spec_pushed_multi(pre));
}

/// Pushing a tuple of three grows the stack by the number of
/// values that it hands over, and extends the context.
pub proof fn lemma_tuple_height_3<A: ToLua, B: ToLua, C: ToLua>(t: (A, B, C), pre: StateView)
    requires
        t.spec_pushable_multi(pre),
    ensures
        t.spec_pushed_multi(pre).top() == pre.top() + t.spec_count(),
        0 <= t.spec_count() <= 3,
        t.spec_pushed_multi(pre).extends(pre),
{
    let head = (t.0, t.1);
    let mid = head.spec_pushed_multi(pre);
    lemma_tuple_height_2(head, pre);
    t.2.lemma_pushed(mid);
    lemma_extends_trans(pre, mid, t.spec_pushed_multi(pre));
}

impl<A: ToLua, B: ToLua, C: ToLua> ToLuaMulti for (A, B, C) {
    open spec fn spec_raises(&self) -> Option<Seq<u8>> {
        None
    }

    open spec fn spec_pushable_multi(&self, pre: StateView) -> bool {
        let head = (self.0, self.1);
        &&& head.spec_pushable_multi(pre)
        &&& self.2.spec_pushable(head.spec_pushed_multi(pre))
    }

    open spec fn spec_count(&self) -> int {
        (self.0, self.1).spec_count() + if C::spec_is_top() {
            0int
        } else {
            1int
        }
    }

    open spec fn spec_pushed_multi(&self, pre: StateView) -> StateView {
        self.2.spec_pushed((self.0, self.1).spec_pushed_multi(pre))
    }

    proof fn lemma_pushed_multi(&self, pre: StateView) {
        lemma_tuple_height_3(*self, pre);
    }

    fn to_lua(self, s: &mut State) -> (r: Result<i32, Error>) {
        let (x0, x1, x2) = self;
        let head = (x0, x1);
        proof {
            lemma_tuple_height_2(head, s@);
        }
        let pushed: i32 = match ToLuaMulti::to_lua(head, s) {
            Ok(k) => k,
            Err(e) => {
                return Err(e);
            },
        };
        ToLua::to_lua(x2, s);
        Ok(pushed + if C::is_top() {
            0
        } else {
            1
        })
    }

    fn to_lua_result(self, s: &mut State) -> (r: Result<i32, Error>) {
        ToLuaMulti::to_lua(self, s)
    }
}

impl<A: FromLua, B: FromLua, C: FromLua> FromLuaMulti for (A, B, C) {
    open spec fn spec_count() -> int {
        3
    }

    open spec fn spec_from_lua_multi(s: StateView, begin: int) -> Option<(<A as DeepView>::V, <B as DeepView>::V, <C as DeepView>::V)> {
        match <(A, B) as FromLuaMulti>::spec_from_lua_multi(s, begin) {
            Some(p) => match C::spec_from_lua(s, begin + 2) {
                Some(v) => Some((p.0, p.1, v)),
                None => None,
            },
            None => None,
        }
    }

    fn count() -> (n: i32) {
        3
    }

    open spec fn spec_check_error(s: StateView, begin: int) -> Option<ErrorView> {
        match <(A, B) as FromLuaMulti>::spec_check_error(s, begin) {
            Some(e) => Some(e),
            None => if C::spec_from_lua(s, begin + 2).is_none() {
                Some(s.type_error(begin + 2, C::spec_tname()))
            } else {
                None
            },
        }
    }

    fn from_lua(s: &State, begin: Index) -> (r: Option<Self>) {
        match <(A, B) as FromLuaMulti>::from_lua(s, begin) {
            Some(p) => match <C as FromLua>::from_lua(s, begin + 2) {
                Some(v) => Some((p.0, p.1, v)),
                None => None,
            },
            None => None,
        }
    }

    fn check(s: &State, begin: Index) -> (r: Result<Self, Error>) {
        match <(A, B) as FromLuaMulti>::check(s, begin) {
            Ok(p) => match s.check_arg::<C>(begin + 2) {
                Ok(v) => Ok((p.0, p.1, v)),
                Err(e) => Err(e),
            },
            Err(e) => Err(e),
        }
    }
}

/// The read of a tuple of three gives a value exactly where the
/// reads of all its elements give one, each at its place: a cell that is
/// missing or of another type makes it give nothing. The checked read
/// gives no error in exactly that case.
pub proof fn lemma_tuple_reads_3<A: FromLua, B: FromLua, C: FromLua>(s: StateView, begin: int)
    ensures
        <(A, B, C) as FromLuaMulti>::spec_from_lua_multi(s, begin).is_some() <==> (<(A, B) as FromLuaMulti>::spec_from_lua_multi(
            s,
            begin,
        ).is_some() && C::spec_from_lua(s, begin + 2).is_some()),
        <(A, B, C) as FromLuaMulti>::spec_check_error(s, begin).is_none() <==> <(A, B, C) as FromLuaMulti>::spec_from_lua_multi(
            s,
            begin,
        ).is_some(),
{
    lemma_tuple_reads_2::<A, B>(s, begin);
}

/// Whether each element of the tuple is a value that the interpreter can
/// hold without loss, in the context in which it is pushed.
pub open spec fn spec_representable_3<A: RoundTrip, B: RoundTrip, C: RoundTrip>(t: (A, B, C), pre: StateView) -> bool {
    let head = (t.0, t.1);
    let mid = head.spec_pushed_multi(pre);
    &&& spec_representable_2(head, pre)
    &&& t.2.spec_pushable(mid)
    &&& t.2.spec_representable(mid)
    &&& !C::spec_is_top()
}

/// A tuple of three that was pushed stays readable from where it
/// begins, whatever is pushed or created after it.
pub proof fn lemma_tuple_stays_3<A: RoundTrip, B: RoundTrip, C: RoundTrip>(t: (A, B, C), pre: StateView, post: StateView)
    requires
        spec_representable_3(t, pre),
        post.extends(t.spec_pushed_multi(pre)),
    ensures
        <(A, B, C) as FromLuaMulti>::spec_from_lua_multi(post, pre.top() + 1) == Some(t.deep_view()),
        t.spec_pushed_multi(pre).top() == pre.top() + 3,
        t.spec_pushed_multi(pre).extends(pre),
{
    let head = (t.0, t.1);
    let mid = head.spec_pushed_multi(pre);
    let fin = t.spec_pushed_multi(pre);
    t.2.lemma_pushed(mid);
    lemma_extends_trans(mid, fin, post);
    lemma_tuple_stays_2(head, pre, post);
    t.2.lemma_stays(mid, post);
    lemma_extends_trans(pre, mid, fin);
}

/// A tuple of three that is pushed and read back from where it
/// begins is the tuple that was pushed.
pub proof fn lemma_tuple_round_trip_3<A: RoundTrip, B: RoundTrip, C: RoundTrip>(t: (A, B, C), pre: StateView)
    requires
        spec_representable_3(t, pre),
    ensures
        <(A, B, C) as FromLuaMulti>::spec_from_lua_multi(t.spec_pushed_multi(pre), pre.top() + 1)
            == Some(t.deep_view()),
        t.spec_pushed_multi(pre).top() == pre.top() + 3,
{
    lemma_extends_refl(t.spec_pushed_multi(pre));
    lemma_tuple_stays_3(t, pre, t.spec_pushed_multi(pre));
}

/// Pushing a tuple of four grows the stack by the number of
/// values that it hands over, and extends the context.
pub proof fn lemma_tuple_height_4<A: ToLua, B: ToLua, C: ToLua, D: ToLua>(t: (A, B, C, D), pre: StateView)
    requires
        t.spec_pushable_multi(pre),
    ensures
        t.spec_pushed_multi(pre).top() == pre.top() + t.spec_count(),
        0 <= t.spec_count() <= 4,
        t.spec_pushed_multi(pre).extends(pre),
{
    let head = (t.0, t.1, t.2);
    let mid = head.spec_pushed_multi(pre);
    lemma_tuple_height_3(head, pre);
    t.3.lemma_pushed(mid);
    lemma_extends_trans(pre, mid, t.spec_pushed_multi(pre));
}

impl<A: ToLua, B: ToLua, C: ToLua, D: ToLua> ToLuaMulti for (A, B, C, D) {
    open spec fn spec_raises(&self) -> Option<Seq<u8>> {
        None
    }

    open spec fn spec_pushable_multi(&self, pre: StateView) -> bool {
        let head = (self.0, self.1, self.2);
        &&& head.spec_pushable_multi(pre)
        &&& self.3.spec_pushable(head.spec_pushed_multi(pre))
    }

    open spec fn spec_count(&self) -> int {
        (self.0, self.1, self.2).spec_count() + if D::spec_is_top() {
            0int
        } else {
            1int
        }
    }

    open spec fn spec_pushed_multi(&self, pre: StateView) -> StateView {
        self.3.spec_pushed((self.0, self.1, self.2).spec_pushed_multi(pre))
    }

    proof fn lemma_pushed_multi(&self, pre: StateView) {
        lemma_tuple_height_4(*self, pre);
    }

    fn to_lua(self, s: &mut State) -> (r: Result<i32, Error>) {
        let (x0, x1, x2, x3) = self;
        let head = (x0, x1, x2);
        proof {
            lemma_tuple_height_3(head, s@);
        }
        let pushed: i32 = match ToLuaMulti::to_lua(head, s) {
            Ok(k) => k,
            Err(e) => {
                return Err(e);
            },
        };
        ToLua::to_lua(x3, s);
        Ok(pushed + if D::is_top() {
            0
        } else {
            1
        })
    }

    fn to_lua_result(self, s: &mut State) -> (r: Result<i32, Error>) {
        ToLuaMulti::to_lua(self, s)
    }
}

impl<A: FromLua, B: FromLua, C: FromLua, D: FromLua> FromLuaMulti for (A, B, C, D) {
    open spec fn spec_count() -> int {
        4
    }

    open spec fn spec_from_lua_multi(s: StateView, begin: int) -> Option<(<A as DeepView>::V, <B as DeepView>::V, <C as DeepView>::V, <D as DeepView>::V)> {
        match <(A, B, C) as FromLuaMulti>::spec_from_lua_multi(s, begin) {
            Some(p) => match D::spec_from_lua(s, begin + 3) {
                Some(v) => Some((p.0, p.1, p.2, v)),
                None => None,
            },
            None => None,
        }
    }

    fn count() -> (n: i32) {
        4
    }

    open spec fn spec_check_error(s: StateView, begin: int) -> Option<ErrorView> {
        match <(A, B, C) as FromLuaMulti>::spec_check_error(s, begin) {
            Some(e) => Some(e),
            None => if D::spec_from_lua(s, begin + 3).is_none() {
                Some(s.type_error(begin + 3, D::spec_tname()))
            } else {
                None
            },
        }
    }

    fn from_lua(s: &State, begin: Index) -> (r: Option<Self>) {
        match <(A, B, C) as FromLuaMulti>::from_lua(s, begin) {
            Some(p) => match <D as FromLua>::from_lua(s, begin + 3) {
                Some(v) => Some((p.0, p.1, p.2, v)),
                None => None,
            },
            None => None,
        }
    }

    fn check(s: &State, begin: Index) -> (r: Result<Self, Error>) {
        match <(A, B, C) as FromLuaMulti>::check(s, begin) {
            Ok(p) => match s.check_arg::<D>(begin + 3) {
                Ok(v) => Ok((p.0, p.1, p.2, v)),
                Err(e) => Err(e),
            },
            Err(e) => Err(e),
        }
    }
}

/// The read of a tuple of four gives a value exactly where the
/// reads of all its elements give one, each at its place: a cell that is
/// missing or of another type makes it give nothing. The checked read
/// gives no error in exactly that case.
pub proof fn lemma_tuple_reads_4<A: FromLua, B: FromLua, C: FromLua, D: FromLua>(s: StateView, begin: int)
    ensures
        <(A, B, C, D) as FromLuaMulti>::spec_from_lua_multi(s, begin).is_some() <==> (<(A, B, C) as FromLuaMulti>::spec_from_lua_multi(
            s,
            begin,
        ).is_some() && D::spec_from_lua(s, begin + 3).is_some()),
        <(A, B, C, D) as FromLuaMulti>::spec_check_error(s, begin).is_none() <==> <(A, B, C, D) as FromLuaMulti>::spec_from_lua_multi(
            s,
            begin,
        ).is_some(),
{
    lemma_tuple_reads_3::<A, B, C>(s, begin);
}

/// Whether each element of the tuple is a value that the interpreter can
/// hold without loss, in the context in which it is pushed.
pub open spec fn spec_representable_4<A: RoundTrip, B: RoundTrip, C: RoundTrip, D: RoundTrip>(t: (A, B, C, D), pre: StateView) -> bool {
    let head = (t.0, t.1, t.2);
    let mid = head.spec_pushed_multi(pre);
    &&& spec_representable_3(head, pre)
    &&& t.3.spec_pushable(mid)
    &&& t.3.spec_representable(mid)
    &&& !D::spec_is_top()
}

/// A tuple of four that was pushed stays readable from where it
/// begins, whatever is pushed or created after it.
pub proof fn lemma_tuple_stays_4<A: RoundTrip, B: RoundTrip, C: RoundTrip, D: RoundTrip>(t: (A, B, C, D), pre: StateView, post: StateView)
    requires
        spec_representable_4(t, pre),
        post.extends(t.spec_pushed_multi(pre)),
    ensures
        <(A, B, C, D) as FromLuaMulti>::spec_from_lua_multi(post, pre.top() + 1) == Some(t.deep_view()),
        t.spec_pushed_multi(pre).top() == pre.top() + 4,
        t.spec_pushed_multi(pre).extends(pre),
{
    let head = (t.0, t.1, t.2);
    let mid = head.spec_pushed_multi(pre);
    let fin = t.spec_pushed_multi(pre);
    t.3.lemma_pushed(mid);
    lemma_extends_trans(mid, fin, post);
    lemma_tuple_stays_3(head, pre, post);
    t.3.lemma_stays(mid, post);
    lemma_extends_trans(pre, mid, fin);
}

/// A tuple of four that is pushed and read back from where it
/// begins is the tuple that was pushed.
pub proof fn lemma_tuple_round_trip_4<A: RoundTrip, B: RoundTrip, C: RoundTrip, D: RoundTrip>(t: (A, B, C, D), pre: StateView)
    requires
        spec_representable_4(t, pre),
    ensures
        <(A, B, C, D) as FromLuaMulti>::spec_from_lua_multi(t.spec_pushed_multi(pre), pre.top() + 1)
            == Some(t.deep_view()),
        t.spec_pushed_multi(pre).top() == pre.top() + 4,
{
    lemma_extends_refl(t.spec_pushed_multi(pre));
    lemma_tuple_stays_4(t, pre, t.spec_pushed_multi(pre));
}

/// Pushing a tuple of five grows the stack by the number of
/// values that it hands over, and extends the context.
pub proof fn lemma_tuple_height_5<A: ToLua, B: ToLua, C: ToLua, D: ToLua, E: ToLua>(t: (A, B, C, D, E), pre: StateView)
    requires
        t.spec_pushable_multi(pre),
    ensures
        t.spec_pushed_multi(pre).top() == pre.top() + t.spec_count(),
        0 <= t.spec_count() <= 5,
        t.spec_pushed_multi(pre).extends(pre),
{
    let head = (t.0, t.1, t.2, t.3);
    let mid = head.spec_pushed_multi(pre);
    lemma_tuple_height_4(head, pre);
    t.4.lemma_pushed(mid);
    lemma_extends_trans(pre, mid, t.spec_pushed_multi(pre));
}

impl<A: ToLua, B: ToLua, C: ToLua, D: ToLua, E: ToLua> ToLuaMulti for (A, B, C, D, E) {
    open spec fn spec_raises(&self) -> Option<Seq<u8>> {
        None
    }

    open spec fn spec_pushable_multi(&self, pre: StateView) -> bool {
        let head = (self.0, self.1, self.2, self.3);
        &&& head.spec_pushable_multi(pre)
        &&& self.4.spec_pushable(head.spec_pushed_multi(pre))
    }

    open spec fn spec_count(&self) -> int {
        (self.0, self.1, self.2, self.3).spec_count() + if E::spec_is_top() {
            0int
        } else {
            1int
        }
    }

    open spec fn spec_pushed_multi(&self, pre: StateView) -> StateView {
        self.4.spec_pushed((self.0, self.1, self.2, self.3).spec_pushed_multi(pre))
    }

    proof fn lemma_pushed_multi(&self, pre: StateView) {
        lemma_tuple_height_5(*self, pre);
    }

    fn to_lua(self, s: &mut State) -> (r: Result<i32, Error>) {
        let (x0, x1, x2, x3, x4) = self;
        let head = (x0, x1, x2, x3);
        proof {
            lemma_tuple_height_4(head, s@);
        }
        let pushed: i32 = match ToLuaMulti::to_lua(head, s) {
            Ok(k) => k,
            Err(e) => {
                return Err(e);
            },
        };
        ToLua::to_lua(x4, s);
        Ok(pushed + if E::is_top() {
            0
        } else {
            1
        })
    }

    fn to_lua_result(self, s: &mut State) -> (r: Result<i32, Error>) {
        ToLuaMulti::to_lua(self, s)
    }
}

impl<A: FromLua, B: FromLua, C: FromLua, D: FromLua, E: FromLua> FromLuaMulti for (A, B, C, D, E) {
    open spec fn spec_count() -> int {
        5
    }

    open spec fn spec_from_lua_multi(s: StateView, begin: int) -> Option<(<A as DeepView>::V, <B as DeepView>::V, <C as DeepView>::V, <D as DeepView>::V, <E as DeepView>::V)> {
        match <(A, B, C, D) as FromLuaMulti>::spec_from_lua_multi(s, begin) {
            Some(p) => match E::spec_from_lua(s, begin + 4) {
                Some(v) => Some((p.0, p.1, p.2, p.3, v)),
                None => None,
            },
            None => None,
        }
    }

    fn count() -> (n: i32) {
        5
    }

    open spec fn spec_check_error(s: StateView, begin: int) -> Option<ErrorView> {
        match <(A, B, C, D) as FromLuaMulti>::spec_check_error(s, begin) {
            Some(e) => Some(e),
            None => if E::spec_from_lua(s, begin + 4).is_none() {
                Some(s.type_error(begin + 4, E::spec_tname()))
            } else {
                None
            },
        }
    }

    fn from_lua(s: &State, begin: Index) -> (r: Option<Self>) {
        match <(A, B, C, D) as FromLuaMulti>::from_lua(s, begin) {
            Some(p) => match <E as FromLua>::from_lua(s, begin + 4) {
                Some(v) => Some((p.0, p.1, p.2, p.3, v)),
                None => None,
            },
            None => None,
        }
    }

    fn check(s: &State, begin: Index) -> (r: Result<Self, Error>) {
        match <(A, B, C, D) as FromLuaMulti>::check(s, begin) {
            Ok(p) => match s.check_arg::<E>(begin + 4) {
                Ok(v) => Ok((p.0, p.1, p.2, p.3, v)),
                Err(e) => Err(e),
            },
            Err(e) => Err(e),
        }
    }
}

/// The read of a tuple of five gives a value exactly where the
/// reads of all its elements give one, each at its place: a cell that is
/// missing or of another type makes it give nothing. The checked read
/// gives no error in exactly that case.
pub proof fn lemma_tuple_reads_5<A: FromLua, B: FromLua, C: FromLua, D: FromLua, E: FromLua>(s: StateView, begin: int)
    ensures
        <(A, B, C, D, E) as FromLuaMulti>::spec_from_lua_multi(s, begin).is_some() <==> (<(A, B, C, D) as FromLuaMulti>::spec_from_lua_multi(
            s,
            begin,
        ).is_some() && E::spec_from_lua(s, begin + 4).is_some()),
        <(A, B, C, D, E) as FromLuaMulti>::spec_check_error(s, begin).is_none() <==> <(A, B, C, D, E) as FromLuaMulti>::spec_from_lua_multi(
            s,
            begin,
        ).is_some(),
{
    lemma_tuple_reads_4::<A, B, C, D>(s, begin);
}

/// Whether each element of the tuple is a value that the interpreter can
/// hold without loss, in the context in which it is pushed.
pub open spec fn spec_representable_5<A: RoundTrip, B: RoundTrip, C: RoundTrip, D: RoundTrip, E: RoundTrip>(t: (A, B, C, D, E), pre: StateView) -> bool {
    let head = (t.0, t.1, t.2, t.3);
    let mid = head.spec_pushed_multi(pre);
    &&& spec_representable_4(head, pre)
    &&& t.4.spec_pushable(mid)
    &&& t.4.spec_representable(mid)
    &&& !E::spec_is_top()
}

/// A tuple of five that was pushed stays readable from where it
/// begins, whatever is pushed or created after it.
pub proof fn lemma_tuple_stays_5<A: RoundTrip, B: RoundTrip, C: RoundTrip, D: RoundTrip, E: RoundTrip>(t: (A, B, C, D, E), pre: StateView, post: StateView)
    requires
        spec_representable_5(t, pre),
        post.extends(t.spec_pushed_multi(pre)),
    ensures
        <(A, B, C, D, E) as FromLuaMulti>::spec_from_lua_multi(post, pre.top() + 1) == Some(t.deep_view()),
        t.spec_pushed_multi(pre).top() == pre.top() + 5,
        t.spec_pushed_multi(pre).extends(pre),
{
    let head = (t.0, t.1, t.2, t.3);
    let mid = head.spec_pushed_multi(pre);
    let fin = t.spec_pushed_multi(pre);
    t.4.lemma_pushed(mid);
    lemma_extends_trans(mid, fin, post);
    lemma_tuple_stays_4(head, pre, post);
    t.4.lemma_stays(mid, post);
    lemma_extends_trans(pre, mid, fin);
}

/// A tuple of five that is pushed and read back from where it
/// begins is the tuple that was pushed.
pub proof fn lemma_tuple_round_trip_5<A: RoundTrip, B: RoundTrip, C: RoundTrip, D: RoundTrip, E: RoundTrip>(t: (A, B, C, D, E), pre: StateView)
    requires
        spec_representable_5(t, pre),
    ensures
        <(A, B, C, D, E) as FromLuaMulti>::spec_from_lua_multi(t.spec_pushed_multi(pre), pre.top() + 1)
            == Some(t.deep_view()),
        t.spec_pushed_multi(pre).top() == pre.top() + 5,
{
    lemma_extends_refl(t.spec_pushed_multi(pre));
    lemma_tuple_stays_5(t, pre, t.spec_pushed_multi(pre));
}

/// Pushing a tuple of six grows the stack by the number of
/// values that it hands over, and extends the context.
pub proof fn lemma_tuple_height_6<A: ToLua, B: ToLua, C: ToLua, D: ToLua, E: ToLua, F: ToLua>(t: (A, B, C, D, E, F), pre: StateView)
    requires
        t.spec_pushable_multi(pre),
    ensures
        t.spec_pushed_multi(pre).top() == pre.top() + t.spec_count(),
        0 <= t.spec_count() <= 6,
        t.spec_pushed_multi(pre).extends(pre),
{
    let head = (t.0, t.1, t.2, t.3, t.4);
    let mid = head.spec_pushed_multi(pre);
    lemma_tuple_height_5(head, pre);
    t.5.lemma_pushed(mid);
    lemma_extends_trans(pre, mid, t.spec_pushed_multi(pre));
}

impl<A: ToLua, B: ToLua, C: ToLua, D: ToLua, E: ToLua, F: ToLua> ToLuaMulti for (A, B, C, D, E, F) {
    open spec fn spec_raises(&self) -> Option<Seq<u8>> {
        None
    }

    open spec fn spec_pushable_multi(&self, pre: StateView) -> bool {
        let head = (self.0, self.1, self.2, self.3, self.4);
        &&& head.spec_pushable_multi(pre)
        &&& self.5.spec_pushable(head.spec_pushed_multi(pre))
    }

    open spec fn spec_count(&self) -> int {
        (self.0, self.1, self.2, self.3, self.4).spec_count() + if F::spec_is_top() {
            0int
        } else {
            1int
        }
    }

    open spec fn spec_pushed_multi(&self, pre: StateView) -> StateView {
        self.5.spec_pushed((self.0, self.1, self.2, self.3, self.4).spec_pushed_multi(pre))
    }

    proof fn lemma_pushed_multi(&self, pre: StateView) {
        lemma_tuple_height_6(*self, pre);
    }

    fn to_lua(self, s: &mut State) -> (r: Result<i32, Error>) {
        let (x0, x1, x2, x3, x4, x5) = self;
        let head = (x0, x1, x2, x3, x4);
        proof {
            lemma_tuple_height_5(head, s@);
        }
        let pushed: i32 = match ToLuaMulti::to_lua(head, s) {
            Ok(k) => k,
            Err(e) => {
                return Err(e);
            },
        };
        ToLua::to_lua(x5, s);
        Ok(pushed + if F::is_top() {
            0
        } else {
            1
        })
    }

    fn to_lua_result(self, s: &mut State) -> (r: Result<i32, Error>) {
        ToLuaMulti::to_lua(self, s)
    }
}

impl<A: FromLua, B: FromLua, C: FromLua, D: FromLua, E: FromLua, F: FromLua> FromLuaMulti for (A, B, C, D, E, F) {
    open spec fn spec_count() -> int {
        6
    }

    open spec fn spec_from_lua_multi(s: StateView, begin: int) -> Option<(<A as DeepView>::V, <B as DeepView>::V, <C as DeepView>::V, <D as DeepView>::V, <E as DeepView>::V, <F as DeepView>::V)> {
        match <(A, B, C, D, E) as FromLuaMulti>::spec_from_lua_multi(s, begin) {
            Some(p) => match F::spec_from_lua(s, begin + 5) {
                Some(v) => Some((p.0, p.1, p.2, p.3, p.4, v)),
                None => None,
            },
            None => None,
        }
    }

    fn count() -> (n: i32) {
        6
    }

    open spec fn spec_check_error(s: StateView, begin: int) -> Option<ErrorView> {
        match <(A, B, C, D, E) as FromLuaMulti>::spec_check_error(s, begin) {
            Some(e) => Some(e),
            None => if F::spec_from_lua(s, begin + 5).is_none() {
                Some(s.type_error(begin + 5, F::spec_tname()))
            } else {
                None
            },
        }
    }

    fn from_lua(s: &State, begin: Index) -> (r: Option<Self>) {
        match <(A, B, C, D, E) as FromLuaMulti>::from_lua(s, begin) {
            Some(p) => match <F as FromLua>::from_lua(s, begin + 5) {
                Some(v) => Some((p.0, p.1, p.2, p.3, p.4, v)),
                None => None,
            },
            None => None,
        }
    }

    fn check(s: &State, begin: Index) -> (r: Result<Self, Error>) {
        match <(A, B, C, D, E) as FromLuaMulti>::check(s, begin) {
            Ok(p) => match s.check_arg::<F>(begin + 5) {
                Ok(v) => Ok((p.0, p.1, p.2, p.3, p.4, v)),
                Err(e) => Err(e),
            },
            Err(e) => Err(e),
        }
    }
}

/// The read of a tuple of six gives a value exactly where the
/// reads of all its elements give one, each at its place: a cell that is
/// missing or of another type makes it give nothing. The checked read
/// gives no error in exactly that case.
pub proof fn lemma_tuple_reads_6<A: FromLua, B: FromLua, C: FromLua, D: FromLua, E: FromLua, F: FromLua>(s: StateView, begin: int)
    ensures
        <(A, B, C, D, E, F) as FromLuaMulti>::spec_from_lua_multi(s, begin).is_some() <==> (<(A, B, C, D, E) as FromLuaMulti>::spec_from_lua_multi(
            s,
            begin,
        ).is_some() && F::spec_from_lua(s, begin + 5).is_some()),
        <(A, B, C, D, E, F) as FromLuaMulti>::spec_check_error(s, begin).is_none() <==> <(A, B, C, D, E, F) as FromLuaMulti>::spec_from_lua_multi(
            s,
            begin,
        ).is_some(),
{
    lemma_tuple_reads_5::<A, B, C, D, E>(s, begin);
}

/// Whether each element of the tuple is a value that the interpreter can
/// hold without loss, in the context in which it is pushed.
pub open spec fn spec_representable_6<A: RoundTrip, B: RoundTrip, C: RoundTrip, D: RoundTrip, E: RoundTrip, F: RoundTrip>(t: (A, B, C, D, E, F), pre: StateView) -> bool {
    let head = (t.0, t.1, t.2, t.3, t.4);
    let mid = head.spec_pushed_multi(pre);
    &&& spec_representable_5(head, pre)
    &&& t.5.spec_pushable(mid)
    &&& t.5.spec_representable(mid)
    &&& !F::spec_is_top()
}

/// A tuple of six that was pushed stays readable from where it
/// begins, whatever is pushed or created after it.
pub proof fn lemma_tuple_stays_6<A: RoundTrip, B: RoundTrip, C: RoundTrip, D: RoundTrip, E: RoundTrip, F: RoundTrip>(t: (A, B, C, D, E, F), pre: StateView, post: StateView)
    requires
        spec_representable_6(t, pre),
        post.extends(t.spec_pushed_multi(pre)),
    ensures
        <(A, B, C, D, E, F) as FromLuaMulti>::spec_from_lua_multi(post, pre.top() + 1) == Some(t.deep_view()),
        t.spec_pushed_multi(pre).top() == pre.top() + 6,
        t.spec_pushed_multi(pre).extends(pre),
{
    let head = (t.0, t.1, t.2, t.3, t.4);
    let mid = head.spec_pushed_multi(pre);
    let fin = t.spec_pushed_multi(pre);
    t.5.lemma_pushed(mid);
    lemma_extends_trans(mid, fin, post);
    lemma_tuple_stays_5(head, pre, post);
    t.5.lemma_stays(mid, post);
    lemma_extends_trans(pre, mid, fin);
}

/// A tuple of six that is pushed and read back from where it
/// begins is the tuple that was pushed.
pub proof fn lemma_tuple_round_trip_6<A: RoundTrip, B: RoundTrip, C: RoundTrip, D: RoundTrip, E: RoundTrip, F: RoundTrip>(t: (A, B, C, D, E, F), pre: StateView)
    requires
        spec_representable_6(t, pre),
    ensures
        <(A, B, C, D, E, F) as FromLuaMulti>::spec_from_lua_multi(t.spec_pushed_multi(pre), pre.top() + 1)
            == Some(t.deep_view()),
        t.spec_pushed_multi(pre).top() == pre.top() + 6,
{
    lemma_extends_refl(t.spec_pushed_multi(pre));
    lemma_tuple_stays_6(t, pre, t.spec_pushed_multi(pre));
}

/// Pushing a tuple of seven grows the stack by the number of
/// values that it hands over, and extends the context.
pub proof fn lemma_tuple_height_7<A: ToLua, B: ToLua, C: ToLua, D: ToLua, E: ToLua, F: ToLua, G: ToLua>(t: (A, B, C, D, E, F, G), pre: StateView)
    requires
        t.spec_pushable_multi(pre),
    ensures
        t.spec_pushed_multi(pre).top() == pre.top() + t.spec_count(),
        0 <= t.spec_count() <= 7,
        t.spec_pushed_multi(pre).extends(pre),
{
    let head = (t.0, t.1, t.2, t.3, t.4, t.5);
    let mid = head.spec_pushed_multi(pre);
    lemma_tuple_height_6(head, pre);
    t.6.lemma_pushed(mid);
    lemma_extends_trans(pre, mid, t.spec_pushed_multi(pre));
}

impl<A: ToLua, B: ToLua, C: ToLua, D: ToLua, E: ToLua, F: ToLua, G: ToLua> ToLuaMulti for (A, B, C, D, E, F, G) {
    open spec fn spec_raises(&self) -> Option<Seq<u8>> {
        None
    }

    open spec fn spec_pushable_multi(&self, pre: StateView) -> bool {
        let head = (self.0, self.1, self.2, self.3, self.4, self.5);
        &&& head.spec_pushable_multi(pre)
        &&& self.6.spec_pushable(head.spec_pushed_multi(pre))
    }

    open spec fn spec_count(&self) -> int {
        (self.0, self.1, self.2, self.3, self.4, self.5).spec_count() + if G::spec_is_top() {
            0int
        } else {
            1int
        }
    }

    open spec fn spec_pushed_multi(&self, pre: StateView) -> StateView {
        self.6.spec_pushed((self.0, self.1, self.2, self.3, self.4, self.5).spec_pushed_multi(pre))
    }

    proof fn lemma_pushed_multi(&self, pre: StateView) {
        lemma_tuple_height_7(*self, pre);
    }

    fn to_lua(self, s: &mut State) -> (r: Result<i32, Error>) {
        let (x0, x1, x2, x3, x4, x5, x6) = self;
        let head = (x0, x1, x2, x3, x4, x5);
        proof {
            lemma_tuple_height_6(head, s@);
        }
        let pushed: i32 = match ToLuaMulti::to_lua(head, s) {
            Ok(k) => k,
            Err(e) => {
                return Err(e);
            },
        };
        ToLua::to_lua(x6, s);
        Ok(pushed + if G::is_top() {
            0
        } else {
            1
        })
    }

    fn to_lua_result(self, s: &mut State) -> (r: Result<i32, Error>) {
        ToLuaMulti::to_lua(self, s)
    }
}

impl<A: FromLua, B: FromLua, C: FromLua, D: FromLua, E: FromLua, F: FromLua, G: FromLua> FromLuaMulti for (A, B, C, D, E, F, G) {
    open spec fn spec_count() -> int {
        7
    }

    open spec fn spec_from_lua_multi(s: StateView, begin: int) -> Option<(<A as DeepView>::V, <B as DeepView>::V, <C as DeepView>::V, <D as DeepView>::V, <E as DeepView>::V, <F as DeepView>::V, <G as DeepView>::V)> {
        match <(A, B, C, D, E, F) as FromLuaMulti>::spec_from_lua_multi(s, begin) {
            Some(p) => match G::spec_from_lua(s, begin + 6) {
                Some(v) => Some((p.0, p.1, p.2, p.3, p.4, p.5, v)),
                None => None,
            },
            None => None,
        }
    }

    fn count() -> (n: i32) {
        7
    }

    open spec fn spec_check_error(s: StateView, begin: int) -> Option<ErrorView> {
        match <(A, B, C, D, E, F) as FromLuaMulti>::spec_check_error(s, begin) {
            Some(e) => Some(e),
            None => if G::spec_from_lua(s, begin + 6).is_none() {
                Some(s.type_error(begin + 6, G::spec_tname()))
            } else {
                None
            },
        }
    }

    fn from_lua(s: &State, begin: Index) -> (r: Option<Self>) {
        match <(A, B, C, D, E, F) as FromLuaMulti>::from_lua(s, begin) {
            Some(p) => match <G as FromLua>::from_lua(s, begin + 6) {
                Some(v) => Some((p.0, p.1, p.2, p.3, p.4, p.5, v)),
                None => None,
            },
            None => None,
        }
    }

    fn check(s: &State, begin: Index) -> (r: Result<Self, Error>) {
        match <(A, B, C, D, E, F) as FromLuaMulti>::check(s, begin) {
            Ok(p) => match s.check_arg::<G>(begin + 6) {
                Ok(v) => Ok((p.0, p.1, p.2, p.3, p.4, p.5, v)),
                Err(e) => Err(e),
            },
            Err(e) => Err(e),
        }
    }
}

/// The read of a tuple of seven gives a value exactly where the
/// reads of all its elements give one, each at its place: a cell that is
/// missing or of another type makes it give nothing. The checked read
/// gives no error in exactly that case.
pub proof fn lemma_tuple_reads_7<A: FromLua, B: FromLua, C: FromLua, D: FromLua, E: FromLua, F: FromLua, G: FromLua>(s: StateView, begin: int)
    ensures
        <(A, B, C, D, E, F, G) as FromLuaMulti>::spec_from_lua_multi(s, begin).is_some() <==> (<(A, B, C, D, E, F) as FromLuaMulti>::spec_from_lua_multi(
            s,
            begin,
        ).is_some() && G::spec_from_lua(s, begin + 6).is_some()),
        <(A, B, C, D, E, F, G) as FromLuaMulti>::spec_check_error(s, begin).is_none() <==> <(A, B, C, D, E, F, G) as FromLuaMulti>::spec_from_lua_multi(
            s,
            begin,
        ).is_some(),
{
    lemma_tuple_reads_6::<A, B, C, D, E, F>(s, begin);
}

/// Whether each element of the tuple is a value that the interpreter can
/// hold without loss, in the context in which it is pushed.
pub open spec fn spec_representable_7<A: RoundTrip, B: RoundTrip, C: RoundTrip, D: RoundTrip, E: RoundTrip, F: RoundTrip, G: RoundTrip>(t: (A, B, C, D, E, F, G), pre: StateView) -> bool {
    let head = (t.0, t.1, t.2, t.3, t.4, t.5);
    let mid = head.spec_pushed_multi(pre);
    &&& spec_representable_6(head, pre)
    &&& t.6.spec_pushable(mid)
    &&& t.6.spec_representable(mid)
    &&& !G::spec_is_top()
}

/// A tuple of seven that was pushed stays readable from where it
/// begins, whatever is pushed or created after it.
pub proof fn lemma_tuple_stays_7<A: RoundTrip, B: RoundTrip, C: RoundTrip, D: RoundTrip, E: RoundTrip, F: RoundTrip, G: RoundTrip>(t: (A, B, C, D, E, F, G), pre: StateView, post: StateView)
    requires
        spec_representable_7(t, pre),
        post.extends(t.spec_pushed_multi(pre)),
    ensures
        <(A, B, C, D, E, F, G) as FromLuaMulti>::spec_from_lua_multi(post, pre.top() + 1) == Some(t.deep_view()),
        t.spec_pushed_multi(pre).top() == pre.top() + 7,
        t.spec_pushed_multi(pre).extends(pre),
{
    let head = (t.0, t.1, t.2, t.3, t.4, t.5);
    let mid = head.spec_pushed_multi(pre);
    let fin = t.spec_pushed_multi(pre);
    t.6.lemma_pushed(mid);
    lemma_extends_trans(mid, fin, post);
    lemma_tuple_stays_6(head, pre, post);
    t.6.lemma_stays(mid, post);
    lemma_extends_trans(pre, mid, fin);
}

/// A tuple of seven that is pushed and read back from where it
/// begins is the tuple that was pushed.
pub proof fn lemma_tuple_round_trip_7<A: RoundTrip, B: RoundTrip, C: RoundTrip, D: RoundTrip, E: RoundTrip, F: RoundTrip, G: RoundTrip>(t: (A, B, C, D, E, F, G), pre: StateView)
    requires
        spec_representable_7(t, pre),
    ensures
        <(A, B, C, D, E, F, G) as FromLuaMulti>::spec_from_lua_multi(t.spec_pushed_multi(pre), pre.top() + 1)
            == Some(t.deep_view()),
        t.spec_pushed_multi(pre).top() == pre.top() + 7,
{
    lemma_extends_refl(t.spec_pushed_multi(pre));
    lemma_tuple_stays_7(t, pre, t.spec_pushed_multi(pre));
}

/// Pushing a tuple of eight grows the stack by the number of
/// values that it hands over, and extends the context.
pub proof fn lemma_tuple_height_8<A: ToLua, B: ToLua, C: ToLua, D: ToLua, E: ToLua, F: ToLua, G: ToLua, H: ToLua>(t: (A, B, C, D, E, F, G, H), pre: StateView)
    requires
        t.spec_pushable_multi(pre),
    ensures
        t.spec_pushed_multi(pre).top() == pre.top() + t.spec_count(),
        0 <= t.spec_count() <= 8,
        t.spec_pushed_multi(pre).extends(pre),
{
    let head = (t.0, t.1, t.2, t.3, t.4, t.5, t.6);
    let mid = head.spec_pushed_multi(pre);
    lemma_tuple_height_7(head, pre);
    t.7.lemma_pushed(mid);
    lemma_extends_trans(pre, mid, t.spec_pushed_multi(pre));
}

impl<A: ToLua, B: ToLua, C: ToLua, D: ToLua, E: ToLua, F: ToLua, G: ToLua, H: ToLua> ToLuaMulti for (A, B, C, D, E, F, G, H) {
    open spec fn spec_raises(&self) -> Option<Seq<u8>> {
        None
    }

    open spec fn spec_pushable_multi(&self, pre: StateView) -> bool {
        let head = (self.0, self.1, self.2, self.3, self.4, self.5, self.6);
        &&& head.spec_pushable_multi(pre)
        &&& self.7.spec_pushable(head.spec_pushed_multi(pre))
    }

    open spec fn spec_count(&self) -> int {
        (self.0, self.1, self.2, self.3, self.4, self.5, self.6).spec_count() + if H::spec_is_top() {
            0int
        } else {
            1int
        }
    }

    open spec fn spec_pushed_multi(&self, pre: StateView) -> StateView {
        self.7.spec_pushed((self.0, self.1, self.2, self.3, self.4, self.5, self.6).spec_pushed_multi(pre))
    }

    proof fn lemma_pushed_multi(&self, pre: StateView) {
        lemma_tuple_height_8(*self, pre);
    }

    fn to_lua(self, s: &mut State) -> (r: Result<i32, Error>) {
        let (x0, x1, x2, x3, x4, x5, x6, x7) = self;
        let head = (x0, x1, x2, x3, x4, x5, x6);
        proof {
            lemma_tuple_height_7(head, s@);
        }
        let pushed: i32 = match ToLuaMulti::to_lua(head, s) {
            Ok(k) => k,
            Err(e) => {
                return Err(e);
            },
        };
        ToLua::to_lua(x7, s);
        Ok(pushed + if H::is_top() {
            0
        } else {
            1
        })
    }

    fn to_lua_result(self, s: &mut State) -> (r: Result<i32, Error>) {
        ToLuaMulti::to_lua(self, s)
    }
}

impl<A: FromLua, B: FromLua, C: FromLua, D: FromLua, E: FromLua, F: FromLua, G: FromLua, H: FromLua> FromLuaMulti for (A, B, C, D, E, F, G, H) {
    open spec fn spec_count() -> int {
        8
    }

    open spec fn spec_from_lua_multi(s: StateView, begin: int) -> Option<(<A as DeepView>::V, <B as DeepView>::V, <C as DeepView>::V, <D as DeepView>::V, <E as DeepView>::V, <F as DeepView>::V, <G as DeepView>::V, <H as DeepView>::V)> {
        match <(A, B, C, D, E, F, G) as FromLuaMulti>::spec_from_lua_multi(s, begin) {
            Some(p) => match H::spec_from_lua(s, begin + 7) {
                Some(v) => Some((p.0, p.1, p.2, p.3, p.4, p.5, p.6, v)),
                None => None,
            },
            None => None,
        }
    }

    fn count() -> (n: i32) {
        8
    }

    open spec fn spec_check_error(s: StateView, begin: int) -> Option<ErrorView> {
        match <(A, B, C, D, E, F, G) as FromLuaMulti>::spec_check_error(s, begin) {
            Some(e) => Some(e),
            None => if H::spec_from_lua(s, begin + 7).is_none() {
                Some(s.type_error(begin + 7, H::spec_tname()))
            } else {
                None
            },
        }
    }

    fn from_lua(s: &State, begin: Index) -> (r: Option<Self>) {
        match <(A, B, C, D, E, F, G) as FromLuaMulti>::from_lua(s, begin) {
            Some(p) => match <H as FromLua>::from_lua(s, begin + 7) {
                Some(v) => Some((p.0, p.1, p.2, p.3, p.4, p.5, p.6, v)),
                None => None,
            },
            None => None,
        }
    }

    fn check(s: &State, begin: Index) -> (r: Result<Self, Error>) {
        match <(A, B, C, D, E, F, G) as FromLuaMulti>::check(s, begin) {
            Ok(p) => match s.check_arg::<H>(begin + 7) {
                Ok(v) => Ok((p.0, p.1, p.2, p.3, p.4, p.5, p.6, v)),
                Err(e) => Err(e),
            },
            Err(e) => Err(e),
        }
    }
}

/// The read of a tuple of eight gives a value exactly where the
/// reads of all its elements give one, each at its place: a cell that is
/// missing or of another type makes it give nothing. The checked read
/// gives no error in exactly that case.
pub proof fn lemma_tuple_reads_8<A: FromLua, B: FromLua, C: FromLua, D: FromLua, E: FromLua, F: FromLua, G: FromLua, H: FromLua>(s: StateView, begin: int)
    ensures
        <(A, B, C, D, E, F, G, H) as FromLuaMulti>::spec_from_lua_multi(s, begin).is_some() <==> (<(A, B, C, D, E, F, G) as FromLuaMulti>::spec_from_lua_multi(
            s,
            begin,
        ).is_some() && H::spec_from_lua(s, begin + 7).is_some()),
        <(A, B, C, D, E, F, G, H) as FromLuaMulti>::spec_check_error(s, begin).is_none() <==> <(A, B, C, D, E, F, G, H) as FromLuaMulti>::spec_from_lua_multi(
            s,
            begin,
        ).is_some(),
{
    lemma_tuple_reads_7::<A, B, C, D, E, F, G>(s, begin);
}

/// Whether each element of the tuple is a value that the interpreter can
/// hold without loss, in the context in which it is pushed.
pub open spec fn spec_representable_8<A: RoundTrip, B: RoundTrip, C: RoundTrip, D: RoundTrip, E: RoundTrip, F: RoundTrip, G: RoundTrip, H: RoundTrip>(t: (A, B, C, D, E, F, G, H), pre: StateView) -> bool {
    let head = (t.0, t.1, t.2, t.3, t.4, t.5, t.6);
    let mid = head.spec_pushed_multi(pre);
    &&& spec_representable_7(head, pre)
    &&& t.7.spec_pushable(mid)
    &&& t.7.spec_representable(mid)
    &&& !H::spec_is_top()
}

/// A tuple of eight that was pushed stays readable from where it
/// begins, whatever is pushed or created after it.
pub proof fn lemma_tuple_stays_8<A: RoundTrip, B: RoundTrip, C: RoundTrip, D: RoundTrip, E: RoundTrip, F: RoundTrip, G: RoundTrip, H: RoundTrip>(t: (A, B, C, D, E, F, G, H), pre: StateView, post: StateView)
    requires
        spec_representable_8(t, pre),
        post.extends(t.spec_pushed_multi(pre)),
    ensures
        <(A, B, C, D, E, F, G, H) as FromLuaMulti>::spec_from_lua_multi(post, pre.top() + 1) == Some(t.deep_view()),
        t.spec_pushed_multi(pre).top() == pre.top() + 8,
        t.spec_pushed_multi(pre).extends(pre),
{
    let head = (t.0, t.1, t.2, t.3, t.4, t.5, t.6);
    let mid = head.spec_pushed_multi(pre);
    let fin = t.spec_pushed_multi(pre);
    t.7.lemma_pushed(mid);
    lemma_extends_trans(mid, fin, post);
    lemma_tuple_stays_7(head, pre, post);
    t.7.lemma_stays(mid, post);
    lemma_extends_trans(pre, mid, fin);
}

/// A tuple of eight that is pushed and read back from where it
/// begins is the tuple that was pushed.
pub proof fn lemma_tuple_round_trip_8<A: RoundTrip, B: RoundTrip, C: RoundTrip, D: RoundTrip, E: RoundTrip, F: RoundTrip, G: RoundTrip, H: RoundTrip>(t: (A, B, C, D, E, F, G, H), pre: StateView)
    requires
        spec_representable_8(t, pre),
    ensures
        <(A, B, C, D, E, F, G, H) as FromLuaMulti>::spec_from_lua_multi(t.spec_pushed_multi(pre), pre.top() + 1)
            == Some(t.deep_view()),
        t.spec_pushed_multi(pre).top() == pre.top() + 8,
{
    lemma_extends_refl(t.spec_pushed_multi(pre));
    lemma_tuple_stays_8(t, pre, t.spec_pushed_multi(pre));
}

/// Pushing a tuple of nine grows the stack by the number of
/// values that it hands over, and extends the context.
pub proof fn lemma_tuple_height_9<A: ToLua, B: ToLua, C: ToLua, D: ToLua, E: ToLua, F: ToLua, G: ToLua, H: ToLua, I: ToLua>(t: (A, B, C, D, E, F, G, H, I), pre: StateView)
    requires
        t.spec_pushable_multi(pre),
    ensures
        t.spec_pushed_multi(pre).top() == pre.top() + t.spec_count(),
        0 <= t.spec_count() <= 9,
        t.spec_pushed_multi(pre).extends(pre),
{
    let head = (t.0, t.1, t.2, t.3, t.4, t.5, t.6, t.7);
    let mid = head.spec_pushed_multi(pre);
    lemma_tuple_height_8(head, pre);
    t.8.lemma_pushed(mid);
    lemma_extends_trans(pre, mid, t.spec_pushed_multi(pre));
}

impl<A: ToLua, B: ToLua, C: ToLua, D: ToLua, E: ToLua, F: ToLua, G: ToLua, H: ToLua, I: ToLua> ToLuaMulti for (A, B, C, D, E, F, G, H, I) {
    open spec fn spec_raises(&self) -> Option<Seq<u8>> {
        None
    }

    open spec fn spec_pushable_multi(&self, pre: StateView) -> bool {
        let head = (self.0, self.1, self.2, self.3, self.4, self.5, self.6, self.7);
        &&& head.spec_pushable_multi(pre)
        &&& self.8.spec_pushable(head.spec_pushed_multi(pre))
    }

    open spec fn spec_count(&self) -> int {
        (self.0, self.1, self.2, self.3, self.4, self.5, self.6, self.7).spec_count() + if I::spec_is_top() {
            0int
        } else {
            1int
        }
    }

    open spec fn spec_pushed_multi(&self, pre: StateView) -> StateView {
        self.8.spec_pushed((self.0, self.1, self.2, self.3, self.4, self.5, self.6, self.7).spec_pushed_multi(pre))
    }

    proof fn lemma_pushed_multi(&self, pre: StateView) {
        lemma_tuple_height_9(*self, pre);
    }

    fn to_lua(self, s: &mut State) -> (r: Result<i32, Error>) {
        let (x0, x1, x2, x3, x4, x5, x6, x7, x8) = self;
        let head = (x0, x1, x2, x3, x4, x5, x6, x7);
        proof {
            lemma_tuple_height_8(head, s@);
        }
        let pushed: i32 = match ToLuaMulti::to_lua(head, s) {
            Ok(k) => k,
            Err(e) => {
                return Err(e);
            },
        };
        ToLua::to_lua(x8, s);
        Ok(pushed + if I::is_top() {
            0
        } else {
            1
        })
    }

    fn to_lua_result(self, s: &mut State) -> (r: Result<i32, Error>) {
        ToLuaMulti::to_lua(self, s)
    }
}

impl<A: FromLua, B: FromLua, C: FromLua, D: FromLua, E: FromLua, F: FromLua, G: FromLua, H: FromLua, I: FromLua> FromLuaMulti for (A, B, C, D, E, F, G, H, I) {
    open spec fn spec_count() -> int {
        9
    }

    open spec fn spec_from_lua_multi(s: StateView, begin: int) -> Option<(<A as DeepView>::V, <B as DeepView>::V, <C as DeepView>::V, <D as DeepView>::V, <E as DeepView>::V, <F as DeepView>::V, <G as DeepView>::V, <H as DeepView>::V, <I as DeepView>::V)> {
        match <(A, B, C, D, E, F, G, H) as FromLuaMulti>::spec_from_lua_multi(s, begin) {
            Some(p) => match I::spec_from_lua(s, begin + 8) {
                Some(v) => Some((p.0, p.1, p.2, p.3, p.4, p.5, p.6, p.7, v)),
                None => None,
            },
            None => None,
        }
    }

    fn count() -> (n: i32) {
        9
    }

    open spec fn spec_check_error(s: StateView, begin: int) -> Option<ErrorView> {
        match <(A, B, C, D, E, F, G, H) as FromLuaMulti>::spec_check_error(s, begin) {
            Some(e) => Some(e),
            None => if I::spec_from_lua(s, begin + 8).is_none() {
                Some(s.type_error(begin + 8, I::spec_tname()))
            } else {
                None
            },
        }
    }

    fn from_lua(s: &State, begin: Index) -> (r: Option<Self>) {
        match <(A, B, C, D, E, F, G, H) as FromLuaMulti>::from_lua(s, begin) {
            Some(p) => match <I as FromLua>::from_lua(s, begin + 8) {
                Some(v) => Some((p.0, p.1, p.2, p.3, p.4, p.5, p.6, p.7, v)),
                None => None,
            },
            None => None,
        }
    }

    fn check(s: &State, begin: Index) -> (r: Result<Self, Error>) {
        match <(A, B, C, D, E, F, G, H) as FromLuaMulti>::check(s, begin) {
            Ok(p) => match s.check_arg::<I>(begin + 8) {
                Ok(v) => Ok((p.0, p.1, p.2, p.3, p.4, p.5, p.6, p.7, v)),
                Err(e) => Err(e),
            },
            Err(e) => Err(e),
        }
    }
}

/// The read of a tuple of nine gives a value exactly where the
/// reads of all its elements give one, each at its place: a cell that is
/// missing or of another type makes it give nothing. The checked read
/// gives no error in exactly that case.
pub proof fn lemma_tuple_reads_9<A: FromLua, B: FromLua, C: FromLua, D: FromLua, E: FromLua, F: FromLua, G: FromLua, H: FromLua, I: FromLua>(s: StateView, begin: int)
    ensures
        <(A, B, C, D, E, F, G, H, I) as FromLuaMulti>::spec_from_lua_multi(s, begin).is_some() <==> (<(A, B, C, D, E, F, G, H) as FromLuaMulti>::spec_from_lua_multi(
            s,
            begin,
        ).is_some() && I::spec_from_lua(s, begin + 8).is_some()),
        <(A, B, C, D, E, F, G, H, I) as FromLuaMulti>::spec_check_error(s, begin).is_none() <==> <(A, B, C, D, E, F, G, H, I) as FromLuaMulti>::spec_from_lua_multi(
            s,
            begin,
        ).is_some(),
{
    lemma_tuple_reads_8::<A, B, C, D, E, F, G, H>(s, begin);
}

/// Whether each element of the tuple is a value that the interpreter can
/// hold without loss, in the context in which it is pushed.
pub open spec fn spec_representable_9<A: RoundTrip, B: RoundTrip, C: RoundTrip, D: RoundTrip, E: RoundTrip, F: RoundTrip, G: RoundTrip, H: RoundTrip, I: RoundTrip>(t: (A, B, C, D, E, F, G, H, I), pre: StateView) -> bool {
    let head = (t.0, t.1, t.2, t.3, t.4, t.5, t.6, t.7);
    let mid = head.spec_pushed_multi(pre);
    &&& spec_representable_8(head, pre)
    &&& t.8.spec_pushable(mid)
    &&& t.8.spec_representable(mid)
    &&& !I::spec_is_top()
}

/// A tuple of nine that was pushed stays readable from where it
/// begins, whatever is pushed or created after it.
pub proof fn lemma_tuple_stays_9<A: RoundTrip, B: RoundTrip, C: RoundTrip, D: RoundTrip, E: RoundTrip, F: RoundTrip, G: RoundTrip, H: RoundTrip, I: RoundTrip>(t: (A, B, C, D, E, F, G, H, I), pre: StateView, post: StateView)
    requires
        spec_representable_9(t, pre),
        post.extends(t.spec_pushed_multi(pre)),
    ensures
        <(A, B, C, D, E, F, G, H, I) as FromLuaMulti>::spec_from_lua_multi(post, pre.top() + 1) == Some(t.deep_view()),
        t.spec_pushed_multi(pre).top() == pre.top() + 9,
        t.spec_pushed_multi(pre).extends(pre),
{
    let head = (t.0, t.1, t.2, t.3, t.4, t.5, t.6, t.7);
    let mid = head.spec_pushed_multi(pre);
    let fin = t.spec_pushed_multi(pre);
    t.8.lemma_pushed(mid);
    lemma_extends_trans(mid, fin, post);
    lemma_tuple_stays_8(head, pre, post);
    t.8.lemma_stays(mid, post);
    lemma_extends_trans(pre, mid, fin);
}

/// A tuple of nine that is pushed and read back from where it
/// begins is the tuple that was pushed.
pub proof fn lemma_tuple_round_trip_9<A: RoundTrip, B: RoundTrip, C: RoundTrip, D: RoundTrip, E: RoundTrip, F: RoundTrip, G: RoundTrip, H: RoundTrip, I: RoundTrip>(t: (A, B, C, D, E, F, G, H, I), pre: StateView)
    requires
        spec_representable_9(t, pre),
    ensures
        <(A, B, C, D, E, F, G, H, I) as FromLuaMulti>::spec_from_lua_multi(t.spec_pushed_multi(pre), pre.top() + 1)
            == Some(t.deep_view()),
        t.spec_pushed_multi(pre).top() == pre.top() + 9,
{
    lemma_extends_refl(t.spec_pushed_multi(pre));
    lemma_tuple_stays_9(t, pre, t.spec_pushed_multi(pre));
}

/// Pushing a tuple of ten grows the stack by the number of
/// values that it hands over, and extends the context.
pub proof fn lemma_tuple_height_10<A: ToLua, B: ToLua, C: ToLua, D: ToLua, E: ToLua, F: ToLua, G: ToLua, H: ToLua, I: ToLua, J: ToLua>(t: (A, B, C, D, E, F, G, H, I, J), pre: StateView)
    requires
        t.spec_pushable_multi(pre),
    ensures
        t.spec_pushed_multi(pre).top() == pre.top() + t.spec_count(),
        0 <= t.spec_count() <= 10,
        t.spec_pushed_multi(pre).extends(pre),
{
    let head = (t.0, t.1, t.2, t.3, t.4, t.5, t.6, t.7, t.8);
    let mid = head.spec_pushed_multi(pre);
    lemma_tuple_height_9(head, pre);
    t.9.lemma_pushed(mid);
    lemma_extends_trans(pre, mid, t.spec_pushed_multi(pre));
}

impl<A: ToLua, B: ToLua, C: ToLua, D: ToLua, E: ToLua, F: ToLua, G: ToLua, H: ToLua, I: ToLua, J: ToLua> ToLuaMulti for (A, B, C, D, E, F, G, H, I, J) {
    open spec fn spec_raises(&self) -> Option<Seq<u8>> {
        None
    }

    open spec fn spec_pushable_multi(&self, pre: StateView) -> bool {
        let head = (self.0, self.1, self.2, self.3, self.4, self.5, self.6, self.7, self.8);
        &&& head.spec_pushable_multi(pre)
        &&& self.9.spec_pushable(head.spec_pushed_multi(pre))
    }

    open spec fn spec_count(&self) -> int {
        (self.0, self.1, self.2, self.3, self.4, self.5, self.6, self.7, self.8).spec_count() + if J::spec_is_top() {
            0int
        } else {
            1int
        }
    }

    open spec fn spec_pushed_multi(&self, pre: StateView) -> StateView {
        self.9.spec_pushed((self.0, self.1, self.2, self.3, self.4, self.5, self.6, self.7, self.8).spec_pushed_multi(pre))
    }

    proof fn lemma_pushed_multi(&self, pre: StateView) {
        lemma_tuple_height_10(*self, pre);
    }

    fn to_lua(self, s: &mut State) -> (r: Result<i32, Error>) {
        let (x0, x1, x2, x3, x4, x5, x6, x7, x8, x9) = self;
        let head = (x0, x1, x2, x3, x4, x5, x6, x7, x8);
        proof {
            lemma_tuple_height_9(head, s@);
        }
        let pushed: i32 = match ToLuaMulti::to_lua(head, s) {
            Ok(k) => k,
            Err(e) => {
                return Err(e);
            },
        };
        ToLua::to_lua(x9, s);
        Ok(pushed + if J::is_top() {
            0
        } else {
            1
        })
    }

    fn to_lua_result(self, s: &mut State) -> (r: Result<i32, Error>) {
        ToLuaMulti::to_lua(self, s)
    }
}

impl<A: FromLua, B: FromLua, C: FromLua, D: FromLua, E: FromLua, F: FromLua, G: FromLua, H: FromLua, I: FromLua, J: FromLua> FromLuaMulti for (A, B, C, D, E, F, G, H, I, J) {
    open spec fn spec_count() -> int {
        10
    }

    open spec fn spec_from_lua_multi(s: StateView, begin: int) -> Option<(<A as DeepView>::V, <B as DeepView>::V, <C as DeepView>::V, <D as DeepView>::V, <E as DeepView>::V, <F as DeepView>::V, <G as DeepView>::V, <H as DeepView>::V, <I as DeepView>::V, <J as DeepView>::V)> {
        match <(A, B, C, D, E, F, G, H, I) as FromLuaMulti>::spec_from_lua_multi(s, begin) {
            Some(p) => match J::spec_from_lua(s, begin + 9) {
                Some(v) => Some((p.0, p.1, p.2, p.3, p.4, p.5, p.6, p.7, p.8, v)),
                None => None,
            },
            None => None,
        }
    }

    fn count() -> (n: i32) {
        10
    }

    open spec fn spec_check_error(s: StateView, begin: int) -> Option<ErrorView> {
        match <(A, B, C, D, E, F, G, H, I) as FromLuaMulti>::spec_check_error(s, begin) {
            Some(e) => Some(e),
            None => if J::spec_from_lua(s, begin + 9).is_none() {
                Some(s.type_error(begin + 9, J::spec_tname()))
            } else {
                None
            },
        }
    }

    fn from_lua(s: &State, begin: Index) -> (r: Option<Self>) {
        match <(A, B, C, D, E, F, G, H, I) as FromLuaMulti>::from_lua(s, begin) {
            Some(p) => match <J as FromLua>::from_lua(s, begin + 9) {
                Some(v) => Some((p.0, p.1, p.2, p.3, p.4, p.5, p.6, p.7, p.8, v)),
                None => None,
            },
            None => None,
        }
    }

    fn check(s: &State, begin: Index) -> (r: Result<Self, Error>) {
        match <(A, B, C, D, E, F, G, H, I) as FromLuaMulti>::check(s, begin) {
            Ok(p) => match s.check_arg::<J>(begin + 9) {
                Ok(v) => Ok((p.0, p.1, p.2, p.3, p.4, p.5, p.6, p.7, p.8, v)),
                Err(e) => Err(e),
            },
            Err(e) => Err(e),
        }
    }
}

/// The read of a tuple of ten gives a value exactly where the
/// reads of all its elements give one, each at its place: a cell that is
/// missing or of another type makes it give nothing. The checked read
/// gives no error in exactly that case.
pub proof fn lemma_tuple_reads_10<A: FromLua, B: FromLua, C: FromLua, D: FromLua, E: FromLua, F: FromLua, G: FromLua, H: FromLua, I: FromLua, J: FromLua>(s: StateView, begin: int)
    ensures
        <(A, B, C, D, E, F, G, H, I, J) as FromLuaMulti>::spec_from_lua_multi(s, begin).is_some() <==> (<(A, B, C, D, E, F, G, H, I) as FromLuaMulti>::spec_from_lua_multi(
            s,
            begin,
        ).is_some() && J::spec_from_lua(s, begin + 9).is_some()),
        <(A, B, C, D, E, F, G, H, I, J) as FromLuaMulti>::spec_check_error(s, begin).is_none() <==> <(A, B, C, D, E, F, G, H, I, J) as FromLuaMulti>::spec_from_lua_multi(
            s,
            begin,
        ).is_some(),
{
    lemma_tuple_reads_9::<A, B, C, D, E, F, G, H, I>(s, begin);
}

/// Whether each element of the tuple is a value that the interpreter can
/// hold without loss, in the context in which it is pushed.
pub open spec fn spec_representable_10<A: RoundTrip, B: RoundTrip, C: RoundTrip, D: RoundTrip, E: RoundTrip, F: RoundTrip, G: RoundTrip, H: RoundTrip, I: RoundTrip, J: RoundTrip>(t: (A, B, C, D, E, F, G, H, I, J), pre: StateView) -> bool {
    let head = (t.0, t.1, t.2, t.3, t.4, t.5, t.6, t.7, t.8);
    let mid = head.spec_pushed_multi(pre);
    &&& spec_representable_9(head, pre)
    &&& t.9.spec_pushable(mid)
    &&& t.9.spec_representable(mid)
    &&& !J::spec_is_top()
}

/// A tuple of ten that was pushed stays readable from where it
/// begins, whatever is pushed or created after it.
pub proof fn lemma_tuple_stays_10<A: RoundTrip, B: RoundTrip, C: RoundTrip, D: RoundTrip, E: RoundTrip, F: RoundTrip, G: RoundTrip, H: RoundTrip, I: RoundTrip, J: RoundTrip>(t: (A, B, C, D, E, F, G, H, I, J), pre: StateView, post: StateView)
    requires
        spec_representable_10(t, pre),
        post.extends(t.spec_pushed_multi(pre)),
    ensures
        <(A, B, C, D, E, F, G, H, I, J) as FromLuaMulti>::spec_from_lua_multi(post, pre.top() + 1) == Some(t.deep_view()),
        t.spec_pushed_multi(pre).top() == pre.top() + 10,
        t.spec_pushed_multi(pre).extends(pre),
{
    let head = (t.0, t.1, t.2, t.3, t.4, t.5, t.6, t.7, t.8);
    let mid = head.spec_pushed_multi(pre);
    let fin = t.spec_pushed_multi(pre);
    t.9.lemma_pushed(mid);
    lemma_extends_trans(mid, fin, post);
    lemma_tuple_stays_9(head, pre, post);
    t.9.lemma_stays(mid, post);
    lemma_extends_trans(pre, mid, fin);
}

/// A tuple of ten that is pushed and read back from where it
/// begins is the tuple that was pushed.
pub proof fn lemma_tuple_round_trip_10<A: RoundTrip, B: RoundTrip, C: RoundTrip, D: RoundTrip, E: RoundTrip, F: RoundTrip, G: RoundTrip, H: RoundTrip, I: RoundTrip, J: RoundTrip>(t: (A, B, C, D, E, F, G, H, I, J), pre: StateView)
    requires
        spec_representable_10(t, pre),
    ensures
        <(A, B, C, D, E, F, G, H, I, J) as FromLuaMulti>::spec_from_lua_multi(t.spec_pushed_multi(pre), pre.top() + 1)
            == Some(t.deep_view()),
        t.spec_pushed_multi(pre).top() == pre.top() + 10,
{
    lemma_extends_refl(t.spec_pushed_multi(pre));
    lemma_tuple_stays_10(t, pre, t.spec_pushed_multi(pre));
}

/// Pushing a tuple of eleven grows the stack by the number of
/// values that it hands over, and extends the context.
pub proof fn lemma_tuple_height_11<A: ToLua, B: ToLua, C: ToLua, D: ToLua, E: ToLua, F: ToLua, G: ToLua, H: ToLua, I: ToLua, J: ToLua, K: ToLua>(t: (A, B, C, D, E, F, G, H, I, J, K), pre: StateView)
    requires
        t.spec_pushable_multi(pre),
    ensures
        t.spec_pushed_multi(pre).top() == pre.top() + t.spec_count(),
        0 <= t.spec_count() <= 11,
        t.spec_pushed_multi(pre).extends(pre),
{
    let head = (t.0, t.1, t.2, t.3, t.4, t.5, t.6, t.7, t.8, t.9);
    let mid = head.spec_pushed_multi(pre);
    lemma_tuple_height_10(head, pre);
    t.10.lemma_pushed(mid);
    lemma_extends_trans(pre, mid, t.spec_pushed_multi(pre));
}

impl<A: ToLua, B: ToLua, C: ToLua, D: ToLua, E: ToLua, F: ToLua, G: ToLua, H: ToLua, I: ToLua, J: ToLua, K: ToLua> ToLuaMulti for (A, B, C, D, E, F, G, H, I, J, K) {
    open spec fn spec_raises(&self) -> Option<Seq<u8>> {
        None
    }

    open spec fn spec_pushable_multi(&self, pre: StateView) -> bool {
        let head = (self.0, self.1, self.2, self.3, self.4, self.5, self.6, self.7, self.8, self.9);
        &&& head.spec_pushable_multi(pre)
        &&& self.10.spec_pushable(head.spec_pushed_multi(pre))
    }

    open spec fn spec_count(&self) -> int {
        (self.0, self.1, self.2, self.3, self.4, self.5, self.6, self.7, self.8, self.9).spec_count() + if K::spec_is_top() {
            0int
        } else {
            1int
        }
    }

    open spec fn spec_pushed_multi(&self, pre: StateView) -> StateView {
        self.10.spec_pushed((self.0, self.1, self.2, self.3, self.4, self.5, self.6, self.7, self.8, self.9).spec_pushed_multi(pre))
    }

    proof fn lemma_pushed_multi(&self, pre: StateView) {
        lemma_tuple_height_11(*self, pre);
    }

    fn to_lua(self, s: &mut State) -> (r: Result<i32, Error>) {
        let (x0, x1, x2, x3, x4, x5, x6, x7, x8, x9, x10) = self;
        let head = (x0, x1, x2, x3, x4, x5, x6, x7, x8, x9);
        proof {
            lemma_tuple_height_10(head, s@);
        }
        let pushed: i32 = match ToLuaMulti::to_lua(head, s) {
            Ok(k) => k,
            Err(e) => {
                return Err(e);
            },
        };
        ToLua::to_lua(x10, s);
        Ok(pushed + if K::is_top() {
            0
        } else {
            1
        })
    }

    fn to_lua_result(self, s: &mut State) -> (r: Result<i32, Error>) {
        ToLuaMulti::to_lua(self, s)
    }
}

impl<A: FromLua, B: FromLua, C: FromLua, D: FromLua, E: FromLua, F: FromLua, G: FromLua, H: FromLua, I: FromLua, J: FromLua, K: FromLua> FromLuaMulti for (A, B, C, D, E, F, G, H, I, J, K) {
    open spec fn spec_count() -> int {
        11
    }

    open spec fn spec_from_lua_multi(s: StateView, begin: int) -> Option<(<A as DeepView>::V, <B as DeepView>::V, <C as DeepView>::V, <D as DeepView>::V, <E as DeepView>::V, <F as DeepView>::V, <G as DeepView>::V, <H as DeepView>::V, <I as DeepView>::V, <J as DeepView>::V, <K as DeepView>::V)> {
        match <(A, B, C, D, E, F, G, H, I, J) as FromLuaMulti>::spec_from_lua_multi(s, begin) {
            Some(p) => match K::spec_from_lua(s, begin + 10) {
                Some(v) => Some((p.0, p.1, p.2, p.3, p.4, p.5, p.6, p.7, p.8, p.9, v)),
                None => None,
            },
            None => None,
        }
    }

    fn count() -> (n: i32) {
        11
    }

    open spec fn spec_check_error(s: StateView, begin: int) -> Option<ErrorView> {
        match <(A, B, C, D, E, F, G, H, I, J) as FromLuaMulti>::spec_check_error(s, begin) {
            Some(e) => Some(e),
            None => if K::spec_from_lua(s, begin + 10).is_none() {
                Some(s.type_error(begin + 10, K::spec_tname()))
            } else {
                None
            },
        }
    }

    fn from_lua(s: &State, begin: Index) -> (r: Option<Self>) {
        match <(A, B, C, D, E, F, G, H, I, J) as FromLuaMulti>::from_lua(s, begin) {
            Some(p) => match <K as FromLua>::from_lua(s, begin + 10) {
                Some(v) => Some((p.0, p.1, p.2, p.3, p.4, p.5, p.6, p.7, p.8, p.9, v)),
                None => None,
            },
            None => None,
        }
    }

    fn check(s: &State, begin: Index) -> (r: Result<Self, Error>) {
        match <(A, B, C, D, E, F, G, H, I, J) as FromLuaMulti>::check(s, begin) {
            Ok(p) => match s.check_arg::<K>(begin + 10) {
                Ok(v) => Ok((p.0, p.1, p.2, p.3, p.4, p.5, p.6, p.7, p.8, p.9, v)),
                Err(e) => Err(e),
            },
            Err(e) => Err(e),
        }
    }
}

/// The read of a tuple of eleven gives a value exactly where the
/// reads of all its elements give one, each at its place: a cell that is
/// missing or of another type makes it give nothing. The checked read
/// gives no error in exactly that case.
pub proof fn lemma_tuple_reads_11<A: FromLua, B: FromLua, C: FromLua, D: FromLua, E: FromLua, F: FromLua, G: FromLua, H: FromLua, I: FromLua, J: FromLua, K: FromLua>(s: StateView, begin: int)
    ensures
        <(A, B, C, D, E, F, G, H, I, J, K) as FromLuaMulti>::spec_from_lua_multi(s, begin).is_some() <==> (<(A, B, C, D, E, F, G, H, I, J) as FromLuaMulti>::spec_from_lua_multi(
            s,
            begin,
        ).is_some() && K::spec_from_lua(s, begin + 10).is_some()),
        <(A, B, C, D, E, F, G, H, I, J, K) as FromLuaMulti>::spec_check_error(s, begin).is_none() <==> <(A, B, C, D, E, F, G, H, I, J, K) as FromLuaMulti>::spec_from_lua_multi(
            s,
            begin,
        ).is_some(),
{
    lemma_tuple_reads_10::<A, B, C, D, E, F, G, H, I, J>(s, begin);
}

/// Whether each element of the tuple is a value that the interpreter can
/// hold without loss, in the context in which it is pushed.
pub open spec fn spec_representable_11<A: RoundTrip, B: RoundTrip, C: RoundTrip, D: RoundTrip, E: RoundTrip, F: RoundTrip, G: RoundTrip, H: RoundTrip, I: RoundTrip, J: RoundTrip, K: RoundTrip>(t: (A, B, C, D, E, F, G, H, I, J, K), pre: StateView) -> bool {
    let head = (t.0, t.1, t.2, t.3, t.4, t.5, t.6, t.7, t.8, t.9);
    let mid = head.spec_pushed_multi(pre);
    &&& spec_representable_10(head, pre)
    &&& t.10.spec_pushable(mid)
    &&& t.10.spec_representable(mid)
    &&& !K::spec_is_top()
}

/// A tuple of eleven that was pushed stays readable from where it
/// begins, whatever is pushed or created after it.
pub proof fn lemma_tuple_stays_11<A: RoundTrip, B: RoundTrip, C: RoundTrip, D: RoundTrip, E: RoundTrip, F: RoundTrip, G: RoundTrip, H: RoundTrip, I: RoundTrip, J: RoundTrip, K: RoundTrip>(t: (A, B, C, D, E, F, G, H, I, J, K), pre: StateView, post: StateView)
    requires
        spec_representable_11(t, pre),
        post.extends(t.spec_pushed_multi(pre)),
    ensures
        <(A, B, C, D, E, F, G, H, I, J, K) as FromLuaMulti>::spec_from_lua_multi(post, pre.top() + 1) == Some(t.deep_view()),
        t.spec_pushed_multi(pre).top() == pre.top() + 11,
        t.spec_pushed_multi(pre).extends(pre),
{
    let head = (t.0, t.1, t.2, t.3, t.4, t.5, t.6, t.7, t.8, t.9);
    let mid = head.spec_pushed_multi(pre);
    let fin = t.spec_pushed_multi(pre);
    t.10.lemma_pushed(mid);
    lemma_extends_trans(mid, fin, post);
    lemma_tuple_stays_10(head, pre, post);
    t.10.lemma_stays(mid, post);
    lemma_extends_trans(pre, mid, fin);
}

/// A tuple of eleven that is pushed and read back from where it
/// begins is the tuple that was pushed.
pub proof fn lemma_tuple_round_trip_11<A: RoundTrip, B: RoundTrip, C: RoundTrip, D: RoundTrip, E: RoundTrip, F: RoundTrip, G: RoundTrip, H: RoundTrip, I: RoundTrip, J: RoundTrip, K: RoundTrip>(t: (A, B, C, D, E, F, G, H, I, J, K), pre: StateView)
    requires
        spec_representable_11(t, pre),
    ensures
        <(A, B, C, D, E, F, G, H, I, J, K) as FromLuaMulti>::spec_from_lua_multi(t.spec_pushed_multi(pre), pre.top() + 1)
            == Some(t.deep_view()),
        t.spec_pushed_multi(pre).top() == pre.top() + 11,
{
    lemma_extends_refl(t.spec_pushed_multi(pre));
    lemma_tuple_stays_11(t, pre, t.spec_pushed_multi(pre));
}

/// Pushing a tuple of twelve grows the stack by the number of
/// values that it hands over, and extends the context.
pub proof fn lemma_tuple_height_12<A: ToLua, B: ToLua, C: ToLua, D: ToLua, E: ToLua, F: ToLua, G: ToLua, H: ToLua, I: ToLua, J: ToLua, K: ToLua, L: ToLua>(t: (A, B, C, D, E, F, G, H, I, J, K, L), pre: StateView)
    requires
        t.spec_pushable_multi(pre),
    ensures
        t.spec_pushed_multi(pre).top() == pre.top() + t.spec_count(),
        0 <= t.spec_count() <= 12,
        t.spec_pushed_multi(pre).extends(pre),
{
    let head = (t.0, t.1, t.2, t.3, t.4, t.5, t.6, t.7, t.8, t.9, t.10);
    let mid = head.spec_pushed_multi(pre);
    lemma_tuple_height_11(head, pre);
    t.11.lemma_pushed(mid);
    lemma_extends_trans(pre, mid, t.spec_pushed_multi(pre));
}

impl<A: ToLua, B: ToLua, C: ToLua, D: ToLua, E: ToLua, F: ToLua, G: ToLua, H: ToLua, I: ToLua, J: ToLua, K: ToLua, L: ToLua> ToLuaMulti for (A, B, C, D, E, F, G, H, I, J, K, L) {
    open spec fn spec_raises(&self) -> Option<Seq<u8>> {
        None
    }

    open spec fn spec_pushable_multi(&self, pre: StateView) -> bool {
        let head = (self.0, self.1, self.2, self.3, self.4, self.5, self.6, self.7, self.8, self.9, self.10);
        &&& head.spec_pushable_multi(pre)
        &&& self.11.spec_pushable(head.spec_pushed_multi(pre))
    }

    open spec fn spec_count(&self) -> int {
        (self.0, self.1, self.2, self.3, self.4, self.5, self.6, self.7, self.8, self.9, self.10).spec_count() + if L::spec_is_top() {
            0int
        } else {
            1int
        }
    }

    open spec fn spec_pushed_multi(&self, pre: StateView) -> StateView {
        self.11.spec_pushed((self.0, self.1, self.2, self.3, self.4, self.5, self.6, self.7, self.8, self.9, self.10).spec_pushed_multi(pre))
    }

    proof fn lemma_pushed_multi(&self, pre: StateView) {
        lemma_tuple_height_12(*self, pre);
    }

    fn to_lua(self, s: &mut State) -> (r: Result<i32, Error>) {
        let (x0, x1, x2, x3, x4, x5, x6, x7, x8, x9, x10, x11) = self;
        let head = (x0, x1, x2, x3, x4, x5, x6, x7, x8, x9, x10);
        proof {
            lemma_tuple_height_11(head, s@);
        }
        let pushed: i32 = match ToLuaMulti::to_lua(head, s) {
            Ok(k) => k,
            Err(e) => {
                return Err(e);
            },
        };
        ToLua::to_lua(x11, s);
        Ok(pushed + if L::is_top() {
            0
        } else {
            1
        })
    }

    fn to_lua_result(self, s: &mut State) -> (r: Result<i32, Error>) {
        ToLuaMulti::to_lua(self, s)
    }
}

impl<A: FromLua, B: FromLua, C: FromLua, D: FromLua, E: FromLua, F: FromLua, G: FromLua, H: FromLua, I: FromLua, J: FromLua, K: FromLua, L: FromLua> FromLuaMulti for (A, B, C, D, E, F, G, H, I, J, K, L) {
    open spec fn spec_count() -> int {
        12
    }

    open spec fn spec_from_lua_multi(s: StateView, begin: int) -> Option<(<A as DeepView>::V, <B as DeepView>::V, <C as DeepView>::V, <D as DeepView>::V, <E as DeepView>::V, <F as DeepView>::V, <G as DeepView>::V, <H as DeepView>::V, <I as DeepView>::V, <J as DeepView>::V, <K as DeepView>::V, <L as DeepView>::V)> {
        match <(A, B, C, D, E, F, G, H, I, J, K) as FromLuaMulti>::spec_from_lua_multi(s, begin) {
            Some(p) => match L::spec_from_lua(s, begin + 11) {
                Some(v) => Some((p.0, p.1, p.2, p.3, p.4, p.5, p.6, p.7, p.8, p.9, p.10, v)),
                None => None,
            },
            None => None,
        }
    }

    fn count() -> (n: i32) {
        12
    }

    open spec fn spec_check_error(s: StateView, begin: int) -> Option<ErrorView> {
        match <(A, B, C, D, E, F, G, H, I, J, K) as FromLuaMulti>::spec_check_error(s, begin) {
            Some(e) => Some(e),
            None => if L::spec_from_lua(s, begin + 11).is_none() {
                Some(s.type_error(begin + 11, L::spec_tname()))
            } else {
                None
            },
        }
    }

    fn from_lua(s: &State, begin: Index) -> (r: Option<Self>) {
        match <(A, B, C, D, E, F, G, H, I, J, K) as FromLuaMulti>::from_lua(s, begin) {
            Some(p) => match <L as FromLua>::from_lua(s, begin + 11) {
                Some(v) => Some((p.0, p.1, p.2, p.3, p.4, p.5, p.6, p.7, p.8, p.9, p.10, v)),
                None => None,
            },
            None => None,
        }
    }

    fn check(s: &State, begin: Index) -> (r: Result<Self, Error>) {
        match <(A, B, C, D, E, F, G, H, I, J, K) as FromLuaMulti>::check(s, begin) {
            Ok(p) => match s.check_arg::<L>(begin + 11) {
                Ok(v) => Ok((p.0, p.1, p.2, p.3, p.4, p.5, p.6, p.7, p.8, p.9, p.10, v)),
                Err(e) => Err(e),
            },
            Err(e) => Err(e),
        }
    }
}

/// The read of a tuple of twelve gives a value exactly where the
/// reads of all its elements give one, each at its place: a cell that is
/// missing or of another type makes it give nothing. The checked read
/// gives no error in exactly that case.
pub proof fn lemma_tuple_reads_12<A: FromLua, B: FromLua, C: FromLua, D: FromLua, E: FromLua, F: FromLua, G: FromLua, H: FromLua, I: FromLua, J: FromLua, K: FromLua, L: FromLua>(s: StateView, begin: int)
    ensures
        <(A, B, C, D, E, F, G, H, I, J, K, L) as FromLuaMulti>::spec_from_lua_multi(s, begin).is_some() <==> (<(A, B, C, D, E, F, G, H, I, J, K) as FromLuaMulti>::spec_from_lua_multi(
            s,
            begin,
        ).is_some() && L::spec_from_lua(s, begin + 11).is_some()),
        <(A, B, C, D, E, F, G, H, I, J, K, L) as FromLuaMulti>::spec_check_error(s, begin).is_none() <==> <(A, B, C, D, E, F, G, H, I, J, K, L) as FromLuaMulti>::spec_from_lua_multi(
            s,
            begin,
        ).is_some(),
{
    lemma_tuple_reads_11::<A, B, C, D, E, F, G, H, I, J, K>(s, begin);
}

/// Whether each element of the tuple is a value that the interpreter can
/// hold without loss, in the context in which it is pushed.
pub open spec fn spec_representable_12<A: RoundTrip, B: RoundTrip, C: RoundTrip, D: RoundTrip, E: RoundTrip, F: RoundTrip, G: RoundTrip, H: RoundTrip, I: RoundTrip, J: RoundTrip, K: RoundTrip, L: RoundTrip>(t: (A, B, C, D, E, F, G, H, I, J, K, L), pre: StateView) -> bool {
    let head = (t.0, t.1, t.2, t.3, t.4, t.5, t.6, t.7, t.8, t.9, t.10);
    let mid = head.spec_pushed_multi(pre);
    &&& spec_representable_11(head, pre)
    &&& t.11.spec_pushable(mid)
    &&& t.11.spec_representable(mid)
    &&& !L::spec_is_top()
}

/// A tuple of twelve that was pushed stays readable from where it
/// begins, whatever is pushed or created after it.
pub proof fn lemma_tuple_stays_12<A: RoundTrip, B: RoundTrip, C: RoundTrip, D: RoundTrip, E: RoundTrip, F: RoundTrip, G: RoundTrip, H: RoundTrip, I: RoundTrip, J: RoundTrip, K: RoundTrip, L: RoundTrip>(t: (A, B, C, D, E, F, G, H, I, J, K, L), pre: StateView, post: StateView)
    requires
        spec_representable_12(t, pre),
        post.extends(t.spec_pushed_multi(pre)),
    ensures
        <(A, B, C, D, E, F, G, H, I, J, K, L) as FromLuaMulti>::spec_from_lua_multi(post, pre.top() + 1) == Some(t.deep_view()),
        t.spec_pushed_multi(pre).top() == pre.top() + 12,
        t.spec_pushed_multi(pre).extends(pre),
{
    let head = (t.0, t.1, t.2, t.3, t.4, t.5, t.6, t.7, t.8, t.9, t.10);
    let mid = head.spec_pushed_multi(pre);
    let fin = t.spec_pushed_multi(pre);
    t.11.lemma_pushed(mid);
    lemma_extends_trans(mid, fin, post);
    lemma_tuple_stays_11(head, pre, post);
    t.11.lemma_stays(mid, post);
    lemma_extends_trans(pre, mid, fin);
}

/// A tuple of twelve that is pushed and read back from where it
/// begins is the tuple that was pushed.
pub proof fn lemma_tuple_round_trip_12<A: RoundTrip, B: RoundTrip, C: RoundTrip, D: RoundTrip, E: RoundTrip, F: RoundTrip, G: RoundTrip, H: RoundTrip, I: RoundTrip, J: RoundTrip, K: RoundTrip, L: RoundTrip>(t: (A, B, C, D, E, F, G, H, I, J, K, L), pre: StateView)
    requires
        spec_representable_12(t, pre),
    ensures
        <(A, B, C, D, E, F, G, H, I, J, K, L) as FromLuaMulti>::spec_from_lua_multi(t.spec_pushed_multi(pre), pre.top() + 1)
            == Some(t.deep_view()),
        t.spec_pushed_multi(pre).top() == pre.top() + 12,
{
    lemma_extends_refl(t.spec_pushed_multi(pre));
    lemma_tuple_stays_12(t, pre, t.spec_pushed_multi(pre));
}

} // verus!
