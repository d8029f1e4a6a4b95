//! Byte buffers of the `serde_bytes` crate as values of the interpreter:
//! a buffer is pushed as the byte string that it holds.

use vstd::prelude::*;
use crate::convert::{lemma_pushed_bytes, ToLua};
use crate::state::{State, StateView};

verus! {

/// An owned byte buffer of the `serde_bytes` crate.
#[verifier::external_body]
pub struct ByteBuf {
    inner: serde_bytes::ByteBuf,
}

/// The bytes that a byte buffer holds.
pub uninterp spec fn byte_buf_content(b: ByteBuf) -> Seq<u8>;

/// `serde_bytes::ByteBuf::from`: the buffer made wraps the bytes given and
/// nothing else.
#[verifier::external_body]
fn wrap(bytes: Vec<u8>) -> (b: ByteBuf)
    ensures
        byte_buf_content(b) == bytes@,
{
    ByteBuf { inner: serde_bytes::ByteBuf::from(bytes) }
}

/// `<serde_bytes::ByteBuf as AsRef<[u8]>>::as_ref`: the slice handed out
/// holds the bytes that the buffer wraps.
#[verifier::external_body]
fn slice_of(b: &ByteBuf) -> (r: &[u8])
    ensures
        r@ == byte_buf_content(*b),
{
    b.inner.as_ref()
}

impl ByteBuf {
    /// A buffer that holds `bytes`.
    pub fn from_vec(bytes: Vec<u8>) -> (b: ByteBuf)
        ensures
            byte_buf_content(b) == bytes@,
    {
        wrap(bytes)
    }

    /// A copy of the bytes that the buffer holds.
    pub fn to_vec(&self) -> (v: Vec<u8>)
        ensures
            v@ == byte_buf_content(*self),
    {
        crate::heap::bytes_to_vec(slice_of(self))
    }
}

impl ToLua for ByteBuf {
    open spec fn spec_is_top() -> bool {
        false
    }

    open spec fn spec_pushable(&self, pre: StateView) -> bool {
        true
    }

    open spec fn spec_pushed(&self, pre: StateView) -> StateView {
        pre.pushed_bytes(byte_buf_content(*self))
    }

    proof fn lemma_pushed(&self, pre: StateView) {
        lemma_pushed_bytes(pre, byte_buf_content(*self));
    }

    fn is_top() -> (b: bool) {
        false
    }

    fn to_lua(self, s: &mut State) {
        s.push_bytes(slice_of(&self));
    }
}

} // verus!
