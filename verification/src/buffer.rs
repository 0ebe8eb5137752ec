//! What the verifier is told about `bytes::Bytes`, the buffer type that holds
//! the source text and every token's literal. Nothing in this module is
//! proved: each contract restates the documented behaviour of the function
//! it names.

use bytes::{Buf, Bytes};
use vstd::prelude::*;
use vstd::utf8::encode_utf8;

verus! {

/// `bytes::Bytes`: a cheaply cloneable handle on a contiguous range of a
/// shared byte buffer. The verifier sees none of its fields.
#[verifier::external_type_specification]
#[verifier::external_body]
pub struct ExBytes(bytes::Bytes);

/// The bytes that a `Bytes` handle spans, first to last.
pub uninterp spec fn contents(b: Bytes) -> Seq<u8>;

/// `Bytes::new`: the handle it returns spans no bytes.
pub assume_specification[ Bytes::new ]() -> (b: Bytes)
    ensures
        contents(b) == Seq::<u8>::empty(),
;

/// `Bytes::is_empty`: whether the handle spans no bytes.
pub assume_specification[ Bytes::is_empty ](b: &Bytes) -> (r: bool)
    ensures
        r == (contents(*b).len() == 0),
;

/// `Bytes::split_to`: the result spans the first `at` bytes and the handle
/// keeps the rest. The outside function panics when `at` exceeds the length,
/// so that is excluded.
pub assume_specification[ Bytes::split_to ](b: &mut Bytes, at: usize) -> (head: Bytes)
    requires
        at <= contents(*old(b)).len(),
    ensures
        contents(head) == contents(*old(b)).subrange(0, at as int),
        contents(*final(b)) == contents(*old(b)).subrange(
            at as int,
            contents(*old(b)).len() as int,
        ),
;

/// `<Bytes as From<String>>::from`: the handle spans the string's bytes,
/// which are the UTF-8 encoding of its characters.
#[verifier::external_body]
pub(crate) fn from_string(s: String) -> (b: Bytes)
    ensures
        contents(b) == encode_utf8(s@),
{
    Bytes::from(s)
}

/// `<Bytes as AsRef<[u8]>>::as_ref`: a slice over exactly the bytes that the
/// handle spans.
#[verifier::external_body]
pub(crate) fn as_slice(b: &Bytes) -> (s: &[u8])
    ensures
        s@ == contents(*b),
{
    b.as_ref()
}

/// `<Bytes as Buf>::get_u8`: returns the first byte and moves the handle past
/// it. The outside function panics on an empty handle, so that is excluded.
#[verifier::external_body]
pub(crate) fn get_u8(b: &mut Bytes) -> (first: u8)
    requires
        contents(*old(b)).len() > 0,
    ensures
        first == contents(*old(b))[0],
        contents(*final(b)) == contents(*old(b)).subrange(1, contents(*old(b)).len() as int),
{
    b.get_u8()
}

} // verus!
