//! The shared byte buffer of the `bytes` crate, as the rest of the library sees it.
use bytes::Bytes;
use vstd::prelude::*;

verus! {

/// `bytes::Bytes`, carried through the library as an opaque value; what it holds is
/// known through [`bytes_contents`].
#[verifier::external_type_specification]
#[verifier::external_body]
pub struct ExBytes(Bytes);

/// The bytes that a `bytes::Bytes` buffer holds, in order.
pub uninterp spec fn bytes_contents(b: Bytes) -> Seq<u8>;

/// Calls `<Bytes as From<Vec<u8>>>::from`. Claimed: the new buffer holds exactly the
/// bytes of the vector, in order (the crate takes the vector's allocation over, or
/// copies it into a boxed slice, without changing any byte).
#[verifier::external_body]
pub(crate) fn bytes_from_vec(v: Vec<u8>) -> (b: Bytes)
    ensures
        bytes_contents(b) == v@,
{
    Bytes::from(v)
}

/// Calls `<Bytes as AsRef<[u8]>>::as_ref`. Claimed: the slice is the buffer's contents.
#[verifier::external_body]
pub(crate) fn bytes_as_slice<'a>(b: &'a Bytes) -> (s: &'a [u8])
    ensures
        s@ == bytes_contents(*b),
{
    b.as_ref()
}

} // verus!
