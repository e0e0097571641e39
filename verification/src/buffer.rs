//! Byte buffers that are cheap to clone, as `bytes::Bytes` provides them.

use bytes::Bytes;
use vstd::prelude::*;

verus! {

/// `bytes::Bytes`. What it holds is spoken of through [`buffer_bytes`].
#[verifier::external_type_specification]
#[verifier::external_body]
pub struct ExBytes(bytes::Bytes);

/// The bytes that a buffer holds, in order.
pub uninterp spec fn buffer_bytes(buffer: Bytes) -> Seq<u8>;

/// `Bytes::new` makes a buffer that holds no byte.
pub assume_specification[ Bytes::new ]() -> (buffer: Bytes)
    ensures
        buffer_bytes(buffer) == Seq::<u8>::empty(),
;

/// `Bytes::len` is the number of bytes held.
pub assume_specification[ Bytes::len ](buffer: &Bytes) -> (n: usize)
    ensures
        n == buffer_bytes(*buffer).len(),
;

/// Cloning a `Bytes` gives a handle on the same bytes.
pub assume_specification[ <Bytes as Clone>::clone ](buffer: &Bytes) -> (copy: Bytes)
    ensures
        buffer_bytes(copy) == buffer_bytes(*buffer),
;

/// `Bytes::from` takes over the bytes of a vector unchanged.
pub assume_specification[ <Bytes as From<Vec<u8>>>::from ](bytes: Vec<u8>) -> (buffer: Bytes)
    ensures
        buffer_bytes(buffer) == bytes@,
;

/// `as_ref` lends the held bytes as a slice.
pub assume_specification<'a>[ <Bytes as AsRef<[u8]>>::as_ref ](buffer: &'a Bytes) -> (bytes: &'a [u8])
    ensures
        bytes@ == buffer_bytes(*buffer),
;

/// Copies the contents of a buffer into a vector.
pub fn buffer_to_vec(buffer: &Bytes) -> (bytes: Vec<u8>)
    ensures
        bytes@ == buffer_bytes(*buffer),
{
    let slice: &[u8] = buffer.as_ref();
    vstd::slice::slice_to_vec(slice)
}

} // verus!
