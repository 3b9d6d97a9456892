//! Message payloads: cheaply cloneable byte buffers of the `bytes` crate.

use vstd::prelude::*;
use bytes::Bytes;

verus! {

/// `bytes::Bytes`, carried as an opaque value.
#[verifier::external_type_specification]
#[verifier::external_body]
pub struct ExBytes(bytes::Bytes);

/// The bytes that a buffer holds, in order.
pub uninterp spec fn bytes_contents(b: Bytes) -> Seq<u8>;

/// `Bytes::clone` gives a buffer that holds the same bytes.
pub assume_specification[ <bytes::Bytes as Clone>::clone ](b: &Bytes) -> (c: Bytes)
    ensures
        bytes_contents(c) == bytes_contents(*b),
;

/// The contents of a buffer as a slice, by `Bytes::as_ref`: the slice holds
/// the buffer's bytes.
#[verifier::external_body]
pub(crate) fn payload_slice(b: &Bytes) -> (s: &[u8])
    ensures
        s@ == bytes_contents(*b),
{
    b.as_ref()
}

/// A new buffer by `Bytes::copy_from_slice`: it holds a copy of the bytes of
/// `data`.
#[verifier::external_body]
pub(crate) fn payload_from(data: &[u8]) -> (b: Bytes)
    ensures
        bytes_contents(b) == data@,
{
    Bytes::copy_from_slice(data)
}

} // verus!
