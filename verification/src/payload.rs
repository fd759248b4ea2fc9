//! Message payloads: `bytes::Bytes` and the operations on it that the library uses.

use bytes::Bytes;
use vstd::prelude::*;
use vstd::utf8::encode_utf8;

verus! {

/// `bytes::Bytes`, a cheaply cloned run of bytes.
#[verifier::external_type_specification]
#[verifier::external_body]
pub struct ExBytes(Bytes);

/// The bytes that a `Bytes` holds.
pub uninterp spec fn contents(b: Bytes) -> Seq<u8>;

/// `Bytes::new`: holds no byte.
pub assume_specification[ Bytes::new ]() -> (b: Bytes)
    ensures
        contents(b) == Seq::<u8>::empty(),
;

/// `Bytes::len`: how many bytes are held.
pub assume_specification[ Bytes::len ](b: &Bytes) -> (n: usize)
    ensures
        n == contents(*b).len(),
;

/// `Bytes::is_empty`: whether no byte is held.
pub assume_specification[ Bytes::is_empty ](b: &Bytes) -> (empty: bool)
    ensures
        empty == (contents(*b).len() == 0),
;

/// `<Bytes as Clone>::clone`: holds the same bytes.
pub assume_specification[ <Bytes as Clone>::clone ](b: &Bytes) -> (c: Bytes)
    ensures
        contents(c) == contents(*b),
;

/// `<Bytes as From<String>>::from`: holds the text's UTF-8 encoding.
#[verifier::external_body]
pub(crate) fn bytes_from_text(text: String) -> (b: Bytes)
    ensures
        contents(b) == encode_utf8(text@),
{
    Bytes::from(text)
}

} // verus!
