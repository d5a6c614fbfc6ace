use vstd::prelude::*;

verus! {

#[verifier::external_type_specification]
#[verifier::external_body]
pub struct ExBytesMut(bytes::BytesMut);

#[verifier::external_type_specification]
#[verifier::external_body]
pub struct ExIoError(std::io::Error);

/// The bytes that a `BytesMut` holds, in order.
pub uninterp spec fn bytes_of(b: bytes::BytesMut) -> Seq<u8>;

/// Relies on `BytesMut::new`: the new buffer has length 0.
#[verifier::external_body]
pub(crate) fn empty_buffer() -> (r: bytes::BytesMut)
    ensures
        bytes_of(r) == Seq::<u8>::empty(),
{
    bytes::BytesMut::new()
}

/// Relies on `BytesMut::resize`: the buffer is truncated to `new_len`, or
/// extended to it with copies of `value`. It panics only where the capacity
/// would pass `isize::MAX`.
#[verifier::external_body]
pub(crate) fn resize(b: &mut bytes::BytesMut, new_len: usize, value: u8)
    requires
        new_len <= isize::MAX,
    ensures
        bytes_of(*final(b)).len() == new_len,
        new_len <= bytes_of(*old(b)).len() ==> bytes_of(*final(b)) == bytes_of(*old(b)).subrange(
            0,
            new_len as int,
        ),
        new_len > bytes_of(*old(b)).len() ==> bytes_of(*final(b)) == bytes_of(*old(b)) + Seq::new(
            (new_len - bytes_of(*old(b)).len()) as nat,
            |i: int| value,
        ),
{
    b.resize(new_len, value)
}

/// Relies on `BytesMut`'s `DerefMut` to `[u8]` (its bytes, in order) and on
/// `<[u8]>::copy_from_slice`: the bytes from `at` on are overwritten by `src`.
#[verifier::external_body]
pub(crate) fn write_at(b: &mut bytes::BytesMut, at: usize, src: &[u8])
    requires
        at + src@.len() <= bytes_of(*old(b)).len(),
    ensures
        bytes_of(*final(b)) == bytes_of(*old(b)).subrange(0, at as int) + src@ + bytes_of(
            *old(b),
        ).subrange(at + src@.len(), bytes_of(*old(b)).len() as int),
{
    b[at..][..src.len()].copy_from_slice(src)
}

/// Relies on `BytesMut`'s `Deref` to `[u8]` (its bytes, in order) and on
/// `<[u8]>::to_vec`: a copy of the bytes.
#[verifier::external_body]
pub(crate) fn to_vec(b: &bytes::BytesMut) -> (r: Vec<u8>)
    ensures
        r@ == bytes_of(*b),
{
    b.to_vec()
}

} // verus!
