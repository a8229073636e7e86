use bytes::BufMut;
use bytes::BytesMut;
use vstd::prelude::*;

verus! {

#[verifier::external_type_specification]
#[verifier::external_body]
pub struct ExBytesMut(bytes::BytesMut);

/// The octets held by a `BytesMut`.
pub uninterp spec fn buf_contents(b: BytesMut) -> Seq<u8>;

/// Largest buffer the codec ever grows; far below what an allocation can hold.
pub open spec fn max_buf_len() -> nat {
    0x7fff_0000
}

/// A 16-bit value read from two octets, most significant first.
pub open spec fn be16(hi: u8, lo: u8) -> u16 {
    (hi as int * 256 + lo as int) as u16
}

/// The two octets of a 16-bit value, most significant first.
pub open spec fn be16_bytes(v: u16) -> Seq<u8> {
    seq![(v / 256) as u8, (v % 256) as u8]
}

pub proof fn lemma_be16_round_trip(v: u16)
    ensures
        be16(be16_bytes(v)[0], be16_bytes(v)[1]) == v,
{
}

pub fn read_be16(hi: u8, lo: u8) -> (r: u16)
    ensures
        r == be16(hi, lo),
{
    hi as u16 * 256 + lo as u16
}

/// Relies on `BytesMut::new`: the new buffer is empty.
#[verifier::external_body]
pub(crate) fn new_buf() -> (r: BytesMut)
    ensures
        buf_contents(r) == Seq::<u8>::empty(),
{
    BytesMut::new()
}

/// Relies on `BytesMut::len`: the number of octets held.
#[verifier::external_body]
pub(crate) fn buf_len(b: &BytesMut) -> (r: usize)
    ensures
        r == buf_contents(*b).len(),
{
    b.len()
}

/// Relies on indexing a `BytesMut` (through its slice): the octet at `i`.
#[verifier::external_body]
pub(crate) fn buf_get(b: &BytesMut, i: usize) -> (r: u8)
    requires
        i < buf_contents(*b).len(),
    ensures
        r == buf_contents(*b)[i as int],
{
    b[i]
}

/// Relies on `BufMut::put_u8` for `BytesMut`: appends one octet.
#[verifier::external_body]
pub(crate) fn put_u8(b: &mut BytesMut, v: u8)
    requires
        buf_contents(*old(b)).len() + 1 <= max_buf_len(),
    ensures
        buf_contents(*final(b)) == buf_contents(*old(b)).push(v),
{
    b.put_u8(v)
}

/// Relies on `BufMut::put_u16` for `BytesMut`: appends two octets, big-endian.
#[verifier::external_body]
pub(crate) fn put_u16(b: &mut BytesMut, v: u16)
    requires
        buf_contents(*old(b)).len() + 2 <= max_buf_len(),
    ensures
        buf_contents(*final(b)) == buf_contents(*old(b)) + be16_bytes(v),
{
    b.put_u16(v)
}

/// Relies on `BufMut::put_slice` for `BytesMut`: appends the octets of `s`.
#[verifier::external_body]
pub(crate) fn put_slice(b: &mut BytesMut, s: &[u8])
    requires
        buf_contents(*old(b)).len() + s@.len() <= max_buf_len(),
    ensures
        buf_contents(*final(b)) == buf_contents(*old(b)) + s@,
{
    b.put_slice(s)
}

/// Relies on `BytesMut::split_to`: the first `at` octets leave the buffer and
/// are returned.
#[verifier::external_body]
pub(crate) fn split_to(b: &mut BytesMut, at: usize) -> (r: BytesMut)
    requires
        at <= buf_contents(*old(b)).len(),
    ensures
        buf_contents(r) == buf_contents(*old(b)).take(at as int),
        buf_contents(*final(b)) == buf_contents(*old(b)).skip(at as int),
{
    b.split_to(at)
}

/// Relies on `<[u8]>::to_vec` over the octets of a `BytesMut`: a copy of them.
#[verifier::external_body]
pub(crate) fn buf_to_vec(b: &BytesMut) -> (r: Vec<u8>)
    ensures
        r@ == buf_contents(*b),
{
    b.to_vec()
}

} // verus!
