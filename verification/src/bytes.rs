//! Byte-level values shared by the contracts: 32-byte identifiers, addresses,
//! and the big-endian encoding of counters.

use vstd::prelude::*;
use vstd::slice::slice_to_vec;
use crate::store::bytes_eq;

verus! {

/// A 32-byte value: a DID identifier, a credential identifier, or a credential subject.
#[derive(Clone, Copy, Debug, PartialEq, Eq)]
pub struct Bytes32 {
    pub bytes: [u8; 32],
}

impl View for Bytes32 {
    type V = Seq<u8>;

    open spec fn view(&self) -> Seq<u8> {
        self.bytes@
    }
}

impl Bytes32 {
    /// Wraps 32 bytes.
    pub fn from_array(bytes: [u8; 32]) -> (r: Self)
        ensures
            r.bytes == bytes,
    {
        Bytes32 { bytes }
    }

    /// The 32 bytes, as a slice.
    pub fn as_slice(&self) -> (s: &[u8])
        ensures
            s@ == self@,
            s@.len() == 32,
    {
        self.bytes.as_slice()
    }

    /// Whether two values hold the same bytes.
    pub fn same_as(&self, other: &Bytes32) -> (r: bool)
        ensures
            r == (self@ == other@),
    {
        bytes_eq(self.as_slice(), other.as_slice())
    }
}

/// An account or contract address, held as the bytes of its strkey text
/// (the `G…` or `C…` form).
#[derive(Debug, PartialEq, Eq)]
pub struct Address {
    pub strkey: Vec<u8>,
}

impl View for Address {
    type V = Seq<u8>;

    open spec fn view(&self) -> Seq<u8> {
        self.strkey@
    }
}

impl Address {
    /// The address whose strkey text is the given bytes.
    pub fn from_strkey(strkey: &[u8]) -> (r: Self)
        ensures
            r@ == strkey@,
    {
        Address { strkey: slice_to_vec(strkey) }
    }

    /// The strkey bytes, as a slice.
    pub fn as_slice(&self) -> (s: &[u8])
        ensures
            s@ == self@,
    {
        self.strkey.as_slice()
    }

    /// A second value equal to this one.
    pub fn duplicate(&self) -> (r: Self)
        ensures
            r@ == self@,
    {
        Address::from_strkey(self.as_slice())
    }

    /// Whether two addresses are the same.
    pub fn same_as(&self, other: &Address) -> (r: bool)
        ensures
            r == (self@ == other@),
    {
        bytes_eq(self.as_slice(), other.as_slice())
    }
}

/// A copy of a byte vector.
pub fn copy_bytes(v: &Vec<u8>) -> (r: Vec<u8>)
    ensures
        r@ == v@,
{
    slice_to_vec(v.as_slice())
}

/// The eight bytes of `x`, most significant first.
pub open spec fn be_bytes(x: u64) -> Seq<u8> {
    seq![
        (x / 0x100000000000000) as u8,
        ((x / 0x1000000000000) % 256) as u8,
        ((x / 0x10000000000) % 256) as u8,
        ((x / 0x100000000) % 256) as u8,
        ((x / 0x1000000) % 256) as u8,
        ((x / 0x10000) % 256) as u8,
        ((x / 0x100) % 256) as u8,
        (x % 256) as u8,
    ]
}

/// Appends the bytes of `src` to `dst`.
pub fn append_bytes(dst: &mut Vec<u8>, src: &[u8])
    ensures
        final(dst)@ == old(dst)@ + src@,
{
    let mut i: usize = 0;
    while i < src.len()
        invariant
            i <= src@.len(),
            dst@ == old(dst)@ + src@.subrange(0, i as int),
        decreases src@.len() - i,
    {
        dst.push(src[i]);
        i = i + 1;
        assert(src@.subrange(0, i as int) =~= src@.subrange(0, i - 1) + seq![src@[i - 1]]);
    }
    assert(src@.subrange(0, src@.len() as int) =~= src@);
}

/// Appends the big-endian encoding of `x` to `dst`, as `u64::to_be_bytes` gives it.
pub fn append_be_u64(dst: &mut Vec<u8>, x: u64)
    ensures
        final(dst)@ == old(dst)@ + be_bytes(x),
{
    dst.push((x / 0x100000000000000) as u8);
    dst.push(((x / 0x1000000000000) % 256) as u8);
    dst.push(((x / 0x10000000000) % 256) as u8);
    dst.push(((x / 0x100000000) % 256) as u8);
    dst.push(((x / 0x1000000) % 256) as u8);
    dst.push(((x / 0x10000) % 256) as u8);
    dst.push(((x / 0x100) % 256) as u8);
    dst.push((x % 256) as u8);
    assert(dst@ =~= old(dst)@ + be_bytes(x));
}

/// Distinct numbers have distinct big-endian encodings.
pub proof fn lemma_be_bytes_injective(x: u64, y: u64)
    requires
        be_bytes(x) == be_bytes(y),
    ensures
        x == y,
{
    assert(be_bytes(x)[0] == be_bytes(y)[0]);
    assert(be_bytes(x)[1] == be_bytes(y)[1]);
    assert(be_bytes(x)[2] == be_bytes(y)[2]);
    assert(be_bytes(x)[3] == be_bytes(y)[3]);
    assert(be_bytes(x)[4] == be_bytes(y)[4]);
    assert(be_bytes(x)[5] == be_bytes(y)[5]);
    assert(be_bytes(x)[6] == be_bytes(y)[6]);
    assert(be_bytes(x)[7] == be_bytes(y)[7]);
    assert(((x / 0x100000000000000) as u8 == (y / 0x100000000000000) as u8 && ((x / 0x1000000000000)
        % 256) as u8 == ((y / 0x1000000000000) % 256) as u8 && ((x / 0x10000000000) % 256) as u8 == ((y
        / 0x10000000000) % 256) as u8 && ((x / 0x100000000) % 256) as u8 == ((y / 0x100000000) % 256) as u8
        && ((x / 0x1000000) % 256) as u8 == ((y / 0x1000000) % 256) as u8 && ((x / 0x10000) % 256) as u8
        == ((y / 0x10000) % 256) as u8 && ((x / 0x100) % 256) as u8 == ((y / 0x100) % 256) as u8 && (x
        % 256) as u8 == (y % 256) as u8) ==> x == y) by (bit_vector);
}

/// Whether bytes have the length of a strkey: account (`G…`) and contract
/// (`C…`) strkeys are 56 characters long.
pub open spec fn strkey_sized(a: Seq<u8>) -> bool {
    a.len() == 56
}

/// Where two byte strings are equal and each is a prefix of one length, then
/// an eight-byte big-endian counter, then any bytes, the counters are equal.
pub proof fn lemma_counter_fixed_by_encoding(
    p1: Seq<u8>,
    c1: u64,
    d1: Seq<u8>,
    p2: Seq<u8>,
    c2: u64,
    d2: Seq<u8>,
)
    requires
        p1.len() == p2.len(),
        p1 + be_bytes(c1) + d1 == p2 + be_bytes(c2) + d2,
    ensures
        c1 == c2,
{
    let n = p1.len() as int;
    assert((p1 + be_bytes(c1) + d1).subrange(n, n + 8) =~= be_bytes(c1));
    assert((p2 + be_bytes(c2) + d2).subrange(n, n + 8) =~= be_bytes(c2));
    lemma_be_bytes_injective(c1, c2);
}

} // verus!
