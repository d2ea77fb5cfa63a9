//! The canonical byte encodings that key derivation feeds on: big-endian
//! integers and length-prefixed byte strings.
use vstd::prelude::*;

verus! {

/// Big-endian encoding of `n` in `k` bytes (`n` is taken modulo 256^k).
pub open spec fn be_bytes(n: nat, k: nat) -> Seq<u8>
    decreases k,
{
    if k == 0 {
        Seq::empty()
    } else {
        be_bytes(n / 256, (k - 1) as nat).push((n % 256) as u8)
    }
}

/// The encoding of an integer in `k` bytes is `k` bytes long.
pub proof fn lemma_be_bytes_len(n: nat, k: nat)
    ensures
        #[trigger] be_bytes(n, k).len() == k,
    decreases k,
{
    if k > 0 {
        lemma_be_bytes_len(n / 256, (k - 1) as nat);
    }
}

/// A byte string behind a one-byte length.
pub open spec fn opaque_u8(b: Seq<u8>) -> Seq<u8> {
    be_bytes(b.len(), 1) + b
}

/// A byte string behind a two-byte length.
pub open spec fn opaque_u16(b: Seq<u8>) -> Seq<u8> {
    be_bytes(b.len(), 2) + b
}

/// A byte string behind a four-byte length.
pub open spec fn opaque_u32(b: Seq<u8>) -> Seq<u8> {
    be_bytes(b.len(), 4) + b
}

/// Copies a slice into a fresh vector.
pub fn copy_bytes(b: &[u8]) -> (r: Vec<u8>)
    ensures
        r@ == b@,
{
    vstd::slice::slice_to_vec(b)
}

/// Appends `b` to `out`.
pub fn append_bytes(out: &mut Vec<u8>, b: &[u8])
    ensures
        final(out)@ == old(out)@ + b@,
{
    let mut i: usize = 0;
    while i < b.len()
        invariant
            i <= b@.len(),
            out@ == old(out)@ + b@.subrange(0, i as int),
        decreases b@.len() - i,
    {
        out.push(b[i]);
        i = i + 1;
        assert(b@.subrange(0, i as int) == b@.subrange(0, (i - 1) as int).push(b@[i - 1]));
    }
    assert(b@.subrange(0, i as int) == b@);
}

/// Appends the `k` low-order bytes of `n`, most significant first.
pub fn append_be(out: &mut Vec<u8>, n: u64, k: usize)
    requires
        k <= 8,
    ensures
        final(out)@ == old(out)@ + be_bytes(n as nat, k as nat),
    decreases k,
{
    if k > 0 {
        append_be(out, n / 256, k - 1);
        out.push((n % 256) as u8);
    }
}

/// Appends `b` behind a one-byte length.
pub fn append_opaque_u8(out: &mut Vec<u8>, b: &[u8])
    requires
        b@.len() < 256,
    ensures
        final(out)@ == old(out)@ + opaque_u8(b@),
{
    append_be(out, b.len() as u64, 1);
    append_bytes(out, b);
    assert(final(out)@ == old(out)@ + opaque_u8(b@));
}

/// Appends `b` behind a two-byte length.
pub fn append_opaque_u16(out: &mut Vec<u8>, b: &[u8])
    requires
        b@.len() < 0x1_0000,
    ensures
        final(out)@ == old(out)@ + opaque_u16(b@),
{
    append_be(out, b.len() as u64, 2);
    append_bytes(out, b);
    assert(final(out)@ == old(out)@ + opaque_u16(b@));
}

/// Appends `b` behind a four-byte length.
pub fn append_opaque_u32(out: &mut Vec<u8>, b: &[u8])
    requires
        b@.len() < 0x1_0000_0000,
    ensures
        final(out)@ == old(out)@ + opaque_u32(b@),
{
    append_be(out, b.len() as u64, 4);
    append_bytes(out, b);
    assert(final(out)@ == old(out)@ + opaque_u32(b@));
}

} // verus!
