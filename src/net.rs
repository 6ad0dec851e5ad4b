pub mod checksum;
pub mod icmp;
pub mod ip;
pub mod loopback;

use vstd::prelude::*;

verus! {

/// Errors surfaced by the network stack.
#[derive(Debug, Clone, Copy, PartialEq, Eq, Structural)]
pub enum NetError {
    /// The destination is not reachable through any interface.
    NoRoute,
    /// The packet is too large for the layer that was asked to send it.
    InvalidPacket,
    /// The device queue is full.
    Timeout,
}

/// Appends the bytes of `s` to `v`.
pub fn append_bytes(v: &mut Vec<u8>, s: &[u8])
    ensures
        final(v)@ == old(v)@ + s@,
{
    let mut i: usize = 0;
    while i < s.len()
        invariant
            i <= s@.len(),
            v@ == old(v)@ + s@.subrange(0, i as int),
        decreases s@.len() - i,
    {
        v.push(s[i]);
        i = i + 1;
        assert(v@ =~= old(v)@ + s@.subrange(0, i as int));
    }
    assert(s@.subrange(0, s@.len() as int) =~= s@);
}

/// A 16-bit value read big-endian from two bytes.
pub open spec fn from_be16(hi: u8, lo: u8) -> nat {
    hi as nat * 256 + lo as nat
}

/// Splitting a 16-bit value into bytes and reading them back gives the value.
pub proof fn lemma_be16_round_trip(v: u16)
    ensures
        from_be16((v / 256) as u8, (v % 256) as u8) == v,
{
}

/// Reading two bytes as a 16-bit value and splitting it again gives the bytes.
pub proof fn lemma_from_be16_split(hi: u8, lo: u8)
    ensures
        from_be16(hi, lo) <= 0xFFFF,
        (from_be16(hi, lo) / 256) as u8 == hi,
        (from_be16(hi, lo) % 256) as u8 == lo,
{
}

} // verus!
