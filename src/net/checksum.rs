//! Internet checksum: the ones'-complement sum of 16-bit big-endian words.

use vstd::prelude::*;

verus! {

/// Sum of the 16-bit big-endian words of `s`; an odd trailing byte is the high
/// byte of a word whose low byte is zero.
pub open spec fn word_sum(s: Seq<u8>) -> nat
    decreases s.len(),
{
    if s.len() == 0 {
        0
    } else if s.len() == 1 {
        s[0] as nat * 256
    } else {
        s[0] as nat * 256 + s[1] as nat + word_sum(s.subrange(2, s.len() as int))
    }
}

/// Folds every carry out of bit 16 back into the low 16 bits, until none is left.
pub open spec fn fold_carries(x: nat) -> nat
    decreases x,
{
    if x < 0x10000 {
        x
    } else {
        fold_carries((x % 0x10000 + x / 0x10000) as nat)
    }
}

/// The ones'-complement sum of `s`, as a value in `0..=0xFFFF`.
pub open spec fn ones_sum(s: Seq<u8>) -> nat {
    fold_carries(word_sum(s))
}

/// The Internet checksum of `s` as a 16-bit value: the complement of its ones'-complement sum.
pub open spec fn checksum_value(s: Seq<u8>) -> nat {
    (0xFFFF - ones_sum(s)) as nat
}

/// `s` with the 16-bit value `v` written big-endian at `k` and `k + 1`.
pub open spec fn embed_be16(s: Seq<u8>, k: int, v: nat) -> Seq<u8> {
    s.update(k, (v / 256) as u8).update(k + 1, (v % 256) as u8)
}

/// What repeated carry folding reaches, in closed form: a nonzero sum folds to
/// the nonzero representative of its class modulo 0xFFFF.
pub open spec fn folded(x: nat) -> nat {
    if x == 0 {
        0
    } else if x % 0xFFFF == 0 {
        0xFFFF
    } else {
        x % 0xFFFF
    }
}

proof fn lemma_fold_step(x: nat)
    requires
        x >= 0x10000,
    ensures
        x % 0x10000 + x / 0x10000 < x,
        x % 0x10000 + x / 0x10000 > 0,
        (x % 0x10000 + x / 0x10000) % 0xFFFF == x % 0xFFFF,
{
    let q = x / 0x10000;
    let r = x % 0x10000;
    assert(x == 0x10000 * q + r) by (nonlinear_arith)
        requires
            q == x / 0x10000,
            r == x % 0x10000,
    ;
    assert(q >= 1) by (nonlinear_arith)
        requires
            x >= 0x10000,
            q == x / 0x10000,
    ;
    assert(x == 0xFFFF * q + (q + r));
    assert((0xFFFF * q + (q + r)) % 0xFFFF == (q + r) % 0xFFFF) by (nonlinear_arith)
        requires
            q >= 0,
            r >= 0,
    ;
}

/// Carry folding ends in the closed form `folded`.
pub proof fn lemma_fold_carries_closed(x: nat)
    ensures
        fold_carries(x) == folded(x),
        fold_carries(x) <= 0xFFFF,
    decreases x,
{
    if x >= 0x10000 {
        lemma_fold_step(x);
        lemma_fold_carries_closed((x % 0x10000 + x / 0x10000) as nat);
    }
}

proof fn lemma_word_sum_embed(s: Seq<u8>, k: int, hi: u8, lo: u8)
    requires
        0 <= k,
        k % 2 == 0,
        k + 1 < s.len(),
    ensures
        word_sum(s.update(k, hi).update(k + 1, lo)) + s[k] as nat * 256 + s[k + 1] as nat
            == word_sum(s) + hi as nat * 256 + lo as nat,
    decreases s.len(),
{
    let t = s.update(k, hi).update(k + 1, lo);
    if k == 0 {
        assert(t.subrange(2, t.len() as int) =~= s.subrange(2, s.len() as int));
    } else {
        let s2 = s.subrange(2, s.len() as int);
        lemma_word_sum_embed(s2, k - 2, hi, lo);
        assert(t.subrange(2, t.len() as int) =~= s2.update(k - 2, hi).update(k - 1, lo));
    }
}

/// Writing the checksum of a buffer into its zeroed checksum field (at an even
/// offset) makes the ones'-complement sum of the whole buffer all ones, so the
/// checksum computed over the result is zero.
pub proof fn lemma_checksum_self_verifies(buf: Seq<u8>, k: int)
    requires
        0 <= k,
        k % 2 == 0,
        k + 1 < buf.len(),
        buf[k] == 0,
        buf[k + 1] == 0,
    ensures
        ones_sum(embed_be16(buf, k, checksum_value(buf))) == 0xFFFF,
        checksum_value(embed_be16(buf, k, checksum_value(buf))) == 0,
{
    let s = word_sum(buf);
    lemma_fold_carries_closed(s);
    let c = checksum_value(buf);
    assert(c <= 0xFFFF);
    let hi = (c / 256) as u8;
    let lo = (c % 256) as u8;
    assert(hi as nat * 256 + lo as nat == c) by (nonlinear_arith)
        requires
            c <= 0xFFFF,
            hi == c / 256,
            lo == c % 256,
    ;
    lemma_word_sum_embed(buf, k, hi, lo);
    let t = s + c;
    assert(word_sum(embed_be16(buf, k, c)) == t);
    lemma_fold_carries_closed(t);
    if s == 0 {
        assert(t == 0xFFFF);
    } else {
        assert(t % 0xFFFF == 0) by {
            let f = folded(s);
            assert(c == 0xFFFF - f);
            if s % 0xFFFF == 0 {
                assert(t == s);
            } else {
                assert(f == s % 0xFFFF);
                assert(s == 0xFFFF * (s / 0xFFFF) + s % 0xFFFF) by (nonlinear_arith);
                assert(t == 0xFFFF * (s / 0xFFFF) + 0xFFFF);
                assert((0xFFFF * (s / 0xFFFF) + 0xFFFF) % 0xFFFF == 0) by (nonlinear_arith);
            }
        }
    }
}

/// A 16-bit Internet checksum, held as its two big-endian bytes.
#[derive(Debug, Clone, Copy, PartialEq, Eq, Structural)]
pub struct InternetChecksum {
    /// The first byte on the wire.
    pub hi: u8,
    /// The second byte on the wire.
    pub lo: u8,
}

impl InternetChecksum {
    /// The checksum as a 16-bit value.
    pub open spec fn value(self) -> nat {
        self.hi as nat * 256 + self.lo as nat
    }

    /// The checksum of `data`, fed as one span.
    pub fn calc(data: &[u8]) -> (r: Self)
        ensures
            r.value() == checksum_value(data@),
    {
        let mut g = InternetChecksumGenerator::new();
        g.feed(data);
        g.checksum()
    }

    /// The checksum as a 16-bit value.
    pub fn value_u16(&self) -> (r: u16)
        ensures
            r == self.value(),
    {
        self.hi as u16 * 256 + self.lo as u16
    }

    /// The all-zero checksum, as written into a header before the real one is computed.
    pub fn zero() -> (r: Self)
        ensures
            r.value() == 0,
    {
        InternetChecksum { hi: 0, lo: 0 }
    }
}

/// Accumulates the ones'-complement sum over spans fed one after another, and
/// finishes with the checksum.
pub struct InternetChecksumGenerator {
    sum: u32,
    total: Ghost<nat>,
}

impl InternetChecksumGenerator {
    /// The plain word sum of everything fed so far.
    pub closed spec fn fed_sum(&self) -> nat {
        self.total@
    }

    pub closed spec fn wf(&self) -> bool {
        self.sum as nat == folded(self.total@)
    }

    pub fn new() -> (r: Self)
        ensures
            r.wf(),
            r.fed_sum() == 0,
    {
        InternetChecksumGenerator { sum: 0, total: Ghost(0) }
    }

    /// Adds the words of `data` to the running sum; an odd trailing byte of this
    /// span is padded with a zero low byte.
    pub fn feed(&mut self, data: &[u8])
        requires
            old(self).wf(),
        ensures
            final(self).wf(),
            final(self).fed_sum() == old(self).fed_sum() + word_sum(data@),
    {
        let len = data.len();
        let ghost target = self.total@ + word_sum(data@);
        let mut i: usize = 0;
        assert(data@.subrange(0, len as int) =~= data@);
        while i < len
            invariant
                i <= len,
                len == data@.len(),
                self.sum as nat == folded(self.total@),
                self.total@ + word_sum(data@.subrange(i as int, len as int)) == target,
            decreases len - i,
        {
            let rest = Ghost(data@.subrange(i as int, len as int));
            let word: u32 = if i + 1 < len {
                (data[i] as u32) * 256 + data[i + 1] as u32
            } else {
                (data[i] as u32) * 256
            };
            let next: usize = if i + 1 < len { i + 2 } else { len };
            proof {
                if i + 1 < len {
                    assert(rest@.subrange(2, rest@.len() as int) =~= data@.subrange(
                        next as int,
                        len as int,
                    ));
                } else {
                    assert(data@.subrange(next as int, len as int).len() == 0);
                }
                lemma_folded_add(self.total@, word as nat);
            }
            let mut s = self.sum + word;
            if s > 0xFFFF {
                s = s - 0xFFFF;
            }
            self.sum = s;
            self.total = Ghost(self.total@ + word as nat);
            i = next;
        }
    }

    /// The checksum of everything fed so far.
    pub fn checksum(&mut self) -> (r: InternetChecksum)
        requires
            old(self).wf(),
        ensures
            *final(self) == *old(self),
            r.value() == 0xFFFF - fold_carries(old(self).fed_sum()),
    {
        proof {
            lemma_fold_carries_closed(self.total@);
        }
        let v: u32 = 0xFFFF - self.sum;
        InternetChecksum { hi: (v / 256) as u8, lo: (v % 256) as u8 }
    }
}

proof fn lemma_folded_add(t: nat, w: nat)
    requires
        w <= 0xFFFF,
    ensures
        ({
            let s = folded(t) + w;
            folded(t + w) == if s > 0xFFFF { (s - 0xFFFF) as nat } else { s }
        }),
{
    let c = folded(t);
    if t == 0 {
        if w == 0xFFFF {
            assert(w % 0xFFFF == 0);
        } else {
            assert(w % 0xFFFF == w);
        }
    } else if w > 0 {
        assert(c % 0xFFFF == t % 0xFFFF);
        lemma_mod_shift(t, c, w);
        let s = c + w;
        if s > 0xFFFF {
            assert((s - 0xFFFF) as nat % 0xFFFF == s % 0xFFFF);
        }
    }
}

proof fn lemma_mod_shift(a: nat, b: nat, w: nat)
    requires
        a % 0xFFFF == b % 0xFFFF,
    ensures
        (a + w) % 0xFFFF == (b + w) % 0xFFFF,
{
    assert((a + w) % 0xFFFF == (a % 0xFFFF + w) % 0xFFFF) by (nonlinear_arith);
    assert((b + w) % 0xFFFF == (b % 0xFFFF + w) % 0xFFFF) by (nonlinear_arith);
}

} // verus!
