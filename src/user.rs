//! Helpers of the user-side shell that compute rather than call the kernel.

use vstd::prelude::*;

verus! {

/// The decimal digits of `n` in ASCII, most significant first, without leading zeros.
pub open spec fn decimal(n: nat) -> Seq<u8>
    decreases n,
{
    if n < 10 {
        seq![(48 + n) as u8]
    } else {
        decimal(n / 10).push((48 + n % 10) as u8)
    }
}

fn push_decimal(v: &mut Vec<u8>, n: u32)
    ensures
        final(v)@ == old(v)@ + decimal(n as nat),
    decreases n,
{
    if n >= 10 {
        push_decimal(v, n / 10);
    }
    v.push(48u8 + (n % 10) as u8);
    assert(v@ =~= old(v)@ + decimal(n as nat));
}

/// The text that prints `n` in decimal.
pub fn decimal_digits(n: u32) -> (r: Vec<u8>)
    ensures
        r@ == decimal(n as nat),
{
    let mut v: Vec<u8> = Vec::new();
    push_decimal(&mut v, n);
    assert(v@ =~= decimal(n as nat));
    v
}

} // verus!
