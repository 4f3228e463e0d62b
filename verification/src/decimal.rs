//! Numbers as decimal text, right-aligned in a field of a given width.

use vstd::prelude::*;

verus! {

/// The blank that fills a field.
pub const SPACE: u8 = 32;

/// The digit zero; the other digits follow it.
pub const DIGIT_ZERO: u8 = 48;

/// The decimal digits of `n`, most significant first, without leading zeros.
pub open spec fn decimal(n: nat) -> Seq<u8>
    decreases n,
{
    if n < 10 {
        seq![(DIGIT_ZERO + n) as u8]
    } else {
        decimal(n / 10).push((DIGIT_ZERO + n % 10) as u8)
    }
}

/// `count` blanks; none where `count` is not positive.
pub open spec fn blanks(count: int) -> Seq<u8> {
    Seq::new(if count > 0 { count as nat } else { 0nat }, |i: int| SPACE)
}

/// The digits of `n` behind as many blanks as it takes to fill `width`
/// places. A number with more digits than `width` is written out in full.
pub open spec fn right_aligned(n: nat, width: nat) -> Seq<u8> {
    blanks(width - decimal(n).len()) + decimal(n)
}

/// Appends `bytes` to `out`.
pub fn push_all(out: &mut Vec<u8>, bytes: &[u8])
    ensures
        final(out)@ == old(out)@ + bytes@,
{
    let ghost before = out@;
    let mut i: usize = 0;
    while i < bytes.len()
        invariant
            i <= bytes.len(),
            out@ == before + bytes@.take(i as int),
        decreases bytes.len() - i,
    {
        out.push(bytes[i]);
        i += 1;
    }
}

/// The decimal digits of `n`.
pub fn decimal_digits(n: u64) -> (digits: Vec<u8>)
    ensures
        digits@ == decimal(n as nat),
    decreases n,
{
    if n < 10 {
        let mut digits: Vec<u8> = Vec::new();
        digits.push(DIGIT_ZERO + n as u8);
        digits
    } else {
        let mut digits = decimal_digits(n / 10);
        digits.push(DIGIT_ZERO + (n % 10) as u8);
        digits
    }
}

/// Appends `n` to `out`, right-aligned in `width` places.
pub fn push_right_aligned(out: &mut Vec<u8>, n: u64, width: usize)
    ensures
        final(out)@ == old(out)@ + right_aligned(n as nat, width as nat),
{
    let ghost before = out@;
    let digits = decimal_digits(n);
    let mut filled: usize = digits.len();
    while filled < width
        invariant
            digits.len() <= filled,
            filled <= width || filled == digits.len(),
            out@ == before + blanks(filled - digits.len()),
        decreases width - filled,
    {
        out.push(SPACE);
        filled += 1;
    }
    push_all(out, digits.as_slice());
}

} // verus!
