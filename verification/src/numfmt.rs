//! Decimal formatting of unsigned integers as ASCII bytes.
//!
//! PDF dictionaries carry widths, heights and stream lengths as plain
//! decimal text, and the cross-reference table carries every object offset
//! as a ten-digit zero-padded decimal number.

use vstd::prelude::*;

verus! {

/// The ASCII digit character for `d`, meaningful for `d < 10`.
pub open spec fn dec_digit(d: nat) -> u8 {
    (d + 0x30) as u8
}

/// The decimal representation of `n`, most significant digit first, with
/// no leading zeros; `0` is written as the single digit `0`.
pub open spec fn dec_rep(n: nat) -> Seq<u8>
    decreases n,
{
    if n < 10 {
        seq![dec_digit(n)]
    } else {
        dec_rep(n / 10).push(dec_digit(n % 10))
    }
}

/// `k` ASCII zero characters.
pub open spec fn zeros(k: nat) -> Seq<u8> {
    Seq::new(k, |i| 0x30u8)
}

/// The decimal representation of `n` left-padded with zeros to ten
/// characters, as the `{:010}` format writes it; a number of more than
/// ten digits keeps all its digits.
pub open spec fn dec_pad10(n: nat) -> Seq<u8> {
    if dec_rep(n).len() < 10 {
        zeros((10 - dec_rep(n).len()) as nat) + dec_rep(n)
    } else {
        dec_rep(n)
    }
}

/// `10^k`.
pub open spec fn pow10(k: nat) -> nat
    decreases k,
{
    if k == 0 {
        1
    } else {
        10 * pow10((k - 1) as nat)
    }
}

/// A number below `10^k` has at most `k` decimal digits.
pub proof fn lemma_dec_rep_len_le(n: nat, k: nat)
    requires
        1 <= k,
        n < pow10(k),
    ensures
        dec_rep(n).len() <= k,
    decreases k,
{
    if n >= 10 {
        assert(pow10(1) == 10) by {
            reveal_with_fuel(pow10, 3);
        }
        assert(k >= 2) by {
            if k == 1 {
                assert(n < 10);
            }
        }
        assert(n / 10 < pow10((k - 1) as nat)) by {
            assert(pow10(k) == 10 * pow10((k - 1) as nat));
            assert(n < 10 * pow10((k - 1) as nat));
            assert(n / 10 < pow10((k - 1) as nat)) by (nonlinear_arith)
                requires
                    n < 10 * pow10((k - 1) as nat),
            ;
        }
        lemma_dec_rep_len_le(n / 10, (k - 1) as nat);
    }
}

/// Every `u64` has at most twenty decimal digits.
pub proof fn lemma_dec_rep_len_u64(n: u64)
    ensures
        dec_rep(n as nat).len() <= 20,
{
    assert(pow10(20) == 0x56bc75e2d63100000) by {
        reveal_with_fuel(pow10, 21);
    }
    lemma_dec_rep_len_le(n as nat, 20);
}

/// A number below `10^10` is written as exactly ten padded characters.
pub proof fn lemma_dec_pad10_len(n: nat)
    requires
        n < pow10(10),
    ensures
        dec_pad10(n).len() == 10,
{
    lemma_dec_rep_len_le(n, 10);
}

/// Appends the decimal digits of `n` to `buf`.
pub fn push_dec(buf: &mut Vec<u8>, n: u64)
    ensures
        final(buf)@ == old(buf)@ + dec_rep(n as nat),
    decreases n,
{
    if n >= 10 {
        push_dec(buf, n / 10);
    }
    buf.push((n % 10) as u8 + 0x30);
    proof {
        assert(buf@ =~= old(buf)@ + dec_rep(n as nat));
    }
}

/// Appends the ten-character zero-padded decimal form of `n` to `buf`.
pub fn push_dec_pad10(buf: &mut Vec<u8>, n: u64)
    ensures
        final(buf)@ == old(buf)@ + dec_pad10(n as nat),
{
    let mut digits: usize = 1;
    let mut m: u64 = n;
    proof {
        lemma_dec_rep_len_u64(n);
    }
    while m >= 10
        invariant
            1 <= digits,
            dec_rep(n as nat).len() == dec_rep(m as nat).len() + digits - 1,
            dec_rep(n as nat).len() <= 20,
            digits <= 20,
        decreases m,
    {
        m = m / 10;
        digits = digits + 1;
        proof {
            assert(dec_rep(m as nat).len() >= 1);
        }
    }
    assert(digits == dec_rep(n as nat).len());
    let mut i: usize = digits;
    while i < 10
        invariant
            digits <= i,
            i <= 10 || i == digits,
            digits == dec_rep(n as nat).len(),
            buf@ == old(buf)@ + zeros((i - digits) as nat),
        decreases 10 - i,
    {
        buf.push(0x30);
        proof {
            assert(buf@ =~= old(buf)@ + zeros((i + 1 - digits) as nat));
        }
        i = i + 1;
    }
    push_dec(buf, n);
    proof {
        if dec_rep(n as nat).len() < 10 {
            assert(buf@ =~= old(buf)@ + dec_pad10(n as nat));
        } else {
            assert(zeros((i - digits) as nat) =~= Seq::<u8>::empty());
            assert(buf@ =~= old(buf)@ + dec_pad10(n as nat));
        }
    }
}

} // verus!
