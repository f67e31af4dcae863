//! Decimal rendering of numbers as ASCII bytes.
use vstd::prelude::*;

verus! {

/// The decimal digits of `n`, most significant first, as ASCII bytes.
pub open spec fn digits(n: nat) -> Seq<u8>
    decreases n,
{
    if n < 10 {
        seq![(48 + n) as u8]
    } else {
        digits(n / 10).push((48 + n % 10) as u8)
    }
}

/// The decimal digits of `n`, with leading zeros up to `width` bytes.
pub open spec fn padded(n: nat, width: nat) -> Seq<u8> {
    Seq::new(zero_count(n, width), |i: int| 48u8) + digits(n)
}

/// How many leading zeros pad `n` to `width` bytes.
pub open spec fn zero_count(n: nat, width: nat) -> nat {
    if width > digits(n).len() {
        (width - digits(n).len()) as nat
    } else {
        0
    }
}

/// Ten to the power `k`.
pub open spec fn pow10(k: nat) -> nat
    decreases k,
{
    if k == 0 {
        1
    } else {
        10 * pow10((k - 1) as nat)
    }
}

proof fn lemma_digits_len(n: nat, k: nat)
    requires
        k >= 1,
        n < pow10(k),
    ensures
        1 <= digits(n).len() <= k,
    decreases n,
{
    if n >= 10 {
        if k == 1 {
            reveal_with_fuel(pow10, 2);
            assert(false);
        }
        let p = pow10((k - 1) as nat);
        assert(n / 10 < p) by (nonlinear_arith)
            requires
                n < 10 * p,
        ;
        lemma_digits_len(n / 10, (k - 1) as nat);
    }
}

proof fn lemma_digits_len_u64(n: u64)
    ensures
        1 <= digits(n as nat).len() <= 20,
{
    reveal_with_fuel(pow10, 21);
    lemma_digits_len(n as nat, 20);
}

fn digit_count(n: u64) -> (r: usize)
    ensures
        r == digits(n as nat).len(),
    decreases n,
{
    proof {
        lemma_digits_len_u64(n);
        lemma_digits_len_u64(n / 10);
    }
    if n < 10 {
        1
    } else {
        digit_count(n / 10) + 1
    }
}

fn push_digits(out: &mut Vec<u8>, n: u64)
    ensures
        final(out)@ == old(out)@ + digits(n as nat),
    decreases n,
{
    if n >= 10 {
        push_digits(out, n / 10);
    }
    out.push((48 + n % 10) as u8);
    proof {
        if n >= 10 {
            assert(final(out)@ =~= old(out)@ + digits(n as nat));
        } else {
            assert(final(out)@ =~= old(out)@ + digits(n as nat));
        }
    }
}

/// With width one no zero is added.
pub proof fn lemma_padded_width_one(n: nat)
    ensures
        padded(n, 1) == digits(n),
{
    lemma_digits_len_pos(n);
    assert(padded(n, 1) =~= digits(n));
}

proof fn lemma_digits_len_pos(n: nat)
    ensures
        digits(n).len() >= 1,
    decreases n,
{
    if n >= 10 {
        lemma_digits_len_pos(n / 10);
    }
}

/// Appends the decimal digits of `n`, zero-padded to `width` bytes.
pub fn push_padded(out: &mut Vec<u8>, n: u64, width: usize)
    ensures
        final(out)@ == old(out)@ + padded(n as nat, width as nat),
{
    let count = digit_count(n);
    let ghost start = out@;
    let mut i: usize = count;
    while i < width
        invariant
            count == digits(n as nat).len(),
            count <= i,
            i <= width || i == count,
            out@ =~= start + Seq::new((i - count) as nat, |j: int| 48u8),
        decreases width - i,
    {
        out.push(48u8);
        i = i + 1;
    }
    let ghost zeros = out@;
    push_digits(out, n);
    proof {
        assert(zeros =~= start + Seq::new(zero_count(n as nat, width as nat), |j: int| 48u8));
        assert(out@ =~= start + padded(n as nat, width as nat));
    }
}

} // verus!
