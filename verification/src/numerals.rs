//! Numbers written out as digits.

use vstd::prelude::*;

verus! {

/// The digit for `d`, for `d` below sixteen.
pub open spec fn digit(d: int) -> char {
    "0123456789abcdef"@[d]
}

/// `n` in the given base, most significant digit first, without leading
/// zeros: one digit for a number below the base.
pub open spec fn numeral(n: nat, base: nat) -> Seq<char>
    decreases n,
{
    if base < 2 || n < base {
        seq![digit(n as int)]
    } else {
        proof {
            assert(n / base < n) by (nonlinear_arith)
                requires
                    n >= base,
                    base >= 2,
            ;
        }
        numeral(n / base, base).push(digit((n % base) as int))
    }
}

/// The last `width` digits of `n` in the given base, with zeros in front
/// where `n` has fewer.
pub open spec fn fixed_numeral(n: nat, base: nat, width: nat) -> Seq<char>
    decreases width,
{
    if width == 0 || base < 2 {
        Seq::empty()
    } else {
        fixed_numeral(n / base, base, (width - 1) as nat).push(digit((n % base) as int))
    }
}

/// `n` in the given base in at least `width` digits: with zeros in front
/// where it has fewer, in full where it has more.
pub open spec fn padded_numeral(n: nat, base: nat, width: nat) -> Seq<char> {
    if fits(n, base, width) {
        fixed_numeral(n, base, width)
    } else {
        numeral(n, base)
    }
}

/// `n` has at most `width` digits in the given base.
pub open spec fn fits(n: nat, base: nat, width: nat) -> bool
    decreases width,
{
    if base < 2 {
        false
    } else if width == 0 {
        n == 0
    } else {
        fits(n / base, base, (width - 1) as nat)
    }
}

/// The sixteen digits differ from one another.
pub proof fn lemma_digits_differ(a: int, b: int)
    requires
        0 <= a < 16,
        0 <= b < 16,
        digit(a) == digit(b),
    ensures
        a == b,
{
    reveal_strlit("0123456789abcdef");
}

/// A numeral has at least one digit, and more than one from the base on.
pub proof fn lemma_numeral_len(n: nat, base: nat)
    requires
        2 <= base <= 16,
    ensures
        numeral(n, base).len() >= 1,
        n >= base ==> numeral(n, base).len() >= 2,
    decreases n,
{
    if n >= base {
        assert(n / base < n) by (nonlinear_arith)
            requires
                n >= base,
                base >= 2,
        ;
        lemma_numeral_len(n / base, base);
    }
}

/// Two numbers with the same numeral are the same number.
pub proof fn lemma_numeral_injective(a: nat, b: nat, base: nat)
    requires
        2 <= base <= 16,
        numeral(a, base) == numeral(b, base),
    ensures
        a == b,
    decreases a,
{
    lemma_numeral_len(a, base);
    lemma_numeral_len(b, base);
    if a < base && b < base {
        assert(numeral(a, base)[0] == digit(a as int));
        assert(numeral(b, base)[0] == digit(b as int));
        lemma_digits_differ(a as int, b as int);
    } else if a >= base && b >= base {
        let high_a = numeral(a / base, base);
        let high_b = numeral(b / base, base);
        let low_a = digit((a % base) as int);
        let low_b = digit((b % base) as int);
        assert(high_a.push(low_a) == high_b.push(low_b));
        assert(high_a.push(low_a).last() == low_a);
        assert(high_b.push(low_b).last() == low_b);
        assert(high_a.push(low_a).drop_last() =~= high_a);
        assert(high_b.push(low_b).drop_last() =~= high_b);
        assert(a / base < a) by (nonlinear_arith)
            requires
                a >= base,
                base >= 2,
        ;
        lemma_numeral_injective(a / base, b / base, base);
        lemma_digits_differ((a % base) as int, (b % base) as int);
        assert(a == b) by (nonlinear_arith)
            requires
                a / base == b / base,
                a % base == b % base,
                base >= 2,
        ;
    } else {
        assert(numeral(a, base).len() != numeral(b, base).len());
    }
}

/// Appends the digit for `d`.
fn push_digit(out: &mut String, d: u128)
    requires
        d < 16,
    ensures
        final(out)@ == old(out)@.push(digit(d as int)),
{
    proof {
        reveal_strlit("0123456789abcdef");
    }
    let at: usize = d as usize;
    let one = "0123456789abcdef".substring_char(at, at + 1);
    out.append(one);
    assert(out@ =~= old(out)@.push(digit(d as int)));
}

/// Appends `n` in the given base.
pub fn push_numeral(out: &mut String, n: u128, base: u128)
    requires
        2 <= base <= 16,
    ensures
        final(out)@ == old(out)@ + numeral(n as nat, base as nat),
    decreases n,
{
    if n < base {
        push_digit(out, n);
        assert(out@ =~= old(out)@ + numeral(n as nat, base as nat));
    } else {
        assert(n / base < n) by (nonlinear_arith)
            requires
                n >= base,
                base >= 2,
        ;
        push_numeral(out, n / base, base);
        push_digit(out, n % base);
        assert(out@ =~= old(out)@ + numeral(n as nat, base as nat));
    }
}

/// Appends the last `width` digits of `n` in the given base.
pub fn push_fixed_numeral(out: &mut String, n: u128, base: u128, width: usize)
    requires
        2 <= base <= 16,
    ensures
        final(out)@ == old(out)@ + fixed_numeral(n as nat, base as nat, width as nat),
    decreases width,
{
    if width == 0 {
        assert(out@ =~= old(out)@ + fixed_numeral(n as nat, base as nat, width as nat));
    } else {
        push_fixed_numeral(out, n / base, base, width - 1);
        push_digit(out, n % base);
        assert(out@ =~= old(out)@ + fixed_numeral(n as nat, base as nat, width as nat));
    }
}

/// Whether `n` has at most `width` digits in the given base.
pub fn has_width(n: u128, base: u128, width: usize) -> (res: bool)
    requires
        2 <= base <= 16,
    ensures
        res == fits(n as nat, base as nat, width as nat),
    decreases width,
{
    if width == 0 {
        n == 0
    } else {
        has_width(n / base, base, width - 1)
    }
}

/// Appends `n` in the given base in at least `width` digits.
pub fn push_padded_numeral(out: &mut String, n: u128, base: u128, width: usize)
    requires
        2 <= base <= 16,
    ensures
        final(out)@ == old(out)@ + padded_numeral(n as nat, base as nat, width as nat),
{
    if has_width(n, base, width) {
        push_fixed_numeral(out, n, base, width);
    } else {
        push_numeral(out, n, base);
    }
}

} // verus!
