//! Decimal and hexadecimal text of unsigned integers.
use vstd::prelude::*;
use crate::strs::push_char;

verus! {

/// The decimal digit character of `d` (`0 <= d < 10`).
pub open spec fn digit_char(d: nat) -> char {
    ((d + 48) as u8) as char
}

/// The decimal text of `n`, without sign or leading zeros (`"0"` for zero).
pub open spec fn decimal(n: nat) -> Seq<char>
    decreases n,
{
    if n < 10 {
        seq![digit_char(n)]
    } else {
        decimal(n / 10).push(digit_char(n % 10))
    }
}

/// The decimal text of `n`, left-padded with `'0'` to at least `w` characters.
pub open spec fn zero_padded(n: nat, w: nat) -> Seq<char> {
    let d = decimal(n);
    if d.len() < w {
        Seq::new((w - d.len()) as nat, |i: int| '0') + d
    } else {
        d
    }
}

/// The uppercase hexadecimal digit of `d` (`0 <= d < 16`).
pub open spec fn hex_digit_upper(d: nat) -> char {
    if d < 10 {
        ((d + 48) as u8) as char
    } else {
        ((d + 55) as u8) as char
    }
}

/// A byte as two uppercase hexadecimal digits.
pub open spec fn hex2(b: u8) -> Seq<char> {
    seq![hex_digit_upper((b / 16) as nat), hex_digit_upper((b % 16) as nat)]
}

fn digit(d: u64) -> (c: char)
    requires
        d < 10,
    ensures
        c == digit_char(d as nat),
{
    ((d as u8) + 48) as char
}

/// Append the decimal text of `n`.
pub fn push_decimal(out: &mut String, n: u64)
    ensures
        final(out)@ == old(out)@ + decimal(n as nat),
    decreases n,
{
    if n >= 10 {
        push_decimal(out, n / 10);
    }
    push_char(out, digit(n % 10));
    assert(final(out)@ =~= old(out)@ + decimal(n as nat));
}

/// The number of decimal digits of `n`.
pub fn decimal_len(n: u64) -> (k: usize)
    ensures
        k as nat == decimal(n as nat).len(),
        k <= 20,
    decreases n,
{
    if n < 10 {
        1
    } else {
        proof {
            lemma_decimal_len_bound(n as nat);
        }
        decimal_len(n / 10) + 1
    }
}

proof fn lemma_decimal_len_bound(n: nat)
    ensures
        n < 10 ==> decimal(n).len() == 1,
        decimal(n).len() >= 1,
        n <= u64::MAX ==> decimal(n).len() <= 20,
    decreases n,
{
    if n >= 10 {
        lemma_decimal_len_bound(n / 10);
        if n <= u64::MAX {
            lemma_decimal_len_u64(n);
        }
    }
}

proof fn lemma_decimal_len_u64(n: nat)
    requires
        n <= u64::MAX,
    ensures
        decimal(n).len() <= 20,
{
    reveal_with_fuel(pow10, 21);
    assert(pow10(20) == 100000000000000000000nat);
    lemma_decimal_len_pow(n, 20);
}

/// `decimal(n)` has at most `k` digits when `n < 10^k`.
proof fn lemma_decimal_len_pow(n: nat, k: nat)
    requires
        k >= 1,
        n < pow10(k),
    ensures
        decimal(n).len() <= k,
    decreases n,
{
    if n >= 10 {
        let p = pow10((k - 1) as nat);
        assert(pow10(k) == 10 * p);
        if k == 1 {
            assert(pow10(0) == 1);
        }
        assert(n / 10 < p) by (nonlinear_arith)
            requires
                n < 10 * p,
        ;
        lemma_decimal_len_pow(n / 10, (k - 1) as nat);
    }
}

/// `10^k`.
pub open spec fn pow10(k: nat) -> nat
    decreases k,
{
    if k == 0 {
        1
    } else {
        10 * pow10((k - 1) as nat)
    }
}

/// Append the decimal text of `n`, left-padded with `'0'` to `w` characters.
pub fn push_zero_padded(out: &mut String, n: u64, w: usize)
    ensures
        final(out)@ == old(out)@ + zero_padded(n as nat, w as nat),
{
    let k = decimal_len(n);
    let ghost start = out@;
    if k < w {
        let mut i: usize = 0;
        while i < w - k
            invariant
                k < w,
                i <= w - k,
                out@ == start + Seq::new(i as nat, |j: int| '0'),
            decreases w - k - i,
        {
            push_char(out, '0');
            assert(out@ =~= start + Seq::new((i + 1) as nat, |j: int| '0'));
            i += 1;
        }
    }
    push_decimal(out, n);
    assert(out@ =~= start + zero_padded(n as nat, w as nat));
}

fn hex_upper(d: u8) -> (c: char)
    requires
        d < 16,
    ensures
        c == hex_digit_upper(d as nat),
{
    if d < 10 {
        (d + 48) as char
    } else {
        (d + 55) as char
    }
}

/// Append a byte as two uppercase hexadecimal digits.
pub fn push_hex2(out: &mut String, b: u8)
    ensures
        final(out)@ == old(out)@ + hex2(b),
{
    push_char(out, hex_upper(b / 16));
    push_char(out, hex_upper(b % 16));
    assert(final(out)@ =~= old(out)@ + hex2(b));
}

} // verus!
