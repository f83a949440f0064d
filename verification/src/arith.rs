//! Word arithmetic used by capability lookup, boot-time allocation and the
//! untyped stream: bit-field extraction, rounding up to a power-of-two
//! alignment, trailing zeros and the integer base-2 logarithm.

use vstd::prelude::*;
use vstd::arithmetic::power2::{
    pow2,
    lemma_pow2_pos,
    lemma_pow2_unfold,
    lemma_pow2_adds,
    lemma_pow2_strictly_increases,
    lemma2_to64,
};
use vstd::arithmetic::div_mod::{
    lemma_small_mod,
    lemma_basic_div,
    lemma_fundamental_div_mod,
    lemma_fundamental_div_mod_converse,
};
use vstd::bits::{
    low_bits_mask,
    lemma_usize_shr_is_div,
    lemma_usize_shl_is_mul,
    lemma_usize_pow2_no_overflow,
    lemma_usize_low_bits_mask_is_mod,
};

verus! {

/// The `size` bits of `raw` that lie just above its lowest `shift` bits.
pub open spec fn extract_bits(raw: nat, shift: nat, size: nat) -> nat {
    (raw / pow2(shift)) % pow2(size)
}

/// `a` is a power of two.
pub open spec fn is_power_of_two(a: nat) -> bool {
    exists|k: nat| pow2(k) == a
}

/// The least multiple of `align` that is not below `x`.
pub open spec fn round_up(x: nat, align: nat) -> nat {
    if x % align == 0 {
        x
    } else {
        (x - x % align + align) as nat
    }
}

/// Number of trailing zero bits of a word (`usize::BITS` for zero).
pub open spec fn trailing_zeros(x: nat) -> nat
    decreases x,
{
    if x == 0 {
        usize::BITS as nat
    } else if x % 2 == 1 {
        0
    } else {
        1 + trailing_zeros(x / 2)
    }
}

/// The integer base-2 logarithm: the `k` with `2^k <= x < 2^(k+1)` (0 below 2).
pub open spec fn ilog2(x: nat) -> nat
    decreases x,
{
    if x < 2 {
        0
    } else {
        1 + ilog2(x / 2)
    }
}

/// 2 to the number of bits of a word is one more than the largest word.
pub proof fn lemma_pow2_word()
    ensures
        pow2(usize::BITS as nat) == usize::MAX as nat + 1,
        pow2(12) == 4096,
{
    lemma2_to64();
}

/// A page is a power of two.
pub proof fn lemma_page_is_power_of_two()
    ensures
        is_power_of_two(4096),
{
    lemma2_to64();
    assert(pow2(12) == 4096);
}

/// Powers of two grow with their exponent.
pub proof fn lemma_pow2_mono(e1: nat, e2: nat)
    requires
        e1 <= e2,
    ensures
        pow2(e1) <= pow2(e2),
{
    if e1 < e2 {
        lemma_pow2_strictly_increases(e1, e2);
    }
}

/// A power of two that fits in a word has an exponent below the word size.
pub proof fn lemma_pow2_fits(k: nat)
    requires
        pow2(k) <= usize::MAX,
    ensures
        k < usize::BITS,
{
    lemma_pow2_word();
    if k >= usize::BITS {
        lemma_pow2_mono(usize::BITS as nat, k);
    }
}

/// `2^k` divides `x`: the lowest `trailing_zeros(x)` bits of a nonzero `x` are zero.
pub proof fn lemma_trailing_zeros_divides(x: nat)
    requires
        x > 0,
    ensures
        x % pow2(trailing_zeros(x)) == 0,
    decreases x,
{
    if x % 2 == 1 {
        lemma2_to64();
    } else {
        lemma_trailing_zeros_divides(x / 2);
        let k = trailing_zeros(x / 2);
        lemma_pow2_unfold(k + 1);
        lemma_pow2_pos(k);
        let p = pow2(k) as int;
        let q = (x / 2) as int / p;
        lemma_fundamental_div_mod((x / 2) as int, p);
        assert(x == (q * 2) * p) by (nonlinear_arith)
            requires
                (x / 2) as int == p * q,
                x % 2 == 0,
        ;
        assert(x as int == q * (2 * p)) by (nonlinear_arith)
            requires
                x == (q * 2) * p,
        ;
        lemma_fundamental_div_mod_converse(x as int, 2 * p, q, 0);
    }
}

/// A positive multiple of `2^k` has at least `k` trailing zero bits.
pub proof fn lemma_trailing_zeros_at_least(x: nat, k: nat)
    requires
        x > 0,
        x % pow2(k) == 0,
    ensures
        trailing_zeros(x) >= k,
    decreases k,
{
    if k > 0 {
        lemma_pow2_unfold(k);
        lemma_pow2_pos((k - 1) as nat);
        let p = pow2((k - 1) as nat) as int;
        let q = x as int / (2 * p);
        lemma_fundamental_div_mod(x as int, 2 * p);
        assert(x as int == 2 * (p * q)) by (nonlinear_arith)
            requires
                x as int == (2 * p) * q + 0,
        ;
        lemma_fundamental_div_mod_converse(x as int, 2, p * q, 0);
        assert(x / 2 == p * q);
        assert((x / 2) as int == q * p) by (nonlinear_arith)
            requires
                (x / 2) as int == p * q,
        ;
        lemma_fundamental_div_mod_converse((x / 2) as int, p, q, 0);
        assert(x / 2 > 0);
        lemma_trailing_zeros_at_least(x / 2, (k - 1) as nat);
    }
}

/// If `2^k` divides `x` and `j <= k`, then `2^j` divides `x`.
pub proof fn lemma_pow2_divides_smaller(x: nat, j: nat, k: nat)
    requires
        j <= k,
        x % pow2(k) == 0,
    ensures
        x % pow2(j) == 0,
{
    lemma_pow2_pos(k);
    lemma_pow2_pos(j);
    lemma_pow2_adds(j, (k - j) as nat);
    let pj = pow2(j) as int;
    let pr = pow2((k - j) as nat) as int;
    let q = x as int / pow2(k) as int;
    lemma_fundamental_div_mod(x as int, pow2(k) as int);
    assert(x as int == (pr * q) * pj) by (nonlinear_arith)
        requires
            x as int == pow2(k) as int * q + 0,
            pow2(k) as int == pj * pr,
    ;
    lemma_fundamental_div_mod_converse(x as int, pj, pr * q, 0);
}

/// A power of two not above a positive `x` has an exponent at most `ilog2(x)`.
pub proof fn lemma_ilog2_at_least(x: nat, k: nat)
    requires
        pow2(k) <= x,
    ensures
        k <= ilog2(x),
{
    lemma_pow2_pos(k);
    lemma_ilog2_bounds(x);
    if k > ilog2(x) {
        lemma_pow2_mono(ilog2(x) + 1, k);
    }
}

/// `2^ilog2(x) <= x < 2^(ilog2(x) + 1)` for positive `x`.
pub proof fn lemma_ilog2_bounds(x: nat)
    requires
        x > 0,
    ensures
        pow2(ilog2(x)) <= x < pow2(ilog2(x) + 1),
    decreases x,
{
    if x < 2 {
        lemma2_to64();
    } else {
        lemma_ilog2_bounds(x / 2);
        lemma_pow2_unfold(ilog2(x));
        lemma_pow2_unfold(ilog2(x) + 1);
    }
}

/// The bits of `raw` in positions `[shift, shift + size)`, as an integer.
pub fn extract(raw: usize, shift: u32, size: u32) -> (r: usize)
    ensures
        r == extract_bits(raw as nat, shift as nat, size as nat),
{
    proof {
        lemma_pow2_word();
        lemma_pow2_pos(shift as nat);
        lemma_pow2_pos(size as nat);
    }
    let v: usize = if shift >= usize::BITS {
        proof {
            lemma_pow2_mono(usize::BITS as nat, shift as nat);
            lemma_basic_div(raw as int, pow2(shift as nat) as int);
        }
        0
    } else {
        proof {
            lemma_usize_shr_is_div(raw, shift as usize);
        }
        raw >> (shift as usize)
    };
    assert(v == raw as nat / pow2(shift as nat));
    if size >= usize::BITS {
        proof {
            lemma_pow2_mono(usize::BITS as nat, size as nat);
            lemma_small_mod(v as nat, pow2(size as nat));
        }
        v
    } else {
        proof {
            lemma_usize_pow2_no_overflow(size as nat);
            lemma_usize_shl_is_mul(1, size as usize);
            lemma_usize_low_bits_mask_is_mod(v, size as nat);
        }
        let mask: usize = (1usize << (size as usize)) - 1;
        assert(mask == low_bits_mask(size as nat));
        v & mask
    }
}

/// Rounding up by the add-and-truncate method gives `round_up`.
pub proof fn lemma_round_up(x: int, a: int)
    requires
        x >= 0,
        a > 0,
    ensures
        (x + a - 1) - (x + a - 1) % a == round_up(x as nat, a as nat),
        round_up(x as nat, a as nat) as int % a == 0,
        x <= round_up(x as nat, a as nat) < x + a,
{
    lemma_fundamental_div_mod(x, a);
    let q = x / a;
    let m = x % a;
    if m == 0 {
        assert(x + a - 1 == q * a + (a - 1)) by (nonlinear_arith)
            requires
                x == a * q + m,
                m == 0,
        ;
        lemma_fundamental_div_mod_converse(x + a - 1, a, q, a - 1);
        lemma_fundamental_div_mod_converse(x, a, q, 0);
    } else {
        assert(x + a - 1 == (q + 1) * a + (m - 1)) by (nonlinear_arith)
            requires
                x == a * q + m,
        ;
        lemma_fundamental_div_mod_converse(x + a - 1, a, q + 1, m - 1);
        assert(x - m + a == (q + 1) * a) by (nonlinear_arith)
            requires
                x == a * q + m,
        ;
        lemma_fundamental_div_mod_converse(x - m + a, a, q + 1, 0);
    }
}

/// Whether `a` is a power of two.
pub fn is_power_of_two_of(a: usize) -> (r: bool)
    ensures
        r == is_power_of_two(a as nat),
{
    let mut v: usize = a;
    let ghost mut c: nat = 0;
    proof {
        lemma2_to64();
    }
    while v > 1 && v % 2 == 0
        invariant
            a as nat == v as nat * pow2(c),
        decreases v,
    {
        proof {
            lemma_pow2_unfold(c + 1);
            assert(a as nat == (v / 2) as nat * pow2(c + 1)) by (nonlinear_arith)
                requires
                    a as nat == v as nat * pow2(c),
                    v % 2 == 0,
                    pow2(c + 1) == 2 * pow2(c),
            ;
        }
        v = v / 2;
        proof {
            c = c + 1;
        }
    }
    if v == 1 {
        assert(pow2(c) == a as nat);
        true
    } else {
        proof {
            if is_power_of_two(a as nat) {
                let k = choose|k: nat| pow2(k) == a as nat;
                lemma_pow2_pos(k);
                lemma_pow2_pos(c);
                if k < c {
                    lemma_pow2_strictly_increases(k, c);
                    assert(v as nat * pow2(c) >= pow2(c)) by (nonlinear_arith)
                        requires
                            v >= 1,
                            pow2(c) > 0,
                    ;
                } else {
                    lemma_pow2_adds(c, (k - c) as nat);
                    let r = pow2((k - c) as nat);
                    assert(v as nat == r) by (nonlinear_arith)
                        requires
                            v as nat * pow2(c) == pow2(c) * r,
                            pow2(c) > 0,
                    ;
                    if k > c {
                        lemma_pow2_unfold((k - c) as nat);
                    } else {
                        lemma2_to64();
                    }
                }
            }
        }
        false
    }
}

/// Number of trailing zero bits of `x` (`usize::BITS` when `x` is zero).
pub fn trailing_zeros_of(x: usize) -> (r: u32)
    ensures
        r == trailing_zeros(x as nat),
{
    if x == 0 {
        return usize::BITS;
    }
    let mut v: usize = x;
    let mut c: u32 = 0;
    while v % 2 == 0
        invariant
            v > 0,
            c + trailing_zeros(v as nat) == trailing_zeros(x as nat),
            c <= usize::BITS,
            c + ilog2(v as nat) <= ilog2(x as nat),
        decreases v,
    {
        proof {
            lemma_ilog2_bounds(x as nat);
            lemma_pow2_fits(ilog2(x as nat));
        }
        v = v / 2;
        c = c + 1;
    }
    c
}

/// The integer base-2 logarithm of a positive `x`.
pub fn ilog2_of(x: usize) -> (r: u32)
    requires
        x > 0,
    ensures
        r == ilog2(x as nat),
{
    proof {
        lemma_ilog2_bounds(x as nat);
        lemma_pow2_fits(ilog2(x as nat));
    }
    let mut v: usize = x;
    let mut c: u32 = 0;
    while v >= 2
        invariant
            v > 0,
            c + ilog2(v as nat) == ilog2(x as nat),
            ilog2(x as nat) < usize::BITS,
        decreases v,
    {
        v = v / 2;
        c = c + 1;
    }
    c
}

} // verus!
