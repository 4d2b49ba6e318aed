//! Rounding addresses to a power-of-two alignment.

use vstd::arithmetic::power::pow;
use vstd::arithmetic::div_mod::{lemma_fundamental_div_mod, lemma_mod_multiples_basic};
use vstd::arithmetic::power2::{
    is_pow2, is_pow2_equiv, lemma2_to64, lemma2_to64_rest, lemma_pow2, pow2,
};
use vstd::prelude::*;

verus! {

/// The greatest multiple of `align` that is not above `addr`.
pub open spec fn align_down_spec(addr: int, align: int) -> int {
    addr - addr % align
}

/// The least multiple of `align` that is not below `addr`.
pub open spec fn align_up_spec(addr: int, align: int) -> int {
    align_down_spec(addr + align - 1, align)
}

/// `align_down_spec` yields a multiple of `align` in `(addr - align, addr]`.
pub proof fn lemma_align_down(addr: int, align: int)
    requires
        align > 0,
    ensures
        align_down_spec(addr, align) % align == 0,
        align_down_spec(addr, align) <= addr < align_down_spec(addr, align) + align,
{
    let r = addr % align;
    let q = addr / align;
    assert(addr == q * align + r && 0 <= r < align) by (nonlinear_arith)
        requires
            align > 0,
            r == addr % align,
            q == addr / align,
    ;
    assert((q * align) % align == 0) by (nonlinear_arith)
        requires
            align > 0,
    ;
}

/// `align_up_spec` yields a multiple of `align` in `[addr, addr + align)`.
pub proof fn lemma_align_up(addr: int, align: int)
    requires
        align > 0,
    ensures
        align_up_spec(addr, align) % align == 0,
        addr <= align_up_spec(addr, align) < addr + align,
{
    lemma_align_down(addr + align - 1, align);
}

/// A window of `align` consecutive integers holds exactly one multiple of
/// `align`, so the bounds of `lemma_align_up` determine the result.
pub proof fn lemma_align_up_unique(addr: int, align: int, m: int)
    requires
        align > 0,
        m % align == 0,
        addr <= m < addr + align,
    ensures
        m == align_up_spec(addr, align),
{
    lemma_align_up(addr, align);
    let u = align_up_spec(addr, align);
    assert(m == u) by (nonlinear_arith)
        requires
            align > 0,
            m % align == 0,
            u % align == 0,
            -align < m - u < align,
    ;
}

/// A power of two is at least one.
pub proof fn lemma_pow2_positive(align: int)
    requires
        is_pow2(align),
    ensures
        align > 0,
{
    reveal(is_pow2);
}

/// Masking with the predecessor of a power of two takes the remainder.
pub proof fn lemma_mask_is_mod(addr: usize, align: usize)
    requires
        is_pow2(align as int),
    ensures
        align > 0,
        addr & ((align - 1) as usize) == addr % align,
    decreases align,
{
    reveal(is_pow2);
    if align == 1 {
        assert(addr & 0usize == 0) by (bit_vector);
    } else {
        let half: usize = align / 2;
        let rest: usize = addr / 2;
        lemma_mask_is_mod(rest, half);
        let low: usize = rest & ((half - 1) as usize);
        assert(addr & ((align - 1) as usize) == 2 * low + addr % 2) by (bit_vector)
            requires
                align % 2 == 0,
                align >= 2,
                half == align / 2,
                rest == addr / 2,
                low == rest & ((half - 1) as usize),
        ;
        vstd::arithmetic::div_mod::lemma_mod_breakdown(addr as int, 2, half as int);
    }
}

/// A positive word that shares no bit with its predecessor is a power of
/// two.
pub proof fn lemma_mask_pow2(align: usize)
    requires
        align > 0,
        align & ((align - 1) as usize) == 0,
    ensures
        is_pow2(align as int),
    decreases align,
{
    reveal(is_pow2);
    if align != 1 {
        let half: usize = align / 2;
        assert(align % 2 == 0 && half > 0 && half & ((half - 1) as usize) == 0) by (bit_vector)
            requires
                align > 1,
                align & ((align - 1) as usize) == 0,
                half == align / 2,
        ;
        lemma_mask_pow2(half);
    }
}

/// Whether `n` is a power of two.
pub fn is_power_of_two(n: usize) -> (b: bool)
    ensures
        b == is_pow2(n as int),
{
    if n == 0 {
        proof {
            reveal(is_pow2);
        }
        return false;
    }
    let mask: usize = n - 1;
    proof {
        if n & mask == 0 {
            lemma_mask_pow2(n);
        }
        if is_pow2(n as int) {
            lemma_mask_is_mod(n, n);
        }
    }
    n & mask == 0
}

/// Clearing the bits below a power of two rounds down to its multiple.
pub proof fn lemma_mask_rounds_down(addr: usize, align: usize)
    requires
        is_pow2(align as int),
    ensures
        addr & !((align - 1) as usize) == align_down_spec(addr as int, align as int),
{
    lemma_mask_is_mod(addr, align);
    let mask: usize = (align - 1) as usize;
    assert(addr & !mask == addr - (addr & mask)) by (bit_vector);
}

/// Of two powers of two, the smaller divides the larger.
pub proof fn lemma_pow2_divides(small: int, large: int)
    requires
        is_pow2(small),
        is_pow2(large),
        small <= large,
    ensures
        small > 0,
        large % small == 0,
    decreases small,
{
    reveal(is_pow2);
    if small != 1 {
        let s: int = small / 2;
        let l: int = large / 2;
        lemma_pow2_divides(s, l);
        let k: int = l / s;
        lemma_fundamental_div_mod(l, s);
        assert(large == k * small) by (nonlinear_arith)
            requires
                small == 2 * s,
                large == 2 * l,
                l == s * k,
        ;
        lemma_mod_multiples_basic(k, small);
    }
}

/// The number of values a machine word can take is a power of two.
pub proof fn lemma_word_range_is_pow2()
    ensures
        is_pow2(usize::MAX + 1),
{
    lemma2_to64();
    lemma2_to64_rest();
    is_pow2_equiv(usize::MAX + 1);
    lemma_pow2(32);
    lemma_pow2(64);
    assert(usize::MAX + 1 == pow2(32) || usize::MAX + 1 == pow2(64));
    if usize::MAX + 1 == pow2(32) {
        assert(pow(2, 32) == usize::MAX + 1);
    } else {
        assert(pow(2, 64) == usize::MAX + 1);
    }
}

/// Where rounding up passes the largest machine word, so does the result.
pub proof fn lemma_align_up_overflow(addr: usize, align: usize)
    requires
        is_pow2(align as int),
        addr + align - 1 > usize::MAX,
    ensures
        align_up_spec(addr as int, align as int) > usize::MAX,
{
    lemma_word_range_is_pow2();
    lemma_pow2_divides(align as int, usize::MAX + 1);
    lemma_align_up_unique(addr as int, align as int, usize::MAX + 1);
}

} // verus!
