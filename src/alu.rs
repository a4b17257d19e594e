//! The arithmetic of the basic instructions: each operation computes in full
//! width and keeps the low 16 bits as the result and, where the instruction
//! defines one, the next 16 bits as the overflow register.
use vstd::prelude::*;

use vstd::arithmetic::div_mod::{lemma_div_multiples_vanish, lemma_mod_multiples_basic};
use vstd::arithmetic::power2::{
    lemma2_to64,
    lemma_pow2_adds,
    lemma_pow2_pos,
    lemma_pow2_strictly_increases,
    pow2,
};
use vstd::bits::{lemma_u16_shr_is_div, lemma_u64_shl_is_mul, lemma_u64_shr_is_div};

use crate::Word;

verus! {

/// 2^16, the number of values a word can hold.
pub const WORD_RANGE: u32 = 0x10000;

/// `x` taken modulo 2^16.
pub open spec fn wrap(x: int) -> Word {
    (x % 0x10000) as Word
}

/// ADD: the sum modulo 2^16, and 1 in O on a carry.
pub open spec fn add_spec(la: Word, rb: Word) -> (Word, Word) {
    (wrap(la + rb), if la + rb > 0xffff { 1 } else { 0 })
}

/// SUB: the difference modulo 2^16, and 0xffff in O on a borrow.
pub open spec fn sub_spec(la: Word, rb: Word) -> (Word, Word) {
    (wrap(la - rb), if la < rb { 0xffff } else { 0 })
}

/// MUL: the product modulo 2^16, and its upper 16 bits in O.
pub open spec fn mul_spec(la: Word, rb: Word) -> (Word, Word) {
    (wrap(la * rb), wrap((la * rb) as int / 0x10000))
}

/// DIV: the quotient and the fraction `((la << 16) / rb)` in O; 0 and 0 when
/// dividing by zero.
pub open spec fn div_spec(la: Word, rb: Word) -> (Word, Word) {
    if rb == 0 {
        (0, 0)
    } else {
        ((la / rb) as Word, wrap((la * 0x10000) as int / rb as int))
    }
}

/// MOD: the remainder; 0 when dividing by zero.
pub open spec fn mod_spec(la: Word, rb: Word) -> Word {
    if rb == 0 {
        0
    } else {
        (la % rb) as Word
    }
}

/// SHL: `la * 2^rb` modulo 2^16, and its next 16 bits in O.
pub open spec fn shl_spec(la: Word, rb: Word) -> (Word, Word) {
    (wrap(la * pow2(rb as nat)), wrap((la * pow2(rb as nat)) as int / 0x10000))
}

/// SHR: `la / 2^rb`, and the bits shifted out, `(la * 2^16) / 2^rb`, in O.
pub open spec fn shr_spec(la: Word, rb: Word) -> (Word, Word) {
    ((la as int / pow2(rb as nat) as int) as Word, wrap((la * 0x10000) as int / pow2(rb as nat) as int))
}

/// Adds with carry.
pub fn add_with_carry(la: Word, rb: Word) -> (r: (Word, Word))
    ensures
        r == add_spec(la, rb),
{
    let sum: u32 = la as u32 + rb as u32;
    let carry: Word = if sum > 0xffff { 1 } else { 0 };
    ((sum % WORD_RANGE) as Word, carry)
}

/// Subtracts with borrow.
pub fn sub_with_borrow(la: Word, rb: Word) -> (r: (Word, Word))
    ensures
        r == sub_spec(la, rb),
{
    if la >= rb {
        (la - rb, 0)
    } else {
        let d: u32 = la as u32 + WORD_RANGE - rb as u32;
        assert(wrap(la - rb) == d) by {
            assert((la - rb) % 0x10000 == la - rb + 0x10000);
        }
        (d as Word, 0xffff)
    }
}

/// Multiplies, keeping the upper half of the product in the second result.
pub fn mul_wide(la: Word, rb: Word) -> (r: (Word, Word))
    ensures
        r == mul_spec(la, rb),
{
    assert(la * rb <= 0xffff * 0xffff) by (nonlinear_arith)
        requires
            la <= 0xffff,
            rb <= 0xffff,
    ;
    let product: u32 = la as u32 * rb as u32;
    assert(product / 0x10000 < 0x10000);
    ((product % WORD_RANGE) as Word, (product / WORD_RANGE) as Word)
}

/// Divides; division by zero gives zero.
pub fn div_wide(la: Word, rb: Word) -> (r: (Word, Word))
    ensures
        r == div_spec(la, rb),
{
    if rb == 0 {
        (0, 0)
    } else {
        let shifted: u32 = la as u32 * WORD_RANGE;
        let fraction: u32 = shifted / rb as u32;
        assert(fraction <= shifted);
        (la / rb, (fraction % WORD_RANGE) as Word)
    }
}

/// The remainder; modulo zero gives zero.
pub fn mod_or_zero(la: Word, rb: Word) -> (r: Word)
    ensures
        r == mod_spec(la, rb),
{
    if rb == 0 {
        0
    } else {
        la % rb
    }
}

/// A multiple of 2^32 leaves nothing in either 16-bit half.
proof fn lemma_high_multiple(la: Word, e: nat)
    requires
        e >= 32,
    ensures
        wrap(la * pow2(e)) == 0,
        wrap((la * pow2(e)) as int / 0x10000) == 0,
{
    lemma2_to64();
    lemma_pow2_adds(32, (e - 32) as nat);
    lemma_pow2_pos((e - 32) as nat);
    let k: int = la * pow2((e - 32) as nat);
    assert(la * pow2(e) == (k * 0x10000) * 0x10000) by (nonlinear_arith)
        requires
            pow2(e) == pow2(32) * pow2((e - 32) as nat),
            pow2(32) == 0x10000 * 0x10000,
            k == la * pow2((e - 32) as nat),
    ;
    lemma_mod_multiples_basic(k * 0x10000, 0x10000);
    lemma_div_multiples_vanish(k * 0x10000, 0x10000);
    assert(0x10000 * (k * 0x10000) == (k * 0x10000) * 0x10000) by (nonlinear_arith);
    lemma_mod_multiples_basic(k, 0x10000);
}

/// Shifts left, keeping the bits shifted past 16 in the second result.
pub fn shl_wide(la: Word, rb: Word) -> (r: (Word, Word))
    ensures
        r == shl_spec(la, rb),
{
    if rb >= 32 {
        proof {
            lemma_high_multiple(la, rb as nat);
        }
        (0, 0)
    } else {
        proof {
            lemma2_to64();
            if rb < 31 {
                lemma_pow2_strictly_increases(rb as nat, 31);
            }
            assert(la * pow2(rb as nat) <= 0xffff * pow2(31)) by (nonlinear_arith)
                requires
                    la <= 0xffff,
                    pow2(rb as nat) <= pow2(31),
            ;
            lemma_u64_shl_is_mul(la as u64, rb as u64);
        }
        let wide: u64 = (la as u64) << (rb as u64);
        assert(wide / 0x10000 <= 0xffff * 0x80000000 as int);
        ((wide % 0x10000) as Word, ((wide / 0x10000) % 0x10000) as Word)
    }
}

proof fn lemma_small_quotient(x: int, d: int)
    requires
        0 <= x < d,
    ensures
        x / d == 0,
{
    vstd::arithmetic::div_mod::lemma_basic_div(x, d);
}

/// Shifts right, keeping the bits shifted out below the word in the second result.
pub fn shr_wide(la: Word, rb: Word) -> (r: (Word, Word))
    ensures
        r == shr_spec(la, rb),
{
    proof {
        lemma2_to64();
    }
    let result: Word = if rb >= 16 {
        proof {
            if rb > 16 {
                lemma_pow2_strictly_increases(16, rb as nat);
            }
            lemma_small_quotient(la as int, pow2(rb as nat) as int);
        }
        0
    } else {
        proof {
            lemma_u16_shr_is_div(la, rb);
        }
        la >> rb
    };
    let wide: u64 = la as u64 * 0x10000;
    let fraction: u64 = if rb >= 64 {
        proof {
            lemma_pow2_strictly_increases(32, rb as nat);
            lemma_small_quotient(wide as int, pow2(rb as nat) as int);
        }
        0
    } else {
        proof {
            lemma_u64_shr_is_div(wide, rb as u64);
        }
        wide >> (rb as u64)
    };
    proof {
        lemma_pow2_pos(rb as nat);
    }
    assert(fraction <= wide);
    (result, (fraction % 0x10000) as Word)
}

} // verus!
