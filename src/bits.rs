//! Integers of which only a fixed number of low bits is significant.
//!
//! `LimitedBit` keeps the low `N` bits of a value and sign-extends them, as the immediate and
//! offset fields of an instruction need. `LimitedU8` and `LimitedU16` keep the low `N` bits and
//! clear the rest.
use vstd::prelude::*;

verus! {

use vstd::arithmetic::div_mod::{lemma_mod_multiples_vanish, lemma_mod_pos_bound, lemma_small_mod};
use vstd::arithmetic::power2::{
    pow2,
    lemma2_to64,
    lemma2_to64_rest,
    lemma_pow2_adds,
    lemma_pow2_pos,
    lemma_pow2_strictly_increases,
    lemma_pow2_unfold,
};
use vstd::bits::{
    low_bits_mask,
    lemma_u8_low_bits_mask_is_mod,
    lemma_u8_pow2_no_overflow,
    lemma_u8_shl_is_mul,
    lemma_u16_low_bits_mask_is_mod,
    lemma_u16_pow2_no_overflow,
    lemma_u16_shl_is_mul,
    lemma_u32_low_bits_mask_is_mod,
    lemma_u32_pow2_no_overflow,
    lemma_u32_shl_is_mul,
    lemma_u64_low_bits_mask_is_mod,
    lemma_u64_pow2_no_overflow,
    lemma_u64_shl_is_mul,
};

/// `x`, a value of a `w`-bit container, sign-extended from its low `n` bits: the low `n` bits
/// are kept, and every bit above them is a copy of bit `n - 1`. A field of no bits is zero.
pub open spec fn sign_extend(x: nat, n: nat, w: nat) -> nat {
    if n >= w {
        x
    } else if n == 0 {
        0
    } else {
        let low = x % pow2(n);
        if low >= pow2((n - 1) as nat) {
            (low + pow2(w) - pow2(n)) as nat
        } else {
            low
        }
    }
}

/// Sign-extending a value that is already sign-extended from the same width changes nothing.
pub proof fn lemma_sign_extend_idempotent(x: nat, n: nat, w: nat)
    requires
        x < pow2(w),
    ensures
        sign_extend(sign_extend(x, n, w), n, w) == sign_extend(x, n, w),
{
    if n < w && n > 0 {
        let p = pow2(n);
        let low = x % p;
        lemma_pow2_pos(n);
        lemma_pow2_strictly_increases(n, w);
        lemma_mod_pos_bound(x as int, p as int);
        lemma_small_mod(low, p);
        if low >= pow2((n - 1) as nat) {
            let k = pow2((w - n) as nat);
            lemma_pow2_adds(n, (w - n) as nat);
            lemma_pow2_pos((w - n) as nat);
            assert(low + pow2(w) - p == p * (k - 1) + low) by (nonlinear_arith)
                requires
                    pow2(w) == p * k,
            ;
            lemma_mod_multiples_vanish(k - 1, low as int, p as int);
        }
    }
}

/// An integer that keeps only its low `N` bits, sign-extended to the width of `T`: if bit `N - 1`
/// is set, every bit above it is set, else every bit above it is clear.
#[derive(Clone, Copy, Debug, PartialEq, Eq)]
pub struct LimitedBit<T, const N: usize>(T);

/// Facts on the masks that sign extension of a `u8` uses.
proof fn lemma_sign_extend_masks_u8(x: u8, s: u8)
    by (bit_vector)
    requires
        1 <= s < 8,
    ensures
        (x & (((1u8 << s) - 1) as u8)) >= (1u8 << ((s - 1) as u8)) <==> x & (1u8 << ((s - 1) as u8)) != 0,
        x | !(((1u8 << s) - 1) as u8) == (x & (((1u8 << s) - 1) as u8)) + !(((1u8 << s) - 1) as u8),
        !(((1u8 << s) - 1) as u8) == 0xff - (((1u8 << s) - 1) as u8),
{
}

impl<const N: usize> LimitedBit<u8, N> {
    /// The stored value.
    pub closed spec fn view(&self) -> u8 {
        self.0
    }

    /// Keeps the low `N` bits of `value` and sign-extends them.
    pub fn new(value: u8) -> (r: Self)
        ensures
            r@ as nat == sign_extend(value as nat, N as nat, 8),
    {
        if N >= 8 {
            return LimitedBit(value);
        }
        if N == 0 {
            return LimitedBit(0);
        }
        let s: u8 = N as u8;
        proof {
            lemma2_to64();
            lemma2_to64_rest();
            lemma_u8_pow2_no_overflow(s as nat);
            lemma_u8_pow2_no_overflow((s - 1) as nat);
            lemma_u8_shl_is_mul(1, s);
            lemma_u8_shl_is_mul(1, (s - 1) as u8);
            lemma_pow2_unfold(s as nat);
        }
        let mask: u8 = (1u8 << s) - 1;
        let top: u8 = 1u8 << (s - 1);
        proof {
            lemma_u8_low_bits_mask_is_mod(value, s as nat);
            lemma_sign_extend_masks_u8(value, s);
            assert(mask == low_bits_mask(s as nat));
        }
        if value & top != 0 {
            LimitedBit(value | !mask)
        } else {
            LimitedBit(value & mask)
        }
    }

    /// The stored value.
    pub fn get(&self) -> (r: u8)
        ensures
            r == self@,
    {
        self.0
    }
}

/// Facts on the masks that sign extension of a `u16` uses.
proof fn lemma_sign_extend_masks_u16(x: u16, s: u16)
    by (bit_vector)
    requires
        1 <= s < 16,
    ensures
        (x & (((1u16 << s) - 1) as u16)) >= (1u16 << ((s - 1) as u16)) <==> x & (1u16 << ((s - 1) as u16)) != 0,
        x | !(((1u16 << s) - 1) as u16) == (x & (((1u16 << s) - 1) as u16)) + !(((1u16 << s) - 1) as u16),
        !(((1u16 << s) - 1) as u16) == 0xffff - (((1u16 << s) - 1) as u16),
{
}

impl<const N: usize> LimitedBit<u16, N> {
    /// The stored value.
    pub closed spec fn view(&self) -> u16 {
        self.0
    }

    /// Keeps the low `N` bits of `value` and sign-extends them.
    pub fn new(value: u16) -> (r: Self)
        ensures
            r@ as nat == sign_extend(value as nat, N as nat, 16),
    {
        if N >= 16 {
            return LimitedBit(value);
        }
        if N == 0 {
            return LimitedBit(0);
        }
        let s: u16 = N as u16;
        proof {
            lemma2_to64();
            lemma2_to64_rest();
            lemma_u16_pow2_no_overflow(s as nat);
            lemma_u16_pow2_no_overflow((s - 1) as nat);
            lemma_u16_shl_is_mul(1, s);
            lemma_u16_shl_is_mul(1, (s - 1) as u16);
            lemma_pow2_unfold(s as nat);
        }
        let mask: u16 = (1u16 << s) - 1;
        let top: u16 = 1u16 << (s - 1);
        proof {
            lemma_u16_low_bits_mask_is_mod(value, s as nat);
            lemma_sign_extend_masks_u16(value, s);
            assert(mask == low_bits_mask(s as nat));
        }
        if value & top != 0 {
            LimitedBit(value | !mask)
        } else {
            LimitedBit(value & mask)
        }
    }

    /// The stored value.
    pub fn get(&self) -> (r: u16)
        ensures
            r == self@,
    {
        self.0
    }
}

/// Facts on the masks that sign extension of a `u32` uses.
proof fn lemma_sign_extend_masks_u32(x: u32, s: u32)
    by (bit_vector)
    requires
        1 <= s < 32,
    ensures
        (x & (((1u32 << s) - 1) as u32)) >= (1u32 << ((s - 1) as u32)) <==> x & (1u32 << ((s - 1) as u32)) != 0,
        x | !(((1u32 << s) - 1) as u32) == (x & (((1u32 << s) - 1) as u32)) + !(((1u32 << s) - 1) as u32),
        !(((1u32 << s) - 1) as u32) == 0xffff_ffff - (((1u32 << s) - 1) as u32),
{
}

impl<const N: usize> LimitedBit<u32, N> {
    /// The stored value.
    pub closed spec fn view(&self) -> u32 {
        self.0
    }

    /// Keeps the low `N` bits of `value` and sign-extends them.
    pub fn new(value: u32) -> (r: Self)
        ensures
            r@ as nat == sign_extend(value as nat, N as nat, 32),
    {
        if N >= 32 {
            return LimitedBit(value);
        }
        if N == 0 {
            return LimitedBit(0);
        }
        let s: u32 = N as u32;
        proof {
            lemma2_to64();
            lemma2_to64_rest();
            lemma_u32_pow2_no_overflow(s as nat);
            lemma_u32_pow2_no_overflow((s - 1) as nat);
            lemma_u32_shl_is_mul(1, s);
            lemma_u32_shl_is_mul(1, (s - 1) as u32);
            lemma_pow2_unfold(s as nat);
        }
        let mask: u32 = (1u32 << s) - 1;
        let top: u32 = 1u32 << (s - 1);
        proof {
            lemma_u32_low_bits_mask_is_mod(value, s as nat);
            lemma_sign_extend_masks_u32(value, s);
            assert(mask == low_bits_mask(s as nat));
        }
        if value & top != 0 {
            LimitedBit(value | !mask)
        } else {
            LimitedBit(value & mask)
        }
    }

    /// The stored value.
    pub fn get(&self) -> (r: u32)
        ensures
            r == self@,
    {
        self.0
    }
}

/// Facts on the masks that sign extension of a `u64` uses.
proof fn lemma_sign_extend_masks_u64(x: u64, s: u64)
    by (bit_vector)
    requires
        1 <= s < 64,
    ensures
        (x & (((1u64 << s) - 1) as u64)) >= (1u64 << ((s - 1) as u64)) <==> x & (1u64 << ((s - 1) as u64)) != 0,
        x | !(((1u64 << s) - 1) as u64) == (x & (((1u64 << s) - 1) as u64)) + !(((1u64 << s) - 1) as u64),
        !(((1u64 << s) - 1) as u64) == 0xffff_ffff_ffff_ffff - (((1u64 << s) - 1) as u64),
{
}

impl<const N: usize> LimitedBit<u64, N> {
    /// The stored value.
    pub closed spec fn view(&self) -> u64 {
        self.0
    }

    /// Keeps the low `N` bits of `value` and sign-extends them.
    pub fn new(value: u64) -> (r: Self)
        ensures
            r@ as nat == sign_extend(value as nat, N as nat, 64),
    {
        if N >= 64 {
            return LimitedBit(value);
        }
        if N == 0 {
            return LimitedBit(0);
        }
        let s: u64 = N as u64;
        proof {
            lemma2_to64();
            lemma2_to64_rest();
            lemma_u64_pow2_no_overflow(s as nat);
            lemma_u64_pow2_no_overflow((s - 1) as nat);
            lemma_u64_shl_is_mul(1, s);
            lemma_u64_shl_is_mul(1, (s - 1) as u64);
            lemma_pow2_unfold(s as nat);
        }
        let mask: u64 = (1u64 << s) - 1;
        let top: u64 = 1u64 << (s - 1);
        proof {
            lemma_u64_low_bits_mask_is_mod(value, s as nat);
            lemma_sign_extend_masks_u64(value, s);
            assert(mask == low_bits_mask(s as nat));
        }
        if value & top != 0 {
            LimitedBit(value | !mask)
        } else {
            LimitedBit(value & mask)
        }
    }

    /// The stored value.
    pub fn get(&self) -> (r: u64)
        ensures
            r == self@,
    {
        self.0
    }
}

/// A `u8` of which only the low `N` bits are kept; the bits above are cleared.
#[derive(Clone, Copy, Debug, PartialEq, Eq)]
pub struct LimitedU8<const N: usize>(u8);

impl<const N: usize> LimitedU8<N> {
    /// The stored value.
    pub closed spec fn view(&self) -> u8 {
        self.0
    }

    /// The field that keeps the low `N` bits of `n`.
    pub closed spec fn spec_new(n: u8) -> Self {
        LimitedU8((n as nat % pow2(N as nat)) as u8)
    }

    /// Keeps the low `N` bits of `n`.
    pub fn new(n: u8) -> (r: Self)
        ensures
            r@ as nat == n as nat % pow2(N as nat),
    {
        if N >= 8 {
            proof {
                lemma2_to64();
                if N > 8 {
                    lemma_pow2_strictly_increases(8, N as nat);
                }
                lemma_small_mod(n as nat, pow2(N as nat));
            }
            LimitedU8(n)
        } else {
            let s: u8 = N as u8;
            proof {
                lemma_u8_pow2_no_overflow(s as nat);
                lemma_u8_shl_is_mul(1, s);
                lemma_u8_low_bits_mask_is_mod(n, s as nat);
            }
            let mask: u8 = (1u8 << s) - 1;
            assert(mask == low_bits_mask(s as nat));
            LimitedU8(n & mask)
        }
    }

    /// The stored value.
    pub fn get(&self) -> (r: u8)
        ensures
            r == self@,
    {
        self.0
    }
}

/// A `u16` of which only the low `N` bits are kept; the bits above are cleared.
#[derive(Clone, Copy, Debug, PartialEq, Eq)]
pub struct LimitedU16<const N: usize>(u16);

impl<const N: usize> LimitedU16<N> {
    /// The stored value.
    pub closed spec fn view(&self) -> u16 {
        self.0
    }

    /// The field that keeps the low `N` bits of `n`.
    pub closed spec fn spec_new(n: u16) -> Self {
        LimitedU16((n as nat % pow2(N as nat)) as u16)
    }

    /// Keeps the low `N` bits of `n`.
    pub fn new(n: u16) -> (r: Self)
        ensures
            r@ as nat == n as nat % pow2(N as nat),
    {
        if N >= 16 {
            proof {
                lemma2_to64();
                if N > 16 {
                    lemma_pow2_strictly_increases(16, N as nat);
                }
                lemma_small_mod(n as nat, pow2(N as nat));
            }
            LimitedU16(n)
        } else {
            let s: u16 = N as u16;
            proof {
                lemma_u16_pow2_no_overflow(s as nat);
                lemma_u16_shl_is_mul(1, s);
                lemma_u16_low_bits_mask_is_mod(n, s as nat);
            }
            let mask: u16 = (1u16 << s) - 1;
            assert(mask == low_bits_mask(s as nat));
            LimitedU16(n & mask)
        }
    }

    /// The stored value.
    pub fn get(&self) -> (r: u16)
        ensures
            r == self@,
    {
        self.0
    }
}

impl<const N: usize> From<u8> for LimitedU8<N> {
    fn from(n: u8) -> (r: Self)
        ensures
            r@ as nat == n as nat % pow2(N as nat),
    {
        LimitedU8::new(n)
    }
}

impl<const N: usize> vstd::std_specs::convert::FromSpecImpl<u8> for LimitedU8<N> {
    open spec fn obeys_from_spec() -> bool {
        true
    }

    open spec fn from_spec(n: u8) -> Self {
        LimitedU8::<N>::spec_new(n)
    }
}

impl<const N: usize> From<LimitedU8<N>> for u8 {
    fn from(n: LimitedU8<N>) -> (r: Self)
        ensures
            r == n@,
    {
        n.get()
    }
}

impl<const N: usize> vstd::std_specs::convert::FromSpecImpl<LimitedU8<N>> for u8 {
    open spec fn obeys_from_spec() -> bool {
        true
    }

    open spec fn from_spec(n: LimitedU8<N>) -> Self {
        n@
    }
}

impl<const N: usize> From<u16> for LimitedU16<N> {
    fn from(n: u16) -> (r: Self)
        ensures
            r@ as nat == n as nat % pow2(N as nat),
    {
        LimitedU16::new(n)
    }
}

impl<const N: usize> vstd::std_specs::convert::FromSpecImpl<u16> for LimitedU16<N> {
    open spec fn obeys_from_spec() -> bool {
        true
    }

    open spec fn from_spec(n: u16) -> Self {
        LimitedU16::<N>::spec_new(n)
    }
}

impl<const N: usize> From<LimitedU16<N>> for u16 {
    fn from(n: LimitedU16<N>) -> (r: Self)
        ensures
            r == n@,
    {
        n.get()
    }
}

impl<const N: usize> vstd::std_specs::convert::FromSpecImpl<LimitedU16<N>> for u16 {
    open spec fn obeys_from_spec() -> bool {
        true
    }

    open spec fn from_spec(n: LimitedU16<N>) -> Self {
        n@
    }
}

} // verus!
