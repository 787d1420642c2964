//! The region of an address space that is locked during a page table update.
//!
//! A locked region is a naturally aligned block whose size is a power of two,
//! no smaller than [`AS_LOCK_REGION_MIN_SIZE`].
//! The hardware is told its start and, in the low bits that a start never
//! uses, the binary logarithm of its size minus one.

use super::super::regs::AS_LOCK_REGION_MIN_SIZE;
use crate::error::{Error, EINVAL};
use core::ops::Range;
use vstd::arithmetic::div_mod::*;
use vstd::arithmetic::mul::*;
use vstd::arithmetic::power2::*;
use vstd::bits::*;
use vstd::prelude::*;
use vstd::std_specs::bits::*;

verus! {

/// Binary logarithm of the size of the smallest region that can be locked.
pub const MIN_EXPONENT: u8 = 15;

/// Whether addresses `a` and `b` lie in one naturally aligned block of
/// `2^exponent` bytes.
pub open spec fn same_block(a: int, b: int, exponent: nat) -> bool {
    a / pow2(exponent) as int == b / pow2(exponent) as int
}

/// Binary logarithm of the size of the smallest naturally aligned block of at
/// least `2^at_least` bytes that holds both `a` and `b`.
pub open spec fn block_exponent(a: int, b: int, at_least: nat) -> nat
    decreases 64 - at_least,
{
    if at_least >= 64 || same_block(a, b, at_least) {
        at_least
    } else {
        block_exponent(a, b, at_least + 1)
    }
}

/// Binary logarithm of the size of the block to lock for an update of the
/// addresses from `start` to `last`.
pub open spec fn lock_exponent(start: int, last: int) -> nat {
    block_exponent(start, last, MIN_EXPONENT as nat)
}

/// First address of the naturally aligned block of `2^exponent` bytes that
/// holds `a`.
pub open spec fn block_start(a: int, exponent: nat) -> int {
    a / pow2(exponent) as int * pow2(exponent)
}

/// What the lock address registers are to hold for an update of the addresses
/// from `start` to `last`: one less than the exponent of the block, and the
/// start address with as many low bits cleared.
pub open spec fn lock_value(start: int, last: int) -> int {
    let width = (lock_exponent(start, last) - 1) as nat;
    block_start(start, width) + width
}

/// Addresses in one block are in one block of every larger size too.
proof fn lemma_same_block_grows(a: int, b: int, small: nat, large: nat)
    requires
        0 <= a,
        0 <= b,
        small <= large,
        same_block(a, b, small),
    ensures
        same_block(a, b, large),
{
    let rest = (large - small) as nat;
    lemma_pow2_adds(small, rest);
    lemma_pow2_pos(small);
    lemma_pow2_pos(rest);
    lemma_div_denominator(a, pow2(small) as int, pow2(rest) as int);
    lemma_div_denominator(b, pow2(small) as int, pow2(rest) as int);
}

/// Two 64-bit addresses lie in one block of `2^64` bytes.
proof fn lemma_same_block_64(a: int, b: int)
    requires
        0 <= a <= u64::MAX,
        0 <= b <= u64::MAX,
    ensures
        same_block(a, b, 64),
{
    lemma2_to64();
    lemma_basic_div(a, pow2(64) as int);
    lemma_basic_div(b, pow2(64) as int);
}

/// The exponent is the one that fits where the next smaller does not.
proof fn lemma_block_exponent_is(a: int, b: int, at_least: nat, exponent: nat)
    requires
        0 <= a,
        0 <= b,
        at_least <= exponent <= 64,
        exponent < 64 ==> same_block(a, b, exponent),
        at_least < exponent ==> !same_block(a, b, (exponent - 1) as nat),
    ensures
        block_exponent(a, b, at_least) == exponent,
    decreases exponent - at_least,
{
    if at_least < exponent {
        if same_block(a, b, at_least) {
            lemma_same_block_grows(a, b, at_least, (exponent - 1) as nat);
        }
        lemma_block_exponent_is(a, b, at_least + 1, exponent);
    }
}

/// The exponent found is large enough, and none smaller is.
proof fn lemma_block_exponent_least(a: int, b: int, at_least: nat)
    requires
        0 <= a <= u64::MAX,
        0 <= b <= u64::MAX,
        at_least <= 64,
    ensures
        at_least <= block_exponent(a, b, at_least) <= 64,
        same_block(a, b, block_exponent(a, b, at_least)),
        forall|k: nat|
            at_least <= k < block_exponent(a, b, at_least) ==> !#[trigger] same_block(a, b, k),
    decreases 64 - at_least,
{
    if at_least >= 64 {
        lemma_same_block_64(a, b);
    } else if !same_block(a, b, at_least) {
        lemma_block_exponent_least(a, b, at_least + 1);
    }
}

/// Shifting right and comparing tells whether two addresses share a block.
proof fn lemma_shift_tells_block(a: u64, b: u64, exponent: u64)
    requires
        exponent < 64,
    ensures
        same_block(a as int, b as int, exponent as nat) <==> a >> exponent == b >> exponent,
{
    lemma_u64_shr_is_div(a, exponent);
    lemma_u64_shr_is_div(b, exponent);
}

/// The bits from bit `start` to bit `end` set, and all others clear; none where
/// there is no such range of a 64-bit word.
pub fn genmask_checked_u64(start: u32, end: u32) -> (res: Option<u64>)
    ensures
        res is Some <==> start <= end < 64,
        res matches Some(mask) ==> forall|k: u64|
            k < 64 ==> ((#[trigger] (mask >> k)) & 1 == 1 <==> start <= k <= end),
        res matches Some(mask) ==> end == 63 ==> forall|x: u64| #[trigger]
            (x & mask) == (x >> (start as u64)) << (start as u64),
{
    if start > end || end >= 64 {
        return None;
    }
    let high: u64 = 1u64 << end;
    let low: u64 = 1u64 << start;
    assert(high >= 1 && low >= 1) by (bit_vector)
        requires
            high == 1u64 << end,
            low == 1u64 << start,
            start <= end < 64,
    ;
    let mask: u64 = (high | (high - 1)) & !((low - 1) as u64);
    assert forall|k: u64| k < 64 implies ((#[trigger] (mask >> k)) & 1 == 1 <==> start <= k
        <= end) by {
        assert((mask >> k) & 1 == 1 <==> start <= k <= end) by (bit_vector)
            requires
                k < 64,
                start <= end < 64,
                high == 1u64 << end,
                low == 1u64 << start,
                mask == (high | ((high - 1) as u64)) & !((low - 1) as u64),
        ;
    }
    if end == 63 {
        let shift: u64 = start as u64;
        assert forall|x: u64| #[trigger] (x & mask) == (x >> shift) << shift by {
            assert(x & mask == (x >> shift) << shift) by (bit_vector)
                requires
                    shift == start,
                    start <= 63,
                    high == 1u64 << 63u32,
                    low == 1u64 << start,
                    mask == (high | ((high - 1) as u64)) & !((low - 1) as u64),
            ;
        }
    }
    Some(mask)
}

/// Clearing the low `width` bits of an address gives the start of its block.
proof fn lemma_clear_low_bits(a: u64, width: u64)
    requires
        width < 64,
    ensures
        (a >> width) << width == block_start(a as int, width as nat),
        block_start(a as int, width as nat) <= a,
{
    lemma_u64_shr_is_div(a, width);
    lemma_pow2_pos(width as nat);
    lemma_fundamental_div_mod(a as int, pow2(width as nat) as int);
    lemma_mul_is_commutative(pow2(width as nat) as int, a as int / pow2(width as nat) as int);
    lemma_u64_shl_is_mul(a >> width, width);
}

/// What the lock address registers are to hold for an update of `region`.
pub fn lock_region(region: &Range<u64>) -> (res: Result<u64, Error>)
    requires
        region.end > 0,
    ensures
        res matches Ok(value) && value == lock_value(region.start as int, region.end - 1),
{
    let start: u64 = region.start;
    let last: u64 = region.end - 1;
    let differing: u64 = start ^ last;
    let zeros: u32 = differing.leading_zeros();
    proof {
        axiom_u64_leading_zeros(differing);
    }
    let significant: u8 = 64 - zeros as u8;
    let least: u32 = AS_LOCK_REGION_MIN_SIZE.trailing_zeros();
    proof {
        axiom_u32_trailing_zeros(AS_LOCK_REGION_MIN_SIZE);
        assert(least == 15) by (bit_vector)
            requires
                least < 32,
                (0x8000u32 >> least) & 1u32 == 1u32,
        ;
    }
    let exponent: u8 = if significant > least as u8 {
        significant
    } else {
        least as u8
    };
    let region_width: u8 = exponent - 1;
    proof {
        lemma_exponent(start, last, zeros as u64, exponent as u64);
        lemma_clear_low_bits(start, region_width as u64);
    }
    let mask = match genmask_checked_u64(region_width as u32, 63) {
        Some(mask) => mask,
        None => return Err(Error::from_errno(EINVAL)),
    };
    let region_start: u64 = start & mask;
    let width: u64 = region_width as u64;
    assert(width | region_start == width + region_start) by (bit_vector)
        requires
            region_start == (start >> width) << width,
            14 <= width < 64,
    ;
    Ok(width | region_start)
}

/// The exponent of the block is the number of bits up to the highest one in
/// which its first and last address differ.
proof fn lemma_exponent(start: u64, last: u64, zeros: u64, exponent: u64)
    requires
        zeros == u64_leading_zeros(start ^ last),
        exponent == if 64 - zeros > 15 {
            64 - zeros
        } else {
            15
        },
    ensures
        exponent == lock_exponent(start as int, last as int),
{
    let differing = start ^ last;
    axiom_u64_leading_zeros(differing);
    let significant = (64 - zeros) as u64;
    assert(differing >> significant == 0);
    if exponent < 64 {
        assert(start >> exponent == last >> exponent) by (bit_vector)
            requires
                differing == start ^ last,
                differing >> significant == 0,
                significant <= exponent < 64,
        ;
        lemma_shift_tells_block(start, last, exponent);
    }
    if 15 < exponent {
        let below = (exponent - 1) as u64;
        assert((differing >> below) & 1 != 0);
        assert(start >> below != last >> below) by (bit_vector)
            requires
                differing == start ^ last,
                (differing >> below) & 1 != 0,
                below < 64,
        ;
        lemma_shift_tells_block(start, last, below);
    }
    lemma_block_exponent_is(start as int, last as int, 15, exponent as nat);
}

/// The locked block is the smallest that may be locked: no smaller naturally
/// aligned block holds both ends of the update.
pub proof fn law_locked_block_is_smallest(start: u64, last: u64, k: nat)
    requires
        MIN_EXPONENT <= k < lock_exponent(start as int, last as int),
    ensures
        !same_block(start as int, last as int, k),
{
    lemma_block_exponent_least(start as int, last as int, MIN_EXPONENT as nat);
}

/// What is written to the registers names the block: its low bits give the
/// exponent, and the address that it stands for lies in the block.
pub proof fn law_lock_value_names_block(start: u64, last: u64)
    ensures
        lock_value(start as int, last as int) % 0x4000 == lock_exponent(
            start as int,
            last as int,
        ) - 1,
        block_start(
            lock_value(start as int, last as int),
            lock_exponent(start as int, last as int),
        ) == block_start(start as int, lock_exponent(start as int, last as int)),
{
    let k = lock_exponent(start as int, last as int);
    lemma_block_exponent_least(start as int, last as int, MIN_EXPONENT as nat);
    let width = (k - 1) as nat;
    let value = lock_value(start as int, last as int);
    let unit = pow2(14) as int;
    let size = pow2(width) as int;
    let rest = (width - 14) as nat;
    lemma2_to64();
    lemma_pow2_adds(14, rest);
    lemma_pow2_pos(rest);
    let blocks = start as int / size;
    assert(size >= unit) by (nonlinear_arith)
        requires
            size == unit * pow2(rest),
            unit > 0,
            pow2(rest) >= 1,
    ;
    assert(blocks * size == unit * (pow2(rest) * blocks)) by (nonlinear_arith)
        requires
            size == unit * pow2(rest),
    ;
    lemma_fundamental_div_mod_converse(value, unit, pow2(rest) * blocks, width as int);
    assert(size * blocks == blocks * size) by (nonlinear_arith);
    lemma_fundamental_div_mod_converse(value, size, blocks, width as int);
    lemma_fundamental_div_mod(start as int, size);
    lemma_div_pos_is_pos(start as int, size);
    assert(0 <= blocks * size) by (nonlinear_arith)
        requires
            blocks >= 0,
            size > 0,
    ;
    lemma_same_block_grows(value, start as int, width, k);
}

/// The locked block covers the whole update, and is no smaller than the smallest
/// region that can be locked.
pub proof fn law_locked_block_covers(start: u64, end: u64, addr: u64)
    requires
        start <= addr < end,
    ensures
        block_start(start as int, lock_exponent(start as int, end - 1)) <= addr,
        addr < block_start(start as int, lock_exponent(start as int, end - 1)) + pow2(
            lock_exponent(start as int, end - 1),
        ),
        MIN_EXPONENT <= lock_exponent(start as int, end - 1) <= 64,
        AS_LOCK_REGION_MIN_SIZE <= pow2(lock_exponent(start as int, end - 1)),
{
    let last = end - 1;
    let k = lock_exponent(start as int, last);
    lemma_block_exponent_least(start as int, last, MIN_EXPONENT as nat);
    let size = pow2(k) as int;
    lemma_pow2_pos(k);
    lemma_div_is_ordered(start as int, addr as int, size);
    lemma_div_is_ordered(addr as int, last, size);
    lemma_fundamental_div_mod(start as int, size);
    lemma_fundamental_div_mod(addr as int, size);
    lemma_mul_is_commutative(size, start as int / size);
    lemma_mul_is_commutative(size, addr as int / size);
    lemma_mod_bound(start as int, size);
    lemma_mod_bound(addr as int, size);
    lemma2_to64();
    if MIN_EXPONENT < k {
        lemma_pow2_strictly_increases(MIN_EXPONENT as nat, k);
    }
}

/// The value can be read back: its low fourteen bits are one less than the exponent of
/// the locked block, and the rest is the start of the update with as many low bits
/// cleared. The exponent is fifteen at the least, and otherwise the least for which
/// both ends of the update lie in one block.
pub proof fn law_lock_value_reads_back(start: u64, last: u64, k: nat)
    ensures
        ({
            let value = lock_value(start as int, last as int);
            let width = value % 0x4000;
            let size = pow2(width as nat) as int;
            let twice = pow2((width + 1) as nat) as int;
            &&& 0 <= value <= u64::MAX
            &&& 14 <= width <= 63
            &&& (value - width) % size == 0
            &&& value - width <= start < value - width + size
            &&& start as int / twice == last as int / twice
            &&& 15 <= k <= width ==> start as int / pow2(k) as int != last as int / pow2(k) as int
        }),
{
    let e = lock_exponent(start as int, last as int);
    lemma_block_exponent_least(start as int, last as int, MIN_EXPONENT as nat);
    law_lock_value_names_block(start, last);
    let width = (e - 1) as nat;
    let size = pow2(width) as int;
    let value = lock_value(start as int, last as int);
    let blocks = start as int / size;
    lemma_pow2_pos(width);
    lemma_fundamental_div_mod(start as int, size);
    lemma_mod_bound(start as int, size);
    assert(size * blocks == blocks * size) by (nonlinear_arith);
    lemma_mod_multiples_basic(blocks, size);
    assert(value - width == blocks * size);
    if 15 <= k <= width {
        assert(!same_block(start as int, last as int, k));
    }
    lemma_clear_low_bits(start, width as u64);
    let low = width as u64;
    let cleared = (start >> low) << low;
    assert(low <= 63 && low >= 14 ==> (cleared | low) == cleared + low) by (bit_vector)
        requires
            cleared == (start >> low) << low,
    ;
}

/// The value that a region is locked with names the smallest block that may be locked
/// around it.
pub proof fn law_call_of_lock_region(start: u64, end: u64, k: nat)
    requires
        end > 0,
    ensures
        forall|res: Result<u64, Error>| #[trigger]
            call_ensures(lock_region, (&Range { start, end },), res) ==> (res matches Ok(value) && {
                let width = value % 0x4000;
                let size = pow2(width as nat) as int;
                let twice = pow2((width + 1) as nat) as int;
                &&& 14 <= width <= 63
                &&& (value - width) % size == 0
                &&& value - width <= start < value - width + size
                &&& start as int / twice == (end - 1) / twice
                &&& 15 <= k <= width ==> start as int / pow2(k) as int != (end - 1) / pow2(
                    k,
                ) as int
            }),
{
    law_lock_value_reads_back(start, (end - 1) as u64, k);
}

/// A mask has the bits of its range, and no others.
pub proof fn law_call_of_genmask(start: u32, end: u32, k: u64)
    requires
        k < 64,
    ensures
        forall|res: Option<u64>| #[trigger]
            call_ensures(genmask_checked_u64, (start, end), res) ==> {
                &&& res is Some <==> start <= end && end < 64
                &&& res matches Some(mask) ==> ((mask >> k) & 1 == 1 <==> start <= k <= end)
            },
{
}

} // verus!
