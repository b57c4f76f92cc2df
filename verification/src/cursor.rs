//! Free-running 32-bit ring cursors.
//!
//! Both shared rings use the same indexing convention: the head and tail
//! counters run freely over the whole 32-bit range, the number of occupied
//! slots is the wrapping difference of two counters, and the physical slot of
//! a counter value is its low bits under the ring mask.  The verified state
//! carries each cursor twice: as the 32-bit word that the kernel sees, and as
//! an unbounded ghost counter.  This module ties the two together.

use vstd::prelude::*;

verus! {

use vstd::arithmetic::div_mod::lemma_add_mod_noop;
use vstd::arithmetic::div_mod::lemma_fundamental_div_mod;
use vstd::arithmetic::div_mod::lemma_mod_mod;
use vstd::arithmetic::div_mod::lemma_small_mod;
use vstd::arithmetic::power2::lemma2_to64;
use vstd::arithmetic::power2::lemma_pow2_adds;
use vstd::arithmetic::power2::lemma_pow2_pos;
use vstd::arithmetic::power2::lemma_pow2_strictly_increases;
use vstd::arithmetic::power2::pow2;
use vstd::bits::lemma_u32_low_bits_mask_is_mod;
use vstd::bits::low_bits_mask;

/// The 32-bit word a free-running ghost cursor shows on the shared ring.
pub open spec fn word32(c: nat) -> nat {
    c % 0x1_0000_0000
}

/// A ring geometry: `entries` slots, `entries` a power of two with exponent
/// `k`, and `mask` the corresponding low-bits mask.
pub open spec fn ring_geometry(entries: u32, mask: u32, k: nat) -> bool {
    &&& k < 32
    &&& entries == pow2(k)
    &&& mask == entries - 1
}

/// A power of two below 2^32 divides 2^32, so truncating a cursor to its
/// 32-bit word does not change its physical slot.
pub proof fn lemma_word32_slot(c: nat, k: nat)
    requires
        k < 32,
    ensures
        pow2(k) > 0,
        word32(c) % pow2(k) == c % pow2(k),
{
    lemma_pow2_pos(k);
    lemma_pow2_adds(k, (32 - k) as nat);
    lemma_pow2_pos((32 - k) as nat);
    lemma2_to64();
    lemma_mod_mod(c as int, pow2(k) as int, pow2((32 - k) as nat) as int);
}

/// Masking a cursor word with `entries - 1` is reduction modulo `entries`.
pub proof fn lemma_mask_slot(word: u32, entries: u32, mask: u32, k: nat)
    requires
        ring_geometry(entries, mask, k),
    ensures
        word & mask == word % entries,
        word & mask < entries,
{
    lemma_pow2_pos(k);
    lemma_u32_low_bits_mask_is_mod(word, k);
    assert(low_bits_mask(k) == mask);
    assert(entries == pow2(k) as u32);
}

/// The slot of a free-running cursor, straight from the ghost counter.
pub proof fn lemma_cursor_slot(c: nat, word: u32, entries: u32, mask: u32, k: nat)
    requires
        ring_geometry(entries, mask, k),
        word == word32(c),
    ensures
        word & mask == c % (entries as nat),
        word & mask < entries,
{
    lemma_mask_slot(word, entries, mask, k);
    lemma_word32_slot(c, k);
}

/// Two distinct counters of one window never share a physical slot: if they
/// agree modulo `entries`, they are at least `entries` apart.
pub proof fn lemma_same_slot_far(a: nat, b: nat, entries: nat)
    requires
        entries > 0,
        a < b,
        a % entries == b % entries,
    ensures
        b - a >= entries,
{
    lemma_fundamental_div_mod(a as int, entries as int);
    lemma_fundamental_div_mod(b as int, entries as int);
    let qa = a as int / entries as int;
    let qb = b as int / entries as int;
    assert(b - a == entries * (qb - qa)) by (nonlinear_arith)
        requires
            a == entries * qa + a % entries,
            b == entries * qb + b % entries,
            a % entries == b % entries,
    ;
    if qb - qa <= 0 {
        assert(entries * (qb - qa) <= 0) by (nonlinear_arith)
            requires
                entries > 0,
                qb - qa <= 0,
        ;
    } else {
        assert(entries * (qb - qa) >= entries) by (nonlinear_arith)
            requires
                entries > 0,
                qb - qa >= 1,
        ;
    }
}

/// Every ring is at most 2^31 slots long, so any in-window distance fits a
/// `u32` and wrapping subtraction of the cursor words recovers it exactly.
pub proof fn lemma_wrapping_distance(lo: nat, hi: nat)
    requires
        lo <= hi,
        hi - lo < 0x1_0000_0000,
    ensures
        hi - lo == if word32(hi) >= word32(lo) {
            word32(hi) - word32(lo)
        } else {
            word32(hi) + 0x1_0000_0000 - word32(lo)
        },
{
    let m = 0x1_0000_0000;
    lemma_fundamental_div_mod(lo as int, m);
    lemma_fundamental_div_mod(hi as int, m);
    let ql = lo as int / m;
    let qh = hi as int / m;
    assert(hi - lo == m * (qh - ql) + (word32(hi) - word32(lo)));
    if qh - ql <= -1 {
        assert(m * (qh - ql) <= -m) by (nonlinear_arith)
            requires
                m == 0x1_0000_0000int,
                qh - ql <= -1,
        ;
    }
    if qh - ql >= 2 {
        assert(m * (qh - ql) >= 2 * m) by (nonlinear_arith)
            requires
                m == 0x1_0000_0000int,
                qh - ql >= 2,
        ;
    }
}

/// Advancing a ghost cursor advances its 32-bit word, wrapping.
pub proof fn lemma_word32_add(c: nat, d: nat)
    ensures
        word32(c + d) == (word32(c) + word32(d)) % 0x1_0000_0000,
{
    let m = 0x1_0000_0000int;
    lemma_add_mod_noop(c as int, d as int, m);
}

/// The exec wrapping increment matches the ghost increment.
pub proof fn lemma_wrapping_add_word(w: u32, c: nat, d: u32)
    requires
        w == word32(c),
    ensures
        vstd::wrapping::u32_specs::wrapping_add(w, d) == word32((c + d) as nat),
{
    let m = 0x1_0000_0000int;
    lemma_word32_add(c, d as nat);
    lemma_small_mod(d as nat, m as nat);
    if w + d > u32::MAX {
        lemma_fundamental_div_mod((w + d) as int, m);
        assert((w + d) / m == 1);
    } else {
        lemma_small_mod((w + d) as nat, m as nat);
    }
}

/// Powers of two are distinct: equal values force equal exponents.
pub proof fn lemma_pow2_injective(a: nat, b: nat)
    requires
        pow2(a) == pow2(b),
    ensures
        a == b,
{
    if a < b {
        lemma_pow2_strictly_increases(a, b);
    }
    if b < a {
        lemma_pow2_strictly_increases(b, a);
    }
}

/// Two cursors less than a full wrap apart with the same 32-bit word are
/// the same cursor.
pub proof fn lemma_word32_injective(a: nat, b: nat)
    requires
        a <= b,
        b - a < 0x1_0000_0000,
        word32(a) == word32(b),
    ensures
        a == b,
{
    if a < b {
        lemma_same_slot_far(a, b, 0x1_0000_0000);
    }
}

/// Exponent bound transferred to the entry count: `entries <= 2^31`.
pub proof fn lemma_entries_bound(entries: u32, mask: u32, k: nat)
    requires
        ring_geometry(entries, mask, k),
    ensures
        0 < entries <= 0x8000_0000,
{
    lemma_pow2_pos(k);
    lemma2_to64();
    if k < 31 {
        lemma_pow2_strictly_increases(k, 31);
    }
}

} // verus!
