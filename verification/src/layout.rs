//! The bit layout of a packed identifier, derived from the largest position
//! of a batch.

use vstd::prelude::*;
use vstd::arithmetic::power2::pow2;
use vstd::std_specs::bits::u64_leading_zeros;

verus! {

/// The largest batch bound for which a layout exists: the bound must leave
/// the top bit of a word free.
pub const MAX_BOUND: u64 = 0x7fff_ffff_ffff_ffff;

/// The base-2 logarithm of `n`, rounded up; 0 for `n` at most 1.
pub open spec fn ceil_log2(n: nat) -> nat
    decreases n,
{
    if n <= 1 {
        0
    } else {
        1 + ceil_log2((n + 1) / 2)
    }
}

/// The widths and shifts of the fields of a packed identifier.
#[derive(Clone, Copy, Debug, PartialEq, Eq, Structural)]
pub struct BitLayout {
    /// The shift that puts a position into the high field.
    pub pos_bits: u64,
    /// The width of the field that holds the reference's length.
    pub sep_bits: u64,
    /// The shift of the length field: the bits below it hold the bases.
    pub seq_region_bits: u64,
    /// The largest number of bases, reference and alternate together, that
    /// are packed exactly.
    pub max_combined_bases: u64,
}

/// The layout that belongs to a batch whose largest position is `max_pos`.
///
/// A position is shifted by the number of leading zero bits of the bound,
/// less one, so that every position up to the bound ends below bit 63. Half
/// of that width, rounded down, is the most a length could need; its
/// logarithm, rounded up, is the width of the length field. What is left
/// holds the bases, two bits each.
pub open spec fn layout_of(max_pos: u64) -> BitLayout {
    let pos_bits = (u64_leading_zeros(max_pos) - 1) as u64;
    let sep_bits = ceil_log2((pos_bits / 2) as nat) as u64;
    let seq_region_bits = (pos_bits - sep_bits) as u64;
    BitLayout { pos_bits, sep_bits, seq_region_bits, max_combined_bases: seq_region_bits / 2 }
}

impl BitLayout {
    /// The fields agree with one another and every shift stays inside a word.
    pub open spec fn wf(&self) -> bool {
        &&& self.pos_bits <= 63
        &&& self.sep_bits == ceil_log2((self.pos_bits / 2) as nat)
        &&& self.seq_region_bits + self.sep_bits == self.pos_bits
        &&& self.max_combined_bases == self.seq_region_bits / 2
    }

    /// Derives the layout from the largest position of the batch.
    pub fn new(max_pos: u64) -> (layout: BitLayout)
        requires
            max_pos <= MAX_BOUND,
        ensures
            layout == layout_of(max_pos),
            layout.wf(),
    {
        proof {
            lemma_layout_of_wf(max_pos);
        }
        let pos_bits: u64 = max_pos.leading_zeros() as u64 - 1;
        let sep_bits: u64 = ceil_log2_u64(pos_bits / 2);
        let seq_region_bits: u64 = pos_bits - sep_bits;
        BitLayout { pos_bits, sep_bits, seq_region_bits, max_combined_bases: seq_region_bits / 2 }
    }
}

/// Computes the base-2 logarithm of `n`, rounded up.
pub fn ceil_log2_u64(n: u64) -> (k: u64)
    ensures
        k == ceil_log2(n as nat),
        k <= 64,
{
    let mut rest: u64 = n;
    let mut k: u64 = 0;
    proof {
        vstd::arithmetic::power2::lemma2_to64_rest();
    }
    while rest > 1
        invariant
            k + ceil_log2(rest as nat) == ceil_log2(n as nat),
            k <= 64,
            rest as nat <= pow2((64 - k) as nat),
        decreases rest,
    {
        proof {
            vstd::arithmetic::power2::lemma2_to64();
            if k < 64 {
                vstd::arithmetic::power2::lemma_pow2_unfold((64 - k) as nat);
            }
        }
        rest = rest / 2 + rest % 2;
        k = k + 1;
    }
    k
}

/// `ceil_log2(n)` is the least exponent whose power of two reaches `n`.
pub proof fn lemma_ceil_log2_bounds(n: nat)
    ensures
        n <= pow2(ceil_log2(n)),
        n > 1 ==> pow2((ceil_log2(n) - 1) as nat) < n,
    decreases n,
{
    if n <= 1 {
        vstd::arithmetic::power2::lemma2_to64();
    } else {
        let half = (n + 1) / 2;
        lemma_ceil_log2_bounds(half);
        vstd::arithmetic::power2::lemma_pow2_unfold(ceil_log2(n));
        if half > 1 {
            vstd::arithmetic::power2::lemma_pow2_unfold(ceil_log2(half));
        } else {
            vstd::arithmetic::power2::lemma2_to64();
        }
    }
}

/// Up to 32 the logarithm is at most 5, so the length field of a layout is
/// never wider than five bits.
pub proof fn lemma_ceil_log2_small(n: nat)
    requires
        n <= 32,
    ensures
        ceil_log2(n) <= 5,
        n >= 1 ==> ceil_log2(n) < n,
{
    reveal_with_fuel(ceil_log2, 7);
}

/// A bound that leaves the top bit free has a leading zero bit. Its layout
/// is well formed, the base region is at most 58 bits wide, and the bound has
/// no bit at or above place `63 - pos_bits`.
pub proof fn lemma_layout_of_wf(max_pos: u64)
    requires
        max_pos <= MAX_BOUND,
    ensures
        1 <= u64_leading_zeros(max_pos) <= 64,
        layout_of(max_pos).wf(),
        layout_of(max_pos).seq_region_bits <= 58,
        layout_of(max_pos).max_combined_bases <= 29,
        max_pos >> ((63 - layout_of(max_pos).pos_bits) as u64) == 0,
{
    vstd::std_specs::bits::axiom_u64_leading_zeros(max_pos);
    let zeros = u64_leading_zeros(max_pos) as u64;
    if zeros == 0 {
        assert((max_pos >> 63u64) & 1u64 == 0u64) by (bit_vector)
            requires
                max_pos <= 0x7fff_ffff_ffff_ffffu64,
        ;
    }
    let layout = layout_of(max_pos);
    let half = (layout.pos_bits / 2) as nat;
    lemma_ceil_log2_bounds(half);
    lemma_ceil_log2_small(half);
    vstd::arithmetic::power2::lemma2_to64();
    if layout.sep_bits <= 4 {
        vstd::arithmetic::power2::lemma_pow2_strictly_increases(layout.sep_bits as nat, 5);
    }
}

/// In a layout at most 31 bases are packed, and never more than
/// `2^sep_bits`: a packed reference's length needs at most one bit more than
/// the length field has.
pub proof fn lemma_length_field_holds_budget(layout: BitLayout)
    requires
        layout.wf(),
    ensures
        layout.max_combined_bases <= 31,
        layout.max_combined_bases <= pow2(layout.sep_bits as nat),
{
    let half = (layout.pos_bits / 2) as nat;
    lemma_ceil_log2_bounds(half);
    lemma_ceil_log2_small(half);
}

} // verus!
