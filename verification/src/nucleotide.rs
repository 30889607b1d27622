//! Two-bit codes of nucleotides and the packing of a sequence into one word.

use vstd::prelude::*;

verus! {

/// The two-bit code of a nucleotide byte: bits 1 and 2 of the byte.
pub open spec fn nuc_code(nuc: u8) -> u64 {
    ((nuc as u64) >> 1) & 0b11
}

/// The word that holds the codes of `seq`, first base in the highest place,
/// two bits per base. Bases that no longer fit in 64 bits are shifted out.
pub open spec fn pack_spec(seq: Seq<u8>) -> u64
    decreases seq.len(),
{
    if seq.len() == 0 {
        0
    } else {
        (pack_spec(seq.drop_last()) << 2) | nuc_code(seq.last())
    }
}

/// The value of `seq` read as a number in base 4, one digit per base.
pub open spec fn base4_value(seq: Seq<u8>) -> nat
    decreases seq.len(),
{
    if seq.len() == 0 {
        0
    } else {
        4 * base4_value(seq.drop_last()) + nuc_code(seq.last()) as nat
    }
}

/// Maps a nucleotide byte to its two-bit code. Every byte has a code.
pub fn nuc2bit(nuc: u8) -> (code: u64)
    ensures
        code == nuc_code(nuc),
        code < 4,
{
    assert((((nuc as u64) >> 1) & 0b11) < 4) by (bit_vector);
    (nuc as u64 >> 1) & 0b11
}

/// Packs a sequence of nucleotide bytes into one word, first base highest.
pub fn seq2bit(seq: &[u8]) -> (packed: u64)
    ensures
        packed == pack_spec(seq@),
{
    let mut two_bit: u64 = 0;
    let mut i: usize = 0;
    while i < seq.len()
        invariant
            i <= seq.len(),
            two_bit == pack_spec(seq@.subrange(0, i as int)),
        decreases seq.len() - i,
    {
        proof {
            let next = seq@.subrange(0, i + 1);
            assert(next.drop_last() =~= seq@.subrange(0, i as int));
            assert(next.last() == seq@[i as int]);
        }
        two_bit = two_bit << 2;
        two_bit = two_bit | nuc2bit(seq[i]);
        i = i + 1;
    }
    proof {
        assert(seq@.subrange(0, i as int) =~= seq@);
    }
    two_bit
}

/// The codes of the ten bytes `ACGTN` and `acgtn`: `A` is 0, `C` is 1, `T` is
/// 2, and `G` and `N` are both 3.
pub proof fn lemma_nuc_code_table()
    ensures
        nuc_code(0x41) == 0 && nuc_code(0x61) == 0,
        nuc_code(0x43) == 1 && nuc_code(0x63) == 1,
        nuc_code(0x54) == 2 && nuc_code(0x74) == 2,
        nuc_code(0x47) == 3 && nuc_code(0x67) == 3,
        nuc_code(0x4e) == 3 && nuc_code(0x6e) == 3,
{
    assert(((0x41u64 >> 1) & 0b11) == 0 && ((0x61u64 >> 1) & 0b11) == 0) by (bit_vector);
    assert(((0x43u64 >> 1) & 0b11) == 1 && ((0x63u64 >> 1) & 0b11) == 1) by (bit_vector);
    assert(((0x54u64 >> 1) & 0b11) == 2 && ((0x74u64 >> 1) & 0b11) == 2) by (bit_vector);
    assert(((0x47u64 >> 1) & 0b11) == 3 && ((0x67u64 >> 1) & 0b11) == 3) by (bit_vector);
    assert(((0x4eu64 >> 1) & 0b11) == 3 && ((0x6eu64 >> 1) & 0b11) == 3) by (bit_vector);
}

/// The code of a byte does not depend on bit 5, the bit in which an ASCII
/// letter and its other case differ.
pub proof fn lemma_nuc_code_ignores_case(nuc: u8)
    ensures
        nuc_code(nuc ^ 0x20) == nuc_code(nuc),
        nuc_code(nuc) < 4,
{
    assert(((((nuc ^ 0x20) as u64) >> 1) & 0b11) == (((nuc as u64) >> 1) & 0b11)) by (bit_vector);
    assert((((nuc as u64) >> 1) & 0b11) < 4) by (bit_vector);
}

/// A sequence of at most 32 bases is packed without loss: the word is the
/// sequence's value in base 4, and it lies below 4 to the number of bases.
pub proof fn lemma_pack_is_base4(seq: Seq<u8>)
    requires
        seq.len() <= 32,
    ensures
        pack_spec(seq) as nat == base4_value(seq),
        base4_value(seq) < vstd::arithmetic::power2::pow2(2 * seq.len()),
    decreases seq.len(),
{
    if seq.len() == 0 {
        vstd::arithmetic::power2::lemma2_to64();
    } else {
        let rest = seq.drop_last();
        lemma_pack_is_base4(rest);
        let high = pack_spec(rest);
        let code = nuc_code(seq.last());
        lemma_nuc_code_ignores_case(seq.last());
        vstd::arithmetic::power2::lemma_pow2_unfold(2 * seq.len());
        vstd::arithmetic::power2::lemma_pow2_unfold((2 * seq.len() - 1) as nat);
        vstd::arithmetic::power2::lemma_pow2_strictly_increases(2 * rest.len(), 63);
        vstd::arithmetic::power2::lemma2_to64_rest();
        assert(high < 0x4000_0000_0000_0000 || 2 * rest.len() > 62) by {
            if 2 * rest.len() < 62 {
                vstd::arithmetic::power2::lemma_pow2_strictly_increases(2 * rest.len(), 62);
            }
        }
        assert(((high << 2) | code) == 4 * high + code) by (bit_vector)
            requires
                high < 0x4000_0000_0000_0000,
                code < 4,
        ;
    }
}

/// Packing a sequence of at most 31 bases leaves every bit above its fields
/// clear.
pub proof fn lemma_pack_bound(seq: Seq<u8>)
    requires
        seq.len() <= 31,
    ensures
        pack_spec(seq) < (1u64 << ((2 * seq.len()) as u64)),
    decreases seq.len(),
{
    let width = (2 * seq.len()) as u64;
    if seq.len() == 0 {
        assert(0 < (1u64 << 0u64)) by (bit_vector);
    } else {
        lemma_pack_bound(seq.drop_last());
        let high = pack_spec(seq.drop_last());
        let code = nuc_code(seq.last());
        let below = (width - 2) as u64;
        lemma_nuc_code_ignores_case(seq.last());
        assert(((high << 2) | code) < (1u64 << width)) by (bit_vector)
            requires
                high < (1u64 << below),
                code < 4,
                width == below + 2,
                width <= 62,
        ;
    }
}

} // verus!
