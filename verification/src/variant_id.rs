//! Identifiers of variants: the packed shape, the hashed shape, and the
//! encoding of a batch.

use vstd::prelude::*;
use vstd::utf8::encode_utf8;
use crate::hashing::{hash_variant, variant_digest};
use crate::layout::{layout_of, lemma_layout_of_wf, BitLayout, MAX_BOUND};
use crate::nucleotide::{lemma_pack_bound, pack_spec, seq2bit};

verus! {

/// Which of the two shapes an identifier has.
#[derive(Clone, Copy, Debug, PartialEq, Eq, Structural)]
pub enum Shape {
    /// Position, reference length and bases in bit fields; bit 63 is 0.
    Packed,
    /// A hash of the variant below bit 63, which is 1.
    Hashed,
}

/// The shape that bit 63 of an identifier announces.
pub open spec fn shape_spec(id: u64) -> Shape {
    if id >> 63 == 1 {
        Shape::Hashed
    } else {
        Shape::Packed
    }
}

/// The hashed identifier made from a digest: the digest without its lowest
/// bit, moved down by one place, under a top bit of 1.
pub open spec fn hashed_shape(digest: u64) -> u64 {
    (digest >> 1) | 0x8000_0000_0000_0000
}

/// The packed identifier: the position in the high field, the reference's
/// length above the bases, the reference's bases above the alternate's.
pub open spec fn packed_shape(
    layout: BitLayout,
    position: u64,
    reference: Seq<u8>,
    alternate: Seq<u8>,
) -> u64 {
    (position << layout.pos_bits) | ((reference.len() as u64) << layout.seq_region_bits) | (
    pack_spec(reference) << ((2 * alternate.len()) as u64)) | pack_spec(alternate)
}

/// The two sequences together are short enough to be packed exactly.
pub open spec fn fits(layout: BitLayout, reference: Seq<u8>, alternate: Seq<u8>) -> bool {
    reference.len() + alternate.len() <= layout.max_combined_bases
}

/// The identifier of a variant: packed where the bases fit, hashed otherwise.
pub open spec fn variant_id_spec(
    layout: BitLayout,
    position: u64,
    reference: Seq<u8>,
    alternate: Seq<u8>,
) -> u64 {
    if fits(layout, reference, alternate) {
        packed_shape(layout, position, reference, alternate)
    } else {
        hashed_shape(variant_digest(position, reference, alternate))
    }
}

/// The bytes of a string that may be absent.
pub open spec fn option_bytes(text: Option<String>) -> Option<Seq<u8>> {
    match text {
        Some(s) => Some(encode_utf8(s@)),
        None => None,
    }
}

/// The identifier of a record: absent as soon as one of its fields is.
pub open spec fn record_id_spec(
    layout: BitLayout,
    position: Option<u64>,
    reference: Option<Seq<u8>>,
    alternate: Option<Seq<u8>>,
) -> Option<u64> {
    if position.is_some() && reference.is_some() && alternate.is_some() {
        Some(variant_id_spec(layout, position.unwrap(), reference.unwrap(), alternate.unwrap()))
    } else {
        None
    }
}

/// The number of records in three columns read side by side.
pub open spec fn batch_len(
    positions: Seq<Option<u64>>,
    references: Seq<Option<String>>,
    alternates: Seq<Option<String>>,
) -> nat {
    if positions.len() <= references.len() && positions.len() <= alternates.len() {
        positions.len()
    } else if references.len() <= alternates.len() {
        references.len()
    } else {
        alternates.len()
    }
}

/// The identifiers of a batch: one per record, in the records' order.
pub open spec fn batch_ids(
    layout: BitLayout,
    positions: Seq<Option<u64>>,
    references: Seq<Option<String>>,
    alternates: Seq<Option<String>>,
) -> Seq<Option<u64>> {
    Seq::new(
        batch_len(positions, references, alternates),
        |i: int|
            record_id_spec(
                layout,
                positions[i],
                option_bytes(references[i]),
                option_bytes(alternates[i]),
            ),
    )
}

/// Tells the shape of an identifier from its top bit.
pub fn shape_of(id: u64) -> (shape: Shape)
    ensures
        shape == shape_spec(id),
{
    if id >> 63 == 1 {
        Shape::Hashed
    } else {
        Shape::Packed
    }
}

/// Turns a digest into a hashed identifier.
pub fn hashed_id(digest: u64) -> (id: u64)
    ensures
        id == hashed_shape(digest),
        shape_spec(id) == Shape::Hashed,
{
    proof {
        lemma_hashed_top_bit(digest);
    }
    (digest >> 1) | 0x8000_0000_0000_0000
}

/// Packs a variant whose bases fit the layout.
pub fn packed_id(layout: &BitLayout, position: u64, reference: &[u8], alternate: &[u8]) -> (id:
    u64)
    requires
        layout.wf(),
        fits(*layout, reference@, alternate@),
    ensures
        id == packed_shape(*layout, position, reference@, alternate@),
{
    let shift: u64 = (alternate.len() * 2) as u64;
    let mut id: u64 = position << layout.pos_bits;
    id = id | ((reference.len() as u64) << layout.seq_region_bits);
    id = id | (seq2bit(reference) << shift);
    id = id | seq2bit(alternate);
    id
}

/// Computes the identifier of one variant under a layout.
pub fn encode_variant(layout: &BitLayout, position: u64, reference: &str, alternate: &str) -> (id:
    u64)
    requires
        layout.wf(),
    ensures
        id == variant_id_spec(*layout, position, encode_utf8(reference@), encode_utf8(alternate@)),
        !fits(*layout, encode_utf8(reference@), encode_utf8(alternate@)) ==> shape_spec(id)
            == Shape::Hashed,
{
    let reference_bytes = reference.as_bytes();
    let alternate_bytes = alternate.as_bytes();
    let budget: usize = layout.max_combined_bases as usize;
    if reference_bytes.len() > budget || alternate_bytes.len() > budget - reference_bytes.len() {
        hashed_id(hash_variant(position, reference_bytes, alternate_bytes))
    } else {
        packed_id(layout, position, reference_bytes, alternate_bytes)
    }
}

/// Computes the identifier of one record, whose fields may be absent.
pub fn encode_record(
    layout: &BitLayout,
    position: &Option<u64>,
    reference: &Option<String>,
    alternate: &Option<String>,
) -> (id: Option<u64>)
    requires
        layout.wf(),
    ensures
        id == record_id_spec(*layout, *position, option_bytes(*reference), option_bytes(*alternate)),
        id.is_none() <==> (position.is_none() || reference.is_none() || alternate.is_none()),
{
    match position {
        Some(p) => match reference {
            Some(r) => match alternate {
                Some(a) => Some(encode_variant(layout, *p, r.as_str(), a.as_str())),
                None => None,
            },
            None => None,
        },
        None => None,
    }
}

/// Computes the identifiers of a batch of records given as three columns,
/// under the layout that belongs to `max_pos`, the batch's largest position.
pub fn local_compute(
    real_pos: &Vec<Option<u64>>,
    ref_seq: &Vec<Option<String>>,
    alt_seq: &Vec<Option<String>>,
    max_pos: u64,
) -> (ids: Vec<Option<u64>>)
    requires
        max_pos <= MAX_BOUND,
    ensures
        ids@ == batch_ids(layout_of(max_pos), real_pos@, ref_seq@, alt_seq@),
{
    let layout = BitLayout::new(max_pos);
    let mut count: usize = real_pos.len();
    if ref_seq.len() < count {
        count = ref_seq.len();
    }
    if alt_seq.len() < count {
        count = alt_seq.len();
    }
    let mut ids: Vec<Option<u64>> = Vec::new();
    let mut i: usize = 0;
    while i < count
        invariant
            layout.wf(),
            layout == layout_of(max_pos),
            count == batch_len(real_pos@, ref_seq@, alt_seq@),
            i <= count,
            ids@.len() == i,
            forall|k: int|
                0 <= k < i ==> ids@[k] == batch_ids(layout, real_pos@, ref_seq@, alt_seq@)[k],
        decreases count - i,
    {
        let id = encode_record(&layout, &real_pos[i], &ref_seq[i], &alt_seq[i]);
        ids.push(id);
        i = i + 1;
    }
    proof {
        assert(ids@ =~= batch_ids(layout, real_pos@, ref_seq@, alt_seq@));
    }
    ids
}

/// A hashed identifier has bit 63 set, and below it the digest's upper 63
/// bits.
pub proof fn lemma_hashed_top_bit(digest: u64)
    ensures
        hashed_shape(digest) >> 63 == 1,
        shape_spec(hashed_shape(digest)) == Shape::Hashed,
        hashed_shape(digest) & 0x7fff_ffff_ffff_ffff == digest >> 1,
{
    assert(((digest >> 1) | 0x8000_0000_0000_0000) >> 63 == 1) by (bit_vector);
    assert(((digest >> 1) | 0x8000_0000_0000_0000) & 0x7fff_ffff_ffff_ffff == digest >> 1)
        by (bit_vector);
}

/// A packed identifier has bit 63 clear whenever the position does not
/// exceed the bound that the layout was derived from.
pub proof fn lemma_packed_top_bit(
    max_pos: u64,
    position: u64,
    reference: Seq<u8>,
    alternate: Seq<u8>,
)
    requires
        max_pos <= MAX_BOUND,
        position <= max_pos,
        fits(layout_of(max_pos), reference, alternate),
    ensures
        packed_shape(layout_of(max_pos), position, reference, alternate) >> 63 == 0,
        shape_spec(packed_shape(layout_of(max_pos), position, reference, alternate))
            == Shape::Packed,
{
    let layout = layout_of(max_pos);
    lemma_layout_of_wf(max_pos);
    lemma_pack_bound(reference);
    lemma_pack_bound(alternate);
    let pos_bits = layout.pos_bits;
    let clear = (63 - pos_bits) as u64;
    let region = layout.seq_region_bits;
    let ref_len = reference.len() as u64;
    let ref_width = (2 * reference.len()) as u64;
    let alt_width = (2 * alternate.len()) as u64;
    let ref_word = pack_spec(reference);
    let alt_word = pack_spec(alternate);
    let a = position << pos_bits;
    let b = ref_len << region;
    let c = ref_word << alt_width;
    assert(a >> 63 == 0) by (bit_vector)
        requires
            a == position << pos_bits,
            pos_bits <= 63,
            clear == 63 - pos_bits,
            max_pos >> clear == 0,
            position <= max_pos,
    ;
    assert(b >> 63 == 0) by (bit_vector)
        requires
            b == ref_len << region,
            region <= 58,
            ref_len <= 29,
    ;
    assert(c >> 63 == 0) by (bit_vector)
        requires
            c == ref_word << alt_width,
            ref_word < (1u64 << ref_width),
            ref_width + alt_width <= 58,
    ;
    assert(alt_word >> 63 == 0) by (bit_vector)
        requires
            alt_word < (1u64 << alt_width),
            alt_width <= 58,
    ;
    assert((a | b | c | alt_word) >> 63 == 0) by (bit_vector)
        requires
            a >> 63 == 0,
            b >> 63 == 0,
            c >> 63 == 0,
            alt_word >> 63 == 0,
    ;
}

/// Bit 63 tells the branch: under the layout of a bound, a variant whose
/// position does not exceed the bound gets the packed shape where its bases
/// fit and the hashed shape where they do not.
pub proof fn lemma_shape_tells_branch(
    max_pos: u64,
    position: u64,
    reference: Seq<u8>,
    alternate: Seq<u8>,
)
    requires
        max_pos <= MAX_BOUND,
        position <= max_pos,
    ensures
        shape_spec(variant_id_spec(layout_of(max_pos), position, reference, alternate)) == (if fits(
            layout_of(max_pos),
            reference,
            alternate,
        ) {
            Shape::Packed
        } else {
            Shape::Hashed
        }),
{
    if fits(layout_of(max_pos), reference, alternate) {
        lemma_packed_top_bit(max_pos, position, reference, alternate);
    } else {
        lemma_hashed_top_bit(variant_digest(position, reference, alternate));
    }
}

/// The word whose lowest `width` bits are set, for a width below 64.
pub open spec fn low_mask(width: u64) -> u64 {
    ((1u64 << width) - 1) as u64
}

/// A packed identifier can be taken apart again. Where the position does not
/// exceed the bound and the reference's length fits the length field, the
/// four fields lie side by side: the position, the reference's length, the
/// reference's bases and the alternate's bases are each read back by a shift
/// and a mask.
pub proof fn lemma_packed_fields_recoverable(
    max_pos: u64,
    position: u64,
    reference: Seq<u8>,
    alternate: Seq<u8>,
)
    requires
        max_pos <= MAX_BOUND,
        position <= max_pos,
        fits(layout_of(max_pos), reference, alternate),
        (reference.len() as u64) < (1u64 << layout_of(max_pos).sep_bits),
    ensures
        ({
            let layout = layout_of(max_pos);
            let id = packed_shape(layout, position, reference, alternate);
            let alt_width = (2 * alternate.len()) as u64;
            let ref_width = (2 * reference.len()) as u64;
            &&& id >> layout.pos_bits == position
            &&& (id >> layout.seq_region_bits) & low_mask(layout.sep_bits) == reference.len()
            &&& (id >> alt_width) & low_mask(ref_width) == pack_spec(reference)
            &&& id & low_mask(alt_width) == pack_spec(alternate)
        }),
{
    let layout = layout_of(max_pos);
    lemma_layout_of_wf(max_pos);
    lemma_pack_bound(reference);
    lemma_pack_bound(alternate);
    let s = layout.pos_bits;
    let clear = (63 - s) as u64;
    let g = layout.seq_region_bits;
    let sep = layout.sep_bits;
    let len = reference.len() as u64;
    let w1 = (2 * reference.len()) as u64;
    let w2 = (2 * alternate.len()) as u64;
    let r = pack_spec(reference);
    let a = pack_spec(alternate);
    let id = (position << s) | (len << g) | (r << w2) | a;
    assert(position >> clear == 0) by (bit_vector)
        requires
            max_pos >> clear == 0,
            position <= max_pos,
            clear <= 63,
    ;
    assert(id >> s == position) by (bit_vector)
        requires
            id == (position << s) | (len << g) | (r << w2) | a,
            s <= 63,
            clear == 63 - s,
            position >> clear == 0,
            g + sep == s,
            g <= 58,
            len < (1u64 << sep),
            w1 + w2 <= g,
            r < (1u64 << w1),
            a < (1u64 << w2),
    ;
    assert((id >> g) & (((1u64 << sep) - 1) as u64) == len) by (bit_vector)
        requires
            id == (position << s) | (len << g) | (r << w2) | a,
            s <= 63,
            g + sep == s,
            g <= 58,
            len < (1u64 << sep),
            w1 + w2 <= g,
            r < (1u64 << w1),
            a < (1u64 << w2),
    ;
    assert((id >> w2) & (((1u64 << w1) - 1) as u64) == r) by (bit_vector)
        requires
            id == (position << s) | (len << g) | (r << w2) | a,
            s <= 63,
            g <= s,
            g <= 58,
            w1 + w2 <= g,
            r < (1u64 << w1),
            a < (1u64 << w2),
    ;
    assert(id & (((1u64 << w2) - 1) as u64) == a) by (bit_vector)
        requires
            id == (position << s) | (len << g) | (r << w2) | a,
            s <= 63,
            g <= s,
            g <= 58,
            w1 + w2 <= g,
            a < (1u64 << w2),
    ;
}

/// The identifier of a record is a function of what the record holds: two
/// records with the same position and the same bytes in both sequences get
/// the same identifier under the same layout.
pub proof fn lemma_record_id_reproducible(
    layout: BitLayout,
    position: Option<u64>,
    reference: Option<String>,
    alternate: Option<String>,
    position2: Option<u64>,
    reference2: Option<String>,
    alternate2: Option<String>,
)
    requires
        position == position2,
        option_bytes(reference) == option_bytes(reference2),
        option_bytes(alternate) == option_bytes(alternate2),
    ensures
        record_id_spec(layout, position, option_bytes(reference), option_bytes(alternate))
            == record_id_spec(
            layout,
            position2,
            option_bytes(reference2),
            option_bytes(alternate2),
        ),
{
}

/// Encoding a batch again yields the same column: two batches that hold the
/// same positions and the same bytes, row by row, get equal identifiers under
/// the same bound.
pub proof fn lemma_batch_ids_reproducible(
    max_pos: u64,
    positions: Seq<Option<u64>>,
    references: Seq<Option<String>>,
    alternates: Seq<Option<String>>,
    positions2: Seq<Option<u64>>,
    references2: Seq<Option<String>>,
    alternates2: Seq<Option<String>>,
)
    requires
        positions =~= positions2,
        references.len() == references2.len(),
        alternates.len() == alternates2.len(),
        forall|i: int|
            0 <= i < references.len() ==> option_bytes(references[i]) == option_bytes(
                references2[i],
            ),
        forall|i: int|
            0 <= i < alternates.len() ==> option_bytes(alternates[i]) == option_bytes(
                alternates2[i],
            ),
    ensures
        batch_ids(layout_of(max_pos), positions, references, alternates) == batch_ids(
            layout_of(max_pos),
            positions2,
            references2,
            alternates2,
        ),
{
    assert(batch_ids(layout_of(max_pos), positions, references, alternates) =~= batch_ids(
        layout_of(max_pos),
        positions2,
        references2,
        alternates2,
    ));
}

/// A record with an absent field has no identifier, whatever its other
/// fields hold.
pub proof fn lemma_absent_field_gives_no_id(
    layout: BitLayout,
    position: Option<u64>,
    reference: Option<Seq<u8>>,
    alternate: Option<Seq<u8>>,
)
    ensures
        record_id_spec(layout, position, reference, alternate).is_none() <==> (position.is_none()
            || reference.is_none() || alternate.is_none()),
{
}

} // verus!
