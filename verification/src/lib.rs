//! Compact 64-bit identifiers for genomic variants.
//!
//! A variant is a position, a reference sequence and an alternate sequence.
//! Small variants are packed exactly into bit fields whose widths follow from
//! the largest position of the batch; larger ones fall back to a hash, marked
//! by the top bit of the identifier.

pub mod nucleotide;
pub mod layout;
pub mod hashing;
pub mod variant_id;
pub mod columns;
