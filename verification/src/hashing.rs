//! The hash behind identifiers of large variants: the Fx hasher of the
//! `rustc_hash` crate, fed one word and two byte strings.

use vstd::prelude::*;
use rustc_hash::FxHasher;
use std::hash::Hasher;

verus! {

/// `rustc_hash::FxHasher`, a hasher whose whole state is one machine word.
#[verifier::external_type_specification]
#[verifier::external_body]
pub struct ExFxHasher(rustc_hash::FxHasher);

/// The word a hasher holds: what `finish` returns for it.
pub uninterp spec fn fx_state(hasher: FxHasher) -> u64;

/// The state that follows `state` once `write_u64` has taken `word`.
pub uninterp spec fn fx_mix_word(state: u64, word: u64) -> u64;

/// The state that follows `state` once `write` has taken `bytes`.
pub uninterp spec fn fx_mix_bytes(state: u64, bytes: Seq<u8>) -> u64;

/// `FxHasher::default`: a fresh hasher, whose state is 0.
#[verifier::external_body]
pub(crate) fn fx_new() -> (hasher: FxHasher)
    ensures
        fx_state(hasher) == 0,
{
    FxHasher::default()
}

/// `FxHasher::write_u64`: the new state depends on the old state and on the
/// word alone. It is computed in the target's word size.
#[verifier::external_body]
pub(crate) fn fx_write_u64(hasher: &mut FxHasher, word: u64)
    ensures
        fx_state(*final(hasher)) == fx_mix_word(fx_state(*old(hasher)), word),
{
    hasher.write_u64(word)
}

/// `FxHasher::write`: the new state depends on the old state and on the bytes
/// alone. The bytes are read in chunks of the target's word size and order.
#[verifier::external_body]
pub(crate) fn fx_write(hasher: &mut FxHasher, bytes: &[u8])
    ensures
        fx_state(*final(hasher)) == fx_mix_bytes(fx_state(*old(hasher)), bytes@),
{
    hasher.write(bytes)
}

/// `FxHasher::finish`: hands out the state and leaves the hasher as it is.
#[verifier::external_body]
pub(crate) fn fx_finish(hasher: &FxHasher) -> (digest: u64)
    ensures
        digest == fx_state(*hasher),
{
    hasher.finish()
}

/// The hash of a variant: a fresh state that took the position as a word,
/// then the reference's bytes, then the alternate's.
pub open spec fn variant_digest(position: u64, reference: Seq<u8>, alternate: Seq<u8>) -> u64 {
    fx_mix_bytes(fx_mix_bytes(fx_mix_word(0, position), reference), alternate)
}

/// Hashes a variant: the position, then the reference, then the alternate.
pub fn hash_variant(position: u64, reference: &[u8], alternate: &[u8]) -> (digest: u64)
    ensures
        digest == variant_digest(position, reference@, alternate@),
{
    let mut hasher = fx_new();
    fx_write_u64(&mut hasher, position);
    fx_write(&mut hasher, reference);
    fx_write(&mut hasher, alternate);
    fx_finish(&hasher)
}

} // verus!
