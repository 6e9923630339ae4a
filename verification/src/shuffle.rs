//! The order of turns: a random permutation of the players' ids, drawn by the
//! `rand` crate's Fisher-Yates shuffle.
//!
//! The shuffles themselves are not verified here. Their contracts are trusted;
//! what follows from them is proved.

use crate::types::{texts, Text};
use rand::seq::SliceRandom;
use rand::SeedableRng;
use rand_chacha::ChaCha8Rng;
use vstd::prelude::*;

verus! {

/// Where one Fisher-Yates shuffle, driven by the ChaCha8 generator seeded with
/// `seed`, takes the entries of a list of `len` entries from: entry `i` of the
/// shuffled list is the entry that stood at position `seeded_positions(len,
/// seed)[i]`. The positions depend on nothing but the length and the seed.
pub uninterp spec fn seeded_positions(len: nat, seed: u64) -> Seq<int>;

/// The positions are those of a list of `len` entries, each once.
pub open spec fn is_arrangement(positions: Seq<int>, len: nat) -> bool {
    &&& positions.len() == len
    &&& forall|i: int| 0 <= i < len ==> 0 <= #[trigger] positions[i] < len
    &&& positions.no_duplicates()
}

/// The ids taken from the given positions, one after the other.
pub open spec fn arranged(ids: Seq<Text>, positions: Seq<int>) -> Seq<Text> {
    Seq::new(ids.len(), |i: int| ids[positions[i]])
}

/// The order in which the seeded shuffle leaves `ids`.
pub open spec fn seeded_order(ids: Seq<Text>, seed: u64) -> Seq<Text> {
    arranged(ids, seeded_positions(ids.len(), seed))
}

/// `a` and `b` hold the same ids, each as often as the other.
pub open spec fn same_ids(a: Seq<Text>, b: Seq<Text>) -> bool {
    a.to_multiset() =~= b.to_multiset()
}

/// `rand::seq::SliceRandom::shuffle` on `ids`, driven by
/// `rand_chacha::ChaCha8Rng::seed_from_u64(seed)`.
///
/// Trusted: the shuffle only swaps entries, at positions that it draws from
/// the generator with bounds that depend on the length alone, and the
/// generator is a pure function of the seed. So the result holds the same
/// ids, and each entry of it comes from the position that `seeded_positions`
/// names for this length and seed, whatever the ids are.
#[verifier::external_body]
pub(crate) fn shuffle_seeded(ids: Vec<String>, seed: u64) -> (r: Vec<String>)
    ensures
        texts(r@) == seeded_order(texts(ids@), seed),
        is_arrangement(seeded_positions(r@.len(), seed), r@.len()),
        same_ids(texts(r@), texts(ids@)),
{
    let mut ids = ids;
    let mut rng = ChaCha8Rng::seed_from_u64(seed);
    ids.shuffle(&mut rng);
    ids
}

/// `rand::seq::SliceRandom::shuffle` on `ids`, driven by
/// `rand_chacha::ChaCha8Rng::from_entropy()`.
///
/// Trusted: the shuffle only swaps entries, so the result holds the same ids.
/// Which order comes out is not stated. The generator aborts the process if the
/// operating system cannot supply entropy.
#[verifier::external_body]
pub(crate) fn shuffle_from_entropy(ids: Vec<String>) -> (r: Vec<String>)
    ensures
        same_ids(texts(r@), texts(ids@)),
{
    let mut ids = ids;
    let mut rng = ChaCha8Rng::from_entropy();
    ids.shuffle(&mut rng);
    ids
}

/// `rand::seq::SliceRandom::shuffle` on `ids`, driven by `rand::thread_rng()`.
///
/// Trusted: the shuffle only swaps entries, so the result holds the same ids.
/// Which order comes out is not stated. The generator aborts the process if the
/// operating system cannot supply entropy.
#[verifier::external_body]
pub(crate) fn shuffle_thread_local(ids: Vec<String>) -> (r: Vec<String>)
    ensures
        same_ids(texts(r@), texts(ids@)),
{
    let mut ids = ids;
    let mut rng = rand::thread_rng();
    ids.shuffle(&mut rng);
    ids
}

/// What follows for two sequences that hold the same ids: they are equally long,
/// each id of one occurs in the other, and one has a repeated id only if the other
/// has.
pub proof fn lemma_same_ids(a: Seq<Text>, b: Seq<Text>)
    requires
        same_ids(a, b),
    ensures
        a.len() == b.len(),
        forall|x: Text| a.contains(x) <==> b.contains(x),
        a.no_duplicates() <==> b.no_duplicates(),
{
    broadcast use {vstd::seq_lib::to_multiset_len, vstd::seq_lib::to_multiset_contains};

    assert(a.to_multiset().len() == b.to_multiset().len());
    assert forall|x: Text| a.contains(x) <==> b.contains(x) by {
        assert(a.to_multiset().count(x) == b.to_multiset().count(x));
    }
    if a.no_duplicates() {
        a.lemma_multiset_has_no_duplicates();
        b.lemma_multiset_has_no_duplicates_conv();
    }
    if b.no_duplicates() {
        b.lemma_multiset_has_no_duplicates();
        a.lemma_multiset_has_no_duplicates_conv();
    }
}

} // verus!
