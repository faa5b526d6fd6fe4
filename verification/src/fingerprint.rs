//! The fingerprint of a roster: a digest of the participants' ids that does not
//! depend on the order in which the participants were listed.
//!
//! The ids are put in ascending order, hashed by std's `DefaultHasher`, and the
//! 64-bit digest is written in decimal.

use crate::db::Jogador;
use crate::text::decimal;
use crate::text::to_decimal;
use std::collections::hash_map::DefaultHasher;
use std::hash::Hash;
use vstd::prelude::*;
use vstd::relations::sorted_by;
use vstd::relations::total_ordering;
use vstd::seq_lib::lemma_sorted_unique;
use vstd::seq_lib::to_multiset_build;
use vstd::seq_lib::to_multiset_insert;
use vstd::std_specs::hash::DefaultHasherAdditionalSpecFns;

verus! {

/// The order of ids: ascending by number.
pub open spec fn ascending() -> spec_fn(u64, u64) -> bool {
    |a: u64, b: u64| a <= b
}

/// The ids of `ids` in ascending order.
pub open spec fn canonical(ids: Seq<u64>) -> Seq<u64> {
    ids.sort_by(ascending())
}

/// The ids of a roster, in the roster's order.
pub open spec fn roster_ids(jogadores: Seq<Jogador>) -> Seq<u64> {
    jogadores.map_values(|j: Jogador| j.id)
}

/// What `<Vec<u64> as Hash>::hash` writes into a hasher for a vector that
/// holds `ids`.
pub uninterp spec fn id_writes(ids: Seq<u64>) -> Seq<Seq<u8>>;

/// The 64-bit digest of a set of ids: that of their ascending sequence.
pub open spec fn digest(ids: Seq<u64>) -> u64 {
    DefaultHasher::spec_finish(id_writes(canonical(ids)))
}

/// The fingerprint of a set of ids: their digest in decimal.
pub open spec fn fingerprint(ids: Seq<u64>) -> Seq<char> {
    decimal(digest(ids) as nat)
}

/// `<Vec<u64> as Hash>::hash`: feeds the vector to the hasher. What is written
/// depends on the vector's contents alone, and comes after what the hasher
/// already holds.
#[verifier::external_body]
pub(crate) fn hash_ids(ids: &Vec<u64>, state: &mut DefaultHasher)
    ensures
        final(state)@ == old(state)@ + id_writes(ids@),
{
    ids.hash(state)
}

proof fn lemma_ascending_is_total()
    ensures
        total_ordering(ascending()),
{
}

/// The ascending sequence with given contents is unique: what is ascending and
/// holds the same ids as `ids` is `canonical(ids)`.
pub proof fn lemma_canonical_unique(ids: Seq<u64>, sorted: Seq<u64>)
    requires
        sorted_by(sorted, ascending()),
        sorted.to_multiset() == ids.to_multiset(),
    ensures
        sorted == canonical(ids),
{
    lemma_ascending_is_total();
    ids.lemma_sort_by_ensures(ascending());
    lemma_sorted_unique(sorted, canonical(ids), ascending());
}

/// The fingerprint does not depend on the order of the ids: two sequences that
/// hold the same ids, each as often as the other, have the same canonical
/// order, digest and fingerprint.
pub proof fn lemma_fingerprint_order_independent(a: Seq<u64>, b: Seq<u64>)
    requires
        a.to_multiset() == b.to_multiset(),
    ensures
        canonical(a) == canonical(b),
        digest(a) == digest(b),
        fingerprint(a) == fingerprint(b),
{
    lemma_ascending_is_total();
    a.lemma_sort_by_ensures(ascending());
    lemma_canonical_unique(b, canonical(a));
}

/// Sorts ids into ascending order, keeping each id as often as it occurred.
pub fn sort_ids(ids: &Vec<u64>) -> (sorted: Vec<u64>)
    ensures
        sorted@ == canonical(ids@),
        sorted_by(sorted@, ascending()),
        sorted@.to_multiset() == ids@.to_multiset(),
{
    let mut sorted: Vec<u64> = Vec::new();
    let mut k: usize = 0;
    assert(ids@.take(0) == sorted@);
    while k < ids.len()
        invariant
            k <= ids.len(),
            sorted_by(sorted@, ascending()),
            sorted@.to_multiset() == ids@.take(k as int).to_multiset(),
        decreases ids.len() - k,
    {
        let x = ids[k];
        let mut p: usize = 0;
        while p < sorted.len() && sorted[p] <= x
            invariant
                p <= sorted.len(),
                forall|i: int| 0 <= i < p ==> sorted@[i] <= x,
            decreases sorted.len() - p,
        {
            p += 1;
        }
        let ghost before = sorted@;
        sorted.insert(p, x);
        proof {
            assert(sorted@ == before.insert(p as int, x));
            assert(ids@.take(k + 1) == ids@.take(k as int).push(x));
            to_multiset_insert(before, p as int, x);
            to_multiset_build(ids@.take(k as int), x);
            assert forall|i: int, j: int| 0 <= i < j < sorted@.len() implies #[trigger] ascending()(
                sorted@[i],
                sorted@[j],
            ) by {
                if j < p {
                    assert(ascending()(before[i], before[j]));
                } else if j == p {
                } else if i < p {
                    assert(ascending()(before[i], before[j - 1]));
                } else if i == p {
                    assert(ascending()(before[p as int], before[j - 1]));
                } else {
                    assert(ascending()(before[i - 1], before[j - 1]));
                }
            }
        }
        k += 1;
    }
    proof {
        assert(ids@.take(k as int) == ids@);
        lemma_canonical_unique(ids@, sorted@);
    }
    sorted
}

/// The ids of a roster, in the roster's order.
pub fn jogador_ids(jogadores: &Vec<Jogador>) -> (ids: Vec<u64>)
    ensures
        ids@ == roster_ids(jogadores@),
{
    let mut ids: Vec<u64> = Vec::new();
    let mut i: usize = 0;
    while i < jogadores.len()
        invariant
            i <= jogadores.len(),
            ids@ == roster_ids(jogadores@.take(i as int)),
        decreases jogadores.len() - i,
    {
        ids.push(jogadores[i].id);
        assert(jogadores@.take(i + 1) == jogadores@.take(i as int).push(jogadores@[i as int]));
        i += 1;
    }
    assert(jogadores@.take(i as int) == jogadores@);
    ids
}

/// The fingerprint of a set of ids, whatever order they come in.
pub fn hash_ids_canonical(ids: &Vec<u64>) -> (text: String)
    ensures
        text@ == fingerprint(ids@),
{
    let sorted = sort_ids(ids);
    let mut hasher = DefaultHasher::new();
    hash_ids(&sorted, &mut hasher);
    assert(hasher@ == id_writes(canonical(ids@)));
    let digest = std::hash::Hasher::finish(&hasher);
    to_decimal(digest)
}

} // verus!
