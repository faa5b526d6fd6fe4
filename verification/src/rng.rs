//! The pseudo-random generator behind seeds and shuffles.
//!
//! The functions here call `rand`, `rand_chacha` and `rand_seeder`. Their
//! contracts are believed, not proved: they state what those crates do. The
//! one thing proved here is that a permutation reaches every index.

use rand::distributions::Alphanumeric;
use rand::seq::SliceRandom;
use rand::Rng;
use rand::SeedableRng;
use rand_chacha::ChaCha20Rng;
use rand_seeder::Seeder;
use vstd::prelude::*;
use vstd::seq_lib::seq_to_set_is_finite;
use vstd::set_lib::lemma_int_range;
use vstd::set_lib::lemma_subset_equality;
use vstd::set_lib::set_int_range;

verus! {

/// `rand_chacha::ChaCha20Rng`, carried through verified code as an opaque value.
#[verifier::external_type_specification]
#[verifier::external_body]
pub struct ExChaCha20Rng(rand_chacha::ChaCha20Rng);

/// Whether `b` is an ASCII letter or digit.
pub open spec fn is_alphanumeric(b: u8) -> bool {
    ||| 48 <= b <= 57
    ||| 65 <= b <= 90
    ||| 97 <= b <= 122
}

/// Whether `order` holds each index below `n` exactly once.
pub open spec fn is_permutation(order: Seq<usize>, n: nat) -> bool {
    &&& order.len() == n
    &&& forall|i: int| 0 <= i < n ==> (#[trigger] order[i]) < n
    &&& forall|i: int, j: int| 0 <= i < j < n ==> order[i] != order[j]
}

/// What two calls of `SliceRandom::shuffle` in a row make of the indices
/// `0..n`, each time starting from `0..n` in order, when both are driven by the
/// one `ChaCha20Rng` that `Seeder` builds from `seed`: first the order that the
/// first call leaves, then the order that the second call leaves.
pub uninterp spec fn seeded_shuffles(seed: Seq<char>, n: nat) -> (Seq<usize>, Seq<usize>);

/// The order of dispatch: position `i` of the shuffled roster gets the
/// participant that stood at `seeded_order(seed, n)[i]`.
pub open spec fn seeded_order(seed: Seq<char>, n: nat) -> Seq<usize> {
    seeded_shuffles(seed, n).0
}

/// The order of the report: what the generator makes of `n` items after it
/// has shuffled the roster.
pub open spec fn seeded_report_order(seed: Seq<char>, n: nat) -> Seq<usize> {
    seeded_shuffles(seed, n).1
}

/// `ChaCha20Rng::from_entropy`: a generator keyed by the operating system's
/// entropy source. Nothing is claimed of the generator.
#[verifier::external_body]
pub(crate) fn rng_from_entropy() -> ChaCha20Rng {
    ChaCha20Rng::from_entropy()
}

/// `Rng::sample` with the `Alphanumeric` distribution: the byte drawn is one of
/// the ASCII letters and digits. Which one is not claimed.
#[verifier::external_body]
pub(crate) fn sample_alphanumeric(rng: &mut ChaCha20Rng) -> (b: u8)
    ensures
        is_alphanumeric(b),
{
    rng.sample(Alphanumeric)
}

/// `SliceRandom::shuffle`, twice on the indices `0..n` with the `ChaCha20Rng`
/// that `Seeder::from(seed).make_rng()` builds. A shuffle only swaps items, so
/// each result is a permutation of `0..n`; the generator is a function of the
/// seed's text and a shuffle draws from it by the length alone, so the same
/// seed and length give the same two orders.
#[verifier::external_body]
pub(crate) fn shuffled_indices(seed: &str, n: usize) -> (orders: (Vec<usize>, Vec<usize>))
    ensures
        (orders.0@, orders.1@) == seeded_shuffles(seed@, n as nat),
        is_permutation(orders.0@, n as nat),
        is_permutation(orders.1@, n as nat),
{
    let mut rng: ChaCha20Rng = Seeder::from(seed).make_rng();
    let mut first: Vec<usize> = (0..n).collect();
    first.shuffle(&mut rng);
    let mut second: Vec<usize> = (0..n).collect();
    second.shuffle(&mut rng);
    (first, second)
}

/// Every index below `n` occurs in a permutation of `0..n`.
pub proof fn lemma_permutation_onto(order: Seq<usize>, n: nat, j: int)
    requires
        is_permutation(order, n),
        0 <= j < n,
    ensures
        exists|i: int| 0 <= i < n && #[trigger] order[i] == j,
{
    let values = Seq::new(n, |i: int| order[i] as int);
    assert(values.no_duplicates());
    values.unique_seq_to_set();
    seq_to_set_is_finite(values);
    lemma_int_range(0, n as int);
    assert(values.to_set().subset_of(set_int_range(0, n as int))) by {
        assert forall|x: int| values.to_set().contains(x) implies set_int_range(
            0,
            n as int,
        ).contains(x) by {
            let i = choose|i: int| 0 <= i < values.len() && values[i] == x;
            assert(order[i] < n);
        }
    }
    lemma_subset_equality(values.to_set(), set_int_range(0, n as int));
    assert(set_int_range(0, n as int).contains(j));
    assert(values.contains(j));
    let i = choose|i: int| 0 <= i < values.len() && values[i] == j;
    assert(order[i] == j);
}

} // verus!
