//! The bloom filter of `probabilistic-collections`, measured through
//! `Container`.
use crate::container::Container;
use vstd::prelude::*;

verus! {

/// `probabilistic_collections::bloom::BloomFilter`, carried opaquely.
#[verifier::external_type_specification]
#[verifier::external_body]
#[verifier::reject_recursive_types(T)]
#[verifier::reject_recursive_types(B)]
pub struct ExProbBloomFilter<T, B>(probabilistic_collections::bloom::BloomFilter<T, B>);

/// The default hasher builder of `probabilistic_collections`.
#[verifier::external_type_specification]
#[verifier::external_body]
pub struct ExSipHasherBuilder(probabilistic_collections::SipHasherBuilder);

/// The items that a `probabilistic_collections::bloom::BloomFilter<u64>`
/// reports as present.
pub uninterp spec fn prob_positives(f: probabilistic_collections::bloom::BloomFilter<u64>) -> Set<u64>;

/// The number of bits of a `probabilistic_collections` filter.
pub uninterp spec fn prob_bits(f: probabilistic_collections::bloom::BloomFilter<u64>) -> nat;

/// The hash count held by a `probabilistic_collections` filter.
pub uninterp spec fn prob_hashes(f: probabilistic_collections::bloom::BloomFilter<u64>) -> nat;

/// The hash count that `from_item_count` derives for `bit_count` bits and
/// `item_count` items.
pub uninterp spec fn prob_planned(bit_count: usize, item_count: usize) -> nat;

/// Relies on probabilistic_collections::bloom::BloomFilter::from_item_count:
/// a filter of `bit_count` bits with `ceil(ln 2 * bit_count / item_count)`
/// hashes. Zero bits would make insert and contains divide by zero; zero
/// items would make the hash count unbounded.
#[verifier::external_body]
fn prob_from_item_count(bit_count: usize, item_count: usize) -> (r:
    probabilistic_collections::bloom::BloomFilter<u64>)
    requires
        bit_count >= 1,
        item_count >= 1,
    ensures
        prob_bits(r) == bit_count,
        prob_hashes(r) == prob_planned(bit_count, item_count),
        prob_hashes(r) <= bit_count,
{
    probabilistic_collections::bloom::BloomFilter::from_item_count(bit_count, item_count)
}

/// Relies on probabilistic_collections::bloom::BloomFilter::insert: sets
/// the bits of the item, so the item tests present afterwards and every
/// item that tested present still does.
/// Each of its `hasher_count` probes is a hash taken modulo the bit count,
/// hence the bounds.
#[verifier::external_body]
fn prob_insert(f: &mut probabilistic_collections::bloom::BloomFilter<u64>, x: u64)
    requires
        1 <= prob_bits(*old(f)),
        prob_hashes(*old(f)) <= prob_bits(*old(f)),
    ensures
        prob_bits(*final(f)) == prob_bits(*old(f)),
        prob_positives(*old(f)).insert(x).subset_of(prob_positives(*final(f))),
        prob_hashes(*final(f)) == prob_hashes(*old(f)),
{
    f.insert(&x)
}

/// Relies on probabilistic_collections::bloom::BloomFilter::contains: true
/// exactly when every bit of the item is set.
/// Each of its `hasher_count` probes is a hash taken modulo the bit count,
/// hence the bounds.
#[verifier::external_body]
fn prob_contains(f: &probabilistic_collections::bloom::BloomFilter<u64>, x: u64) -> (r: bool)
    requires
        1 <= prob_bits(*f),
        prob_hashes(*f) <= prob_bits(*f),
    ensures
        r == prob_positives(*f).contains(x),
{
    f.contains(&x)
}

/// Relies on probabilistic_collections::bloom::BloomFilter::hasher_count:
/// the hash count fixed at construction.
#[verifier::external_body]
fn prob_hasher_count(f: &probabilistic_collections::bloom::BloomFilter<u64>) -> (r: usize)
    ensures
        r == prob_hashes(*f),
{
    f.hasher_count()
}

impl Container<u64> for probabilistic_collections::bloom::BloomFilter<u64> {
    open spec fn wf(&self) -> bool {
        1 <= prob_bits(*self) && prob_hashes(*self) <= prob_bits(*self)
    }

    open spec fn members(&self) -> Set<u64> {
        prob_positives(*self)
    }

    open spec fn excluded(&self) -> Set<u64> {
        self.members().complement()
    }

    open spec fn states_hashes() -> bool {
        true
    }

    open spec fn hashes(&self) -> nat {
        prob_hashes(*self)
    }

    open spec fn planned_hashes(num_bits: usize, num_items: usize) -> nat {
        prob_planned(num_bits, num_items)
    }

    open spec fn one_sided() -> bool {
        true
    }

    open spec fn buildable(num_bits: usize, num_items: usize) -> bool {
        num_bits >= 1 && num_items >= 1
    }

    fn check(&self, s: &u64) -> (r: bool) {
        prob_contains(self, *s)
    }

    fn num_hashes(&self) -> usize {
        prob_hasher_count(self)
    }

    /// `None` for zero bits or zero items.
    fn new(num_bits: usize, num_items: usize) -> Option<Self> {
        if num_bits == 0 || num_items == 0 {
            None
        } else {
            Some(prob_from_item_count(num_bits, num_items))
        }
    }

    fn extend(&mut self, items: &Vec<u64>) {
        let mut i: usize = 0;
        while i < items.len()
            invariant
                0 <= i <= items@.len(),
                old(self).members().subset_of(self.members()),
                self.hashes() == old(self).hashes(),
                self.wf(),
                forall|j: int| 0 <= j < i ==> #[trigger] self.members().contains(items@[j]),
            decreases items@.len() - i,
        {
            prob_insert(self, items[i]);
            i = i + 1;
        }
    }

    fn name() -> &'static str {
        "probabilistic-collections"
    }
}

} // verus!
