//! The `bloom` crate's filter, measured through `Container`.
use crate::container::Container;
use vstd::prelude::*;

verus! {

/// The `bloom` crate's `BloomFilter`, carried opaquely.
#[verifier::external_type_specification]
#[verifier::external_body]
#[verifier::reject_recursive_types(R)]
#[verifier::reject_recursive_types(S)]
pub struct ExBloomCrateFilter<R, S>(bloom::BloomFilter<R, S>);

/// The items that a `bloom::BloomFilter` reports as present.
pub uninterp spec fn bloom_positives(f: bloom::BloomFilter) -> Set<u64>;

/// The number of bits of a `bloom::BloomFilter`.
pub uninterp spec fn bloom_bits(f: bloom::BloomFilter) -> nat;

/// The hash count held by a `bloom::BloomFilter`.
pub uninterp spec fn bloom_hashes(f: bloom::BloomFilter) -> nat;

/// The hash count that `bloom::bloom::optimal_num_hashes` gives for a size
/// and an expected item count.
pub uninterp spec fn bloom_optimal_of(num_bits: usize, num_items: u32) -> u32;

/// Relies on bloom::optimal_num_hashes: `round(ln 2 * num_bits /
/// num_items)` clamped to `[2, 200]`, a function of its arguments alone.
#[verifier::external_body]
pub(crate) fn bloom_optimal_hashes(num_bits: usize, num_items: u32) -> (r: u32)
    ensures
        r == bloom_optimal_of(num_bits, num_items),
        2 <= r <= 200,
{
    bloom::bloom::optimal_num_hashes(num_bits, num_items)
}

/// Relies on bloom::BloomFilter::with_size: a filter of `num_bits` bits
/// that stores `num_hashes` as its hash count. With zero bits its insert
/// and contains would divide by zero, hence the bound.
#[verifier::external_body]
fn bloom_with_size(num_bits: usize, num_hashes: u32) -> (r: bloom::BloomFilter)
    requires
        num_bits >= 1,
    ensures
        bloom_bits(r) == num_bits,
        bloom_hashes(r) == num_hashes,
{
    bloom::BloomFilter::with_size(num_bits, num_hashes)
}

/// Relies on bloom::ASMS::insert: sets the bits of the item, so the item
/// tests present afterwards and every item that tested present still does.
/// The bit and hash counts are untouched. Each probe is a hash taken
/// modulo the bit count, hence the bound.
#[verifier::external_body]
fn bloom_insert(f: &mut bloom::BloomFilter, x: u64)
    requires
        bloom_bits(*old(f)) >= 1,
    ensures
        bloom_bits(*final(f)) == bloom_bits(*old(f)),
        bloom_positives(*old(f)).insert(x).subset_of(bloom_positives(*final(f))),
        bloom_hashes(*final(f)) == bloom_hashes(*old(f)),
{
    bloom::ASMS::insert(f, &x);
}

/// Relies on bloom::ASMS::contains: true exactly when every bit of the
/// item is set. Each probe is a hash taken modulo the bit count, hence the
/// bound.
#[verifier::external_body]
fn bloom_contains(f: &bloom::BloomFilter, x: u64) -> (r: bool)
    requires
        bloom_bits(*f) >= 1,
    ensures
        r == bloom_positives(*f).contains(x),
{
    bloom::ASMS::contains(f, &x)
}

/// Relies on bloom::BloomFilter::num_hashes: the hash count fixed at
/// construction.
#[verifier::external_body]
fn bloom_num_hashes(f: &bloom::BloomFilter) -> (r: u32)
    ensures
        r == bloom_hashes(*f),
{
    f.num_hashes()
}

impl Container<u64> for bloom::BloomFilter {
    open spec fn wf(&self) -> bool {
        bloom_bits(*self) >= 1
    }

    open spec fn members(&self) -> Set<u64> {
        bloom_positives(*self)
    }

    open spec fn excluded(&self) -> Set<u64> {
        self.members().complement()
    }

    open spec fn states_hashes() -> bool {
        true
    }

    open spec fn hashes(&self) -> nat {
        bloom_hashes(*self)
    }

    open spec fn planned_hashes(num_bits: usize, num_items: usize) -> nat {
        if num_items <= u32::MAX {
            bloom_optimal_of(num_bits, num_items as u32) as nat
        } else {
            0
        }
    }

    open spec fn one_sided() -> bool {
        true
    }

    open spec fn buildable(num_bits: usize, num_items: usize) -> bool {
        num_bits >= 1 && num_items <= u32::MAX
    }

    fn check(&self, s: &u64) -> (r: bool) {
        bloom_contains(self, *s)
    }

    fn num_hashes(&self) -> usize {
        bloom_num_hashes(self) as usize
    }

    /// Sized with the crate's own optimal hash count; `None` for zero bits
    /// or for an item count beyond `u32`.
    fn new(num_bits: usize, num_items: usize) -> Option<Self> {
        if num_bits == 0 || num_items > u32::MAX as usize {
            None
        } else {
            let hashes = bloom_optimal_hashes(num_bits, num_items as u32);
            Some(bloom_with_size(num_bits, hashes))
        }
    }

    fn extend(&mut self, items: &Vec<u64>) {
        let mut i: usize = 0;
        while i < items.len()
            invariant
                0 <= i <= items@.len(),
                old(self).members().subset_of(self.members()),
                self.hashes() == old(self).hashes(),
                self.wf(),
                forall|j: int| 0 <= j < i ==> #[trigger] self.members().contains(items@[j]),
            decreases items@.len() - i,
        {
            bloom_insert(self, items[i]);
            i = i + 1;
        }
    }

    fn name() -> &'static str {
        "bloom"
    }
}

} // verus!
