//! The `bloomfilter` crate's filter, measured through `Container`.
use crate::container::Container;
use vstd::prelude::*;

verus! {

/// The `bloomfilter` crate's `Bloom`, carried opaquely.
#[verifier::external_type_specification]
#[verifier::external_body]
#[verifier::reject_recursive_types(T)]
pub struct ExBloomfilterBloom<T: ?Sized>(bloomfilter::Bloom<T>);

/// The items that a `bloomfilter::Bloom<u64>` reports as present.
pub uninterp spec fn bloomfilter_positives(f: bloomfilter::Bloom<u64>) -> Set<u64>;

/// The number of bits of a `bloomfilter::Bloom<u64>`.
pub uninterp spec fn bloomfilter_bits(f: bloomfilter::Bloom<u64>) -> nat;

/// The hash count held by a `bloomfilter::Bloom<u64>`.
pub uninterp spec fn bloomfilter_hashes(f: bloomfilter::Bloom<u64>) -> nat;

/// The hash count that `bloomfilter::Bloom::new` derives for a bitmap of
/// `bitmap_size` bytes and `items_count` items.
pub uninterp spec fn bloomfilter_planned(bitmap_size: usize, items_count: usize) -> nat;

/// Relies on bloomfilter::Bloom::new: a filter of `bitmap_size` bytes sized
/// for `items_count` items, or an error where no random seed could be had.
/// It asserts that both sizes are positive.
#[verifier::external_body]
fn bloomfilter_new(bitmap_size: usize, items_count: usize) -> (r: Result<
    bloomfilter::Bloom<u64>,
    &'static str,
>)
    requires
        bitmap_size >= 1,
        items_count >= 1,
    ensures
        r matches Ok(f) ==> bloomfilter_hashes(f) == bloomfilter_planned(bitmap_size, items_count),
        r matches Ok(f) ==> bloomfilter_bits(f) == 8 * bitmap_size,
{
    bloomfilter::Bloom::new(bitmap_size, items_count)
}

/// Relies on bloomfilter::Bloom::set: sets the bits of the item, so the
/// item tests present afterwards and every item that tested present still
/// does.
/// Each probe is a hash taken modulo the bit count, hence the bound.
#[verifier::external_body]
fn bloomfilter_set(f: &mut bloomfilter::Bloom<u64>, x: u64)
    requires
        bloomfilter_bits(*old(f)) >= 1,
    ensures
        bloomfilter_bits(*final(f)) == bloomfilter_bits(*old(f)),
        bloomfilter_positives(*old(f)).insert(x).subset_of(bloomfilter_positives(*final(f))),
        bloomfilter_hashes(*final(f)) == bloomfilter_hashes(*old(f)),
{
    f.set(&x)
}

/// Relies on bloomfilter::Bloom::check: true exactly when every bit of the
/// item is set.
/// Each probe is a hash taken modulo the bit count, hence the bound.
#[verifier::external_body]
fn bloomfilter_check(f: &bloomfilter::Bloom<u64>, x: u64) -> (r: bool)
    requires
        bloomfilter_bits(*f) >= 1,
    ensures
        r == bloomfilter_positives(*f).contains(x),
{
    f.check(&x)
}

/// Relies on bloomfilter::Bloom::number_of_hash_functions: the hash count
/// fixed at construction.
#[verifier::external_body]
fn bloomfilter_num_hashes(f: &bloomfilter::Bloom<u64>) -> (r: u32)
    ensures
        r == bloomfilter_hashes(*f),
{
    f.number_of_hash_functions()
}

/// A `bloomfilter` filter of `num_bits` bits sized for `num_items` items.
/// The crate sizes its bitmap in bytes: `num_bits / 8` of them. `None` where
/// that is zero, where `num_items` is zero, or where the crate fails.
pub fn bloomfilter_build(num_bits: usize, num_items: usize) -> (r: Option<bloomfilter::Bloom<u64>>)
    ensures
        num_bits / 8 == 0 || num_items == 0 ==> r is None,
        r matches Some(f) ==> bloomfilter_bits(f) == 8 * (num_bits / 8) && bloomfilter_hashes(f)
            == bloomfilter_planned(num_bits / 8, num_items),
{
    if num_bits / 8 == 0 || num_items == 0 {
        None
    } else {
        match bloomfilter_new(num_bits / 8, num_items) {
            Ok(f) => Some(f),
            Err(_) => None,
        }
    }
}

impl Container<u64> for bloomfilter::Bloom<u64> {
    open spec fn wf(&self) -> bool {
        bloomfilter_bits(*self) >= 1
    }

    open spec fn members(&self) -> Set<u64> {
        bloomfilter_positives(*self)
    }

    open spec fn excluded(&self) -> Set<u64> {
        self.members().complement()
    }

    open spec fn states_hashes() -> bool {
        true
    }

    open spec fn hashes(&self) -> nat {
        bloomfilter_hashes(*self)
    }

    open spec fn planned_hashes(num_bits: usize, num_items: usize) -> nat {
        bloomfilter_planned(num_bits / 8, num_items)
    }

    open spec fn one_sided() -> bool {
        true
    }

    fn check(&self, s: &u64) -> (r: bool) {
        bloomfilter_check(self, *s)
    }

    fn num_hashes(&self) -> usize {
        bloomfilter_num_hashes(self) as usize
    }

    fn new(num_bits: usize, num_items: usize) -> Option<Self> {
        bloomfilter_build(num_bits, num_items)
    }

    fn extend(&mut self, items: &Vec<u64>) {
        let mut i: usize = 0;
        while i < items.len()
            invariant
                0 <= i <= items@.len(),
                old(self).members().subset_of(self.members()),
                self.hashes() == old(self).hashes(),
                self.wf(),
                forall|j: int| 0 <= j < i ==> #[trigger] self.members().contains(items@[j]),
            decreases items@.len() - i,
        {
            bloomfilter_set(self, items[i]);
            i = i + 1;
        }
    }

    fn name() -> &'static str {
        "bloomfilter"
    }
}

} // verus!
