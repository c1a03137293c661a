//! The bloom filter of `solana-bloom` over `solana_program` hashes, measured
//! through `Container`. Each key becomes a 32-byte hash whose first eight
//! bytes hold the key.
use crate::bytes::{to_wide_key, wide_key};
use crate::container::Container;
use crate::random_filter::{optimal_hash_count, optimal_num_hashes, random_u64};
use vstd::prelude::*;

verus! {

/// A `solana_bloom::bloom::Bloom` over `solana_program` hashes. Verus
/// cannot declare that type itself (its parameter is bound by an outside
/// trait), so it is held here, out of Verus's sight.
#[verifier::external_body]
pub struct SolanaBloom {
    inner: solana_bloom::bloom::Bloom<solana_program::hash::Hash>,
}

/// The 32-byte hashes that a solana bloom filter reports as present.
pub uninterp spec fn solana_positives(f: SolanaBloom) -> Set<Seq<u8>>;

/// The number of probe keys held by a solana bloom filter.
pub uninterp spec fn solana_keys(f: SolanaBloom) -> nat;

/// Relies on solana_bloom::bloom::Bloom::new: a filter of `num_bits` bits
/// that probes once per key of `keys`. With zero bits every probe would
/// read past the end of the bit vector.
#[verifier::external_body]
#[allow(deprecated)]
fn solana_bloom_new(num_bits: usize, keys: Vec<u64>) -> (r: SolanaBloom)
    requires
        num_bits >= 1,
    ensures
        solana_keys(r) == keys@.len(),
{
    SolanaBloom { inner: solana_bloom::bloom::Bloom::new(num_bits, keys) }
}

/// Relies on solana_bloom::bloom::Bloom::add, on the hash built by
/// solana_program::hash::Hash::new_from_array from `key`: sets its bits,
/// so it tests present afterwards and every hash that tested present still
/// does.
#[verifier::external_body]
#[allow(deprecated)]
fn solana_add(f: &mut SolanaBloom, key: [u8; 32])
    ensures
        solana_positives(*old(f)).insert(key@).subset_of(solana_positives(*final(f))),
        solana_keys(*final(f)) == solana_keys(*old(f)),
{
    f.inner.add(&solana_program::hash::Hash::new_from_array(key))
}

/// Relies on solana_bloom::bloom::Bloom::contains, on the hash built by
/// solana_program::hash::Hash::new_from_array from `key`: true exactly
/// when every bit of it is set.
#[verifier::external_body]
#[allow(deprecated)]
fn solana_contains(f: &SolanaBloom, key: [u8; 32]) -> (r: bool)
    ensures
        r == solana_positives(*f).contains(key@),
{
    f.inner.contains(&solana_program::hash::Hash::new_from_array(key))
}

/// Relies on the public `keys` field of solana_bloom::bloom::Bloom: one
/// probe per key.
#[verifier::external_body]
#[allow(deprecated)]
fn solana_key_count(f: &SolanaBloom) -> (r: usize)
    ensures
        r == solana_keys(*f),
{
    f.inner.keys.len()
}

/// The number of probe keys for `num_bits` bits and `num_items` items:
/// none for zero items, else `max(1, round(ln 2 * num_bits / num_items))`.
pub fn solana_num_keys(num_bits: usize, num_items: usize) -> (r: usize)
    ensures
        num_items == 0 ==> r == 0,
        num_items > 0 ==> r == optimal_hash_count(num_bits as nat, num_items as nat),
{
    if num_items == 0 {
        0
    } else {
        optimal_num_hashes(num_bits, num_items)
    }
}

impl Container<u64> for SolanaBloom {
    open spec fn members(&self) -> Set<u64> {
        Set::new(|x: u64| solana_positives(*self).contains(wide_key(x)))
    }

    open spec fn excluded(&self) -> Set<u64> {
        self.members().complement()
    }

    open spec fn states_hashes() -> bool {
        true
    }

    open spec fn hashes(&self) -> nat {
        solana_keys(*self)
    }

    open spec fn planned_hashes(num_bits: usize, num_items: usize) -> nat {
        if num_items == 0 {
            0
        } else {
            optimal_hash_count(num_bits as nat, num_items as nat)
        }
    }

    open spec fn one_sided() -> bool {
        true
    }

    open spec fn buildable(num_bits: usize, num_items: usize) -> bool {
        num_bits >= 1
    }

    fn check(&self, s: &u64) -> (r: bool) {
        solana_contains(self, to_wide_key(*s))
    }

    fn num_hashes(&self) -> usize {
        solana_key_count(self)
    }

    /// Draws `solana_num_keys(num_bits, num_items)` random probe keys;
    /// `None` for zero bits.
    fn new(num_bits: usize, num_items: usize) -> Option<Self> {
        if num_bits == 0 {
            return None;
        }
        let num_keys = solana_num_keys(num_bits, num_items);
        let mut keys: Vec<u64> = Vec::new();
        let mut i: usize = 0;
        while i < num_keys
            invariant
                i <= num_keys,
                keys@.len() == i,
            decreases num_keys - i,
        {
            keys.push(random_u64());
            i = i + 1;
        }
        Some(solana_bloom_new(num_bits, keys))
    }

    fn extend(&mut self, items: &Vec<u64>) {
        let mut i: usize = 0;
        while i < items.len()
            invariant
                0 <= i <= items@.len(),
                old(self).members().subset_of(self.members()),
                self.hashes() == old(self).hashes(),
                self.wf(),
                forall|j: int| 0 <= j < i ==> #[trigger] self.members().contains(items@[j]),
            decreases items@.len() - i,
        {
            let key = to_wide_key(items[i]);
            let ghost before = *self;
            solana_add(self, key);
            proof {
                assert(self.members().contains(items@[i as int]));
                assert(before.members().subset_of(self.members()));
            }
            i = i + 1;
        }
    }

    fn name() -> &'static str {
        "solana-bloom"
    }
}

} // verus!
