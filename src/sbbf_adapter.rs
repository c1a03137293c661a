//! The split-block filter of `sbbf-rs-safe`, fed with the xxh3 hash of each
//! key's big-endian bytes, measured through `Container`.
use crate::bytes::{be_bytes, to_be_bytes};
use crate::container::Container;
use vstd::prelude::*;

verus! {

/// `sbbf_rs_safe::Filter`, carried opaquely.
#[verifier::external_type_specification]
#[verifier::external_body]
pub struct ExSbbfFilter(sbbf_rs_safe::Filter);

/// The 64-bit xxh3 hash of `bytes`.
pub uninterp spec fn xxh3_of(bytes: Seq<u8>) -> u64;

/// The hashes that an `sbbf_rs_safe::Filter` reports as present.
pub uninterp spec fn sbbf_positives(f: sbbf_rs_safe::Filter) -> Set<u64>;

/// The number of bits a split-block filter sets per hash.
pub const SBBF_PROBES: usize = 8;

/// Relies on xxhash_rust::xxh3::xxh3_64: a hash of the bytes alone.
#[verifier::external_body]
fn xxh3_64(bytes: &[u8; 8]) -> (r: u64)
    ensures
        r == xxh3_of(bytes@),
{
    xxhash_rust::xxh3::xxh3_64(bytes)
}

/// The xxh3 hash of the big-endian bytes of `x`.
pub fn key_hash(x: u64) -> (r: u64)
    ensures
        r == xxh3_of(be_bytes(x)),
{
    xxh3_64(&to_be_bytes(x))
}

/// Relies on sbbf_rs_safe::Filter::new: a filter of `bits_per_key *
/// num_keys / 8` bytes rounded up to whole blocks, at least one block.
#[verifier::external_body]
fn sbbf_new(bits_per_key: usize, num_keys: usize) -> (r: sbbf_rs_safe::Filter)
    requires
        bits_per_key * num_keys <= usize::MAX,
{
    sbbf_rs_safe::Filter::new(bits_per_key, num_keys)
}

/// Relies on sbbf_rs_safe::Filter::insert_hash: sets the bits of the hash,
/// so it tests present afterwards and every hash that tested present still
/// does.
#[verifier::external_body]
fn sbbf_insert_hash(f: &mut sbbf_rs_safe::Filter, h: u64)
    ensures
        sbbf_positives(*old(f)).insert(h).subset_of(sbbf_positives(*final(f))),
{
    f.insert_hash(h);
}

/// Relies on sbbf_rs_safe::Filter::contains_hash: true exactly when every
/// bit of the hash is set.
#[verifier::external_body]
fn sbbf_contains_hash(f: &sbbf_rs_safe::Filter, h: u64) -> (r: bool)
    ensures
        r == sbbf_positives(*f).contains(h),
{
    f.contains_hash(h)
}

impl Container<u64> for sbbf_rs_safe::Filter {
    open spec fn members(&self) -> Set<u64> {
        Set::new(|x: u64| sbbf_positives(*self).contains(xxh3_of(be_bytes(x))))
    }

    open spec fn excluded(&self) -> Set<u64> {
        self.members().complement()
    }

    open spec fn states_hashes() -> bool {
        true
    }

    open spec fn hashes(&self) -> nat {
        SBBF_PROBES as nat
    }

    open spec fn planned_hashes(num_bits: usize, num_items: usize) -> nat {
        SBBF_PROBES as nat
    }

    open spec fn one_sided() -> bool {
        true
    }

    open spec fn buildable(num_bits: usize, num_items: usize) -> bool {
        true
    }

    fn check(&self, s: &u64) -> (r: bool) {
        sbbf_contains_hash(self, key_hash(*s))
    }

    fn num_hashes(&self) -> usize {
        SBBF_PROBES
    }

    /// All `num_bits` bits for a single key: the filter's size does not
    /// depend on the expected item count.
    fn new(num_bits: usize, _num_items: usize) -> Option<Self> {
        Some(sbbf_new(num_bits, 1))
    }

    fn extend(&mut self, items: &Vec<u64>) {
        let mut i: usize = 0;
        while i < items.len()
            invariant
                0 <= i <= items@.len(),
                old(self).members().subset_of(self.members()),
                self.hashes() == old(self).hashes(),
                self.wf(),
                forall|j: int| 0 <= j < i ==> #[trigger] self.members().contains(items@[j]),
            decreases items@.len() - i,
        {
            let h = key_hash(items[i]);
            let ghost before = *self;
            sbbf_insert_hash(self, h);
            proof {
                assert(self.members().contains(items@[i as int]));
                assert(before.members().subset_of(self.members()));
            }
            i = i + 1;
        }
    }

    fn name() -> &'static str {
        "sbbf"
    }
}

} // verus!
