//! The `fastbloom-rs` crate's filter, fed with each key's big-endian bytes,
//! measured through `Container`.
use crate::bloom_adapter::{bloom_optimal_hashes, bloom_optimal_of};
use crate::bytes::{be_bytes, to_be_bytes};
use crate::container::Container;
use vstd::prelude::*;

verus! {

/// `fastbloom_rs::BloomFilter`, carried opaquely.
#[verifier::external_type_specification]
#[verifier::external_body]
pub struct ExFastBloomRsFilter(fastbloom_rs::BloomFilter);

/// The byte strings that a `fastbloom_rs::BloomFilter` reports as present.
pub uninterp spec fn fastbloom_rs_positives(f: fastbloom_rs::BloomFilter) -> Set<Seq<u8>>;

/// The number of bits of a `fastbloom_rs::BloomFilter`.
pub uninterp spec fn fastbloom_rs_size(f: fastbloom_rs::BloomFilter) -> nat;

/// The largest bit count used with `fastbloom_rs`: the probe arithmetic
/// `hash1 + i * hash2`, with `i` below the probe count and both hashes below
/// the bit count, stays within 64 bits.
pub const FASTBLOOM_RS_MAX_BITS: u64 = 0x0100_0000_0000_0000;

/// The largest probe count used with `fastbloom_rs`.
pub const FASTBLOOM_RS_MAX_HASHES: u32 = 200;

/// Whether a `fastbloom_rs` filter of `size` bits probed `hashes` times
/// can be used without panicking: whole words of bits, and probe arithmetic
/// within 64 bits.
pub open spec fn fastbloom_rs_usable(size: nat, hashes: nat) -> bool {
    &&& 64 <= size <= FASTBLOOM_RS_MAX_BITS
    &&& size % 64 == 0
    &&& hashes <= FASTBLOOM_RS_MAX_HASHES
}

/// The probe count held by a `fastbloom_rs::BloomFilter`.
pub uninterp spec fn fastbloom_rs_hashes(f: fastbloom_rs::BloomFilter) -> nat;

/// The bit count of a `fastbloom_rs` filter is a whole number of words.
pub const FASTBLOOM_RS_WORD_BITS: usize = 64;

/// Relies on fastbloom_rs::FilterBuilder::from_size_and_hashes and
/// build_bloom_filter: a filter of `size` bits probed `hashes` times per
/// item. Its bit vector holds `size / 64` words while probes range over
/// `[0, size)`, so `size` must be a positive multiple of 64.
#[verifier::external_body]
fn fastbloom_rs_build(size: u64, hashes: u32) -> (r: fastbloom_rs::BloomFilter)
    requires
        fastbloom_rs_usable(size as nat, hashes as nat),
    ensures
        fastbloom_rs_size(r) == size,
        fastbloom_rs_hashes(r) == hashes,
{
    fastbloom_rs::FilterBuilder::from_size_and_hashes(size, hashes).build_bloom_filter()
}

/// Relies on fastbloom_rs::Membership::add: sets the bits of the bytes, so
/// they test present afterwards and everything that tested present still
/// does.
/// Probes index a bit vector of `size / 64` words through `(hash1 + i *
/// hash2) % size`, hence the bounds.
#[verifier::external_body]
fn fastbloom_rs_add(f: &mut fastbloom_rs::BloomFilter, bytes: [u8; 8])
    requires
        fastbloom_rs_usable(fastbloom_rs_size(*old(f)), fastbloom_rs_hashes(*old(f))),
    ensures
        fastbloom_rs_size(*final(f)) == fastbloom_rs_size(*old(f)),
        fastbloom_rs_positives(*old(f)).insert(bytes@).subset_of(fastbloom_rs_positives(*final(f))),
        fastbloom_rs_hashes(*final(f)) == fastbloom_rs_hashes(*old(f)),
{
    fastbloom_rs::Membership::add(f, &bytes)
}

/// Relies on fastbloom_rs::Membership::contains: true exactly when every
/// bit of the bytes is set.
/// Probes index a bit vector of `size / 64` words through `(hash1 + i *
/// hash2) % size`, hence the bounds.
#[verifier::external_body]
fn fastbloom_rs_contains(f: &fastbloom_rs::BloomFilter, bytes: [u8; 8]) -> (r: bool)
    requires
        fastbloom_rs_usable(fastbloom_rs_size(*f), fastbloom_rs_hashes(*f)),
    ensures
        r == fastbloom_rs_positives(*f).contains(bytes@),
{
    fastbloom_rs::Membership::contains(f, &bytes)
}

/// Relies on fastbloom_rs::Hashes::hashes: the probe count fixed at
/// construction.
#[verifier::external_body]
fn fastbloom_rs_probe_count(f: &fastbloom_rs::BloomFilter) -> (r: u32)
    ensures
        r == fastbloom_rs_hashes(*f),
{
    fastbloom_rs::Hashes::hashes(f)
}

impl Container<u64> for fastbloom_rs::BloomFilter {
    open spec fn wf(&self) -> bool {
        fastbloom_rs_usable(fastbloom_rs_size(*self), fastbloom_rs_hashes(*self))
    }

    open spec fn members(&self) -> Set<u64> {
        Set::new(|x: u64| fastbloom_rs_positives(*self).contains(be_bytes(x)))
    }

    open spec fn excluded(&self) -> Set<u64> {
        self.members().complement()
    }

    open spec fn states_hashes() -> bool {
        true
    }

    open spec fn hashes(&self) -> nat {
        fastbloom_rs_hashes(*self)
    }

    open spec fn planned_hashes(num_bits: usize, num_items: usize) -> nat {
        if num_items <= u32::MAX {
            bloom_optimal_of(num_bits, num_items as u32) as nat
        } else {
            0
        }
    }

    open spec fn one_sided() -> bool {
        true
    }

    open spec fn buildable(num_bits: usize, num_items: usize) -> bool {
        num_bits >= 1 && num_bits % 64 == 0 && num_bits <= FASTBLOOM_RS_MAX_BITS && num_items
            <= u32::MAX
    }

    fn check(&self, s: &u64) -> (r: bool) {
        fastbloom_rs_contains(self, to_be_bytes(*s))
    }

    fn num_hashes(&self) -> usize {
        fastbloom_rs_probe_count(self) as usize
    }

    /// Probed as often as the `bloom` crate finds optimal. `None` unless
    /// `num_bits` is a positive multiple of 64 up to `FASTBLOOM_RS_MAX_BITS`,
    /// or for an item count beyond `u32`.
    fn new(num_bits: usize, num_items: usize) -> Option<Self> {
        if num_bits == 0 || num_bits % FASTBLOOM_RS_WORD_BITS != 0 || num_bits as u64
            > FASTBLOOM_RS_MAX_BITS || num_items > u32::MAX as usize {
            None
        } else {
            let hashes = bloom_optimal_hashes(num_bits, num_items as u32);
            Some(fastbloom_rs_build(num_bits as u64, hashes))
        }
    }

    fn extend(&mut self, items: &Vec<u64>) {
        let mut i: usize = 0;
        while i < items.len()
            invariant
                0 <= i <= items@.len(),
                old(self).members().subset_of(self.members()),
                self.hashes() == old(self).hashes(),
                self.wf(),
                forall|j: int| 0 <= j < i ==> #[trigger] self.members().contains(items@[j]),
            decreases items@.len() - i,
        {
            let bytes = to_be_bytes(items[i]);
            let ghost before = *self;
            fastbloom_rs_add(self, bytes);
            proof {
                assert(self.members().contains(items@[i as int]));
                assert(before.members().subset_of(self.members()));
            }
            i = i + 1;
        }
    }

    fn name() -> &'static str {
        "fastbloom-rs"
    }
}

} // verus!
