//! The `fastbloom` crate's filters, measured through `Container`: with
//! `ahash` hashing, with the crate's default hasher, in its atomic form, and
//! fed with xxh3 hashes through `XXHashWrapper`.
use crate::bytes::be_bytes;
use crate::container::Container;
use crate::sbbf_adapter::{key_hash, xxh3_of};
use crate::xxhash_wrapper::XXHashWrapper;
use vstd::prelude::*;

verus! {

/// `fastbloom::BloomFilter`, carried opaquely.
#[verifier::external_type_specification]
#[verifier::external_body]
#[verifier::reject_recursive_types(S)]
pub struct ExFastBloomFilter<S>(fastbloom::BloomFilter<S>);

/// `ahash::RandomState`, the hasher of one fastbloom variant.
#[verifier::external_type_specification]
#[verifier::external_body]
pub struct ExAhashRandomState(ahash::RandomState);

/// The items that a `fastbloom::BloomFilter<ahash::RandomState>` reports as
/// present.
pub uninterp spec fn fastbloom_positives(f: fastbloom::BloomFilter<ahash::RandomState>) -> Set<u64>;

/// The hash count that fastbloom's builder picks for
/// `with_num_bits(num_bits)` followed by `expected_items(num_items)`.
pub uninterp spec fn fastbloom_planned(num_bits: usize, num_items: usize) -> nat;

/// The hash count held by a `fastbloom::BloomFilter<ahash::RandomState>`.
pub uninterp spec fn fastbloom_hashes(f: fastbloom::BloomFilter<ahash::RandomState>) -> nat;

/// Relies on fastbloom's builder: `with_num_bits`, with a fresh
/// `ahash::RandomState` as hasher, then `expected_items`. The builder
/// asserts `num_bits > 0` and rounds the bits up to whole 64-bit words.
#[verifier::external_body]
fn fastbloom_build(num_bits: usize, num_items: usize) -> (r: fastbloom::BloomFilter<
    ahash::RandomState,
>)
    requires
        1 <= num_bits <= usize::MAX - 63,
    ensures
        fastbloom_hashes(r) == fastbloom_planned(num_bits, num_items),
{
    fastbloom::BloomFilter::with_num_bits(num_bits).hasher(ahash::RandomState::default()).expected_items(
        num_items,
    )
}

/// Relies on fastbloom::BloomFilter::insert: sets the bits of the item, so
/// the item tests present afterwards and every item that tested present
/// still does.
#[verifier::external_body]
fn fastbloom_insert(f: &mut fastbloom::BloomFilter<ahash::RandomState>, x: u64)
    ensures
        fastbloom_positives(*old(f)).insert(x).subset_of(fastbloom_positives(*final(f))),
        fastbloom_hashes(*final(f)) == fastbloom_hashes(*old(f)),
{
    f.insert(&x);
}

/// Relies on fastbloom::BloomFilter::contains: true exactly when every bit
/// of the item is set.
#[verifier::external_body]
fn fastbloom_contains(f: &fastbloom::BloomFilter<ahash::RandomState>, x: u64) -> (r: bool)
    ensures
        r == fastbloom_positives(*f).contains(x),
{
    f.contains(&x)
}

/// Relies on fastbloom::BloomFilter::num_hashes: the hash count fixed at
/// construction.
#[verifier::external_body]
fn fastbloom_num_hashes(f: &fastbloom::BloomFilter<ahash::RandomState>) -> (r: u32)
    ensures
        r == fastbloom_hashes(*f),
{
    f.num_hashes()
}

impl Container<u64> for fastbloom::BloomFilter<ahash::RandomState> {
    open spec fn members(&self) -> Set<u64> {
        fastbloom_positives(*self)
    }

    open spec fn excluded(&self) -> Set<u64> {
        self.members().complement()
    }

    open spec fn states_hashes() -> bool {
        true
    }

    open spec fn hashes(&self) -> nat {
        fastbloom_hashes(*self)
    }

    open spec fn planned_hashes(num_bits: usize, num_items: usize) -> nat {
        fastbloom_planned(num_bits, num_items)
    }

    open spec fn one_sided() -> bool {
        true
    }

    open spec fn buildable(num_bits: usize, num_items: usize) -> bool {
        1 <= num_bits <= usize::MAX - 63
    }

    fn check(&self, s: &u64) -> (r: bool) {
        fastbloom_contains(self, *s)
    }

    fn num_hashes(&self) -> usize {
        fastbloom_num_hashes(self) as usize
    }

    /// `None` for zero bits, or for a size that cannot be rounded up to whole
    /// words.
    fn new(num_bits: usize, num_items: usize) -> Option<Self> {
        if num_bits == 0 || num_bits > usize::MAX - 63 {
            None
        } else {
            Some(fastbloom_build(num_bits, num_items))
        }
    }

    fn extend(&mut self, items: &Vec<u64>) {
        let mut i: usize = 0;
        while i < items.len()
            invariant
                0 <= i <= items@.len(),
                old(self).members().subset_of(self.members()),
                self.hashes() == old(self).hashes(),
                self.wf(),
                forall|j: int| 0 <= j < i ==> #[trigger] self.members().contains(items@[j]),
            decreases items@.len() - i,
        {
            fastbloom_insert(self, items[i]);
            i = i + 1;
        }
    }

    fn name() -> &'static str {
        "fastbloom"
    }
}

/// A `fastbloom::BloomFilter` with the crate's default hasher. Verus cannot
/// declare that hasher (an alias of types in a private module), so the
/// filter is held here, out of Verus's sight.
#[verifier::external_body]
pub struct FastBloomDefault {
    inner: fastbloom::BloomFilter<fastbloom::DefaultHasher>,
}

/// The items that a fastbloom filter with the crate's default hasher
/// reports as present.
pub uninterp spec fn fastbloom_default_positives(f: FastBloomDefault) -> Set<u64>;

/// The hash count held by a fastbloom filter with the default hasher.
pub uninterp spec fn fastbloom_default_hashes(f: FastBloomDefault) -> nat;

/// Relies on fastbloom's builder: `with_num_bits`, with a fresh
/// `fastbloom::DefaultHasher`, then `expected_items`. The builder asserts
/// `num_bits > 0` and rounds the bits up to whole 64-bit words.
#[verifier::external_body]
fn fastbloom_default_build(num_bits: usize, num_items: usize) -> (r: FastBloomDefault)
    requires
        1 <= num_bits <= usize::MAX - 63,
    ensures
        fastbloom_default_hashes(r) == fastbloom_planned(num_bits, num_items),
{
    FastBloomDefault {
        inner: fastbloom::BloomFilter::with_num_bits(num_bits).hasher(
            fastbloom::DefaultHasher::default(),
        ).expected_items(num_items),
    }
}

/// Relies on fastbloom::BloomFilter::insert: sets the bits of the item, so
/// the item tests present afterwards and every item that tested present
/// still does.
#[verifier::external_body]
fn fastbloom_default_insert(f: &mut FastBloomDefault, x: u64)
    ensures
        fastbloom_default_positives(*old(f)).insert(x).subset_of(
            fastbloom_default_positives(*final(f)),
        ),
        fastbloom_default_hashes(*final(f)) == fastbloom_default_hashes(*old(f)),
{
    f.inner.insert(&x);
}

/// Relies on fastbloom::BloomFilter::contains: true exactly when every bit
/// of the item is set.
#[verifier::external_body]
fn fastbloom_default_contains(f: &FastBloomDefault, x: u64) -> (r: bool)
    ensures
        r == fastbloom_default_positives(*f).contains(x),
{
    f.inner.contains(&x)
}

/// Relies on fastbloom::BloomFilter::num_hashes: the hash count fixed at
/// construction.
#[verifier::external_body]
fn fastbloom_default_num_hashes(f: &FastBloomDefault) -> (r: u32)
    ensures
        r == fastbloom_default_hashes(*f),
{
    f.inner.num_hashes()
}

impl Container<u64> for FastBloomDefault {
    open spec fn members(&self) -> Set<u64> {
        fastbloom_default_positives(*self)
    }

    open spec fn excluded(&self) -> Set<u64> {
        self.members().complement()
    }

    open spec fn states_hashes() -> bool {
        true
    }

    open spec fn hashes(&self) -> nat {
        fastbloom_default_hashes(*self)
    }

    open spec fn planned_hashes(num_bits: usize, num_items: usize) -> nat {
        fastbloom_planned(num_bits, num_items)
    }

    open spec fn one_sided() -> bool {
        true
    }

    open spec fn buildable(num_bits: usize, num_items: usize) -> bool {
        1 <= num_bits <= usize::MAX - 63
    }

    fn check(&self, s: &u64) -> (r: bool) {
        fastbloom_default_contains(self, *s)
    }

    fn num_hashes(&self) -> usize {
        fastbloom_default_num_hashes(self) as usize
    }

    /// `None` for zero bits, or for a size that cannot be rounded up to whole
    /// words.
    fn new(num_bits: usize, num_items: usize) -> Option<Self> {
        if num_bits == 0 || num_bits > usize::MAX - 63 {
            None
        } else {
            Some(fastbloom_default_build(num_bits, num_items))
        }
    }

    fn extend(&mut self, items: &Vec<u64>) {
        let mut i: usize = 0;
        while i < items.len()
            invariant
                0 <= i <= items@.len(),
                old(self).members().subset_of(self.members()),
                self.hashes() == old(self).hashes(),
                self.wf(),
                forall|j: int| 0 <= j < i ==> #[trigger] self.members().contains(items@[j]),
            decreases items@.len() - i,
        {
            fastbloom_default_insert(self, items[i]);
            i = i + 1;
        }
    }

    fn name() -> &'static str {
        "fastbloom"
    }
}

/// A `fastbloom::AtomicBloomFilter` with `ahash` hashing. Its insert sets
/// bits through a shared reference, which Verus would read as no change, so
/// the filter is held here and reached only through `&mut` wrappers.
#[verifier::external_body]
pub struct FastBloomAtomic {
    inner: fastbloom::AtomicBloomFilter<ahash::RandomState>,
}

/// The items that an atomic fastbloom filter reports as present.
pub uninterp spec fn fastbloom_atomic_positives(f: FastBloomAtomic) -> Set<u64>;

/// The hash count held by an atomic fastbloom filter, fixed at
/// construction.
pub uninterp spec fn fastbloom_atomic_hashes(f: FastBloomAtomic) -> nat;

/// Relies on fastbloom's atomic builder: `with_num_bits`, with a fresh
/// `ahash::RandomState`, then `expected_items`. The builder asserts
/// `num_bits > 0` and rounds the bits up to whole 64-bit words.
#[verifier::external_body]
fn fastbloom_atomic_build(num_bits: usize, num_items: usize) -> (r: FastBloomAtomic)
    requires
        1 <= num_bits <= usize::MAX - 63,
    ensures
        fastbloom_atomic_hashes(r) == fastbloom_planned(num_bits, num_items),
{
    FastBloomAtomic {
        inner: fastbloom::AtomicBloomFilter::with_num_bits(num_bits).hasher(
            ahash::RandomState::default(),
        ).expected_items(num_items),
    }
}

/// Relies on fastbloom::AtomicBloomFilter::insert: sets the bits of the
/// item, so the item tests present afterwards and every item that tested
/// present still does.
#[verifier::external_body]
fn fastbloom_atomic_insert(f: &mut FastBloomAtomic, x: u64)
    ensures
        fastbloom_atomic_positives(*old(f)).insert(x).subset_of(
            fastbloom_atomic_positives(*final(f)),
        ),
        fastbloom_atomic_hashes(*final(f)) == fastbloom_atomic_hashes(*old(f)),
{
    f.inner.insert(&x);
}

/// Relies on fastbloom::AtomicBloomFilter::contains: true exactly when
/// every bit of the item is set.
#[verifier::external_body]
fn fastbloom_atomic_contains(f: &FastBloomAtomic, x: u64) -> (r: bool)
    ensures
        r == fastbloom_atomic_positives(*f).contains(x),
{
    f.inner.contains(&x)
}

/// Relies on fastbloom::AtomicBloomFilter::num_hashes: the hash count fixed
/// at construction.
#[verifier::external_body]
fn fastbloom_atomic_num_hashes(f: &FastBloomAtomic) -> (r: u32)
    ensures
        r == fastbloom_atomic_hashes(*f),
{
    f.inner.num_hashes()
}

impl Container<u64> for FastBloomAtomic {
    open spec fn members(&self) -> Set<u64> {
        fastbloom_atomic_positives(*self)
    }

    open spec fn excluded(&self) -> Set<u64> {
        self.members().complement()
    }

    open spec fn states_hashes() -> bool {
        true
    }

    open spec fn hashes(&self) -> nat {
        fastbloom_atomic_hashes(*self)
    }

    open spec fn planned_hashes(num_bits: usize, num_items: usize) -> nat {
        fastbloom_planned(num_bits, num_items)
    }

    open spec fn one_sided() -> bool {
        true
    }

    open spec fn buildable(num_bits: usize, num_items: usize) -> bool {
        1 <= num_bits <= usize::MAX - 63
    }

    fn check(&self, s: &u64) -> (r: bool) {
        fastbloom_atomic_contains(self, *s)
    }

    fn num_hashes(&self) -> usize {
        fastbloom_atomic_num_hashes(self) as usize
    }

    /// `None` for zero bits, or for a size that cannot be rounded up to whole
    /// words.
    fn new(num_bits: usize, num_items: usize) -> Option<Self> {
        if num_bits == 0 || num_bits > usize::MAX - 63 {
            None
        } else {
            Some(fastbloom_atomic_build(num_bits, num_items))
        }
    }

    fn extend(&mut self, items: &Vec<u64>) {
        let mut i: usize = 0;
        while i < items.len()
            invariant
                0 <= i <= items@.len(),
                old(self).members().subset_of(self.members()),
                self.hashes() == old(self).hashes(),
                self.wf(),
                forall|j: int| 0 <= j < i ==> #[trigger] self.members().contains(items@[j]),
            decreases items@.len() - i,
        {
            fastbloom_atomic_insert(self, items[i]);
            i = i + 1;
        }
    }

    fn name() -> &'static str {
        "fastbloom (Atomic)"
    }
}

/// The hashes that a `fastbloom::BloomFilter` with the pass-through hasher
/// reports as present.
pub uninterp spec fn fastbloom_xx_positives(f: fastbloom::BloomFilter<XXHashWrapper>) -> Set<u64>;

/// The hash count held by a `fastbloom::BloomFilter` with the pass-through
/// hasher.
pub uninterp spec fn fastbloom_xx_hashes(f: fastbloom::BloomFilter<XXHashWrapper>) -> nat;

/// Relies on fastbloom's builder: `with_num_bits`, with `hasher` as hasher,
/// then `expected_items`. The builder asserts `num_bits > 0` and rounds the
/// bits up to whole 64-bit words.
#[verifier::external_body]
fn fastbloom_xx_build(num_bits: usize, num_items: usize, hasher: XXHashWrapper) -> (r:
    fastbloom::BloomFilter<XXHashWrapper>)
    requires
        1 <= num_bits <= usize::MAX - 63,
    ensures
        fastbloom_xx_hashes(r) == fastbloom_planned(num_bits, num_items),
{
    fastbloom::BloomFilter::with_num_bits(num_bits).hasher(hasher).expected_items(num_items)
}

/// Relies on fastbloom::BloomFilter::insert: sets the bits of the hash, so
/// it tests present afterwards and every hash that tested present still
/// does.
#[verifier::external_body]
fn fastbloom_xx_insert(f: &mut fastbloom::BloomFilter<XXHashWrapper>, h: u64)
    ensures
        fastbloom_xx_positives(*old(f)).insert(h).subset_of(fastbloom_xx_positives(*final(f))),
        fastbloom_xx_hashes(*final(f)) == fastbloom_xx_hashes(*old(f)),
{
    f.insert(&h);
}

/// Relies on fastbloom::BloomFilter::contains: true exactly when every bit
/// of the hash is set.
#[verifier::external_body]
fn fastbloom_xx_contains(f: &fastbloom::BloomFilter<XXHashWrapper>, h: u64) -> (r: bool)
    ensures
        r == fastbloom_xx_positives(*f).contains(h),
{
    f.contains(&h)
}

/// Relies on fastbloom::BloomFilter::num_hashes: the hash count fixed at
/// construction.
#[verifier::external_body]
fn fastbloom_xx_num_hashes(f: &fastbloom::BloomFilter<XXHashWrapper>) -> (r: u32)
    ensures
        r == fastbloom_xx_hashes(*f),
{
    f.num_hashes()
}

impl Container<u64> for fastbloom::BloomFilter<XXHashWrapper> {
    open spec fn members(&self) -> Set<u64> {
        Set::new(|x: u64| fastbloom_xx_positives(*self).contains(xxh3_of(be_bytes(x))))
    }

    open spec fn excluded(&self) -> Set<u64> {
        self.members().complement()
    }

    open spec fn states_hashes() -> bool {
        true
    }

    open spec fn hashes(&self) -> nat {
        fastbloom_xx_hashes(*self)
    }

    open spec fn planned_hashes(num_bits: usize, num_items: usize) -> nat {
        fastbloom_planned(num_bits, num_items)
    }

    open spec fn one_sided() -> bool {
        true
    }

    open spec fn buildable(num_bits: usize, num_items: usize) -> bool {
        1 <= num_bits <= usize::MAX - 63
    }

    fn check(&self, s: &u64) -> (r: bool) {
        fastbloom_xx_contains(self, key_hash(*s))
    }

    fn num_hashes(&self) -> usize {
        fastbloom_xx_num_hashes(self) as usize
    }

    /// `None` for zero bits, or for a size that cannot be rounded up to whole
    /// words.
    fn new(num_bits: usize, num_items: usize) -> Option<Self> {
        if num_bits == 0 || num_bits > usize::MAX - 63 {
            None
        } else {
            Some(fastbloom_xx_build(num_bits, num_items, XXHashWrapper::new()))
        }
    }

    fn extend(&mut self, items: &Vec<u64>) {
        let mut i: usize = 0;
        while i < items.len()
            invariant
                0 <= i <= items@.len(),
                old(self).members().subset_of(self.members()),
                self.hashes() == old(self).hashes(),
                self.wf(),
                forall|j: int| 0 <= j < i ==> #[trigger] self.members().contains(items@[j]),
            decreases items@.len() - i,
        {
            let h = key_hash(items[i]);
            let ghost before = *self;
            fastbloom_xx_insert(self, h);
            proof {
                assert(self.members().contains(items@[i as int]));
                assert(before.members().subset_of(self.members()));
            }
            i = i + 1;
        }
    }

    fn name() -> &'static str {
        "fastbloom - xxhash"
    }
}

} // verus!
