use bloom_filter_benches::bloomfilter_adapter::bloomfilter_build;
use bloom_filter_benches::bytes::{to_be_bytes, to_wide_key};
use bloom_filter_benches::fastbloom_adapter::{FastBloomAtomic, FastBloomDefault};
use bloom_filter_benches::random_numbers;
use bloom_filter_benches::sampler::false_pos_rate_adaptive;
use bloom_filter_benches::sbbf_adapter::key_hash;
use bloom_filter_benches::solana_adapter::{solana_num_keys, SolanaBloom};
use bloom_filter_benches::trial::measure;
use bloom_filter_benches::{Container, XXHashWrapper};
use std::hash::{BuildHasher, Hasher};

fn members(seed: u64, n: usize) -> Vec<u64> {
    let mut stream = random_numbers(seed);
    (0..n).map(|_| stream.next()).collect()
}

/// Inserts a random member set and checks that every member is reported.
fn no_false_negatives<T: Container<u64>>() {
    let items = members(7, 400);
    let mut f = T::new(1 << 12, 400).unwrap();
    f.extend(&items);
    for x in &items {
        assert!(f.check(x), "{} lost {}", T::name(), x);
    }
}

#[test]
fn no_false_negatives_bloom() {
    no_false_negatives::<bloom::BloomFilter>();
}

#[test]
fn no_false_negatives_bloomfilter() {
    no_false_negatives::<bloomfilter::Bloom<u64>>();
}

#[test]
fn no_false_negatives_fastbloom_ahash() {
    no_false_negatives::<fastbloom::BloomFilter<ahash::RandomState>>();
}

#[test]
fn no_false_negatives_fastbloom_default() {
    no_false_negatives::<FastBloomDefault>();
}

#[test]
fn no_false_negatives_fastbloom_atomic() {
    no_false_negatives::<FastBloomAtomic>();
}

#[test]
fn no_false_negatives_fastbloom_xxhash() {
    no_false_negatives::<fastbloom::BloomFilter<XXHashWrapper>>();
}

#[test]
fn no_false_negatives_sbbf() {
    no_false_negatives::<sbbf_rs_safe::Filter>();
}

#[test]
fn no_false_negatives_fastbloom_rs() {
    no_false_negatives::<fastbloom_rs::BloomFilter>();
}

#[test]
fn no_false_negatives_probabilistic() {
    no_false_negatives::<probabilistic_collections::bloom::BloomFilter<u64>>();
}

#[test]
fn no_false_negatives_solana() {
    no_false_negatives::<SolanaBloom>();
}

#[test]
fn names() {
    assert_eq!(<bloom::BloomFilter as Container<u64>>::name(), "bloom");
    assert_eq!(<sbbf_rs_safe::Filter as Container<u64>>::name(), "sbbf");
    assert_eq!(<SolanaBloom as Container<u64>>::name(), "solana-bloom");
}

#[test]
fn constructors_refuse_unusable_sizes() {
    assert!(<bloom::BloomFilter as Container<u64>>::new(0, 10).is_none());
    assert!(<bloomfilter::Bloom<u64> as Container<u64>>::new(7, 10).is_none());
    assert!(<bloomfilter::Bloom<u64> as Container<u64>>::new(64, 0).is_none());
    assert!(<fastbloom_rs::BloomFilter as Container<u64>>::new(100, 10).is_none());
    assert!(<fastbloom_rs::BloomFilter as Container<u64>>::new(128, 10).is_some());
    assert!(<probabilistic_collections::bloom::BloomFilter<u64> as Container<u64>>::new(64, 0).is_none());
    assert!(<SolanaBloom as Container<u64>>::new(0, 10).is_none());
    assert!(<FastBloomDefault as Container<u64>>::new(0, 10).is_none());
}

#[test]
fn hash_counts() {
    let s = <sbbf_rs_safe::Filter as Container<u64>>::new(1 << 12, 10).unwrap();
    assert_eq!(s.num_hashes(), 8);
    let p = <probabilistic_collections::bloom::BloomFilter<u64> as Container<u64>>::new(1024, 64).unwrap();
    // ceil(ln 2 * 16) = 12
    assert_eq!(p.num_hashes(), 12);
    let b = <bloom::BloomFilter as Container<u64>>::new(1024, 64).unwrap();
    assert_eq!(b.num_hashes(), 11);
    let sol = <SolanaBloom as Container<u64>>::new(1024, 64).unwrap();
    assert_eq!(sol.num_hashes(), 11);
    let sol0 = <SolanaBloom as Container<u64>>::new(1024, 0).unwrap();
    assert_eq!(sol0.num_hashes(), 0);
    assert_eq!(solana_num_keys(1024, 0), 0);
    assert_eq!(solana_num_keys(1024, 64), 11);
}

#[test]
fn key_hash_is_xxh3_of_big_endian_bytes() {
    let x: u64 = 0x0102_0304_0506_0708;
    assert_eq!(key_hash(x), xxhash_rust::xxh3::xxh3_64(&x.to_be_bytes()));
    assert_ne!(key_hash(x), x);
    assert_ne!(key_hash(1), key_hash(2));
}

#[test]
fn byte_layouts() {
    let x: u64 = 0x0102_0304_0506_0708;
    assert_eq!(to_be_bytes(x), [1, 2, 3, 4, 5, 6, 7, 8]);
    let w = to_wide_key(x);
    assert_eq!(&w[0..8], &[8, 7, 6, 5, 4, 3, 2, 1]);
    assert!(w[8..].iter().all(|&b| b == 0));
}

#[test]
fn pass_through_hasher() {
    let mut h = XXHashWrapper::new().build_hasher();
    h.write_u64(12345);
    assert_eq!(h.finish(), 12345);
    let mut g = XXHashWrapper::new();
    g.write_u64(7);
    g.write(&[1, 2]);
    assert_eq!(g.finish(), 7);
}

#[test]
fn random_numbers_are_reproducible() {
    let a = members(42, 50);
    let b = members(42, 50);
    let c = members(43, 50);
    assert_eq!(a, b);
    assert_ne!(a, c);
    assert!(a.iter().all(|&x| x <= u32::MAX as u64));
}

#[test]
fn simple() {
    let num_bits = 1 << 12;
    let num_items = num_bits / 10;
    let mut b: SolanaBloom = Container::new(num_bits, num_items).unwrap();

    b.extend(&(0..num_items as u64).collect());
    let first = num_items as u64;
    let fp = false_pos_rate_adaptive(&b, first, u64::MAX - first + 1);
    println!("{:?}", fp);
    assert!(fp.den >= 1 && fp.num <= fp.den);
}

#[test]
fn accuracy_degrades_with_load() {
    let num_bits = 1 << 12;
    let rows = measure::<fastbloom::BloomFilter<ahash::RandomState>>(num_bits, 8, 20_000).unwrap();
    let mean_at = |load_num: u64, load_den: u64| {
        let row = rows
            .iter()
            .find(|r| r.load.num * load_den >= load_num * r.load.den)
            .unwrap();
        row.mean.num as f64 / row.mean.den as f64
    };
    assert!(mean_at(8, 100) >= mean_at(1, 100));
}

#[test]
fn fastbloom_variants_plan_the_same_hash_count() {
    let a = <fastbloom::BloomFilter<ahash::RandomState> as Container<u64>>::new(4096, 100).unwrap();
    let b = <fastbloom::BloomFilter<XXHashWrapper> as Container<u64>>::new(4096, 100).unwrap();
    let c = <FastBloomDefault as Container<u64>>::new(4096, 100).unwrap();
    let d = <FastBloomAtomic as Container<u64>>::new(4096, 100).unwrap();
    // round(ln 2 * 4096 / 100) = 28
    assert_eq!(a.num_hashes(), 28);
    assert_eq!(b.num_hashes(), 28);
    assert_eq!(c.num_hashes(), 28);
    assert_eq!(d.num_hashes(), 28);
}

#[test]
fn fresh_filters_reject_and_members_stay() {
    let mut f = <fastbloom_rs::BloomFilter as Container<u64>>::new(4096, 10).unwrap();
    assert!(!f.check(&5));
    f.extend(&vec![5]);
    assert!(f.check(&5));
    // bloom::optimal_num_hashes clamps to 200
    assert_eq!(f.num_hashes(), 200);
}

#[test]
fn bloomfilter_build_refuses_empty_sizes() {
    assert!(bloomfilter_build(7, 10).is_none());
    assert!(bloomfilter_build(64, 0).is_none());
    let f = bloomfilter_build(64, 8).unwrap();
    // round(ln 2 * 64 / 8) = 6
    assert_eq!(f.number_of_hash_functions(), 6);
}

#[test]
fn fastbloom_rs_refuses_oversized_filters() {
    assert!(<fastbloom_rs::BloomFilter as Container<u64>>::new(1 << 57, 10).is_none());
}
