use bloom_filter_benches::aggregate::{aggregate, min_len, MEAN_SCALE};
use bloom_filter_benches::random_filter::optimal_num_hashes;
use bloom_filter_benches::sampler::{false_pos_rate, false_pos_rate_adaptive, AdaptiveCount};
use std::sync::Mutex;
use bloom_filter_benches::trial::{key_offsets, measure, run_trial, Observation, TrialError};
use bloom_filter_benches::{Container, RandomFilter, Ratio, Ticks};

/// Reports every item as present.
struct AlwaysPositive;

/// Reports no item as present.
struct AlwaysNegative;

impl Container<u64> for AlwaysPositive {
    fn check(&self, _s: &u64) -> bool {
        true
    }
    fn num_hashes(&self) -> usize {
        1
    }
    fn new(_num_bits: usize, _num_items: usize) -> Option<Self> {
        Some(AlwaysPositive)
    }
    fn extend(&mut self, _items: &Vec<u64>) {}
    fn name() -> &'static str {
        "always positive"
    }
}

impl Container<u64> for AlwaysNegative {
    fn check(&self, _s: &u64) -> bool {
        false
    }
    fn num_hashes(&self) -> usize {
        1
    }
    fn new(_num_bits: usize, _num_items: usize) -> Option<Self> {
        Some(AlwaysNegative)
    }
    fn extend(&mut self, _items: &Vec<u64>) {}
    fn name() -> &'static str {
        "always negative"
    }
}

/// Cannot be built at any size.
struct NeverBuilds;

impl Container<u64> for NeverBuilds {
    fn check(&self, _s: &u64) -> bool {
        false
    }
    fn num_hashes(&self) -> usize {
        1
    }
    fn new(_num_bits: usize, _num_items: usize) -> Option<Self> {
        None
    }
    fn extend(&mut self, _items: &Vec<u64>) {}
    fn name() -> &'static str {
        "never builds"
    }
}

#[test]
fn schedule_reaches_32_after_32_calls() {
    let mut ticks = Ticks::new();
    let mut last = 0;
    for _ in 0..32 {
        last = ticks.next();
    }
    assert_eq!(last, 32);
    assert_eq!(ticks.cur, 32);
    assert_eq!(ticks.next(), 34);
}

#[test]
fn schedule_first_checkpoints_step_by_one() {
    let mut ticks = Ticks::new();
    assert_eq!(ticks.next(), 1);
    assert_eq!(ticks.next(), 2);
    assert_eq!(ticks.next(), 3);
}

#[test]
fn schedule_is_restartable() {
    let mut a = Ticks::new();
    let mut b = Ticks::new();
    for _ in 0..100 {
        assert_eq!(a.next(), b.next());
    }
    // 32 steps of 1, then 32 of 2, then 32 of 4, then 4 of 8
    assert_eq!(a.cur, 32 + 64 + 128 + 32);
}

#[test]
fn sampler_stops_at_100_on_always_positive() {
    let r = false_pos_rate_adaptive(&AlwaysPositive, 1000, 1_000_000);
    assert_eq!(r, Ratio { num: 100, den: 100 });
}

#[test]
fn sampler_uses_budget_on_always_negative() {
    let r = false_pos_rate_adaptive(&AlwaysNegative, 1000, 5000);
    assert_eq!(r, Ratio { num: 0, den: 5000 });
}

#[test]
fn sampler_short_budget_on_always_positive() {
    let r = false_pos_rate_adaptive(&AlwaysPositive, 0, 40);
    assert_eq!(r, Ratio { num: 40, den: 40 });
}

/// Reports exactly the items below its bound.
struct Below(u64);

impl Container<u64> for Below {
    fn check(&self, s: &u64) -> bool {
        *s < self.0
    }
    fn num_hashes(&self) -> usize {
        1
    }
    fn new(_num_bits: usize, num_items: usize) -> Option<Self> {
        Some(Below(num_items as u64))
    }
    fn extend(&mut self, _items: &Vec<u64>) {}
    fn name() -> &'static str {
        "below"
    }
}

#[test]
fn sampler_moderate_rule() {
    // ten positives first, then negatives: stops right after test 1_000_001
    let r = false_pos_rate_adaptive(&Below(10), 0, 2_000_000);
    assert_eq!(r, Ratio { num: 10, den: 1_000_001 });
}

#[test]
fn sampler_cap_rule() {
    // one positive: stops right after test 100_000_001
    let r = false_pos_rate_adaptive(&Below(1), 0, 200_000_000);
    assert_eq!(r, Ratio { num: 1, den: 100_000_001 });
}

#[test]
fn sampler_stable_rule() {
    let r = false_pos_rate_adaptive(&Below(150), 0, 1000);
    assert_eq!(r, Ratio { num: 100, den: 100 });
}

#[test]
fn sampler_nine_positives_runs_out() {
    let r = false_pos_rate_adaptive(&Below(9), 0, 3_000_000);
    assert_eq!(r, Ratio { num: 9, den: 3_000_000 });
}

#[test]
fn reference_hash_count_formula() {
    assert_eq!(optimal_num_hashes(1024, 64), 11);
    let f = RandomFilter::new(1024, 64);
    assert_eq!(f.hash_count(), 11);
    assert_eq!(<RandomFilter as Container<u64>>::num_hashes(&f), 11);
}

#[test]
fn reference_hash_count_at_least_one() {
    assert_eq!(optimal_num_hashes(1024, 1_000_000), 1);
    assert_eq!(optimal_num_hashes(16, 0), 11);
    assert_eq!(optimal_num_hashes(1, 0), 1);
    assert!(RandomFilter::new(8, usize::MAX).hash_count() >= 1);
}

#[test]
fn reference_hash_count_rounds_half_up() {
    // ln 2 * 4096 / 100 = 28.39
    assert_eq!(optimal_num_hashes(4096, 100), 28);
    // ln 2 * 100 / 40 = 1.73
    assert_eq!(optimal_num_hashes(100, 40), 2);
}

#[test]
fn reference_filter_empty_rejects() {
    let f = RandomFilter::new(4096, 10);
    for _ in 0..100 {
        assert!(!f.contains());
    }
}

#[test]
fn reference_filter_full_accepts() {
    let mut f = RandomFilter::new(4, 1);
    // three probes per insertion into four bits: after many insertions every bit is set
    for _ in 0..1000 {
        f.insert();
    }
    assert!(f.contains());
}

#[test]
fn reference_filter_zero_bits_is_refused() {
    assert!(<RandomFilter as Container<u64>>::new(0, 10).is_none());
}

fn obs(items: usize, num: u64, den: u64) -> Observation {
    Observation { items, num_bits: 100, rate: Ratio { num, den }, rebuilt: false }
}

#[test]
fn aggregate_truncates_to_shortest_trial() {
    let lens = [5usize, 5, 4, 5];
    let data: Vec<Vec<Observation>> = lens
        .iter()
        .map(|&n| (0..n).map(|i| obs(i + 1, 1, 10)).collect())
        .collect();
    assert_eq!(min_len(&data), 4);
    let rows = aggregate(&data);
    assert_eq!(rows.len(), 4);
}

#[test]
fn aggregate_mean_min_max() {
    let data = vec![
        vec![obs(2, 1, 4)],
        vec![obs(2, 1, 2)],
        vec![obs(2, 0, 7)],
        vec![obs(2, 3, 4)],
    ];
    let rows = aggregate(&data);
    assert_eq!(rows.len(), 1);
    let row = rows[0];
    assert_eq!(row.load, Ratio { num: 2, den: 100 });
    // (0.25 + 0.5 + 0 + 0.75) / 4 = 0.375
    assert_eq!(row.mean, Ratio { num: 375_000_000_000_000_000, den: MEAN_SCALE });
    assert_eq!(row.min, Ratio { num: 0, den: 7 });
    assert_eq!(row.max, Ratio { num: 3, den: 4 });
}

#[test]
fn aggregate_min_keeps_first_of_equal_rates() {
    let data = vec![vec![obs(1, 1, 2)], vec![obs(1, 2, 4)], vec![obs(1, 3, 6)]];
    let rows = aggregate(&data);
    assert_eq!(rows[0].min, Ratio { num: 1, den: 2 });
    assert_eq!(rows[0].max, Ratio { num: 1, den: 2 });
    assert_eq!(rows[0].mean, Ratio { num: 500_000_000_000_000_000, den: MEAN_SCALE });
}

#[test]
fn key_offsets_partition() {
    let half = u64::MAX / 2;
    assert_eq!(key_offsets(0, 8), (0, half));
    let w = half / 8;
    assert_eq!(key_offsets(3, 8), (3 * w, 3 * w + half));
}

#[test]
fn trial_walk_stops_at_load_cutoff() {
    let obs = run_trial::<AlwaysNegative>(100, 0, 8, 10).unwrap();
    // checkpoints 2, 3, ..., 10: the last one reaches load 0.1
    let items: Vec<usize> = obs.iter().map(|o| o.items).collect();
    assert_eq!(items, vec![2, 3, 4, 5, 6, 7, 8, 9, 10]);
    for o in &obs {
        assert_eq!(o.num_bits, 100);
        assert_eq!(o.rate, Ratio { num: 0, den: 10 });
    }
    assert_eq!(obs[8].load(), Ratio { num: 10, den: 100 });
}

#[test]
fn trial_zero_bits_is_an_error() {
    assert_eq!(run_trial::<AlwaysNegative>(0, 0, 8, 10).unwrap_err(), TrialError::InvalidCapacity);
}

#[test]
fn trial_small_key_range_is_exhausted() {
    let n = u64::MAX / 2;
    assert_eq!(
        run_trial::<AlwaysNegative>(100, 0, n, 10).unwrap_err(),
        TrialError::StreamExhausted
    );
}

#[test]
fn measure_always_positive() {
    let rows = measure::<AlwaysPositive>(1000, 8, 200).unwrap();
    // checkpoints 2..=32 step by 1, then by 2 up to 96, then 100: 64 of them
    assert_eq!(rows.len(), 64);
    for row in &rows {
        assert_eq!(row.min, Ratio { num: 100, den: 100 });
        assert_eq!(row.mean, Ratio { num: MEAN_SCALE, den: MEAN_SCALE });
    }
    assert_eq!(rows[63].load, Ratio { num: 100, den: 1000 });
}

#[test]
fn plain_rate_counts_every_item() {
    assert_eq!(false_pos_rate(&AlwaysPositive, 5, 250), Ratio { num: 250, den: 250 });
    assert_eq!(false_pos_rate(&AlwaysNegative, 5, 250), Ratio { num: 0, den: 250 });
}

#[test]
fn adaptive_count_records() {
    let mut c = AdaptiveCount::new();
    for _ in 0..99 {
        assert!(!c.record(true));
    }
    assert!(c.record(false) == false);
    assert!(c.record(true));
    assert_eq!(c.rate(), Ratio { num: 100, den: 101 });
}

#[test]
fn trial_construction_failure() {
    assert_eq!(
        run_trial::<NeverBuilds>(100, 0, 8, 10).unwrap_err(),
        TrialError::ConstructionFailed
    );
}

#[test]
fn trial_with_reference_filter() {
    let obs = run_trial::<RandomFilter>(256, 3, 8, 1000).unwrap();
    // checkpoints 2, 3, ..., 26: the first with 10 * items >= 256 is 26
    assert_eq!(obs.len(), 25);
    assert_eq!(obs[24].items, 26);
    for o in &obs {
        assert!(o.rate.den >= 1 && o.rate.den <= 1000 && o.rate.num <= o.rate.den);
    }
}

#[test]
fn ratio_comparison() {
    assert!(Ratio { num: 1, den: 3 }.le(&Ratio { num: 1, den: 2 }));
    assert!(!Ratio { num: 2, den: 3 }.le(&Ratio { num: 1, den: 2 }));
    assert!(Ratio { num: 2, den: 4 }.le(&Ratio { num: 1, den: 2 }));
}

#[test]
fn aggregate_mean_of_thirds_stays_within_rounding() {
    let data = vec![vec![obs(1, 1, 3)], vec![obs(1, 2, 6)]];
    let rows = aggregate(&data);
    assert_eq!(rows[0].mean, Ratio { num: 333_333_333_333_333_333, den: MEAN_SCALE });
    let mean = rows[0].mean.num as f64 / rows[0].mean.den as f64;
    assert_eq!(mean, 1.0 / 3.0);
}

static LOG: Mutex<Vec<(usize, u64)>> = Mutex::new(Vec::new());

/// Holds the items given to it, reports exactly those, and records each
/// check with the number of items held. Its hash count grows with the
/// expected item count, so the trial rebuilds it from time to time.
struct Recorder {
    items: Vec<u64>,
    hashes: usize,
}

impl Container<u64> for Recorder {
    fn check(&self, s: &u64) -> bool {
        LOG.lock().unwrap().push((self.items.len(), *s));
        self.items.contains(s)
    }
    fn num_hashes(&self) -> usize {
        self.hashes
    }
    fn new(_num_bits: usize, num_items: usize) -> Option<Self> {
        Some(Recorder { items: Vec::new(), hashes: 1 + num_items / 8 })
    }
    fn extend(&mut self, items: &Vec<u64>) {
        self.items.extend_from_slice(items);
    }
    fn name() -> &'static str {
        "recorder"
    }
}

#[test]
fn trial_keys_and_slices() {
    let (member_start, non_member_start) = key_offsets(2, 8);
    let obs = run_trial::<Recorder>(100, 2, 8, 5).unwrap();
    let log = LOG.lock().unwrap().clone();
    // five non-members per checkpoint, contiguous and never reused
    assert_eq!(log.len(), 5 * obs.len());
    for (k, &(_, x)) in log.iter().enumerate() {
        assert_eq!(x, non_member_start + k as u64);
        assert!(x > member_start + 100);
    }
    // the sampled filter holds exactly the checkpoint's item count
    for (i, o) in obs.iter().enumerate() {
        for k in 0..5 {
            assert_eq!(log[5 * i + k].0, o.items);
        }
        assert_eq!(o.rate, Ratio { num: 0, den: 5 });
    }
    // the hash count 1 + items / 8 changes at items 8, 16, ...; the filter is
    // rebuilt exactly there
    let mut prev_items = 1;
    for o in &obs {
        assert_eq!(o.rebuilt, prev_items / 8 != o.items / 8);
        prev_items = o.items;
    }
}

#[test]
fn reference_insert_n_keeps_size() {
    let mut f = RandomFilter::new(64, 8);
    f.insert_n(50);
    assert_eq!(f.hash_count(), 6);
    let mut g = RandomFilter::new(64, 8);
    <RandomFilter as Container<u64>>::extend(&mut g, &vec![1, 2, 3]);
    assert!(!<RandomFilter as Container<u64>>::check(&RandomFilter::new(64, 8), &1));
    assert_eq!(<RandomFilter as Container<u64>>::num_hashes(&g), 6);
}
