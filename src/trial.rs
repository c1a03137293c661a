//! The trial orchestrator: one trial walks the checkpoint schedule for one
//! filter implementation at a fixed bit capacity, and measures the
//! false-positive rate at every checkpoint until the load cutoff.
use crate::container::Container;
use crate::aggregate::{aggregate, aggregate_rows, is_min_len, rates_valid, AggregateRow};
use crate::ratio::Ratio;
use crate::sampler::{adaptive_outcome, answers_fit, complete_run, false_pos_rate_adaptive, SAMPLE_BUDGET};
use crate::schedule::{tick_increment, lemma_increment_bounded, lemma_value_at_least_steps, tick_value, Ticks};
use vstd::arithmetic::power2::lemma2_to64;
use vstd::prelude::*;

verus! {

/// The number of independent trials per implementation and capacity.
pub const NUM_TRIALS: u64 = 8;

/// A trial ends at the first checkpoint whose load reaches
/// `1 / LOAD_CUTOFF_INVERSE`.
pub const LOAD_CUTOFF_INVERSE: u128 = 10;

/// One measurement: `items` members inserted into `num_bits` bits, the
/// false-positive rate measured there, and whether the filter was rebuilt
/// for it.
#[derive(Clone, Copy, Debug, PartialEq, Eq, Structural)]
pub struct Observation {
    pub items: usize,
    pub num_bits: usize,
    pub rate: Ratio,
    /// Whether the live filter was replaced by a fresh one at this
    /// checkpoint, because their hash counts differed.
    pub rebuilt: bool,
}

impl Observation {
    /// The load factor: items inserted over allocated bits.
    pub fn load(&self) -> (r: Ratio)
        ensures
            r.num == self.items,
            r.den == self.num_bits,
    {
        proof {
            assert(usize::MAX <= u64::MAX);
        }
        Ratio { num: self.items as u64, den: self.num_bits as u64 }
    }
}

/// Why a trial could not be completed.
#[derive(Clone, Copy, Debug, PartialEq, Eq, Structural)]
pub enum TrialError {
    /// The bit capacity is zero.
    InvalidCapacity,
    /// The implementation could not build a filter of the requested size.
    ConstructionFailed,
    /// The trial's member or non-member key range ran out.
    StreamExhausted,
}

/// Half of the 64-bit key space: members lie below it, non-members above.
pub open spec fn half_range() -> nat {
    (u64::MAX / 2) as nat
}

/// The width of each trial's member range and of its non-member range.
pub open spec fn key_window(num_trials: nat) -> nat {
    half_range() / num_trials
}

/// The first member key of trial `t`.
pub open spec fn member_start(t: nat, num_trials: nat) -> nat {
    t * key_window(num_trials)
}

/// The first non-member key of trial `t`.
pub open spec fn non_member_start(t: nat, num_trials: nat) -> nat {
    member_start(t, num_trials) + half_range()
}

proof fn lemma_windows_fit(t: nat, num_trials: nat)
    requires
        t < num_trials,
    ensures
        member_start(t, num_trials) + key_window(num_trials) <= half_range(),
{
    let w = key_window(num_trials);
    vstd::arithmetic::div_mod::lemma_fundamental_div_mod(half_range() as int, num_trials as int);
    assert(t * w + w <= num_trials * w) by (nonlinear_arith)
        requires
            t < num_trials,
    ;
    assert(num_trials * w <= half_range()) by (nonlinear_arith)
        requires
            half_range() == num_trials * w + half_range() % num_trials,
            half_range() % num_trials >= 0,
    ;
}

/// Trials partition the key space: the member range and the non-member range
/// of a trial, each `key_window` wide, are disjoint from each other and from
/// the ranges of every other trial.
pub proof fn lemma_key_ranges_disjoint(t1: nat, t2: nat, num_trials: nat, i: nat, j: nat)
    requires
        t1 < num_trials,
        t2 < num_trials,
        i < key_window(num_trials),
        j < key_window(num_trials),
    ensures
        member_start(t1, num_trials) + i != non_member_start(t2, num_trials) + j,
        t1 != t2 ==> member_start(t1, num_trials) + i != member_start(t2, num_trials) + j,
        t1 != t2 ==> non_member_start(t1, num_trials) + i != non_member_start(t2, num_trials) + j,
{
    let w = key_window(num_trials);
    lemma_windows_fit(t1, num_trials);
    lemma_windows_fit(t2, num_trials);
    if t1 < t2 {
        assert(t1 * w + w <= t2 * w) by (nonlinear_arith)
            requires
                t1 < t2,
        ;
    } else if t2 < t1 {
        assert(t2 * w + w <= t1 * w) by (nonlinear_arith)
            requires
                t2 < t1,
        ;
    }
}

/// The first member key and the first non-member key of trial `trial`.
pub fn key_offsets(trial: u64, num_trials: u64) -> (r: (u64, u64))
    requires
        trial < num_trials,
    ensures
        r.0 == member_start(trial as nat, num_trials as nat),
        r.1 == non_member_start(trial as nat, num_trials as nat),
{
    proof {
        lemma_windows_fit(trial as nat, num_trials as nat);
        assert(0 <= trial * key_window(num_trials as nat)) by (nonlinear_arith);
    }
    let member_offset: u64 = trial * ((u64::MAX / 2) / num_trials);
    (member_offset, member_offset + u64::MAX / 2)
}

/// The keys `offset + from`, ..., `offset + to - 1`.
fn member_items(offset: u64, from: usize, to: usize) -> (r: Vec<u64>)
    requires
        from <= to,
        offset + to <= u64::MAX,
    ensures
        r@ == Seq::new((to - from) as nat, |j: int| (offset + from + j) as u64),
{
    let mut v: Vec<u64> = Vec::new();
    let mut i: usize = from;
    while i < to
        invariant
            from <= i <= to,
            offset + to <= u64::MAX,
            v@ == Seq::new((i - from) as nat, |j: int| (offset + from + j) as u64),
        decreases to - i,
    {
        v.push(offset + i as u64);
        i = i + 1;
        proof {
            assert(v@ =~= Seq::new((i - from) as nat, |j: int| (offset + from + j) as u64));
        }
    }
    v
}

/// The number of non-members tested over the observations `obs`.
pub open spec fn tested_before(obs: Seq<Observation>) -> nat
    decreases obs.len(),
{
    if obs.len() == 0 {
        0
    } else {
        tested_before(obs.drop_last()) + obs.last().rate.den as nat
    }
}

/// The member keys `member_first + from`, ..., `member_first + to - 1`.
pub open spec fn member_keys(member_first: nat, from: nat, to: nat) -> Seq<u64> {
    Seq::new((to - from) as nat, |j: int| (member_first + from + j) as u64)
}

/// Whether the filter `f` holds what a trial gives it for `items` items at
/// `num_bits` bits: it was handed exactly the first `items` member keys (for
/// an implementation that records what it is handed), it keeps them (for a
/// one-sided one), and it carries the hash count planned for that size.
pub open spec fn loaded<T: Container<u64>>(f: T, num_bits: usize, items: nat, member_first: nat) -> bool {
    &&& f.wf()
    &&& T::records_history() ==> f.history() == member_keys(member_first, 0, items)
    &&& T::one_sided() ==> forall|j: nat|
        j < items ==> #[trigger] f.members().contains((member_first + j) as u64)
    &&& T::states_hashes() ==> f.hashes() == T::planned_hashes(num_bits, items as usize)
}

/// Whether `o` was measured on the filter `f`: `f` is loaded for `o`, and
/// `o.rate` is the sampler's outcome on a complete run of answers to the
/// non-members from `first` on that agrees with `f`.
pub open spec fn measured_on<T: Container<u64>>(
    o: Observation,
    f: T,
    member_first: nat,
    first: nat,
    budget: nat,
) -> bool {
    &&& loaded(f, o.num_bits, o.items as nat, member_first)
    &&& exists|a: Seq<bool>|
        complete_run(a, budget) && answers_fit(f, first as u64, a) && o.rate == adaptive_outcome(a)
}

/// Whether the filter `f` sampled for `o` relates to the filter `prev`
/// that was live before: `o.rebuilt` says whether the hash count planned
/// for the new size differs from `prev`'s; when it does not, `f` is `prev`
/// extended, keeping its members and its hash count.
pub open spec fn kept_or_rebuilt<T: Container<u64>>(prev: T, f: T, o: Observation) -> bool {
    &&& T::states_hashes() ==> (o.rebuilt <==> T::planned_hashes(o.num_bits, o.items) != prev.hashes())
    &&& !o.rebuilt ==> prev.members().subset_of(f.members()) && f.hashes() == prev.hashes()
}

/// Step `i` of a trial: observation `i` was measured on `fs[i + 1]`, which
/// follows `fs[i]`, with the non-members that follow those of the earlier
/// observations.
pub open spec fn step_ok<T: Container<u64>>(
    obs: Seq<Observation>,
    fs: Seq<T>,
    i: int,
    member_first: nat,
    non_member_first: nat,
    budget: nat,
) -> bool {
    &&& measured_on(
        obs[i],
        fs[i + 1],
        member_first,
        non_member_first + tested_before(obs.take(i)),
        budget,
    )
    &&& kept_or_rebuilt(fs[i], fs[i + 1], obs[i])
}

/// Whether `fs` is the sequence of live filters of a trial with
/// observations `obs`: `fs[0]` is built at the first checkpoint (one item),
/// and `fs[i + 1]` is sampled for observation `i`.
pub open spec fn live_filters<T: Container<u64>>(
    obs: Seq<Observation>,
    fs: Seq<T>,
    num_bits: usize,
    member_first: nat,
    non_member_first: nat,
    budget: nat,
) -> bool {
    &&& fs.len() == obs.len() + 1
    &&& loaded(fs[0], num_bits, 1, member_first)
    &&& forall|i: int|
        0 <= i < obs.len() ==> #[trigger] step_ok(
            obs,
            fs,
            i,
            member_first,
            non_member_first,
            budget,
        )
}

/// Whether `obs` is the outcome of trial `trial` of `num_trials` for `T` at
/// `num_bits` bits with `budget` non-members per checkpoint: a complete walk
/// whose members and non-members stay in the trial's own key ranges, each
/// observation measured on the live filter of its checkpoint.
pub open spec fn trial_result<T: Container<u64>>(
    obs: Seq<Observation>,
    num_bits: usize,
    trial: nat,
    num_trials: nat,
    budget: nat,
) -> bool {
    &&& trial_walk(obs, num_bits as nat)
    &&& obs.last().items <= key_window(num_trials)
    &&& tested_before(obs) <= key_window(num_trials)
    &&& exists|fs: Seq<T>|
        #[trigger] live_filters(
            obs,
            fs,
            num_bits,
            member_start(trial, num_trials),
            non_member_start(trial, num_trials),
            budget,
        )
    &&& forall|i: int|
        0 <= i < obs.len() ==> 1 <= #[trigger] obs[i].rate.den <= budget && obs[i].rate.num
            <= obs[i].rate.den
}

/// The shape of a complete trial at `num_bits` bits: one observation per
/// checkpoint from the second on, with the checkpoint's item count, up to
/// and including the first checkpoint whose load reaches the cutoff.
pub open spec fn trial_walk(obs: Seq<Observation>, num_bits: nat) -> bool {
    &&& obs.len() >= 1
    &&& forall|i: int|
        0 <= i < obs.len() ==> #[trigger] obs[i].items == tick_value((i + 2) as nat)
            && obs[i].num_bits == num_bits
    &&& forall|i: int| 0 <= i < obs.len() - 1 ==> 10 * #[trigger] obs[i].items < num_bits
    &&& 10 * obs.last().items >= num_bits
}

/// Complete trials at one capacity line up: they have the same length and
/// the same load at every index, so the aggregator's rows combine rates
/// taken at one load.
pub proof fn lemma_walks_align(a: Seq<Observation>, b: Seq<Observation>, num_bits: nat)
    requires
        trial_walk(a, num_bits),
        trial_walk(b, num_bits),
    ensures
        a.len() == b.len(),
        forall|i: int| 0 <= i < a.len() ==> (#[trigger] a[i]).items == b[i].items,
{
    if a.len() < b.len() {
        assert(b[a.len() - 1].items == a[a.len() - 1].items);
    } else if b.len() < a.len() {
        assert(a[b.len() - 1].items == b[b.len() - 1].items);
    }
}

/// Runs trial `trial` of `num_trials` for the implementation `T` at
/// `num_bits` bits, with a sampling budget of `budget` non-members per
/// checkpoint.
///
/// The filter is built at the first checkpoint with that checkpoint's
/// members. At each later checkpoint a fresh filter is built for the new
/// item count; if its hash count equals the live filter's, the live filter
/// is extended with the newly due members only; otherwise the live filter
/// is replaced by the fresh one, which receives the full member set. The
/// sampler then runs on the next unused non-members.
pub fn run_trial<T: Container<u64>>(num_bits: usize, trial: u64, num_trials: u64, budget: u64) -> (r:
    Result<Vec<Observation>, TrialError>)
    requires
        trial < num_trials,
        budget >= 1,
    ensures
        (r is Err && r->Err_0 == TrialError::InvalidCapacity) <==> num_bits == 0,
        r is Err && r->Err_0 == TrialError::StreamExhausted ==> key_window(num_trials as nat) < (
        num_bits + 1) * budget,
        r is Err && r->Err_0 == TrialError::ConstructionFailed ==> exists|n: usize|
            1 <= n <= num_bits + 1 && !T::buildable(num_bits, n),
        r matches Ok(obs) ==> trial_result::<T>(
            obs@,
            num_bits,
            trial as nat,
            num_trials as nat,
            budget as nat,
        ),
{
    if num_bits == 0 {
        return Err(TrialError::InvalidCapacity);
    }
    let (member_offset, non_member_offset) = key_offsets(trial, num_trials);
    let room: u64 = (u64::MAX / 2) / num_trials;
    let ghost mf = member_offset as nat;
    let ghost nmf = non_member_offset as nat;
    proof {
        lemma_windows_fit(trial as nat, num_trials as nat);
        assert(usize::MAX <= u64::MAX);
        lemma2_to64();
    }
    let mut ticks = Ticks::new();
    let first: usize = ticks.next();
    if (first as u64) > room {
        proof {
            assert(room < (num_bits + 1) * budget) by (nonlinear_arith)
                requires
                    room < 1,
                    num_bits >= 1,
                    budget >= 1,
            ;
        }
        return Err(TrialError::StreamExhausted);
    }
    let mut filter = match T::new(num_bits, first) {
        Some(f) => f,
        None => {
            assert(!T::buildable(num_bits, first));
            return Err(TrialError::ConstructionFailed);
        },
    };
    let items = member_items(member_offset, 0, first);
    filter.extend(&items);
    proof {
        assert(items@ =~= member_keys(mf, 0, first as nat));
        assert(Seq::<u64>::empty() + items@ =~= items@);
        assert forall|j: nat| T::one_sided() && j < first implies #[trigger] filter.members().contains(
            (member_offset + j) as u64,
        ) by {
            assert(items@[j as int] == (member_offset + j) as u64);
        }
        assert(loaded(filter, num_bits, first as nat, mf));
    }
    let mut prev: usize = first;
    let mut used: u64 = 0;
    let mut res: Vec<Observation> = Vec::new();
    let ghost mut fs: Seq<T> = seq![filter];
    loop
        invariant
            1 <= num_bits,
            trial < num_trials,
            budget >= 1,
            room == key_window(num_trials as nat),
            member_offset == member_start(trial as nat, num_trials as nat),
            non_member_offset == non_member_start(trial as nat, num_trials as nat),
            mf == member_offset,
            nmf == non_member_offset,
            member_offset + room <= half_range(),
            ticks.wf(),
            ticks.cur == prev,
            ticks.step == res@.len() + 1,
            prev >= 1,
            prev <= num_bits + 1,
            res@.len() == 0 ==> prev == 1,
            res@.len() == 0 || 10 * prev < num_bits,
            res@.len() + 1 <= prev,
            used <= res@.len() * budget,
            used <= room,
            prev <= room,
            forall|i: int|
                0 <= i < res@.len() ==> #[trigger] res@[i].items == tick_value((i + 2) as nat)
                    && res@[i].num_bits == num_bits && 10 * res@[i].items < num_bits,
            forall|i: int|
                0 <= i < res@.len() ==> 1 <= #[trigger] res@[i].rate.den <= budget
                    && res@[i].rate.num <= res@[i].rate.den,
            used == tested_before(res@),
            loaded(filter, num_bits, prev as nat, mf),
            fs.len() == res@.len() + 1,
            fs.last() == filter,
            loaded(fs[0], num_bits, 1, mf),
            forall|i: int|
                0 <= i < res@.len() ==> #[trigger] step_ok(res@, fs, i, mf, nmf, budget as nat),
        decreases num_bits + 1 - prev,
    {
        proof {
            lemma_increment_bounded(ticks.step as nat);
            lemma_value_at_least_steps(ticks.step as nat);
            vstd::arithmetic::power2::lemma_pow2_pos(ticks.step as nat / 32);
            lemma2_to64();
            if res@.len() == 0 {
                assert(ticks.step == 1);
                assert(tick_increment(1) == 1);
            }
        }
        let n: usize = ticks.next();
        if (n as u64) > room {
            proof {
                assert(n <= num_bits + 1);
                assert(room < (num_bits + 1) * budget) by (nonlinear_arith)
                    requires
                        room < n,
                        n <= num_bits + 1,
                        budget >= 1,
                ;
            }
            return Err(TrialError::StreamExhausted);
        }
        assert(n <= num_bits + 1);
        let fresh = match T::new(num_bits, n) {
            Some(f) => f,
            None => {
                assert(!T::buildable(num_bits, n));
                return Err(TrialError::ConstructionFailed);
            },
        };
        let ghost old_filter = filter;
        let rebuilt = fresh.num_hashes() != filter.num_hashes();
        if rebuilt {
            filter = fresh;
            let items = member_items(member_offset, 0, n);
            filter.extend(&items);
            proof {
                assert(items@ =~= member_keys(mf, 0, n as nat));
                assert(Seq::<u64>::empty() + items@ =~= items@);
                assert forall|j: nat| T::one_sided() && j < n implies #[trigger] filter.members().contains(
                    (member_offset + j) as u64,
                ) by {
                    assert(items@[j as int] == (member_offset + j) as u64);
                }
            }
        } else {
            let items = member_items(member_offset, prev, n);
            filter.extend(&items);
            proof {
                assert(member_keys(mf, 0, prev as nat) + items@ =~= member_keys(mf, 0, n as nat));
                assert forall|j: nat| T::one_sided() && j < n implies #[trigger] filter.members().contains(
                    (member_offset + j) as u64,
                ) by {
                    if j < prev {
                        assert(old_filter.members().contains((mf + j) as u64));
                    } else {
                        assert(items@[j - prev] == (member_offset + j) as u64);
                    }
                }
            }
        }
        proof {
            assert(loaded(filter, num_bits, n as nat, mf));
        }
        if room - used < budget {
            proof {
                assert(room < (num_bits + 1) * budget) by (nonlinear_arith)
                    requires
                        room < used + budget,
                        used <= res@.len() * budget,
                        res@.len() + 1 <= prev,
                        prev <= num_bits + 1,
                        budget >= 1,
                ;
            }
            return Err(TrialError::StreamExhausted);
        }
        let rate = false_pos_rate_adaptive(&filter, non_member_offset + used, budget);
        let ghost used_before = used;
        used = used + rate.den;
        let ghost before = res@;
        let ghost fs_before = fs;
        let o = Observation { items: n, num_bits, rate, rebuilt };
        res.push(o);
        proof {
            fs = fs.push(filter);
            assert(res@.drop_last() =~= before);
            assert(res@.take(before.len() as int) =~= before);
            assert(res@[before.len() as int] == o);
            assert(fs[before.len() as int] == old_filter);
            assert(kept_or_rebuilt(old_filter, filter, o));
            assert(measured_on(o, filter, mf, nmf + tested_before(res@.take(before.len() as int)), budget as nat));
            assert(step_ok(res@, fs, before.len() as int, mf, nmf, budget as nat));
            assert forall|i: int| 0 <= i < res@.len() implies #[trigger] step_ok(
                res@,
                fs,
                i,
                mf,
                nmf,
                budget as nat,
            ) by {
                if i < before.len() {
                    assert(res@.take(i) =~= before.take(i));
                    assert(res@[i] == before[i]);
                    assert(fs[i] == fs_before[i]);
                    assert(fs[i + 1] == fs_before[i + 1]);
                    assert(step_ok(before, fs_before, i, mf, nmf, budget as nat));
                }
            }
            assert(used <= res@.len() * budget) by (nonlinear_arith)
                requires
                    used <= before.len() * budget + budget,
                    res@.len() == before.len() + 1,
            ;
            assert(forall|i: int| 0 <= i < before.len() ==> res@[i] == before[i]);
            assert(ticks.step == before.len() + 2);
            assert(n == tick_value((before.len() + 2) as nat));
        }
        if (n as u128) * LOAD_CUTOFF_INVERSE >= num_bits as u128 {
            proof {
                let obs = res@;
                assert(10 * obs.last().items >= num_bits);
                assert forall|i: int| 0 <= i < obs.len() - 1 implies 10 * #[trigger] obs[i].items
                    < num_bits by {
                    assert(obs[i] == before[i]);
                }
                assert(trial_walk(obs, num_bits as nat));
                assert(live_filters(obs, fs, num_bits, mf, nmf, budget as nat));
            }
            return Ok(res);
        }
        prev = n;
    }
}

/// Whether `data` holds one complete trial per index, each sampled with
/// `budget` non-members per checkpoint.
pub open spec fn trials_complete<T: Container<u64>>(
    data: Seq<Vec<Observation>>,
    num_bits: usize,
    num_trials: nat,
    budget: nat,
) -> bool {
    forall|t: int|
        0 <= t < data.len() ==> #[trigger] trial_result::<T>(
            data[t]@,
            num_bits,
            t as nat,
            num_trials,
            budget,
        )
}

/// Runs `num_trials` trials of `T` at `num_bits` bits with `budget`
/// non-members per checkpoint, and aggregates them. The trials are
/// independent: each owns its filter and its key ranges.
pub fn measure<T: Container<u64>>(num_bits: usize, num_trials: u64, budget: u64) -> (r: Result<
    Vec<AggregateRow>,
    TrialError,
>)
    requires
        num_trials >= 1,
        budget >= 1,
    ensures
        (r is Err && r->Err_0 == TrialError::InvalidCapacity) <==> num_bits == 0,
        r is Err && r->Err_0 == TrialError::StreamExhausted ==> key_window(num_trials as nat) < (
        num_bits + 1) * budget,
        r is Err && r->Err_0 == TrialError::ConstructionFailed ==> exists|n: usize|
            1 <= n <= num_bits + 1 && !T::buildable(num_bits, n),
        r matches Ok(rows) ==> exists|data: Seq<Vec<Observation>>|
            {
                &&& data.len() == num_trials
                &&& #[trigger] trials_complete::<T>(data, num_bits, num_trials as nat, budget as nat)
                &&& is_min_len(data, rows@.len())
                &&& rows@ == aggregate_rows(data.map_values(|v: Vec<Observation>| v@), rows@.len())
            },
{
    let mut data: Vec<Vec<Observation>> = Vec::new();
    let mut t: u64 = 0;
    while t < num_trials
        invariant
            t <= num_trials,
            budget >= 1,
            num_bits >= 1 || t == 0,
            data@.len() == t,
            trials_complete::<T>(data@, num_bits, num_trials as nat, budget as nat),
            rates_valid(data@.map_values(|v: Vec<Observation>| v@)),
        decreases num_trials - t,
    {
        let obs = match run_trial::<T>(num_bits, t, num_trials, budget) {
            Ok(obs) => obs,
            Err(e) => {
                return Err(e);
            },
        };
        let ghost before = data@;
        data.push(obs);
        proof {
            assert(forall|k: int| 0 <= k < before.len() ==> data@[k] == before[k]);
            assert(data@[t as int] == obs);
            let d = data@.map_values(|v: Vec<Observation>| v@);
            assert forall|j: int, i: int|
                0 <= j < d.len() && 0 <= i < d[j].len() implies #[trigger] d[j][i].rate.den >= 1
                && d[j][i].rate.num <= d[j][i].rate.den by {
                if j < t {
                    assert(d[j] == before.map_values(|v: Vec<Observation>| v@)[j]);
                } else {
                    assert(d[j] == obs@);
                }
            }
        }
        t = t + 1;
    }
    let rows = aggregate(&data);
    proof {
        let dd = data@;
        assert(dd.len() == num_trials);
        assert(trials_complete::<T>(dd, num_bits, num_trials as nat, budget as nat));
        assert(is_min_len(dd, rows@.len()));
        assert(rows@ == aggregate_rows(dd.map_values(|v: Vec<Observation>| v@), rows@.len()));
    }
    Ok(rows)
}

/// Measures `T` at `num_bits` bits over `NUM_TRIALS` trials, each sampling
/// up to `SAMPLE_BUDGET` non-members per checkpoint. Each row holds the
/// load and the mean, least and greatest false-positive rate there.
pub fn list_fp2<T: Container<u64>>(num_bits: usize) -> (r: Result<Vec<AggregateRow>, TrialError>)
    ensures
        (r is Err && r->Err_0 == TrialError::InvalidCapacity) <==> num_bits == 0,
        r is Err && r->Err_0 == TrialError::StreamExhausted ==> key_window(NUM_TRIALS as nat) < (
        num_bits + 1) * SAMPLE_BUDGET,
        r is Err && r->Err_0 == TrialError::ConstructionFailed ==> exists|n: usize|
            1 <= n <= num_bits + 1 && !T::buildable(num_bits, n),
        r matches Ok(rows) ==> exists|data: Seq<Vec<Observation>>|
            {
                &&& data.len() == NUM_TRIALS
                &&& #[trigger] trials_complete::<T>(data, num_bits, NUM_TRIALS as nat, SAMPLE_BUDGET as nat)
                &&& is_min_len(data, rows@.len())
                &&& rows@ == aggregate_rows(data.map_values(|v: Vec<Observation>| v@), rows@.len())
            },
{
    measure::<T>(num_bits, NUM_TRIALS, SAMPLE_BUDGET)
}

} // verus!
