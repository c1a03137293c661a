//! The adaptive sampler: estimates a filter's false-positive rate from a
//! run of non-members, stopping early once the estimate is precise enough.
use crate::container::Container;
use crate::ratio::Ratio;
use vstd::prelude::*;

verus! {

/// Stop once this many false positives were seen.
pub const STABLE_POSITIVES: u64 = 100;

/// Stop once this many false positives were seen ...
pub const MODERATE_POSITIVES: u64 = 10;

/// ... and more than this many items were tested.
pub const MODERATE_TESTS: u64 = 1_000_000;

/// Stop after one false positive once more than this many items were tested.
pub const CAP_TESTS: u64 = 100_000_000;

/// The number of non-members handed to the sampler for one measurement.
pub const SAMPLE_BUDGET: u64 = 300_000_000;

/// Whether sampling stops with `fp` false positives among `total` tests.
pub open spec fn should_stop(fp: nat, total: nat) -> bool {
    ||| fp >= STABLE_POSITIVES
    ||| (fp >= MODERATE_POSITIVES && total > MODERATE_TESTS)
    ||| (fp >= 1 && total > CAP_TESTS)
}

/// The number of positive answers in `a`.
pub open spec fn positives(a: Seq<bool>) -> nat
    decreases a.len(),
{
    if a.len() == 0 {
        0
    } else {
        positives(a.drop_last()) + if a.last() {
            1nat
        } else {
            0nat
        }
    }
}

/// Whether the rule stops right after the `t`-th answer of `a`.
pub open spec fn stops_at(a: Seq<bool>, t: nat) -> bool {
    should_stop(positives(a.take(t as int)), t)
}

/// The number of answers consumed, counting on from `t`: the first count
/// after which the rule stops, or all of `a`.
pub open spec fn first_stop_from(a: Seq<bool>, t: nat) -> nat
    decreases a.len() - t,
{
    if t >= a.len() {
        a.len()
    } else if stops_at(a, t + 1) {
        t + 1
    } else {
        first_stop_from(a, t + 1)
    }
}

/// The number of tests that the sampler makes on the answers `a`.
pub open spec fn tests_made(a: Seq<bool>) -> nat {
    first_stop_from(a, 0)
}

/// The sampler's result on the answers `a`: the false positives among the
/// tests made, over the tests made.
pub open spec fn adaptive_outcome(a: Seq<bool>) -> Ratio {
    Ratio { num: positives(a.take(tests_made(a) as int)) as u64, den: tests_made(a) as u64 }
}

proof fn lemma_positives_step(a: Seq<bool>, i: int)
    requires
        0 <= i < a.len(),
    ensures
        positives(a.take(i + 1)) == positives(a.take(i)) + if a[i] {
            1nat
        } else {
            0nat
        },
{
    assert(a.take(i + 1).drop_last() =~= a.take(i));
}

proof fn lemma_positives_le(a: Seq<bool>)
    ensures
        positives(a) <= a.len(),
    decreases a.len(),
{
    if a.len() > 0 {
        lemma_positives_le(a.drop_last());
    }
}

proof fn lemma_first_stop(a: Seq<bool>, t: nat, s: nat)
    requires
        t < s <= a.len(),
        forall|u: nat| t < u < s ==> !stops_at(a, u),
        s == a.len() || stops_at(a, s),
    ensures
        first_stop_from(a, t) == s,
    decreases s - t,
{
    if t + 1 < s {
        lemma_first_stop(a, t + 1, s);
    } else if !stops_at(a, t + 1) {
        assert(first_stop_from(a, t + 1) == a.len());
    }
}

proof fn lemma_stops_on_prefix(a: Seq<bool>, b: Seq<bool>, t: nat)
    requires
        t <= a.len(),
        t <= b.len(),
        a.take(t as int) =~= b.take(t as int),
    ensures
        stops_at(a, t) == stops_at(b, t),
{
}

proof fn lemma_positives_uniform(a: Seq<bool>, t: int, v: bool)
    requires
        0 <= t <= a.len(),
        forall|i: int| 0 <= i < a.len() ==> a[i] == v,
    ensures
        positives(a.take(t)) == if v {
            t as nat
        } else {
            0nat
        },
    decreases t,
{
    if t > 0 {
        lemma_positives_uniform(a, t - 1, v);
        lemma_positives_step(a, t - 1);
    }
}

/// A filter that reports every non-member as present stops the sampler
/// after exactly 100 tests, with rate 100 / 100, whatever the budget beyond
/// that.
pub proof fn lemma_always_positive_stops_at_stable(a: Seq<bool>, budget: nat)
    requires
        budget >= STABLE_POSITIVES,
        complete_run(a, budget),
        forall|i: int| 0 <= i < a.len() ==> a[i],
    ensures
        a.len() == STABLE_POSITIVES,
        adaptive_outcome(a) == (Ratio { num: 100, den: 100 }),
{
    lemma_positives_uniform(a, a.len() as int, true);
    if a.len() < STABLE_POSITIVES {
        assert(a.take(a.len() as int) =~= a);
        assert(!stops_at(a, a.len()));
    } else {
        assert forall|u: nat| 0 < u < STABLE_POSITIVES implies !stops_at(a, u) by {
            lemma_positives_uniform(a, u as int, true);
        }
        lemma_positives_uniform(a, STABLE_POSITIVES as int, true);
        lemma_first_stop(a, 0, STABLE_POSITIVES as nat);
    }
}

/// A filter that reports no non-member as present uses the whole budget,
/// with rate 0.
pub proof fn lemma_always_negative_uses_budget(a: Seq<bool>, budget: nat)
    requires
        budget <= u64::MAX,
        complete_run(a, budget),
        forall|i: int| 0 <= i < a.len() ==> !a[i],
    ensures
        a.len() == budget,
        adaptive_outcome(a) == (Ratio { num: 0, den: budget as u64 }),
{
    lemma_positives_uniform(a, a.len() as int, false);
    assert(a.take(a.len() as int) =~= a);
}

/// The running count of the sampler: false positives over tests made.
pub struct AdaptiveCount {
    pub false_positives: u64,
    pub tested: u64,
}

impl AdaptiveCount {
    pub fn new() -> (r: AdaptiveCount)
        ensures
            r.false_positives == 0,
            r.tested == 0,
    {
        AdaptiveCount { false_positives: 0, tested: 0 }
    }

    /// Records one answer and says whether sampling stops here.
    pub fn record(&mut self, positive: bool) -> (stop: bool)
        requires
            old(self).false_positives <= old(self).tested < u64::MAX,
        ensures
            final(self).tested == old(self).tested + 1,
            final(self).false_positives == old(self).false_positives + if positive {
                1int
            } else {
                0int
            },
            stop == should_stop(final(self).false_positives as nat, final(self).tested as nat),
    {
        self.tested = self.tested + 1;
        if positive {
            self.false_positives = self.false_positives + 1;
        }
        self.false_positives >= STABLE_POSITIVES || (self.false_positives >= MODERATE_POSITIVES
            && self.tested > MODERATE_TESTS) || (self.false_positives >= 1 && self.tested
            > CAP_TESTS)
    }

    pub fn rate(&self) -> (r: Ratio)
        ensures
            r.num == self.false_positives,
            r.den == self.tested,
    {
        Ratio { num: self.false_positives, den: self.tested }
    }
}

/// Whether the answers `a`, given to the items `first`, `first + 1`, ...,
/// agree with what `filter` is certain of: positive on its members and
/// negative on the items it excludes.
pub open spec fn answers_fit<T: Container<u64>>(filter: T, first: u64, a: Seq<bool>) -> bool {
    forall|j: int|
        0 <= j < a.len() ==> (filter.members().contains((first + j) as u64) ==> #[trigger] a[j]) && (
        filter.excluded().contains((first + j) as u64) ==> !a[j])
}

/// Whether `a` is a complete sampling run within `budget`: it ends where
/// the stopping rule first fires, or at the end of the budget.
pub open spec fn complete_run(a: Seq<bool>, budget: nat) -> bool {
    &&& 1 <= a.len() <= budget
    &&& tests_made(a) == a.len()
    &&& a.len() < budget ==> stops_at(a, a.len())
}

/// Tests the non-members `first`, `first + 1`, ... in order, at most
/// `budget` of them, counting false positives, and stops at the first of:
/// 100 false positives; at least 10 false positives after more than a
/// million tests; at least one false positive after more than 10^8 tests;
/// the end of the budget. Returns false positives over tests made.
///
/// The result is the sampler's outcome on the run of answers that `check`
/// gave, one per item tested; that run agrees with whatever the filter is
/// certain of.
pub fn false_pos_rate_adaptive<T: Container<u64>>(filter: &T, first: u64, budget: u64) -> (r: Ratio)
    requires
        filter.wf(),
        budget >= 1,
        first + budget <= u64::MAX + 1,
    ensures
        exists|a: Seq<bool>|
            {
                &&& complete_run(a, budget as nat)
                &&& answers_fit(*filter, first, a)
                &&& r == adaptive_outcome(a)
            },
        1 <= r.den <= budget,
        r.num <= r.den,
{
    let ghost mut seen: Seq<bool> = Seq::empty();
    let mut count = AdaptiveCount::new();
    let mut i: u64 = 0;
    loop
        invariant
            filter.wf(),
            i < budget,
            first + budget <= u64::MAX + 1,
            seen.len() == i,
            i == count.tested,
            count.false_positives == positives(seen),
            count.false_positives <= count.tested,
            forall|u: nat| 0 < u <= i ==> !stops_at(seen, u),
            answers_fit(*filter, first, seen),
        decreases budget - i,
    {
        let x: u64 = first + i;
        let positive = filter.check(&x);
        proof {
            let s2 = seen.push(positive);
            assert(s2.drop_last() =~= seen);
            assert(s2.take(s2.len() as int) =~= s2);
            assert(seen.take(seen.len() as int) =~= seen);
            assert forall|u: nat| 0 < u <= i implies !stops_at(s2, u) by {
                assert(s2.take(u as int) =~= seen.take(u as int));
                lemma_stops_on_prefix(s2, seen, u);
            }
            assert forall|j: int| 0 <= j < s2.len() implies (filter.members().contains(
                (first + j) as u64,
            ) ==> #[trigger] s2[j]) && (filter.excluded().contains((first + j) as u64) ==> !s2[j]) by {
                if j < i {
                    assert(s2[j] == seen[j]);
                }
            }
            seen = s2;
            lemma_positives_le(seen);
        }
        let stop = count.record(positive);
        i = i + 1;
        if stop || i == budget {
            proof {
                assert(seen.take(i as int) =~= seen);
                lemma_first_stop(seen, 0, i as nat);
                if i < budget {
                    assert(stops_at(seen, i as nat));
                }
                assert(complete_run(seen, budget as nat));
            }
            let r = count.rate();
            assert(r == adaptive_outcome(seen));
            return r;
        }
    }
}

/// Tests all of the `count` non-members `first`, `first + 1`, ... and
/// returns false positives over `count`, with no early stop.
pub fn false_pos_rate<T: Container<u64>>(filter: &T, first: u64, count: u64) -> (r: Ratio)
    requires
        filter.wf(),
        count >= 1,
        first + count <= u64::MAX + 1,
    ensures
        r.den == count,
        exists|a: Seq<bool>|
            {
                &&& a.len() == count
                &&& answers_fit(*filter, first, a)
                &&& r.num == positives(a)
            },
{
    let ghost mut seen: Seq<bool> = Seq::empty();
    let mut false_positives: u64 = 0;
    let mut i: u64 = 0;
    while i < count
        invariant
            filter.wf(),
            i <= count,
            first + count <= u64::MAX + 1,
            seen.len() == i,
            false_positives == positives(seen),
            false_positives <= i,
            answers_fit(*filter, first, seen),
        decreases count - i,
    {
        let x: u64 = first + i;
        let positive = filter.check(&x);
        proof {
            let s2 = seen.push(positive);
            assert(s2.drop_last() =~= seen);
            assert forall|j: int| 0 <= j < s2.len() implies (filter.members().contains(
                (first + j) as u64,
            ) ==> #[trigger] s2[j]) && (filter.excluded().contains((first + j) as u64) ==> !s2[j]) by {
                if j < i {
                    assert(s2[j] == seen[j]);
                }
            }
            seen = s2;
        }
        if positive {
            false_positives = false_positives + 1;
        }
        i = i + 1;
    }
    Ratio { num: false_positives, den: count }
}

} // verus!
