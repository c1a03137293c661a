//! The Reference Filter: an idealised filter that probes `k` independent,
//! uniformly random bit positions per insertion and per check, whatever the
//! item. It bounds the accuracy that any filter with `k` probes into `m`
//! bits can reach.
use crate::container::Container;
use vstd::prelude::*;

verus! {

/// Numerator of the rational approximation of ln 2 used for the hash count.
pub const LN2_NUM: u128 = 693_147_180_559_945_309;

/// Denominator of the rational approximation of ln 2.
pub const LN2_DEN: u128 = 1_000_000_000_000_000_000;

/// `max(1, round(ln 2 * num_bits / num_items))`, rounding halves up; an
/// expected count of zero is sized as one item.
pub open spec fn optimal_hash_count(num_bits: nat, num_items: nat) -> nat {
    let n: nat = if num_items == 0 {
        1
    } else {
        num_items
    };
    let k: nat = ((2 * LN2_NUM * num_bits + LN2_DEN * n) / (2 * LN2_DEN * n)) as nat;
    if k >= 1 {
        k
    } else {
        1
    }
}

/// Computes `optimal_hash_count(num_bits, num_items)`.
pub fn optimal_num_hashes(num_bits: usize, num_items: usize) -> (r: usize)
    ensures
        r == optimal_hash_count(num_bits as nat, num_items as nat),
        r >= 1,
{
    let n: u128 = if num_items == 0 {
        1
    } else {
        num_items as u128
    };
    let m: u128 = num_bits as u128;
    proof {
        assert(m <= u64::MAX) by {
            assert(usize::MAX <= u64::MAX);
        }
        assert(n <= u64::MAX) by {
            assert(usize::MAX <= u64::MAX);
        }
        assert(2 * LN2_NUM * m <= 2 * LN2_NUM * u64::MAX) by (nonlinear_arith)
            requires
                m <= u64::MAX,
        ;
        assert(LN2_DEN * n <= LN2_DEN * u64::MAX) by (nonlinear_arith)
            requires
                n <= u64::MAX,
        ;
        assert(2 * LN2_DEN * n <= 2 * LN2_DEN * u64::MAX) by (nonlinear_arith)
            requires
                n <= u64::MAX,
        ;
        assert(2 * LN2_DEN * n >= 1) by (nonlinear_arith)
            requires
                n >= 1,
        ;
        assert((2 * LN2_NUM * m + LN2_DEN * n) / (2 * LN2_DEN * n) <= 2 * LN2_NUM * m
            + LN2_DEN * n) by (nonlinear_arith)
            requires
                2 * LN2_DEN * n >= 1,
                2 * LN2_NUM * m + LN2_DEN * n >= 0,
        ;
    }
    let num: u128 = 2 * LN2_NUM * m + LN2_DEN * n;
    let den: u128 = 2 * LN2_DEN * n;
    let k: u128 = num / den;
    proof {
        assert(LN2_NUM * m <= LN2_DEN * m) by (nonlinear_arith)
            requires
                LN2_NUM < LN2_DEN,
        ;
        assert(LN2_DEN * m <= LN2_DEN * n * m) by (nonlinear_arith)
            requires
                n >= 1,
        ;
        assert(den * (m + 1) == 2 * LN2_DEN * n * m + 2 * LN2_DEN * n) by (nonlinear_arith)
            requires
                den == 2 * LN2_DEN * n,
        ;
        assert(num < den * (m + 1)) by (nonlinear_arith)
            requires
                LN2_NUM * m <= LN2_DEN * m,
                LN2_DEN * m <= LN2_DEN * n * m,
                den * (m + 1) == 2 * LN2_DEN * n * m + 2 * LN2_DEN * n,
                num == 2 * LN2_NUM * m + LN2_DEN * n,
                LN2_DEN * n > 0,
        ;
        vstd::arithmetic::div_mod::lemma_fundamental_div_mod(num as int, den as int);
        assert(k <= m) by (nonlinear_arith)
            requires
                num == den * k + num % den,
                num % den >= 0,
                num < den * (m + 1),
                den > 0,
        ;
    }
    if k >= 1 {
        k as usize
    } else {
        1
    }
}

/// Relies on rand::thread_rng and rand::Rng::gen: a value drawn from the
/// thread's generator, which the system seeds. Nothing is promised of it.
#[verifier::external_body]
pub(crate) fn random_u64() -> u64 {
    rand::Rng::gen::<u64>(&mut rand::thread_rng())
}

/// The positions recorded in a bitmap.
pub open spec fn set_positions(bits: Seq<bool>) -> Set<int> {
    Set::new(|i: int| 0 <= i < bits.len() && bits[i])
}

/// The positions that the probes `p` name.
pub open spec fn probe_positions(p: Seq<usize>) -> Set<int> {
    Set::new(|y: int| exists|j: int| 0 <= j < p.len() && p[j] as int == y)
}

/// Whether every probe of `p` lies in `[0, m)`.
pub open spec fn probes_in_range(p: Seq<usize>, m: nat) -> bool {
    forall|i: int| 0 <= i < p.len() ==> (#[trigger] p[i] as nat) < m
}

/// The idealised filter. It keeps no item: only the bit positions that the
/// insertions drew.
pub struct RandomFilter {
    data: Vec<bool>,
    num_hashes: usize,
    num_bits: usize,
    inserted: Ghost<Seq<u64>>,
}

impl RandomFilter {
    /// The bitmap has `m` entries, `m` is positive and so is `k`.
    pub closed spec fn wf(self) -> bool {
        &&& self.data@.len() == self.num_bits
        &&& self.num_bits > 0
        &&& self.num_hashes >= 1
    }

    /// The number of bits `m`.
    pub closed spec fn bits(self) -> nat {
        self.num_bits as nat
    }

    /// The number of probes `k`.
    pub closed spec fn probes(self) -> nat {
        self.num_hashes as nat
    }

    /// The items handed to `extend`, in order.
    pub closed spec fn inserted(self) -> Seq<u64> {
        self.inserted@
    }

    /// The recorded positions.
    pub closed spec fn recorded(self) -> Set<int> {
        set_positions(self.data@)
    }

    /// An empty filter of `num_bits` bits, with
    /// `k = max(1, round(ln 2 * num_bits / num_items))` probes.
    pub fn new(num_bits: usize, num_items: usize) -> (r: RandomFilter)
        requires
            num_bits >= 1,
        ensures
            r.wf(),
            r.bits() == num_bits,
            r.probes() == optimal_hash_count(num_bits as nat, num_items as nat),
            r.recorded() == Set::<int>::empty(),
            r.inserted() == Seq::<u64>::empty(),
    {
        let mut data: Vec<bool> = Vec::new();
        let mut i: usize = 0;
        while i < num_bits
            invariant
                i <= num_bits,
                data@.len() == i,
                forall|j: int| 0 <= j < i ==> !data@[j],
            decreases num_bits - i,
        {
            data.push(false);
            i = i + 1;
        }
        let r = RandomFilter {
            data,
            num_hashes: optimal_num_hashes(num_bits, num_items),
            num_bits,
            inserted: Ghost(Seq::empty()),
        };
        assert(set_positions(r.data@) =~= Set::<int>::empty());
        r
    }

    /// The number of probes `k` made per insertion and per check.
    pub fn hash_count(&self) -> (r: usize)
        ensures
            r == self.probes(),
    {
        self.num_hashes
    }

    /// Records `k` freshly drawn positions in `[0, m)`.
    pub fn insert(&mut self)
        requires
            old(self).wf(),
        ensures
            final(self).wf(),
            final(self).bits() == old(self).bits(),
            final(self).probes() == old(self).probes(),
            final(self).inserted() == old(self).inserted(),
            exists|p: Seq<usize>|
                {
                    &&& p.len() == old(self).probes()
                    &&& probes_in_range(p, old(self).bits())
                    &&& final(self).recorded() == old(self).recorded().union(probe_positions(p))
                },
    {
        let ghost start = self.data@;
        let ghost mut p: Seq<usize> = Seq::empty();
        let mut i: usize = 0;
        while i < self.num_hashes
            invariant
                self.wf(),
                i <= self.num_hashes,
                p.len() == i,
                self.num_bits == old(self).num_bits,
                self.num_hashes == old(self).num_hashes,
                self.inserted == old(self).inserted,
                start == old(self).data@,
                probes_in_range(p, self.num_bits as nat),
                set_positions(self.data@) == set_positions(start).union(probe_positions(p)),
            decreases self.num_hashes - i,
        {
            let index: usize = (random_u64() % self.num_bits as u64) as usize;
            let ghost before = self.data@;
            self.data.set(index, true);
            proof {
                let q = p.push(index);
                assert(set_positions(self.data@) =~= set_positions(before).insert(index as int));
                assert(probe_positions(q) =~= probe_positions(p).insert(index as int)) by {
                    assert forall|y: int| probe_positions(q).contains(y) implies probe_positions(
                        p,
                    ).insert(index as int).contains(y) by {
                        let j = choose|j: int| 0 <= j < q.len() && q[j] as int == y;
                        if j < p.len() {
                            assert(p[j] == q[j]);
                        }
                    }
                    assert forall|y: int| probe_positions(p).insert(index as int).contains(y)
                        implies probe_positions(q).contains(y) by {
                        if y == index as int {
                            assert(q[p.len() as int] == index);
                        } else {
                            let j = choose|j: int| 0 <= j < p.len() && p[j] as int == y;
                            assert(q[j] == p[j]);
                        }
                    }
                }
                p = q;
            }
            i = i + 1;
        }
    }

    /// Performs `count` insertions: records `count * k` freshly drawn
    /// positions in `[0, m)`.
    pub fn insert_n(&mut self, count: usize)
        requires
            old(self).wf(),
        ensures
            final(self).wf(),
            final(self).bits() == old(self).bits(),
            final(self).probes() == old(self).probes(),
            final(self).inserted() == old(self).inserted(),
            exists|p: Seq<usize>|
                {
                    &&& p.len() == count * old(self).probes()
                    &&& probes_in_range(p, old(self).bits())
                    &&& final(self).recorded() == old(self).recorded().union(probe_positions(p))
                },
    {
        let ghost mut all: Seq<usize> = Seq::empty();
        let mut i: usize = 0;
        while i < count
            invariant
                self.wf(),
                i <= count,
                self.bits() == old(self).bits(),
                self.probes() == old(self).probes(),
                self.inserted() == old(self).inserted(),
                all.len() == i * old(self).probes(),
                probes_in_range(all, old(self).bits()),
                self.recorded() == old(self).recorded().union(probe_positions(all)),
            decreases count - i,
        {
            let ghost before = *self;
            self.insert();
            proof {
                let q = choose|q: Seq<usize>|
                    {
                        &&& q.len() == before.probes()
                        &&& probes_in_range(q, before.bits())
                        &&& self.recorded() == before.recorded().union(probe_positions(q))
                    };
                lemma_probe_positions_concat(all, q);
                assert(probes_in_range(all + q, old(self).bits())) by {
                    assert forall|j: int| 0 <= j < (all + q).len() implies ((#[trigger] (all
                        + q)[j]) as nat) < old(self).bits() by {
                        if j < all.len() {
                            assert((all + q)[j] == all[j]);
                        } else {
                            assert((all + q)[j] == q[j - all.len()]);
                        }
                    }
                }
                let k = old(self).probes();
                assert((i + 1) * k == i * k + k) by (nonlinear_arith);
                assert(self.recorded() =~= old(self).recorded().union(probe_positions(all + q)));
                all = all + q;
            }
            i = i + 1;
        }
    }

    /// Draws up to `k` fresh positions in `[0, m)`, stopping at the first
    /// that is not recorded, and reports whether all `k` were recorded. The
    /// answer does not depend on any item.
    pub fn contains(&self) -> (r: bool)
        requires
            self.wf(),
        ensures
            exists|p: Seq<usize>|
                {
                    &&& 1 <= p.len() <= self.probes()
                    &&& probes_in_range(p, self.bits())
                    &&& forall|i: int|
                        0 <= i < p.len() - 1 ==> self.recorded().contains(#[trigger] p[i] as int)
                    &&& r ==> p.len() == self.probes() && self.recorded().contains(p.last() as int)
                    &&& !r ==> !self.recorded().contains(p.last() as int)
                },
    {
        let ghost mut p: Seq<usize> = Seq::empty();
        let mut i: usize = 0;
        while i < self.num_hashes
            invariant
                self.wf(),
                i <= self.num_hashes,
                p.len() == i,
                probes_in_range(p, self.num_bits as nat),
                forall|j: int| 0 <= j < p.len() ==> set_positions(self.data@).contains(#[trigger] p[j] as int),
            decreases self.num_hashes - i,
        {
            let index: usize = (random_u64() % self.num_bits as u64) as usize;
            let ghost before = p;
            proof {
                p = p.push(index);
                assert forall|j: int| 0 <= j < p.len() - 1 implies set_positions(self.data@).contains(
                    #[trigger] p[j] as int,
                ) by {
                    assert(p[j] == before[j]);
                }
            }
            if !self.data[index] {
                proof {
                    assert(p.last() == index);
                    assert(!set_positions(self.data@).contains(index as int));
                    assert(probes_in_range(p, self.bits()));
                }
                return false;
            }
            i = i + 1;
        }
        proof {
            assert(p.len() >= 1);
            assert(set_positions(self.data@).contains(p[p.len() - 1] as int));
            assert(probes_in_range(p, self.bits()));
        }
        true
    }
}

/// The positions of two runs of probes, one after the other, are those of
/// each run together.
proof fn lemma_probe_positions_concat(p: Seq<usize>, q: Seq<usize>)
    ensures
        probe_positions(p + q) == probe_positions(p).union(probe_positions(q)),
{
    let pq = p + q;
    assert forall|y: int| probe_positions(pq).contains(y) implies probe_positions(p).union(
        probe_positions(q),
    ).contains(y) by {
        let j = choose|j: int| 0 <= j < pq.len() && pq[j] as int == y;
        if j < p.len() {
            assert(pq[j] == p[j]);
        } else {
            assert(pq[j] == q[j - p.len()]);
        }
    }
    assert forall|y: int| probe_positions(p).union(probe_positions(q)).contains(y) implies probe_positions(
        pq,
    ).contains(y) by {
        if probe_positions(p).contains(y) {
            let j = choose|j: int| 0 <= j < p.len() && p[j] as int == y;
            assert(pq[j] == p[j]);
        } else {
            let j = choose|j: int| 0 <= j < q.len() && q[j] as int == y;
            assert(pq[j + p.len()] == q[j]);
        }
    }
    assert(probe_positions(pq) =~= probe_positions(p).union(probe_positions(q)));
}

impl Container<u64> for RandomFilter {
    open spec fn wf(&self) -> bool {
        RandomFilter::wf(*self)
    }

    /// The reference filter is certain of no item.
    open spec fn members(&self) -> Set<u64> {
        Set::empty()
    }

    open spec fn one_sided() -> bool {
        false
    }

    open spec fn buildable(num_bits: usize, num_items: usize) -> bool {
        num_bits >= 1
    }

    open spec fn states_hashes() -> bool {
        true
    }

    open spec fn hashes(&self) -> nat {
        self.probes()
    }

    open spec fn records_history() -> bool {
        true
    }

    open spec fn history(&self) -> Seq<u64> {
        self.inserted()
    }

    open spec fn planned_hashes(num_bits: usize, num_items: usize) -> nat {
        optimal_hash_count(num_bits as nat, num_items as nat)
    }

    /// Draws fresh probes, as `contains` does; the item is not used.
    fn check(&self, _s: &u64) -> (r: bool)
        ensures
            exists|p: Seq<usize>|
                {
                    &&& 1 <= p.len() <= self.probes()
                    &&& probes_in_range(p, self.bits())
                    &&& forall|i: int|
                        0 <= i < p.len() - 1 ==> self.recorded().contains(#[trigger] p[i] as int)
                    &&& r ==> p.len() == self.probes() && self.recorded().contains(p.last() as int)
                    &&& !r ==> !self.recorded().contains(p.last() as int)
                },
    {
        self.contains()
    }

    fn num_hashes(&self) -> usize {
        self.hash_count()
    }

    fn new(num_bits: usize, num_items: usize) -> Option<Self> {
        if num_bits == 0 {
            None
        } else {
            Some(RandomFilter::new(num_bits, num_items))
        }
    }

    /// One insertion per item; the items themselves are not used.
    fn extend(&mut self, items: &Vec<u64>)
        ensures
            final(self).bits() == old(self).bits(),
            final(self).probes() == old(self).probes(),
            exists|p: Seq<usize>|
                {
                    &&& p.len() == items@.len() * old(self).probes()
                    &&& probes_in_range(p, old(self).bits())
                    &&& final(self).recorded() == old(self).recorded().union(probe_positions(p))
                },
    {
        self.insert_n(items.len());
        self.inserted = Ghost(self.inserted@ + items@);
    }

    fn name() -> &'static str {
        "Theoretical Best"
    }
}

} // verus!
