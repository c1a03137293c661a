//! The geometric checkpoint schedule: item counts at which a measurement is
//! taken. The increment doubles every 32 calls, so checkpoints are spaced
//! roughly log-uniformly.
use vstd::arithmetic::power2::{lemma_pow2_adds, lemma_pow2_pos, lemma_pow2_strictly_increases, lemma2_to64, pow2};
use vstd::prelude::*;

verus! {

/// Number of calls over which the increment stays fixed before doubling.
pub const STEPS_PER_DOUBLING: usize = 32;

/// The increment added by the call that starts with `step` earlier calls:
/// `2^floor(step / 32)`.
pub open spec fn tick_increment(step: nat) -> nat {
    pow2(step / 32)
}

/// The cursor after `n` calls from the initial state: the sum of the first
/// `n` increments.
pub open spec fn tick_value(n: nat) -> nat
    decreases n,
{
    if n == 0 {
        0
    } else {
        tick_value((n - 1) as nat) + tick_increment((n - 1) as nat)
    }
}

/// Restartable checkpoint generator. `step` counts calls, so the real
/// exponent of the increment is `step / 32`.
pub struct Ticks {
    pub cur: usize,
    pub step: usize,
}

/// The increment never exceeds the cursor plus one.
pub proof fn lemma_increment_bounded(n: nat)
    ensures
        tick_increment(n) <= tick_value(n) + 1,
    decreases n,
{
    if n == 0 {
        lemma2_to64();
    } else {
        let p = (n - 1) as nat;
        lemma_increment_bounded(p);
        if n / 32 == p / 32 {
        } else {
            assert(n / 32 == p / 32 + 1);
            lemma_pow2_adds(p / 32, 1);
            lemma2_to64();
        }
    }
}

/// The schedule is strictly increasing.
pub proof fn lemma_schedule_increasing(a: nat, b: nat)
    requires
        a < b,
    ensures
        tick_value(a) < tick_value(b),
    decreases b,
{
    lemma_pow2_pos(((b - 1) as nat) / 32);
    if a < b - 1 {
        lemma_schedule_increasing(a, (b - 1) as nat);
    }
}

/// The cursor is never below the number of calls made.
pub proof fn lemma_value_at_least_steps(n: nat)
    ensures
        tick_value(n) >= n,
    decreases n,
{
    if n > 0 {
        lemma_value_at_least_steps((n - 1) as nat);
        lemma_pow2_pos(((n - 1) as nat) / 32);
    }
}

impl Ticks {
    pub open spec fn wf(self) -> bool {
        self.cur == tick_value(self.step as nat)
    }

    /// The initial state `(cur = 0, step = 0)`.
    pub fn new() -> (r: Ticks)
        ensures
            r.cur == 0,
            r.step == 0,
            r.wf(),
    {
        Ticks { cur: 0, step: 0 }
    }

    /// Whether the next call can be made without overflow.
    pub open spec fn can_advance(self) -> bool {
        &&& self.step < usize::MAX
        &&& self.cur + tick_increment(self.step as nat) <= usize::MAX
    }

    /// Advances the cursor by `2^floor(step / 32)` and the step by one, and
    /// returns the new cursor.
    pub fn next(&mut self) -> (r: usize)
        requires
            old(self).wf(),
            old(self).can_advance(),
        ensures
            final(self).wf(),
            final(self).step == old(self).step + 1,
            r == final(self).cur,
            r == old(self).cur + tick_increment(old(self).step as nat),
    {
        let shift: usize = self.step / STEPS_PER_DOUBLING;
        let mut inc: usize = 1;
        let mut i: usize = 0;
        proof {
            lemma2_to64();
        }
        while i < shift
            invariant
                i <= shift,
                shift == self.step / 32,
                inc as nat == pow2(i as nat),
                self.cur + pow2(shift as nat) <= usize::MAX,
            decreases shift - i,
        {
            proof {
                lemma2_to64();
                lemma_pow2_adds(i as nat, 1);
                if i + 1 < shift {
                    lemma_pow2_strictly_increases((i + 1) as nat, shift as nat);
                }
            }
            inc = inc * 2;
            i = i + 1;
        }
        self.cur = self.cur + inc;
        self.step = self.step + 1;
        self.cur
    }
}

} // verus!
