//! The aggregator: reduces the observations of all trials into one row per
//! checkpoint index, with the mean, minimum and maximum rate.
use crate::ratio::Ratio;
use crate::trial::Observation;
use vstd::prelude::*;

verus! {

/// The mean rate is given in units of `1 / MEAN_SCALE`.
pub const MEAN_SCALE: u64 = 1_000_000_000_000_000_000;

/// One aggregate row: the load of the checkpoint and the mean, minimum and
/// maximum false-positive rate over the trials there.
#[derive(Clone, Copy, Debug, PartialEq, Eq, Structural)]
pub struct AggregateRow {
    pub load: Ratio,
    pub mean: Ratio,
    pub min: Ratio,
    pub max: Ratio,
}

/// The rate `r` in units of `1 / MEAN_SCALE`, rounded down.
pub open spec fn scaled_rate(r: Ratio) -> nat {
    ((MEAN_SCALE * r.num) as int / r.den as int) as nat
}

/// The sum of the scaled rates of `col`.
pub open spec fn scaled_sum(col: Seq<Ratio>) -> nat
    decreases col.len(),
{
    if col.len() == 0 {
        0
    } else {
        scaled_sum(col.drop_last()) + scaled_rate(col.last())
    }
}

/// `a < b` as rational numbers.
pub open spec fn ratio_lt(a: Ratio, b: Ratio) -> bool {
    !b.spec_le(a)
}

/// The first least rate of `col`.
pub open spec fn first_min(col: Seq<Ratio>) -> Ratio
    decreases col.len(),
{
    if col.len() <= 1 {
        col[0]
    } else if ratio_lt(col.last(), first_min(col.drop_last())) {
        col.last()
    } else {
        first_min(col.drop_last())
    }
}

/// The first greatest rate of `col`.
pub open spec fn first_max(col: Seq<Ratio>) -> Ratio
    decreases col.len(),
{
    if col.len() <= 1 {
        col[0]
    } else if ratio_lt(first_max(col.drop_last()), col.last()) {
        col.last()
    } else {
        first_max(col.drop_last())
    }
}

proof fn lemma_le_trans(a: Ratio, b: Ratio, c: Ratio)
    requires
        a.den > 0,
        b.den > 0,
        c.den > 0,
        a.spec_le(b),
        b.spec_le(c),
    ensures
        a.spec_le(c),
{
    assert(a.num * b.den * c.den <= b.num * a.den * c.den) by (nonlinear_arith)
        requires
            a.num * b.den <= b.num * a.den,
    ;
    assert(b.num * c.den * a.den <= c.num * b.den * a.den) by (nonlinear_arith)
        requires
            b.num * c.den <= c.num * b.den,
    ;
    assert(a.num * c.den <= c.num * a.den) by (nonlinear_arith)
        requires
            a.num * b.den * c.den <= b.num * a.den * c.den,
            b.num * c.den * a.den <= c.num * b.den * a.den,
            b.den > 0,
    ;
}

/// The least rate reported by the aggregator is one of the rates, and no
/// rate is below it.
pub proof fn lemma_first_min_is_least(col: Seq<Ratio>)
    requires
        col.len() >= 1,
        forall|j: int| 0 <= j < col.len() ==> (#[trigger] col[j]).den > 0,
    ensures
        exists|j: int| 0 <= j < col.len() && col[j] == first_min(col),
        forall|j: int| 0 <= j < col.len() ==> first_min(col).spec_le(#[trigger] col[j]),
    decreases col.len(),
{
    if col.len() > 1 {
        let rest = col.drop_last();
        lemma_first_min_is_least(rest);
        let m = first_min(rest);
        let jm = choose|j: int| 0 <= j < rest.len() && rest[j] == m;
        assert(col[jm] == m);
        if ratio_lt(col.last(), m) {
            assert forall|j: int| 0 <= j < col.len() implies col.last().spec_le(#[trigger] col[j]) by {
                if j < col.len() - 1 {
                    assert(rest[j] == col[j]);
                    lemma_le_trans(col.last(), m, col[j]);
                }
            }
            assert(col[col.len() - 1] == col.last());
        } else {
            assert forall|j: int| 0 <= j < col.len() implies m.spec_le(#[trigger] col[j]) by {
                if j < col.len() - 1 {
                    assert(rest[j] == col[j]);
                }
            }
        }
    } else {
        assert(col[0] == first_min(col));
    }
}

/// The greatest rate reported by the aggregator is one of the rates, and no
/// rate is above it.
pub proof fn lemma_first_max_is_greatest(col: Seq<Ratio>)
    requires
        col.len() >= 1,
        forall|j: int| 0 <= j < col.len() ==> (#[trigger] col[j]).den > 0,
    ensures
        exists|j: int| 0 <= j < col.len() && col[j] == first_max(col),
        forall|j: int| 0 <= j < col.len() ==> (#[trigger] col[j]).spec_le(first_max(col)),
    decreases col.len(),
{
    if col.len() > 1 {
        let rest = col.drop_last();
        lemma_first_max_is_greatest(rest);
        let m = first_max(rest);
        let jm = choose|j: int| 0 <= j < rest.len() && rest[j] == m;
        assert(col[jm] == m);
        if ratio_lt(m, col.last()) {
            assert forall|j: int| 0 <= j < col.len() implies (#[trigger] col[j]).spec_le(col.last()) by {
                if j < col.len() - 1 {
                    assert(rest[j] == col[j]);
                    lemma_le_trans(col[j], m, col.last());
                }
            }
            assert(col[col.len() - 1] == col.last());
        } else {
            assert forall|j: int| 0 <= j < col.len() implies (#[trigger] col[j]).spec_le(m) by {
                if j < col.len() - 1 {
                    assert(rest[j] == col[j]);
                }
            }
        }
    } else {
        assert(col[0] == first_max(col));
    }
}

proof fn lemma_scaled_monotone(a: Ratio, b: Ratio)
    requires
        a.den > 0,
        b.den > 0,
        a.spec_le(b),
    ensures
        scaled_rate(a) <= scaled_rate(b),
{
    let s = MEAN_SCALE as int;
    let q = (s * a.num) / (a.den as int);
    vstd::arithmetic::div_mod::lemma_fundamental_div_mod(s * a.num, a.den as int);
    assert(q * a.den <= s * a.num);
    assert(q * b.den <= s * b.num) by (nonlinear_arith)
        requires
            q * a.den <= s * a.num,
            a.num * b.den <= b.num * a.den,
            a.den > 0,
            b.den > 0,
            s > 0,
            q >= 0,
    {
        assert(q * a.den * b.den <= s * a.num * b.den) by (nonlinear_arith)
            requires
                q * a.den <= s * a.num,
                b.den > 0,
        ;
        assert(s * a.num * b.den <= s * b.num * a.den) by (nonlinear_arith)
            requires
                a.num * b.den <= b.num * a.den,
                s > 0,
        ;
    }
    vstd::arithmetic::div_mod::lemma_div_is_ordered(q * b.den, s * b.num, b.den as int);
    vstd::arithmetic::div_mod::lemma_div_multiples_vanish(q, b.den as int);
}

proof fn lemma_scaled_sum_bounds(col: Seq<Ratio>, lo: nat, hi: nat)
    requires
        forall|j: int| 0 <= j < col.len() ==> lo <= scaled_rate(#[trigger] col[j]) <= hi,
    ensures
        col.len() * lo <= scaled_sum(col) <= col.len() * hi,
    decreases col.len(),
{
    if col.len() > 0 {
        let rest = col.drop_last();
        assert forall|j: int| 0 <= j < rest.len() implies lo <= scaled_rate(#[trigger] rest[j]) <= hi by {
            assert(rest[j] == col[j]);
        }
        lemma_scaled_sum_bounds(rest, lo, hi);
        assert(col[col.len() - 1] == col.last());
        assert(col.len() * lo == rest.len() * lo + lo) by (nonlinear_arith)
            requires
                col.len() == rest.len() + 1,
        ;
        assert(col.len() * hi == rest.len() * hi + hi) by (nonlinear_arith)
            requires
                col.len() == rest.len() + 1,
        ;
    }
}

/// The mean that the aggregator reports lies between the least and the
/// greatest rate, each taken in units of `1 / MEAN_SCALE` and rounded down.
pub proof fn lemma_mean_between_min_and_max(col: Seq<Ratio>)
    requires
        col.len() >= 1,
        forall|j: int| 0 <= j < col.len() ==> (#[trigger] col[j]).den > 0,
    ensures
        scaled_rate(first_min(col)) <= scaled_sum(col) as int / col.len() as int <= scaled_rate(
            first_max(col),
        ),
{
    lemma_first_min_is_least(col);
    lemma_first_max_is_greatest(col);
    let lo = scaled_rate(first_min(col));
    let hi = scaled_rate(first_max(col));
    let jm = choose|j: int| 0 <= j < col.len() && col[j] == first_min(col);
    let jx = choose|j: int| 0 <= j < col.len() && col[j] == first_max(col);
    assert(first_min(col).den > 0) by {
        assert(col[jm].den > 0);
    }
    assert(first_max(col).den > 0) by {
        assert(col[jx].den > 0);
    }
    assert forall|j: int| 0 <= j < col.len() implies lo <= scaled_rate(#[trigger] col[j]) <= hi by {
        lemma_scaled_monotone(first_min(col), col[j]);
        lemma_scaled_monotone(col[j], first_max(col));
    }
    lemma_scaled_sum_bounds(col, lo, hi);
    let n = col.len() as int;
    let sum = scaled_sum(col) as int;
    vstd::arithmetic::div_mod::lemma_div_is_ordered(n * lo, sum, n);
    vstd::arithmetic::div_mod::lemma_div_is_ordered(sum, n * hi, n);
    vstd::arithmetic::div_mod::lemma_div_multiples_vanish(lo as int, n);
    vstd::arithmetic::div_mod::lemma_div_multiples_vanish(hi as int, n);
}

/// The rates of all trials at checkpoint index `i`.
pub open spec fn rate_column(data: Seq<Seq<Observation>>, i: int) -> Seq<Ratio> {
    Seq::new(data.len(), |j: int| data[j][i].rate)
}

/// Whether `r` is the length of the shortest sequence of `vecs`.
pub open spec fn is_min_len<T>(vecs: Seq<Vec<T>>, r: nat) -> bool {
    &&& exists|j: int| 0 <= j < vecs.len() && vecs[j]@.len() == r
    &&& forall|j: int| 0 <= j < vecs.len() ==> r <= #[trigger] vecs[j]@.len()
}

/// The aggregate row at index `i`: the first trial's load, the mean of the
/// scaled rates, and the least and greatest rate.
pub open spec fn aggregate_row(data: Seq<Seq<Observation>>, i: int) -> AggregateRow {
    AggregateRow {
        load: Ratio { num: data[0][i].items as u64, den: data[0][i].num_bits as u64 },
        mean: Ratio {
            num: (scaled_sum(rate_column(data, i)) as int / data.len() as int) as u64,
            den: MEAN_SCALE,
        },
        min: first_min(rate_column(data, i)),
        max: first_max(rate_column(data, i)),
    }
}

/// Whether every rate of `data` has a positive denominator and is at most 1.
pub open spec fn rates_valid(data: Seq<Seq<Observation>>) -> bool {
    forall|j: int, i: int|
        0 <= j < data.len() && 0 <= i < data[j].len() ==> #[trigger] data[j][i].rate.den >= 1
            && data[j][i].rate.num <= data[j][i].rate.den
}

/// The rows that aggregate `data`: one per index below the shortest trial's
/// length.
pub open spec fn aggregate_rows(data: Seq<Seq<Observation>>, rows: nat) -> Seq<AggregateRow> {
    Seq::new(rows, |i: int| aggregate_row(data, i))
}

/// The length of the shortest of `vecs`.
pub fn min_len<T>(vecs: &[Vec<T>]) -> (r: usize)
    requires
        vecs@.len() >= 1,
    ensures
        is_min_len(vecs@, r as nat),
{
    let mut best: usize = vecs[0].len();
    let ghost mut at: int = 0;
    let mut j: usize = 1;
    while j < vecs.len()
        invariant
            1 <= j <= vecs@.len(),
            0 <= at < j,
            vecs@[at]@.len() == best,
            forall|k: int| 0 <= k < j ==> best <= #[trigger] vecs@[k]@.len(),
        decreases vecs@.len() - j,
    {
        if vecs[j].len() < best {
            best = vecs[j].len();
            proof {
                at = j as int;
            }
        }
        j = j + 1;
    }
    best
}

/// The scaled value of one rate.
fn scaled(r: Ratio) -> (s: u64)
    requires
        r.den >= 1,
        r.num <= r.den,
    ensures
        s == scaled_rate(r),
        s <= MEAN_SCALE,
{
    proof {
        assert(MEAN_SCALE * r.num <= MEAN_SCALE * r.den) by (nonlinear_arith)
            requires
                r.num <= r.den,
        ;
        assert((MEAN_SCALE * r.num) as int / r.den as int <= MEAN_SCALE) by (nonlinear_arith)
            requires
                MEAN_SCALE * r.num <= MEAN_SCALE * r.den,
                r.den >= 1,
        {
            vstd::arithmetic::div_mod::lemma_div_is_ordered(
                MEAN_SCALE * r.num as int,
                MEAN_SCALE * r.den as int,
                r.den as int,
            );
            vstd::arithmetic::div_mod::lemma_div_by_multiple(MEAN_SCALE as int, r.den as int);
        }
    }
    ((MEAN_SCALE as u128 * r.num as u128) / r.den as u128) as u64
}

/// The aggregate row at index `i` of `data`.
fn row_at(data: &Vec<Vec<Observation>>, i: usize) -> (r: AggregateRow)
    requires
        data@.len() >= 1,
        forall|j: int| 0 <= j < data@.len() ==> i < #[trigger] data@[j]@.len(),
        rates_valid(data@.map_values(|v: Vec<Observation>| v@)),
    ensures
        r == aggregate_row(data@.map_values(|v: Vec<Observation>| v@), i as int),
{
    let ghost d = data@.map_values(|v: Vec<Observation>| v@);
    let ghost col = rate_column(d, i as int);
    let first = data[0][i].rate;
    proof {
        assert(d[0] == data@[0]@);
        assert(d[0][i as int].rate == first);
        assert(d[0][i as int].rate.den >= 1);
        assert(scaled_sum(col.take(1)) == scaled_sum(col.take(1).drop_last()) + scaled_rate(col.take(1).last()));
        assert(col.take(1).drop_last() =~= Seq::<Ratio>::empty());
    }
    let mut total: u128 = scaled(first) as u128;
    let mut min: Ratio = first;
    let mut max: Ratio = first;
    let mut j: usize = 1;
    proof {
        assert(col[0] == first);
    }
    while j < data.len()
        invariant
            d == data@.map_values(|v: Vec<Observation>| v@),
            col == rate_column(d, i as int),
            rates_valid(d),
            forall|k: int| 0 <= k < data@.len() ==> i < #[trigger] data@[k]@.len(),
            1 <= j <= data@.len(),
            total == scaled_sum(col.take(j as int)),
            total <= j * MEAN_SCALE,
            min == first_min(col.take(j as int)),
            max == first_max(col.take(j as int)),
        decreases data@.len() - j,
    {
        let r = data[j][i].rate;
        proof {
            assert(col.take(j + 1).drop_last() =~= col.take(j as int));
            assert(col.take(j + 1).last() == r);
            assert(d[j as int] == data@[j as int]@);
            assert(d[j as int][i as int].rate.den >= 1);
        }
        total = total + scaled(r) as u128;
        if r.le(&min) && !min.le(&r) {
            min = r;
        }
        if max.le(&r) && !r.le(&max) {
            max = r;
        }
        j = j + 1;
    }
    proof {
        assert(col.take(data@.len() as int) =~= col);
        assert(total as int / data@.len() as int <= MEAN_SCALE) by (nonlinear_arith)
            requires
                total <= data@.len() * MEAN_SCALE,
                data@.len() >= 1,
        ;
    }
    AggregateRow {
        load: data[0][i].load(),
        mean: Ratio { num: (total / data.len() as u128) as u64, den: MEAN_SCALE },
        min,
        max,
    }
}

/// Reduces the observations of all trials: keeps as many checkpoint indices
/// as the shortest trial has, and gives one row for each.
pub fn aggregate(data: &Vec<Vec<Observation>>) -> (r: Vec<AggregateRow>)
    requires
        data@.len() >= 1,
        rates_valid(data@.map_values(|v: Vec<Observation>| v@)),
    ensures
        is_min_len(data@, r@.len()),
        r@ == aggregate_rows(data@.map_values(|v: Vec<Observation>| v@), r@.len()),
{
    let rows: usize = min_len(data.as_slice());
    let mut out: Vec<AggregateRow> = Vec::new();
    let mut i: usize = 0;
    while i < rows
        invariant
            data@.len() >= 1,
            rates_valid(data@.map_values(|v: Vec<Observation>| v@)),
            is_min_len(data@, rows as nat),
            i <= rows,
            out@ == aggregate_rows(data@.map_values(|v: Vec<Observation>| v@), i as nat),
        decreases rows - i,
    {
        let row = row_at(data, i);
        out.push(row);
        i = i + 1;
        proof {
            assert(out@ =~= aggregate_rows(data@.map_values(|v: Vec<Observation>| v@), i as nat));
        }
    }
    out
}

} // verus!
