//! Nearest-rank percentiles of measured durations.
use crate::arith::smaller;
use vstd::prelude::*;
use vstd::relations::sorted_by;
use vstd::seq_lib::{lemma_sorted_unique, to_multiset_build, to_multiset_insert};

verus! {

/// The distribution of durations in nanoseconds.
#[derive(Clone, Copy, Debug, PartialEq, Eq, Structural)]
pub struct Distribution {
    pub samples: usize,
    pub p50_nanos: u64,
    pub p95_nanos: u64,
    pub max_nanos: u64,
}

/// The order of durations.
pub open spec fn no_longer() -> spec_fn(u64, u64) -> bool {
    |left: u64, right: u64| left <= right
}

/// The durations from the shortest to the longest.
pub open spec fn ordered(values: Seq<u64>) -> Seq<u64> {
    values.sort_by(no_longer())
}

/// The place of a percentile among `count` ordered values: the nearest rank.
pub open spec fn nearest_rank(count: int, percent: int) -> int {
    let ranks = (smaller(count * percent, usize::MAX as int) + 99) / 100;
    if ranks < 1 {
        0
    } else {
        ranks - 1
    }
}

/// A percentile of durations; none at all has the percentile zero.
pub open spec fn percentile(values: Seq<u64>, percent: int) -> u64 {
    if values.len() == 0 {
        0
    } else {
        ordered(values)[nearest_rank(values.len() as int, percent)]
    }
}

fn sort(values: &Vec<u64>) -> (sorted: Vec<u64>)
    ensures
        sorted@ == ordered(values@),
        sorted@.len() == values@.len(),
{
    let mut sorted: Vec<u64> = Vec::new();
    let mut i: usize = 0;
    assert(values@.take(0) =~= sorted@);
    while i < values.len()
        invariant
            i <= values@.len(),
            sorted@.len() == i,
            sorted_by(sorted@, no_longer()),
            sorted@.to_multiset() == values@.take(i as int).to_multiset(),
        decreases values@.len() - i,
    {
        let value: u64 = values[i];
        let ghost before = sorted@;
        let mut at: usize = sorted.len();
        while at > 0 && sorted[at - 1] > value
            invariant
                at <= sorted@.len(),
                sorted@ == before,
                sorted_by(before, no_longer()),
                forall|j: int| at <= j < before.len() ==> value <= before[j],
            decreases at,
        {
            at -= 1;
        }
        proof {
            if at > 0 {
                assert forall|j: int| 0 <= j < at implies before[j] <= value by {
                    if j < at - 1 {
                        assert(no_longer()(before[j], before[at - 1]));
                    }
                }
            }
        }
        sorted.insert(at, value);
        proof {
            assert(sorted@ =~= before.insert(at as int, value));
            to_multiset_insert(before, at as int, value);
            assert(values@.take(i + 1) =~= values@.take(i as int).push(value));
            to_multiset_build(values@.take(i as int), value);
            assert forall|a: int, b: int| 0 <= a < b < sorted@.len() implies #[trigger] no_longer()(
                sorted@[a],
                sorted@[b],
            ) by {
                let p = if a < at { a } else { a - 1 };
                let q = if b < at { b } else { b - 1 };
                if a != at && b != at {
                    assert(no_longer()(before[p], before[q]));
                }
            }
        }
        i += 1;
    }
    assert(values@.take(i as int) =~= values@);
    proof {
        lemma_total_order();
        values@.lemma_sort_by_ensures(no_longer());
        lemma_sorted_unique(sorted@, ordered(values@), no_longer());
    }
    sorted
}

proof fn lemma_total_order()
    ensures
        vstd::relations::total_ordering(no_longer()),
{
}

fn percentile_of(sorted: &Vec<u64>, percent: usize, Ghost(values): Ghost<Seq<u64>>) -> (value: u64)
    requires
        percent <= 100,
        sorted@ == ordered(values),
        sorted@.len() == values.len(),
    ensures
        value == percentile(values, percent as int),
{
    let count: usize = sorted.len();
    if count == 0 {
        return 0;
    }
    assert(0 <= count * percent <= count * 100) by (nonlinear_arith)
        requires
            0 <= percent <= 100,
            0 <= count,
    ;
    let product: usize = match count.checked_mul(percent) {
        Some(product) => product,
        None => usize::MAX,
    };
    let ranks: usize = product / 100 + (if product % 100 > 0 {
        1
    } else {
        0
    });
    assert(ranks == (product + 99) / 100);
    let rank: usize = ranks.saturating_sub(1);
    sorted[rank]
}

/// The nearest-rank distribution of durations.
pub fn distribution(values: &Vec<u64>) -> (distribution: Distribution)
    ensures
        distribution == (Distribution {
            samples: values@.len() as usize,
            p50_nanos: percentile(values@, 50),
            p95_nanos: percentile(values@, 95),
            max_nanos: percentile(values@, 100),
        }),
{
    let sorted = sort(values);
    Distribution {
        samples: values.len(),
        p50_nanos: percentile_of(&sorted, 50, Ghost(values@)),
        p95_nanos: percentile_of(&sorted, 95, Ghost(values@)),
        max_nanos: percentile_of(&sorted, 100, Ghost(values@)),
    }
}

/// Percentiles rise, each is a value that was measured, and the last one is the longest.
pub proof fn law_percentiles_are_measured_and_rise(
    values: Seq<u64>,
    lower: int,
    upper: int,
    i: int,
)
    requires
        0 <= lower <= upper <= 100,
        values.len() * 100 <= usize::MAX,
        0 <= i < values.len(),
    ensures
        percentile(values, lower) <= percentile(values, upper),
        values.contains(percentile(values, lower)),
        values[i] <= percentile(values, 100),
{
    lemma_total_order();
    values.lemma_sort_by_ensures(no_longer());
    values.to_multiset_ensures();
    ordered(values).to_multiset_ensures();
    let count = values.len() as int;
    let sorted = ordered(values);
    assert(sorted.len() == count);
    assert(0 <= count * lower <= count * upper <= count * 100) by (nonlinear_arith)
        requires
            0 <= lower <= upper <= 100,
            0 <= count,
    ;
    let low = nearest_rank(count, lower);
    let high = nearest_rank(count, upper);
    assert(0 <= low <= high < count);
    if low < high {
        assert(no_longer()(sorted[low], sorted[high]));
    }
    assert(sorted.contains(sorted[low]));
    assert(values.to_multiset().count(sorted[low]) > 0);
    assert(values.contains(values[i]));
    assert(sorted.to_multiset().count(values[i]) > 0);
    let k = choose|k: int| 0 <= k < sorted.len() && sorted[k] == values[i];
    assert(nearest_rank(count, 100) == count - 1);
    if k < count - 1 {
        assert(no_longer()(sorted[k], sorted[count - 1]));
    }
}

/// A percentile stands at the nearest rank: no fewer than that share of the values lie at or before it,
/// and one place earlier would be too few.
pub proof fn law_percentiles_stand_at_the_nearest_rank(count: int, percent: int)
    requires
        0 < count,
        1 <= percent <= 100,
        count * 100 <= usize::MAX,
    ensures
        ({
            let rank = nearest_rank(count, percent);
            &&& 0 <= rank < count
            &&& 100 * rank < count * percent <= 100 * (rank + 1)
        }),
{
    assert(count <= count * percent <= count * 100) by (nonlinear_arith)
        requires
            0 < count,
            1 <= percent <= 100,
    ;
}

/// Durations are put in order without one being lost, added or changed, and a percentile is the value
/// at its rank.
pub proof fn law_durations_are_put_in_order(values: Seq<u64>, percent: int, i: int, j: int)
    requires
        0 <= percent <= 100,
    ensures
        ordered(values).to_multiset() == values.to_multiset(),
        ordered(values).len() == values.len(),
        0 <= i < j < values.len() ==> ordered(values)[i] <= ordered(values)[j],
        values.len() > 0 ==> percentile(values, percent) == ordered(values)[nearest_rank(
            values.len() as int,
            percent,
        )],
        values.len() == 0 ==> percentile(values, percent) == 0,
{
    lemma_total_order();
    values.lemma_sort_by_ensures(no_longer());
    values.to_multiset_ensures();
    ordered(values).to_multiset_ensures();
    assert(ordered(values).len() == values.len());
    if 0 <= i < j < values.len() {
        assert(no_longer()(ordered(values)[i], ordered(values)[j]));
    }
}

/// A distribution holds the percentiles of its values: half, nineteen twentieths and all of them lie at or
/// below.
pub proof fn law_distribution_holds_its_percentiles(values: &Vec<u64>, seen: Distribution, i: int)
    requires
        call_ensures(distribution, (values,), seen),
        values@.len() * 100 <= usize::MAX,
        0 <= i < values@.len(),
    ensures
        seen.samples == values@.len(),
        seen.p50_nanos <= seen.p95_nanos <= seen.max_nanos,
        values@[i] <= seen.max_nanos,
        values@.contains(seen.p50_nanos) && values@.contains(seen.p95_nanos) && values@.contains(
            seen.max_nanos,
        ),
        seen.p95_nanos == ordered(values@)[nearest_rank(values@.len() as int, 95)],
        seen.p50_nanos == ordered(values@)[nearest_rank(values@.len() as int, 50)],
{
    law_percentiles_are_measured_and_rise(values@, 50, 95, i);
    law_percentiles_are_measured_and_rise(values@, 95, 100, i);
    law_percentiles_are_measured_and_rise(values@, 100, 100, i);
}

} // verus!
