use vstd::prelude::*;

use crate::errors::AcqError;

verus! {

/// Per-group voltage statistics in millivolts.
#[derive(Clone, Copy, PartialEq, Eq, Structural, Debug)]
pub struct VoltageStats {
    /// Truncated mean of the samples.
    pub avg_voltage: u16,
    /// Smallest sample.
    pub min_voltage: u16,
    /// Largest sample.
    pub max_voltage: u16,
    /// Spread: `max_voltage - min_voltage`.
    pub delta_voltage: u16,
}

/// Smallest value of a non-empty sample series.
pub open spec fn min_of(s: Seq<u16>) -> int
    recommends
        s.len() > 0,
    decreases s.len(),
{
    if s.len() <= 1 {
        s[0] as int
    } else {
        let m = min_of(s.drop_last());
        if (s.last() as int) < m {
            s.last() as int
        } else {
            m
        }
    }
}

/// Largest value of a non-empty sample series.
pub open spec fn max_of(s: Seq<u16>) -> int
    recommends
        s.len() > 0,
    decreases s.len(),
{
    if s.len() <= 1 {
        s[0] as int
    } else {
        let m = max_of(s.drop_last());
        if (s.last() as int) > m {
            s.last() as int
        } else {
            m
        }
    }
}

/// Sum of a sample series.
pub open spec fn sum_of(s: Seq<u16>) -> int
    decreases s.len(),
{
    if s.len() == 0 {
        0
    } else {
        sum_of(s.drop_last()) + s.last()
    }
}

/// What one aggregation pass reports for the series `s`: running minimum and
/// maximum, truncated mean, and the spread between the extremes.
pub open spec fn stats_for(s: Seq<u16>, st: VoltageStats) -> bool {
    &&& st.min_voltage as int == min_of(s)
    &&& st.max_voltage as int == max_of(s)
    &&& st.avg_voltage as int == sum_of(s) / s.len() as int
    &&& st.delta_voltage as int == max_of(s) - min_of(s)
}

/// Every sample of a non-empty series lies between its minimum and maximum.
pub proof fn lemma_min_max_bound(s: Seq<u16>, i: int)
    requires
        0 <= i < s.len(),
    ensures
        min_of(s) <= s[i] as int <= max_of(s),
    decreases s.len(),
{
    if s.len() > 1 {
        if i < s.len() - 1 {
            lemma_min_max_bound(s.drop_last(), i);
        }
    }
}

/// The sum of a non-empty series is bounded by its length times its extremes.
pub proof fn lemma_sum_bounds(s: Seq<u16>)
    requires
        s.len() > 0,
    ensures
        s.len() as int * min_of(s) <= sum_of(s) <= s.len() as int * max_of(s),
    decreases s.len(),
{
    if s.len() == 1 {
        assert(sum_of(s) == sum_of(s.drop_last()) + s.last());
        assert(sum_of(s.drop_last()) == 0);
    } else {
        let d = s.drop_last();
        lemma_sum_bounds(d);
        lemma_min_max_bound(s, s.len() - 1);
        assert(min_of(s) <= min_of(d)) by {
            lemma_min_max_bound(d, 0);
        }
        assert(min_of(d) * d.len() as int >= min_of(s) * d.len() as int) by (nonlinear_arith)
            requires
                min_of(d) >= min_of(s),
                d.len() > 0,
        ;
        assert(max_of(d) <= max_of(s));
        assert(max_of(d) * d.len() as int <= max_of(s) * d.len() as int) by (nonlinear_arith)
            requires
                max_of(d) <= max_of(s),
                d.len() > 0,
        ;
        assert(s.len() as int * min_of(s) == d.len() as int * min_of(s) + min_of(s)) by (nonlinear_arith)
            requires
                s.len() == d.len() + 1,
        ;
        assert(s.len() as int * max_of(s) == d.len() as int * max_of(s) + max_of(s)) by (nonlinear_arith)
            requires
                s.len() == d.len() + 1,
        ;
        assert(min_of(s) <= s.last() as int <= max_of(s));
    }
}

/// The truncated mean of a non-empty series lies between its extremes.
pub proof fn lemma_avg_bounds(s: Seq<u16>)
    requires
        s.len() > 0,
    ensures
        min_of(s) <= sum_of(s) / s.len() as int <= max_of(s),
{
    lemma_sum_bounds(s);
    let n = s.len() as int;
    assert(min_of(s) <= sum_of(s) / n) by (nonlinear_arith)
        requires
            n > 0,
            n * min_of(s) <= sum_of(s),
    ;
    assert(sum_of(s) / n <= max_of(s)) by (nonlinear_arith)
        requires
            n > 0,
            sum_of(s) <= n * max_of(s),
    ;
}

/// For every non-empty series, the reported spread is exactly the distance
/// between the reported extremes, and the reported average lies between them.
pub proof fn lemma_aggregate_law(s: Seq<u16>, st: VoltageStats)
    requires
        s.len() > 0,
        stats_for(s, st),
    ensures
        st.delta_voltage as int == st.max_voltage as int - st.min_voltage as int,
        st.min_voltage <= st.avg_voltage <= st.max_voltage,
{
    lemma_avg_bounds(s);
}

/// Reduces the samples `v[start..end]` to their statistics in one pass.
/// An empty range is refused with `EmptySeries`.
pub fn voltage_stats(v: &Vec<u16>, start: usize, end: usize) -> (r: Result<VoltageStats, AcqError>)
    requires
        start <= end,
        end as int <= v@.len(),
    ensures
        match r {
            Ok(st) => start < end && stats_for(v@.subrange(start as int, end as int), st),
            Err(e) => e == AcqError::EmptySeries && start == end,
        },
{
    if start == end {
        return Err(AcqError::EmptySeries);
    }
    let ghost whole = v@.subrange(start as int, end as int);
    let first = v[start];
    let mut mn: u16 = first;
    let mut mx: u16 = first;
    let mut sum: u128 = first as u128;
    let mut i: usize = start + 1;
    proof {
        let one = v@.subrange(start as int, start as int + 1);
        assert(one =~= seq![v@[start as int]]);
        assert(one.drop_last() =~= Seq::<u16>::empty());
        assert(sum_of(one) == sum_of(one.drop_last()) + one.last());
        assert(sum_of(one.drop_last()) == 0);
    }
    while i < end
        invariant
            start < i <= end,
            end as int <= v@.len(),
            mn as int == min_of(v@.subrange(start as int, i as int)),
            mx as int == max_of(v@.subrange(start as int, i as int)),
            sum as int == sum_of(v@.subrange(start as int, i as int)),
            mn <= mx,
            sum as int <= (i - start) * 0xffff,
        decreases end - i,
    {
        let ghost prefix = v@.subrange(start as int, i as int);
        let x = v[i];
        proof {
            assert(v@.subrange(start as int, i as int + 1).drop_last() =~= prefix);
            assert(v@.subrange(start as int, i as int + 1).last() == v@[i as int]);
            assert(sum as int + x as int <= (i + 1 - start) * 0xffff) by (nonlinear_arith)
                requires
                    sum as int <= (i - start) * 0xffff,
                    x as int <= 0xffff,
            ;
        }
        if x < mn {
            mn = x;
        }
        if x > mx {
            mx = x;
        }
        sum = sum + x as u128;
        i = i + 1;
    }
    let count = (end - start) as u128;
    proof {
        assert(whole.len() == end - start);
        lemma_sum_bounds(whole);
        lemma_avg_bounds(whole);
        assert(sum as int / count as int == sum_of(whole) / whole.len() as int);
    }
    let avg = (sum / count) as u16;
    Ok(VoltageStats { avg_voltage: avg, min_voltage: mn, max_voltage: mx, delta_voltage: mx - mn })
}

/// Per-group temperature statistics in tenths of a degree Celsius.
#[derive(Clone, Copy, PartialEq, Eq, Structural, Debug)]
pub struct TempStats {
    /// Truncated mean of the samples.
    pub avg_temp: u16,
    /// Smallest sample.
    pub min_temp: u16,
    /// Largest sample.
    pub max_temp: u16,
    /// Spread: `max_temp - min_temp`.
    pub delta_temp: u16,
}

/// What one aggregation pass reports for the temperature series `s`.
pub open spec fn temp_stats_for(s: Seq<u16>, st: TempStats) -> bool {
    &&& st.min_temp as int == min_of(s)
    &&& st.max_temp as int == max_of(s)
    &&& st.avg_temp as int == sum_of(s) / s.len() as int
    &&& st.delta_temp as int == max_of(s) - min_of(s)
}

/// Reduces the temperature samples `v[start..end]` to their statistics.
/// An empty range is refused with `EmptySeries`.
pub fn temp_stats(v: &Vec<u16>, start: usize, end: usize) -> (r: Result<TempStats, AcqError>)
    requires
        start <= end,
        end as int <= v@.len(),
    ensures
        match r {
            Ok(st) => start < end && temp_stats_for(v@.subrange(start as int, end as int), st),
            Err(e) => e == AcqError::EmptySeries && start == end,
        },
{
    match voltage_stats(v, start, end) {
        Ok(st) => Ok(
            TempStats {
                avg_temp: st.avg_voltage,
                min_temp: st.min_voltage,
                max_temp: st.max_voltage,
                delta_temp: st.delta_voltage,
            },
        ),
        Err(e) => Err(e),
    }
}

/// For every non-empty temperature series, the reported spread is exactly
/// the distance between the reported extremes, and the reported average lies
/// between them.
pub proof fn lemma_temp_aggregate_law(s: Seq<u16>, st: TempStats)
    requires
        s.len() > 0,
        temp_stats_for(s, st),
    ensures
        st.delta_temp as int == st.max_temp as int - st.min_temp as int,
        st.min_temp <= st.avg_temp <= st.max_temp,
{
    lemma_avg_bounds(s);
}

/// Splitting a non-empty series anywhere, the minimum of the whole is the
/// smaller of the two parts' minima, and the maximum the larger of the two
/// parts' maxima.
pub proof fn lemma_partition_min_max(s: Seq<u16>, m: int)
    requires
        0 < m < s.len(),
    ensures
        min_of(s) == if min_of(s.take(m)) <= min_of(s.skip(m)) {
            min_of(s.take(m))
        } else {
            min_of(s.skip(m))
        },
        max_of(s) == if max_of(s.take(m)) >= max_of(s.skip(m)) {
            max_of(s.take(m))
        } else {
            max_of(s.skip(m))
        },
    decreases s.len(),
{
    if m == s.len() - 1 {
        assert(s.take(m) =~= s.drop_last());
        assert(s.skip(m) =~= seq![s.last()]);
    } else {
        let d = s.drop_last();
        lemma_partition_min_max(d, m);
        assert(d.take(m) =~= s.take(m));
        assert(d.skip(m) =~= s.skip(m).drop_last());
        assert(s.skip(m).last() == s.last());
        assert(s.skip(m).len() > 1);
    }
}

/// In a report whose groups aggregate the two parts of a partitioned array,
/// the smaller of the groups' minima is the minimum of the whole array, and
/// the larger of the groups' maxima its maximum.
pub proof fn lemma_report_overall_extremes(
    s: Seq<u16>,
    m: int,
    right: VoltageStats,
    left: VoltageStats,
)
    requires
        0 < m < s.len(),
        stats_for(s.take(m), right),
        stats_for(s.skip(m), left),
    ensures
        (if right.min_voltage <= left.min_voltage {
            right.min_voltage
        } else {
            left.min_voltage
        }) as int == min_of(s),
        (if right.max_voltage >= left.max_voltage {
            right.max_voltage
        } else {
            left.max_voltage
        }) as int == max_of(s),
{
    lemma_partition_min_max(s, m);
}

/// The temperature analogue of `lemma_report_overall_extremes`.
pub proof fn lemma_temp_report_overall_extremes(
    s: Seq<u16>,
    m: int,
    right: TempStats,
    left: TempStats,
)
    requires
        0 < m < s.len(),
        temp_stats_for(s.take(m), right),
        temp_stats_for(s.skip(m), left),
    ensures
        (if right.min_temp <= left.min_temp {
            right.min_temp
        } else {
            left.min_temp
        }) as int == min_of(s),
        (if right.max_temp >= left.max_temp {
            right.max_temp
        } else {
            left.max_temp
        }) as int == max_of(s),
{
    lemma_partition_min_max(s, m);
}

} // verus!
