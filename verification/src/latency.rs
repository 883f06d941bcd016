//! Aggregation of the measured per-thread elapsed times into one
//! figure: all threads' nanoseconds laid end to end, divided by the
//! number of operations the run executed.

use vstd::prelude::*;

verus! {

/// Sum of the recorded per-thread durations, in nanoseconds.
pub open spec fn sum_nanos(s: Seq<u64>) -> int
    decreases s.len(),
{
    if s.len() == 0 {
        0
    } else {
        sum_nanos(s.drop_last()) + s.last()
    }
}

/// Mean per-operation latency in whole nanoseconds: the sum of the
/// per-thread elapsed times divided by the number of operations the
/// run executed. `None` exactly when no operation ran — a degenerate
/// configuration is reported, never divided by.
pub fn average_nanos(durations: &Vec<u64>, real_total_ops: u64) -> (r: Option<u128>)
    ensures
        real_total_ops == 0 <==> r is None,
        real_total_ops > 0 ==> (r matches Some(avg) && avg == sum_nanos(durations@) / (
        real_total_ops as int)),
{
    if real_total_ops == 0 {
        return None;
    }
    let mut total: u128 = 0;
    let mut i: usize = 0;
    while i < durations.len()
        invariant
            i <= durations@.len(),
            total == sum_nanos(durations@.take(i as int)),
            total <= i * (u64::MAX as int),
        decreases durations@.len() - i,
    {
        proof {
            assert(durations@.take(i as int + 1).drop_last() =~= durations@.take(i as int));
            assert(durations@.take(i as int + 1).last() == durations@[i as int]);
        }
        total = total + (durations[i] as u128);
        i = i + 1;
    }
    proof {
        assert(durations@.take(durations@.len() as int) =~= durations@);
    }
    Some(total / (real_total_ops as u128))
}

} // verus!
