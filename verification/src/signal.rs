//! Signal magnitudes.
//!
//! A magnitude is a signed count of ticks. The engine only adds and compares
//! magnitudes, so the size of one tick is the caller's choice. Results that
//! leave the range of `i64` stop at its nearest end.

use vstd::prelude::*;

verus! {

/// The exact sum of a batch of signals.
pub open spec fn batch_sum(signals: Seq<i64>) -> int
    decreases signals.len(),
{
    if signals.len() == 0 {
        0
    } else {
        batch_sum(signals.drop_last()) + signals.last()
    }
}

/// The magnitude nearest to `x` that an `i64` can hold.
pub open spec fn saturate(x: int) -> int {
    if x < i64::MIN {
        i64::MIN as int
    } else if x > i64::MAX {
        i64::MAX as int
    } else {
        x
    }
}

/// Adds `delta` to `base`, stopping at the ends of `i64`.
pub fn add_saturating(base: i64, delta: i64) -> (r: i64)
    ensures
        r == saturate(base + delta),
{
    let wide: i128 = base as i128 + delta as i128;
    if wide < i64::MIN as i128 {
        i64::MIN
    } else if wide > i64::MAX as i128 {
        i64::MAX
    } else {
        wide as i64
    }
}

/// Sums a batch of signals.
pub fn sum(values: &Vec<i64>) -> (total: i64)
    ensures
        total == saturate(batch_sum(values@)),
{
    let mut acc: i128 = 0;
    let mut i: usize = 0;
    while i < values.len()
        invariant
            i <= values.len(),
            acc == batch_sum(values@.take(i as int)),
            -(i * 0x8000_0000_0000_0000) <= acc <= i * 0x8000_0000_0000_0000,
        decreases values.len() - i,
    {
        proof {
            assert(values@.take(i as int + 1).drop_last() =~= values@.take(i as int));
        }
        acc = acc + values[i] as i128;
        i += 1;
    }
    proof {
        assert(values@.take(i as int) =~= values@);
    }
    if acc < i64::MIN as i128 {
        i64::MIN
    } else if acc > i64::MAX as i128 {
        i64::MAX
    } else {
        acc as i64
    }
}

} // verus!
