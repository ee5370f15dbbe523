//! The per-frame loudness metric.
//!
//! One frame is a vector of signed 16-bit mono samples.  Its loudness metric
//! is fixed here as the mean absolute sample value, rounded down: the sum of
//! the absolute sample magnitudes divided by the frame length, and 0 for an
//! empty frame.  The metric is a pure function of the frame, never negative,
//! and never above `METRIC_MAX`.

use vstd::prelude::*;

verus! {

/// The largest value the loudness metric can take: the absolute value of
/// `i16::MIN`, reached by a frame of full-scale samples.
pub const METRIC_MAX: u64 = 32768;

/// The absolute value of one sample.
pub open spec fn abs_val(v: int) -> int {
    if v < 0 {
        -v
    } else {
        v
    }
}

/// The sum of the absolute sample magnitudes of a frame.
pub open spec fn sum_abs(s: Seq<i16>) -> int
    decreases s.len(),
{
    if s.len() == 0 {
        0
    } else {
        sum_abs(s.drop_last()) + abs_val(s.last() as int)
    }
}

/// The loudness metric of a frame: the mean absolute sample value, rounded
/// down; 0 for the empty frame.
pub open spec fn metric_spec(s: Seq<i16>) -> int {
    if s.len() == 0 {
        0
    } else {
        sum_abs(s) / s.len() as int
    }
}

/// The sum of absolute magnitudes lies between 0 and len * METRIC_MAX.
pub proof fn lemma_sum_abs_bounds(s: Seq<i16>)
    ensures
        0 <= sum_abs(s) <= s.len() * METRIC_MAX,
    decreases s.len(),
{
    if s.len() == 0 {
    } else {
        lemma_sum_abs_bounds(s.drop_last());
        assert(abs_val(s.last() as int) <= METRIC_MAX);
        assert((s.len() - 1) * METRIC_MAX + METRIC_MAX == s.len() * METRIC_MAX) by (nonlinear_arith);
    }
}

/// The loudness metric is never negative, for any frame.
pub proof fn lemma_metric_nonneg(s: Seq<i16>)
    ensures
        0 <= metric_spec(s) <= METRIC_MAX,
{
    if s.len() == 0 {
    } else {
        lemma_sum_abs_bounds(s);
        let n = s.len() as int;
        vstd::arithmetic::div_mod::lemma_div_pos_is_pos(sum_abs(s), n);
        vstd::arithmetic::div_mod::lemma_div_is_ordered(sum_abs(s), n * METRIC_MAX, n);
        vstd::arithmetic::div_mod::lemma_div_multiples_vanish(METRIC_MAX as int, n);
    }
}

/// The loudness metric of the all-zero frame is exactly 0.
pub proof fn lemma_zero_frame_metric(s: Seq<i16>)
    requires
        forall|i: int| 0 <= i < s.len() ==> s[i] == 0,
    ensures
        metric_spec(s) == 0,
    decreases s.len(),
{
    if s.len() == 0 {
    } else {
        lemma_zero_sum_abs(s);
        vstd::arithmetic::div_mod::lemma_div_of0(s.len() as int);
    }
}

proof fn lemma_zero_sum_abs(s: Seq<i16>)
    requires
        forall|i: int| 0 <= i < s.len() ==> s[i] == 0,
    ensures
        sum_abs(s) == 0,
    decreases s.len(),
{
    if s.len() == 0 {
    } else {
        lemma_zero_sum_abs(s.drop_last());
    }
}

/// Computes the loudness metric of one frame: the mean absolute sample
/// value, rounded down.  Deterministic: the result is fixed by the frame's
/// samples alone.
pub fn get_frame_avg(frame: &Vec<i16>) -> (m: u64)
    ensures
        m == metric_spec(frame@),
        m <= METRIC_MAX,
{
    let n = frame.len();
    if n == 0 {
        return 0;
    }
    let mut sum: u128 = 0;
    let mut i: usize = 0;
    while i < n
        invariant
            n == frame@.len(),
            i <= n,
            sum == sum_abs(frame@.take(i as int)),
            sum <= i * METRIC_MAX,
        decreases n - i,
    {
        let v: i16 = frame[i];
        let a: u64 = if v >= 0 {
            v as u64
        } else {
            (-(v as i32)) as u64
        };
        proof {
            assert(frame@.take(i + 1).drop_last() =~= frame@.take(i as int));
            assert(frame@.take(i + 1).last() == frame@[i as int]);
            assert(a == abs_val(frame@[i as int] as int));
            assert(i * METRIC_MAX + METRIC_MAX == (i + 1) * METRIC_MAX) by (nonlinear_arith);
            assert((i + 1) * METRIC_MAX <= u128::MAX) by (nonlinear_arith)
                requires
                    i + 1 <= usize::MAX,
            ;
        }
        sum = sum + a as u128;
        i = i + 1;
    }
    proof {
        assert(frame@.take(n as int) =~= frame@);
        lemma_sum_abs_bounds(frame@);
        vstd::arithmetic::div_mod::lemma_div_pos_is_pos(sum_abs(frame@), n as int);
        vstd::arithmetic::div_mod::lemma_div_is_ordered(
            sum_abs(frame@),
            n as int * METRIC_MAX,
            n as int,
        );
        vstd::arithmetic::div_mod::lemma_div_multiples_vanish(METRIC_MAX as int, n as int);
    }
    (sum / n as u128) as u64
}

} // verus!
