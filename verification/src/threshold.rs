//! Ambient-noise calibration and the silence threshold.
//!
//! The threshold is the arithmetic mean of the loudness metric over a fixed
//! number of calibration frames, scaled by a configurable noise multiplier.
//! Both the multiplier and the threshold are exact rationals: the multiplier
//! as a small numerator/denominator pair, the threshold as the unreduced
//! fraction `sum_of_metrics * mult_num / (frame_count * mult_den)`.  A frame
//! is loud when its metric strictly exceeds the threshold, decided by exact
//! cross-multiplication, so no precision is lost anywhere.
//!
//! A threshold is always positive: the multiplier must be positive, and a
//! dead-silent calibration — a zero ambient mean — derives no threshold at
//! all but fails, fatally for startup, since every later decision rests on
//! a usable threshold.

use crate::metric::{get_frame_avg, metric_spec, METRIC_MAX};
use vstd::prelude::*;

verus! {

/// Upper bound on a threshold numerator: `sum_of_metrics * mult_num` with at
/// most `usize::MAX` metrics of at most `METRIC_MAX` and a `u32` multiplier
/// numerator stays under 2^111.
pub const THRESHOLD_NUM_MAX: u128 = 0x8000_0000_0000_0000_0000_0000_0000;

/// Upper bound on a threshold denominator: `frame_count * mult_den` with a
/// `usize` count and a `u32` denominator stays under 2^96.
pub const THRESHOLD_DEN_MAX: u128 = 0x1_0000_0000_0000_0000_0000_0000;

/// The configurable scale factor applied to the calibration mean, as an
/// exact rational `num / den`.
#[derive(Clone, Copy, Debug)]
pub struct NoiseMultiplier {
    pub num: u32,
    pub den: u32,
}

impl NoiseMultiplier {
    /// A multiplier is well formed when both parts are positive: a zero
    /// numerator would make every threshold zero and every frame loud, so it
    /// is rejected as a malformed configuration.
    pub open spec fn wf(self) -> bool {
        &&& self.num > 0
        &&& self.den > 0
    }

    /// Builds a multiplier; both parts must be positive.
    pub fn new(num: u32, den: u32) -> (m: NoiseMultiplier)
        requires
            num > 0,
            den > 0,
        ensures
            m.num == num,
            m.den == den,
            m.wf(),
    {
        NoiseMultiplier { num, den }
    }
}

impl Default for NoiseMultiplier {
    /// The default scale factor is 2: a frame must be twice as loud as the
    /// ambient mean to count as speech.
    fn default() -> (m: NoiseMultiplier)
        ensures
            m.num == 2,
            m.den == 1,
            m.wf(),
    {
        NoiseMultiplier { num: 2, den: 1 }
    }
}

/// The calibrated silence threshold, an exact rational `num / den`.
#[derive(Clone, Copy, Debug, PartialEq, Eq, Structural)]
pub struct Threshold {
    pub num: u128,
    pub den: u128,
}

impl Threshold {
    /// A threshold is well formed when it is positive — both parts at least
    /// 1 — and both parts stay within the bounds that calibration can
    /// produce, so that cross-multiplication against a metric never
    /// overflows.
    pub open spec fn wf(self) -> bool {
        &&& 0 < self.num <= THRESHOLD_NUM_MAX
        &&& 0 < self.den <= THRESHOLD_DEN_MAX
    }
}

/// Why calibration can fail to produce a threshold.
#[derive(Clone, Copy, Debug, PartialEq, Eq, Structural)]
pub enum CalibrationError {
    /// Every calibration frame was dead silent: the ambient mean is 0, and
    /// no positive threshold can be derived from it.  Fatal at startup.
    SilentAmbient,
}

impl CalibrationError {
    /// A diagnostic line for the failure.
    pub fn message(&self) -> (r: String)
        ensures
            r@ == "calibration heard only silence: no usable threshold"@,
    {
        "calibration heard only silence: no usable threshold".to_owned()
    }
}

/// Whether a metric value strictly exceeds the threshold `num / den`.
pub open spec fn loud_spec(metric: int, thr: Threshold) -> bool {
    metric * thr.den > thr.num
}

/// Two rationals `a_num / a_den` and `b_num / b_den` are equal.
pub open spec fn rat_eq(a_num: int, a_den: int, b_num: int, b_den: int) -> bool {
    a_num * b_den == b_num * a_den
}

/// Decides whether a frame with the given loudness metric counts as loud,
/// that is, strictly exceeds the threshold.
pub fn is_loud(metric: u64, thr: &Threshold) -> (r: bool)
    requires
        thr.wf(),
        metric <= METRIC_MAX,
    ensures
        r == loud_spec(metric as int, *thr),
{
    proof {
        assert((metric as int) * (thr.den as int) <= METRIC_MAX * THRESHOLD_DEN_MAX)
            by (nonlinear_arith)
            requires
                0 <= metric <= METRIC_MAX,
                0 < thr.den <= THRESHOLD_DEN_MAX,
        ;
    }
    (metric as u128) * thr.den > thr.num
}

/// The sum of a sequence of metric values.
pub open spec fn sum_metrics(s: Seq<u64>) -> int
    decreases s.len(),
{
    if s.len() == 0 {
        0
    } else {
        sum_metrics(s.drop_last()) + s.last()
    }
}

proof fn lemma_sum_metrics_bound(s: Seq<u64>, bound: u64)
    requires
        forall|i: int| 0 <= i < s.len() ==> s[i] <= bound,
    ensures
        0 <= sum_metrics(s) <= s.len() * bound,
    decreases s.len(),
{
    if s.len() == 0 {
    } else {
        lemma_sum_metrics_bound(s.drop_last(), bound);
        assert((s.len() - 1) * bound + bound == s.len() * bound) by (nonlinear_arith);
    }
}

/// Samples ambient noise, one frame at a time, for a fixed number of frames,
/// and derives the silence threshold from the mean loudness metric.
pub struct Calibrator {
    /// How many calibration frames are required.
    pub target: usize,
    /// The configured scale factor.
    pub mult: NoiseMultiplier,
    /// The metric of each frame sampled so far, in arrival order.
    pub metrics: Vec<u64>,
}

impl Calibrator {
    /// A calibrator is well formed while its multiplier is, it has not taken
    /// more frames than required, and every recorded metric is in range.
    pub open spec fn wf(self) -> bool {
        &&& self.mult.wf()
        &&& self.target >= 1
        &&& self.metrics@.len() <= self.target
        &&& forall|i: int| 0 <= i < self.metrics@.len() ==> self.metrics@[i] <= METRIC_MAX
    }

    /// Starts a calibration over `frame_count` frames with the given
    /// multiplier.
    pub fn new(frame_count: usize, mult: NoiseMultiplier) -> (c: Calibrator)
        requires
            frame_count >= 1,
            mult.wf(),
        ensures
            c.wf(),
            c.target == frame_count,
            c.mult == mult,
            c.metrics@ == Seq::<u64>::empty(),
    {
        Calibrator { target: frame_count, mult, metrics: Vec::new() }
    }

    /// Whether the required number of frames has been sampled.
    pub fn is_complete(&self) -> (r: bool)
        ensures
            r == (self.metrics@.len() == self.target),
    {
        self.metrics.len() == self.target
    }

    /// Takes one calibration frame: records its loudness metric and returns
    /// it, so the caller can render a level gauge.
    pub fn add_frame(&mut self, frame: &Vec<i16>) -> (m: u64)
        requires
            old(self).wf(),
            old(self).metrics@.len() < old(self).target,
        ensures
            final(self).wf(),
            m == metric_spec(frame@),
            final(self).metrics@ == old(self).metrics@.push(m),
            final(self).target == old(self).target,
            final(self).mult == old(self).mult,
    {
        let m = get_frame_avg(frame);
        self.metrics.push(m);
        m
    }

    /// Derives the threshold once all frames are in: exactly the mean of the
    /// recorded metrics scaled by the multiplier, as the unreduced rational
    /// `sum * mult_num / (count * mult_den)`.  A dead-silent ambient — every
    /// metric 0, so a zero mean — cannot yield the positive threshold that
    /// all later operation rests on, and is reported as a fatal calibration
    /// failure instead.
    pub fn finish(&self) -> (r: Result<Threshold, CalibrationError>)
        requires
            self.wf(),
            self.metrics@.len() == self.target,
        ensures
            r is Ok <==> sum_metrics(self.metrics@) > 0,
            sum_metrics(self.metrics@) == 0 ==> r == Err::<Threshold, CalibrationError>(
                CalibrationError::SilentAmbient,
            ),
            r matches Ok(t) ==> {
                &&& t.wf()
                &&& t.num == sum_metrics(self.metrics@) * self.mult.num
                &&& t.den == self.target * self.mult.den
            },
    {
        let n = self.metrics.len();
        let mut sum: u128 = 0;
        let mut i: usize = 0;
        proof {
            lemma_sum_metrics_bound(self.metrics@, METRIC_MAX);
        }
        while i < n
            invariant
                self.wf(),
                n == self.metrics@.len(),
                i <= n,
                sum == sum_metrics(self.metrics@.take(i as int)),
                sum <= i * METRIC_MAX,
            decreases n - i,
        {
            proof {
                assert(self.metrics@.take(i + 1).drop_last() =~= self.metrics@.take(i as int));
                assert(i * METRIC_MAX + METRIC_MAX == (i + 1) * METRIC_MAX) by (nonlinear_arith);
                assert((i + 1) * METRIC_MAX <= u128::MAX) by (nonlinear_arith)
                    requires
                        i + 1 <= usize::MAX,
                ;
            }
            sum = sum + self.metrics[i] as u128;
            i = i + 1;
        }
        proof {
            assert(self.metrics@.take(n as int) =~= self.metrics@);
            assert(sum * self.mult.num <= THRESHOLD_NUM_MAX) by (nonlinear_arith)
                requires
                    0 <= sum <= n * METRIC_MAX,
                    n <= usize::MAX,
                    self.mult.num <= u32::MAX,
            ;
            assert(sum >= 1 && self.mult.num >= 1 ==> sum * self.mult.num >= 1)
                by (nonlinear_arith);
            assert(0 < (n as int) * (self.mult.den as int) <= THRESHOLD_DEN_MAX)
                by (nonlinear_arith)
                requires
                    1 <= n <= usize::MAX,
                    0 < self.mult.den <= u32::MAX,
            ;
        }
        if sum == 0 {
            Err(CalibrationError::SilentAmbient)
        } else {
            Ok(
                Threshold {
                    num: sum * self.mult.num as u128,
                    den: (n as u128) * self.mult.den as u128,
                },
            )
        }
    }
}

/// The calibration law for a constant ambient level: when every calibration
/// frame has the same metric `m`, the derived threshold equals `m` times the
/// multiplier, exactly, as rationals.
pub proof fn lemma_constant_calibration(t: Threshold, metrics: Seq<u64>, m: u64, mult: NoiseMultiplier)
    requires
        mult.wf(),
        metrics.len() >= 1,
        forall|i: int| 0 <= i < metrics.len() ==> metrics[i] == m,
        t.num == sum_metrics(metrics) * mult.num,
        t.den == metrics.len() * mult.den,
    ensures
        rat_eq(t.num as int, t.den as int, m * mult.num, mult.den as int),
{
    lemma_sum_metrics_constant(metrics, m);
    let n = metrics.len() as int;
    assert((n * m * mult.num) * mult.den == (m * mult.num) * (n * mult.den)) by (nonlinear_arith);
}

proof fn lemma_sum_metrics_constant(s: Seq<u64>, m: u64)
    requires
        forall|i: int| 0 <= i < s.len() ==> s[i] == m,
    ensures
        sum_metrics(s) == s.len() * m,
    decreases s.len(),
{
    if s.len() == 0 {
    } else {
        lemma_sum_metrics_constant(s.drop_last(), m);
        assert((s.len() - 1) * m + m == s.len() * m) by (nonlinear_arith);
    }
}

} // verus!
