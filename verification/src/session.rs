//! The voice-activity-detection session state machine.
//!
//! A session consumes a stream of frames.  It starts `Armed`: frames are
//! buffered but silence is not counted, so a session in a quiet room waits
//! indefinitely for the first loud frame.  The first loud frame moves it to
//! `Active`; from then on every loud frame resets the silence run to 0 and
//! every silent frame lengthens it, until the run reaches the configured
//! limit and the session is `Terminated`, a final state.  Every frame, loud
//! or silent, in both live states, is appended to the session buffer in
//! arrival order, so leading silence is retained, never trimmed.

use crate::metric::{get_frame_avg, metric_spec};
use crate::threshold::{is_loud, loud_spec, Threshold};
use vstd::prelude::*;

verus! {

/// The three states of a session.
#[derive(Clone, Copy, Debug, PartialEq, Eq, Structural)]
pub enum Phase {
    /// Buffering, no loud frame observed yet; silence is not counted.
    Armed,
    /// A loud frame has occurred; the silence run is tracked.
    Active,
    /// The silence run reached the limit; final.
    Terminated,
}

/// The mathematical state of a session: its phase, its count of consecutive
/// silent frames since the last loud frame, and the samples buffered so far.
#[verifier::ext_equal]
pub ghost struct SessionModel {
    pub phase: Phase,
    pub silence_run: int,
    pub buffer: Seq<i16>,
}

/// The state of a session that has seen no frame yet.
pub open spec fn initial_model() -> SessionModel {
    SessionModel { phase: Phase::Armed, silence_run: 0, buffer: Seq::empty() }
}

/// One transition of the state machine: what one frame does to a session
/// with the given threshold and silence limit.  `Terminated` is absorbing.
pub open spec fn vstep(m: SessionModel, thr: Threshold, limit: int, frame: Seq<i16>) -> SessionModel {
    if m.phase == Phase::Terminated {
        m
    } else {
        let buf = m.buffer + frame;
        if loud_spec(metric_spec(frame), thr) {
            SessionModel { phase: Phase::Active, silence_run: 0, buffer: buf }
        } else if m.phase == Phase::Armed {
            SessionModel { phase: Phase::Armed, silence_run: m.silence_run, buffer: buf }
        } else if m.silence_run + 1 >= limit {
            SessionModel { phase: Phase::Terminated, silence_run: m.silence_run + 1, buffer: buf }
        } else {
            SessionModel { phase: Phase::Active, silence_run: m.silence_run + 1, buffer: buf }
        }
    }
}

/// The state machine folded over a sequence of frames, oldest first.
pub open spec fn vrun(m: SessionModel, thr: Threshold, limit: int, frames: Seq<Seq<i16>>) -> SessionModel
    decreases frames.len(),
{
    if frames.len() == 0 {
        m
    } else {
        vstep(vrun(m, thr, limit, frames.drop_last()), thr, limit, frames.last())
    }
}

/// The views of a vector of frames.
pub open spec fn frame_views(frames: Seq<Vec<i16>>) -> Seq<Seq<i16>> {
    frames.map_values(|f: Vec<i16>| f@)
}

/// All samples of a frame sequence, in arrival order.
pub open spec fn concat_frames(frames: Seq<Seq<i16>>) -> Seq<i16>
    decreases frames.len(),
{
    if frames.len() == 0 {
        Seq::empty()
    } else {
        concat_frames(frames.drop_last()) + frames.last()
    }
}

/// One recording session: an append-only sample buffer plus the silence-run
/// state machine that decides when the session ends.
pub struct RecordingSession {
    /// The calibrated silence threshold, immutable for the session.
    pub threshold: Threshold,
    /// How many consecutive silent frames end an `Active` session.
    pub silent_limit: u64,
    /// The current state.
    pub phase: Phase,
    /// Consecutive silent frames since the last loud frame; 0 while `Armed`.
    pub silence_run: u64,
    /// Every sample of every consumed frame, in arrival order.
    pub buffer: Vec<i16>,
}

impl View for RecordingSession {
    type V = SessionModel;

    open spec fn view(&self) -> SessionModel {
        SessionModel {
            phase: self.phase,
            silence_run: self.silence_run as int,
            buffer: self.buffer@,
        }
    }
}

impl RecordingSession {
    /// A session is well formed while its threshold is, its limit is
    /// positive, its silence run is 0 when `Armed` and below the limit when
    /// `Active`.
    pub open spec fn wf(self) -> bool {
        &&& self.threshold.wf()
        &&& self.silent_limit >= 1
        &&& self.phase == Phase::Armed ==> self.silence_run == 0
        &&& self.phase == Phase::Active ==> self.silence_run < self.silent_limit
    }

    /// Opens a session: `Armed`, empty buffer, no silence counted.
    pub fn new(threshold: Threshold, silent_limit: u64) -> (s: RecordingSession)
        requires
            threshold.wf(),
            silent_limit >= 1,
        ensures
            s.wf(),
            s.threshold == threshold,
            s.silent_limit == silent_limit,
            s@ == initial_model(),
    {
        let s = RecordingSession {
            threshold,
            silent_limit,
            phase: Phase::Armed,
            silence_run: 0,
            buffer: Vec::new(),
        };
        proof {
            assert(s@ =~= initial_model());
        }
        s
    }

    /// Whether the session has reached its final state.
    pub fn is_terminated(&self) -> (r: bool)
        ensures
            r == (self.phase == Phase::Terminated),
    {
        self.phase == Phase::Terminated
    }

    /// Consumes one frame: appends it to the buffer and takes one transition
    /// of the state machine.
    pub fn step(&mut self, frame: &Vec<i16>)
        requires
            old(self).wf(),
            old(self).phase != Phase::Terminated,
        ensures
            final(self).wf(),
            final(self).threshold == old(self).threshold,
            final(self).silent_limit == old(self).silent_limit,
            final(self)@ == vstep(
                old(self)@,
                old(self).threshold,
                old(self).silent_limit as int,
                frame@,
            ),
    {
        let ghost m0 = self@;
        let metric = get_frame_avg(frame);
        let loud = is_loud(metric, &self.threshold);

        let n = frame.len();
        let mut i: usize = 0;
        while i < n
            invariant
                n == frame@.len(),
                i <= n,
                self.buffer@ == m0.buffer + frame@.take(i as int),
                self.threshold == old(self).threshold,
                self.silent_limit == old(self).silent_limit,
                self.phase == old(self).phase,
                self.silence_run == old(self).silence_run,
            decreases n - i,
        {
            proof {
                assert(m0.buffer + frame@.take(i + 1) =~= (m0.buffer + frame@.take(i as int)).push(
                    frame@[i as int],
                ));
            }
            let v = frame[i];
            self.buffer.push(v);
            i = i + 1;
        }
        proof {
            assert(frame@.take(n as int) =~= frame@);
        }

        if loud {
            self.phase = Phase::Active;
            self.silence_run = 0;
        } else if self.phase == Phase::Active {
            let next_run = self.silence_run + 1;
            if next_run >= self.silent_limit {
                self.phase = Phase::Terminated;
                self.silence_run = next_run;
            } else {
                self.silence_run = next_run;
            }
        }
        proof {
            assert(self@ =~= vstep(m0, old(self).threshold, old(self).silent_limit as int, frame@));
        }
    }

    /// Consumes frames in order until the session terminates or the frames
    /// run out, and returns how many it consumed.  The session ends exactly
    /// as the state machine says it does over the consumed prefix, and no
    /// shorter prefix terminates it.
    pub fn feed_frames(&mut self, frames: &Vec<Vec<i16>>) -> (n: usize)
        requires
            old(self).wf(),
            old(self).phase != Phase::Terminated,
        ensures
            final(self).wf(),
            final(self).threshold == old(self).threshold,
            final(self).silent_limit == old(self).silent_limit,
            n <= frames@.len(),
            final(self)@ == vrun(
                old(self)@,
                old(self).threshold,
                old(self).silent_limit as int,
                frame_views(frames@).take(n as int),
            ),
            forall|j: int|
                0 <= j < n ==> vrun(
                    old(self)@,
                    old(self).threshold,
                    old(self).silent_limit as int,
                    frame_views(frames@).take(j),
                ).phase != Phase::Terminated,
            n < frames@.len() ==> final(self).phase == Phase::Terminated,
    {
        let ghost m0 = old(self)@;
        let ghost thr = old(self).threshold;
        let ghost limit = old(self).silent_limit as int;
        let ghost fv = frame_views(frames@);
        let mut k: usize = 0;
        proof {
            assert(fv.take(0) =~= Seq::<Seq<i16>>::empty());
        }
        while k < frames.len()
            invariant
                self.wf(),
                k <= frames@.len(),
                self.threshold == old(self).threshold,
                self.silent_limit == old(self).silent_limit,
                thr == old(self).threshold,
                limit == old(self).silent_limit as int,
                m0 == old(self)@,
                fv == frame_views(frames@),
                self@ == vrun(m0, thr, limit, fv.take(k as int)),
                self.phase != Phase::Terminated,
                forall|j: int| 0 <= j < k ==> vrun(m0, thr, limit, fv.take(j)).phase
                    != Phase::Terminated,
            decreases frames@.len() - k,
        {
            self.step(&frames[k]);
            proof {
                assert(fv.take(k + 1).drop_last() =~= fv.take(k as int));
                assert(fv.take(k + 1).last() == frames@[k as int]@);
            }
            k = k + 1;
            if self.is_terminated() {
                return k;
            }
        }
        k
    }
}

/// How many consecutive silent frames end the sequence.
pub open spec fn trailing_silence(frames: Seq<Seq<i16>>, thr: Threshold) -> int
    decreases frames.len(),
{
    if frames.len() == 0 {
        0
    } else if loud_spec(metric_spec(frames.last()), thr) {
        0
    } else {
        trailing_silence(frames.drop_last(), thr) + 1
    }
}

/// Unfolds one step of `vrun` at the end of a prefix.
proof fn lemma_vrun_unfold(m: SessionModel, thr: Threshold, limit: int, frames: Seq<Seq<i16>>, j: int)
    requires
        1 <= j <= frames.len(),
    ensures
        vrun(m, thr, limit, frames.take(j)) == vstep(
            vrun(m, thr, limit, frames.take(j - 1)),
            thr,
            limit,
            frames[j - 1],
        ),
{
    assert(frames.take(j).drop_last() =~= frames.take(j - 1));
    assert(frames.take(j).last() == frames[j - 1]);
}

/// While no prefix of the frames terminates the session, every frame is
/// buffered: the final buffer is the old one followed by every sample of
/// every frame, in arrival order.
pub proof fn lemma_buffer_accumulates(m: SessionModel, thr: Threshold, limit: int, frames: Seq<Seq<i16>>)
    requires
        forall|j: int| 0 <= j < frames.len() ==> vrun(m, thr, limit, #[trigger] frames.take(j)).phase
            != Phase::Terminated,
    ensures
        vrun(m, thr, limit, frames).buffer == m.buffer + concat_frames(frames),
    decreases frames.len(),
{
    if frames.len() == 0 {
        assert(vrun(m, thr, limit, frames).buffer =~= m.buffer + concat_frames(frames));
    } else {
        let l = frames.len() as int;
        let head = frames.drop_last();
        assert forall|j: int| 0 <= j < head.len() implies vrun(m, thr, limit, #[trigger] head.take(j)).phase
            != Phase::Terminated by {
            assert(head.take(j) =~= frames.take(j));
        }
        lemma_buffer_accumulates(m, thr, limit, head);
        assert(frames.take(l - 1) =~= head);
        assert(vrun(m, thr, limit, head).phase != Phase::Terminated);
        assert(vrun(m, thr, limit, frames).buffer =~= m.buffer + concat_frames(frames));
    }
}

/// The exact state of the session while a run of loud frames is followed by
/// a run of silent ones: `Active` with silence run 0 through the loud part,
/// then a growing silence run, then `Terminated` the moment the run reaches
/// the limit.
proof fn lemma_loud_then_silent_state(thr: Threshold, limit: int, frames: Seq<Seq<i16>>, k: int, j: int)
    requires
        limit >= 1,
        k >= 1,
        frames.len() >= k,
        forall|i: int| 0 <= i < k ==> loud_spec(metric_spec(#[trigger] frames[i]), thr),
        forall|i: int| k <= i < frames.len() ==> !loud_spec(metric_spec(#[trigger] frames[i]), thr),
        0 <= j <= frames.len(),
        j <= k + limit,
    ensures
        j == 0 ==> vrun(initial_model(), thr, limit, frames.take(j)) == initial_model(),
        1 <= j <= k ==> vrun(initial_model(), thr, limit, frames.take(j)).phase == Phase::Active
            && vrun(initial_model(), thr, limit, frames.take(j)).silence_run == 0,
        k < j < k + limit ==> vrun(initial_model(), thr, limit, frames.take(j)).phase
            == Phase::Active && vrun(initial_model(), thr, limit, frames.take(j)).silence_run == j - k,
        j == k + limit ==> vrun(initial_model(), thr, limit, frames.take(j)).phase
            == Phase::Terminated,
    decreases j,
{
    if j == 0 {
        assert(frames.take(0) =~= Seq::<Seq<i16>>::empty());
    } else {
        lemma_loud_then_silent_state(thr, limit, frames, k, j - 1);
        lemma_vrun_unfold(initial_model(), thr, limit, frames, j);
    }
}

/// A session that hears `k >= 1` loud frames and then exactly `silent_limit`
/// silent ones terminates precisely at frame `k + silent_limit`: no shorter
/// prefix ends it, and its buffer holds every sample of every frame.
pub proof fn lemma_session_terminates(thr: Threshold, limit: int, frames: Seq<Seq<i16>>, k: int)
    requires
        limit >= 1,
        k >= 1,
        frames.len() == k + limit,
        forall|i: int| 0 <= i < k ==> loud_spec(metric_spec(#[trigger] frames[i]), thr),
        forall|i: int| k <= i < frames.len() ==> !loud_spec(metric_spec(#[trigger] frames[i]), thr),
    ensures
        vrun(initial_model(), thr, limit, frames).phase == Phase::Terminated,
        forall|j: int| 0 <= j < frames.len() ==> vrun(
            initial_model(),
            thr,
            limit,
            #[trigger] frames.take(j),
        ).phase != Phase::Terminated,
        vrun(initial_model(), thr, limit, frames).buffer == concat_frames(frames),
{
    assert forall|j: int| 0 <= j < frames.len() implies vrun(
        initial_model(),
        thr,
        limit,
        #[trigger] frames.take(j),
    ).phase != Phase::Terminated by {
        lemma_loud_then_silent_state(thr, limit, frames, k, j);
    }
    lemma_loud_then_silent_state(thr, limit, frames, k, k + limit);
    assert(frames.take(k + limit) =~= frames);
    lemma_buffer_accumulates(initial_model(), thr, limit, frames);
    assert(vrun(initial_model(), thr, limit, frames).buffer =~= concat_frames(frames));
}

/// A session that never hears a loud frame never terminates: it stays
/// `Armed`, with no silence counted, for every prefix of the frames.
pub proof fn lemma_all_silent_never_terminates(thr: Threshold, limit: int, frames: Seq<Seq<i16>>)
    requires
        forall|i: int| 0 <= i < frames.len() ==> !loud_spec(metric_spec(#[trigger] frames[i]), thr),
    ensures
        forall|j: int| 0 <= j <= frames.len() ==> vrun(
            initial_model(),
            thr,
            limit,
            #[trigger] frames.take(j),
        ) == (SessionModel {
            phase: Phase::Armed,
            silence_run: 0,
            buffer: concat_frames(frames.take(j)),
        }),
{
    assert forall|j: int| 0 <= j <= frames.len() implies vrun(
        initial_model(),
        thr,
        limit,
        #[trigger] frames.take(j),
    ) == (SessionModel {
        phase: Phase::Armed,
        silence_run: 0,
        buffer: concat_frames(frames.take(j)),
    }) by {
        lemma_armed_prefix(thr, limit, frames, j);
    }
}

proof fn lemma_armed_prefix(thr: Threshold, limit: int, frames: Seq<Seq<i16>>, j: int)
    requires
        forall|i: int| 0 <= i < frames.len() ==> !loud_spec(metric_spec(#[trigger] frames[i]), thr),
        0 <= j <= frames.len(),
    ensures
        vrun(initial_model(), thr, limit, frames.take(j)) == (SessionModel {
            phase: Phase::Armed,
            silence_run: 0,
            buffer: concat_frames(frames.take(j)),
        }),
    decreases j,
{
    if j == 0 {
        assert(frames.take(0) =~= Seq::<Seq<i16>>::empty());
        assert(vrun(initial_model(), thr, limit, frames.take(0)) =~= SessionModel {
            phase: Phase::Armed,
            silence_run: 0,
            buffer: concat_frames(frames.take(0)),
        });
    } else {
        lemma_armed_prefix(thr, limit, frames, j - 1);
        lemma_vrun_unfold(initial_model(), thr, limit, frames, j);
        assert(frames.take(j).drop_last() =~= frames.take(j - 1));
        assert(vrun(initial_model(), thr, limit, frames.take(j)) =~= SessionModel {
            phase: Phase::Armed,
            silence_run: 0,
            buffer: concat_frames(frames.take(j)),
        });
    }
}

/// A loud frame always resets the silence run: from any live state, the
/// session is `Active` with silence run 0 right after a loud frame.
pub proof fn lemma_loud_resets(m: SessionModel, thr: Threshold, limit: int, frame: Seq<i16>)
    requires
        m.phase != Phase::Terminated,
        loud_spec(metric_spec(frame), thr),
    ensures
        vstep(m, thr, limit, frame).phase == Phase::Active,
        vstep(m, thr, limit, frame).silence_run == 0,
{
}

/// A session whose silent runs never reach the limit never terminates, and
/// its silence run, while `Active`, is exactly the length of the trailing
/// silent run of the frames heard so far.
pub proof fn lemma_short_silence_no_termination(thr: Threshold, limit: int, frames: Seq<Seq<i16>>)
    requires
        limit >= 1,
        forall|j: int| 0 <= j <= frames.len() ==> trailing_silence(#[trigger] frames.take(j), thr)
            < limit,
    ensures
        forall|j: int| 0 <= j <= frames.len() ==> vrun(
            initial_model(),
            thr,
            limit,
            #[trigger] frames.take(j),
        ).phase != Phase::Terminated,
        forall|j: int|
            0 <= j <= frames.len() && vrun(
                initial_model(),
                thr,
                limit,
                #[trigger] frames.take(j),
            ).phase == Phase::Active ==> vrun(
                initial_model(),
                thr,
                limit,
                frames.take(j),
            ).silence_run == trailing_silence(frames.take(j), thr),
{
    assert forall|j: int| 0 <= j <= frames.len() implies {
        let s = vrun(initial_model(), thr, limit, #[trigger] frames.take(j));
        s.phase != Phase::Terminated && (s.phase == Phase::Active ==> s.silence_run
            == trailing_silence(frames.take(j), thr))
    } by {
        lemma_short_silence_prefix(thr, limit, frames, j);
    }
}

proof fn lemma_short_silence_prefix(thr: Threshold, limit: int, frames: Seq<Seq<i16>>, j: int)
    requires
        limit >= 1,
        0 <= j <= frames.len(),
        forall|i: int| 0 <= i <= frames.len() ==> trailing_silence(#[trigger] frames.take(i), thr)
            < limit,
    ensures
        ({
            let s = vrun(initial_model(), thr, limit, frames.take(j));
            (s.phase == Phase::Armed && s.silence_run == 0) || (s.phase == Phase::Active
                && s.silence_run == trailing_silence(frames.take(j), thr))
        }),
    decreases j,
{
    if j == 0 {
        assert(frames.take(0) =~= Seq::<Seq<i16>>::empty());
    } else {
        lemma_short_silence_prefix(thr, limit, frames, j - 1);
        lemma_vrun_unfold(initial_model(), thr, limit, frames, j);
        assert(frames.take(j).drop_last() =~= frames.take(j - 1));
        assert(frames.take(j).last() == frames[j - 1]);
    }
}

} // verus!
