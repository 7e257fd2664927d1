//! Batch voice-activity filtering of a whole buffer.
//!
//! The buffer is cut into 30 ms frames at 16 kHz; each frame goes through the
//! smoothing state machine together with the backend's voice decision for it,
//! and the speech output is gathered into one contiguous buffer.
use vstd::prelude::*;
use crate::smoothed::{push_model, run_state, smooth_step, speech_flags, SmoothedVad, SmootherState, VadFrame};

verus! {

/// Canonical processing rate (Hz).
pub const WHISPER_SAMPLE_RATE: u32 = 16000;

/// Duration of one frame (ms).
pub const VAD_FRAME_DURATION_MS: u64 = 30;

/// Samples in one frame: 30 ms at 16 kHz.
pub const VAD_FRAME_SIZE: usize = 480;

/// Default pre-roll length in frames (450 ms).
pub const DEFAULT_PREFILL: usize = 15;

/// Default trailing length in frames (450 ms).
pub const DEFAULT_HANGOVER: usize = 15;

/// Default number of voice frames that confirm speech (60 ms).
pub const DEFAULT_ONSET: usize = 2;

/// Most frames that `has_speech` looks at.
pub const HAS_SPEECH_MAX_FRAMES: usize = 30;

/// The `n` whole frames at the start of `samples`.
pub open spec fn frames_of<T>(samples: Seq<T>, n: nat) -> Seq<Seq<T>> {
    Seq::new(
        n,
        |i: int|
            samples.subrange(i * VAD_FRAME_SIZE as int, i * VAD_FRAME_SIZE as int + VAD_FRAME_SIZE as int),
    )
}

/// Runs the smoothing model over `frames` with their decisions: the final
/// state and window, the gathered speech samples, and the number of frames
/// reported as speech.
pub open spec fn run_model<T>(
    prefill_frames: usize,
    onset_frames: usize,
    hangover_frames: usize,
    s: SmootherState,
    window: Seq<Seq<T>>,
    frames: Seq<Seq<T>>,
    voice: Seq<bool>,
) -> (SmootherState, Seq<Seq<T>>, Seq<T>, nat)
    decreases frames.len(),
{
    if frames.len() == 0 || voice.len() == 0 {
        (s, window, Seq::empty(), 0)
    } else {
        let (s1, w1, out1, n1) = run_model(
            prefill_frames,
            onset_frames,
            hangover_frames,
            s,
            window,
            frames.drop_last(),
            voice.drop_last(),
        );
        let (s2, w2, o) = push_model(
            prefill_frames,
            onset_frames,
            hangover_frames,
            s1,
            w1,
            frames.last(),
            voice.last(),
        );
        match o {
            Some(p) => (s2, w2, out1 + p, n1 + 1),
            None => (s2, w2, out1, n1),
        }
    }
}

/// Number of `true` entries.
pub open spec fn count_true(s: Seq<bool>) -> nat
    decreases s.len(),
{
    if s.len() == 0 {
        0
    } else {
        count_true(s.drop_last()) + if s.last() {
            1nat
        } else {
            0nat
        }
    }
}

/// A batch run follows the smoothing state machine: it ends in the state the
/// decisions lead to, and it counts as speech exactly the frames that
/// `speech_flags` marks, so the onset and hangover guarantees hold of what
/// `filter_audio` reports.
pub proof fn lemma_run_follows_flags<T>(
    prefill_frames: usize,
    onset_frames: usize,
    hangover_frames: usize,
    s: SmootherState,
    window: Seq<Seq<T>>,
    frames: Seq<Seq<T>>,
    voice: Seq<bool>,
)
    requires
        frames.len() == voice.len(),
    ensures
        run_model(prefill_frames, onset_frames, hangover_frames, s, window, frames, voice).0
            == run_state(onset_frames, hangover_frames, s, voice),
        run_model(prefill_frames, onset_frames, hangover_frames, s, window, frames, voice).3
            == count_true(speech_flags(onset_frames, hangover_frames, s, voice)),
    decreases voice.len(),
{
    if voice.len() > 0 {
        let n = voice.len() - 1;
        let prev = voice.drop_last();
        lemma_run_follows_flags(
            prefill_frames,
            onset_frames,
            hangover_frames,
            s,
            window,
            frames.drop_last(),
            prev,
        );
        let flags = speech_flags(onset_frames, hangover_frames, s, voice);
        assert forall|i: int| 0 <= i < n implies #[trigger] voice.take(i) == prev.take(i) by {
            assert(voice.take(i) =~= prev.take(i));
        }
        assert(flags.drop_last() =~= speech_flags(onset_frames, hangover_frames, s, prev));
        assert(voice.take(n) =~= prev);
        assert(flags.last() == smooth_step(
            onset_frames,
            hangover_frames,
            run_state(onset_frames, hangover_frames, s, prev),
            voice.last(),
        ).1);
    }
}

/// Speech kept from a buffer, with timing.
pub struct VadResult<T> {
    /// Speech samples, in order.
    pub samples: Vec<T>,
    /// Whole frames reported as speech.
    pub speech_frames: usize,
    /// Whole frames in the input.
    pub total_frames: usize,
    /// `speech_frames` times 30 ms.
    pub speech_duration_ms: u64,
    /// `total_frames` times 30 ms.
    pub total_duration_ms: u64,
}

/// Shortest speech worth transcribing: one second at 16 kHz.
pub const MIN_SPEECH_SAMPLES: usize = 16000;

impl<T> VadResult<T> {
    /// Whether at least one second of speech is left.
    pub fn long_enough(&self) -> (r: bool)
        ensures
            r == (self.samples@.len() >= MIN_SPEECH_SAMPLES),
    {
        self.samples.len() >= MIN_SPEECH_SAMPLES
    }
}

/// Smoothed voice-activity detection over whole buffers.
pub struct VadPipeline<T> {
    vad: SmoothedVad<T>,
}

impl<T: Copy> VadPipeline<T> {
    pub closed spec fn detector(&self) -> SmoothedVad<T> {
        self.vad
    }

    pub open spec fn wf(&self) -> bool {
        self.detector().wf()
    }

    /// A pipeline with the default smoothing lengths.
    pub fn new() -> (r: Self)
        ensures
            r.wf(),
            r.detector().prefill() == DEFAULT_PREFILL,
            r.detector().hangover() == DEFAULT_HANGOVER,
            r.detector().onset() == DEFAULT_ONSET,
            r.detector().state() == SmootherState::fresh(),
            r.detector().window() == Seq::<Seq<T>>::empty(),
    {
        Self::with_params(DEFAULT_PREFILL, DEFAULT_HANGOVER, DEFAULT_ONSET)
    }

    /// A pipeline with the given smoothing lengths (in frames).
    pub fn with_params(prefill_frames: usize, hangover_frames: usize, onset_frames: usize) -> (r:
        Self)
        ensures
            r.wf(),
            r.detector().prefill() == prefill_frames,
            r.detector().hangover() == hangover_frames,
            r.detector().onset() == onset_frames,
            r.detector().state() == SmootherState::fresh(),
            r.detector().window() == Seq::<Seq<T>>::empty(),
    {
        VadPipeline { vad: SmoothedVad::new(prefill_frames, hangover_frames, onset_frames) }
    }

    /// Feeds one frame with its voice decision (streaming use).
    pub fn push_frame(&mut self, frame: &[T], is_voice: bool) -> (out: VadFrame<T>)
        requires
            old(self).wf(),
        ensures
            final(self).wf(),
            final(self).detector().prefill() == old(self).detector().prefill(),
            final(self).detector().hangover() == old(self).detector().hangover(),
            final(self).detector().onset() == old(self).detector().onset(),
            (final(self).detector().state(), final(self).detector().window(), out.payload())
                == push_model(
                old(self).detector().prefill(),
                old(self).detector().onset(),
                old(self).detector().hangover(),
                old(self).detector().state(),
                old(self).detector().window(),
                frame@,
                is_voice,
            ),
    {
        self.vad.push_decision(frame, is_voice)
    }

    /// Clears the smoothing state.
    pub fn reset(&mut self)
        ensures
            final(self).wf(),
            final(self).detector().prefill() == old(self).detector().prefill(),
            final(self).detector().hangover() == old(self).detector().hangover(),
            final(self).detector().onset() == old(self).detector().onset(),
            final(self).detector().state() == SmootherState::fresh(),
            final(self).detector().window() == Seq::<Seq<T>>::empty(),
    {
        self.vad.reset();
    }

    /// Whether the smoothed detector, fed from its current state with the
    /// first (at most 30) whole frames of `samples` and their decisions
    /// `voice`, reports speech for one of them. Stops at the first speech
    /// frame; the smoothing state is reset afterwards.
    pub fn has_speech(&mut self, samples: &[T], voice: &[bool]) -> (r: bool)
        requires
            old(self).wf(),
            voice@.len() <= samples@.len() / VAD_FRAME_SIZE as nat,
        ensures
            r == exists|i: int|
                0 <= i < voice@.len() && i < HAS_SPEECH_MAX_FRAMES && #[trigger] speech_flags(
                    old(self).detector().onset(),
                    old(self).detector().hangover(),
                    old(self).detector().state(),
                    voice@,
                )[i],
            final(self).wf(),
            final(self).detector().prefill() == old(self).detector().prefill(),
            final(self).detector().hangover() == old(self).detector().hangover(),
            final(self).detector().onset() == old(self).detector().onset(),
            final(self).detector().state() == SmootherState::fresh(),
            final(self).detector().window() == Seq::<Seq<T>>::empty(),
    {
        let ghost s0 = self.vad.state();
        let ghost pf = self.vad.prefill();
        let ghost on = self.vad.onset();
        let ghost hg = self.vad.hangover();
        let ghost flags = speech_flags(on, hg, s0, voice@);
        let n = if voice.len() < HAS_SPEECH_MAX_FRAMES {
            voice.len()
        } else {
            HAS_SPEECH_MAX_FRAMES
        };
        let len = samples.len();
        proof {
            vstd::arithmetic::div_mod::lemma_fundamental_div_mod(
                samples@.len() as int,
                VAD_FRAME_SIZE as int,
            );
        }
        let mut i: usize = 0;
        let mut found = false;
        while i < n && !found
            invariant
                n <= voice@.len(),
                n <= HAS_SPEECH_MAX_FRAMES,
                voice@.len() <= samples@.len() / VAD_FRAME_SIZE as nat,
                (samples@.len() / VAD_FRAME_SIZE as nat) * VAD_FRAME_SIZE <= samples@.len(),
                len == samples@.len(),
                i <= n,
                self.wf(),
                self.detector().prefill() == pf,
                self.detector().onset() == on,
                self.detector().hangover() == hg,
                flags == speech_flags(on, hg, s0, voice@),
                !found ==> self.detector().state() == run_state(on, hg, s0, voice@.take(i as int)),
                !found ==> forall|m: int| 0 <= m < i ==> !#[trigger] flags[m],
                found ==> exists|m: int| 0 <= m < n && #[trigger] flags[m],
            decreases n - i,
        {
            assert((i + 1) * VAD_FRAME_SIZE <= (samples@.len() / VAD_FRAME_SIZE as nat)
                * VAD_FRAME_SIZE) by (nonlinear_arith)
                requires
                    i + 1 <= samples@.len() / VAD_FRAME_SIZE as nat,
            ;
            assert((i + 1) * VAD_FRAME_SIZE == i * VAD_FRAME_SIZE + VAD_FRAME_SIZE)
                by (nonlinear_arith);
            let start = i * VAD_FRAME_SIZE;
            let frame = vstd::slice::slice_subrange(samples, start, start + VAD_FRAME_SIZE);
            let ghost st = run_state(on, hg, s0, voice@.take(i as int));
            let ghost w0 = self.vad.window();
            assert(flags[i as int] == smooth_step(on, hg, st, voice@[i as int]).1);
            let out = self.vad.push_decision(frame, voice[i]);
            proof {
                assert(voice@.take(i + 1).drop_last() =~= voice@.take(i as int));
                let m = push_model(pf, on, hg, st, w0, frame@, voice@[i as int]);
                assert(m.2.is_some() == smooth_step(on, hg, st, voice@[i as int]).1);
                assert(m.0 == smooth_step(on, hg, st, voice@[i as int]).0);
            }
            if out.is_speech() {
                found = true;
                assert(flags[i as int]);
            }
            i = i + 1;
        }
        self.vad.reset();
        found
    }

    /// Filters a buffer: `voice[i]` is the backend's decision for the `i`-th
    /// whole frame. Returns the speech output of every frame joined in order,
    /// followed by the trailing partial frame when the detector ends in speech,
    /// and the speech and total durations.
    pub fn filter_audio(&mut self, samples: &[T], voice: &[bool]) -> (r: VadResult<T>)
        requires
            old(self).wf(),
            voice@.len() == samples@.len() / VAD_FRAME_SIZE as nat,
        ensures
            ({
                let total = samples@.len() / VAD_FRAME_SIZE as nat;
                let (s, w, out, n) = run_model(
                    old(self).detector().prefill(),
                    old(self).detector().onset(),
                    old(self).detector().hangover(),
                    old(self).detector().state(),
                    old(self).detector().window(),
                    frames_of(samples@, total),
                    voice@,
                );
                let tail = samples@.subrange(total * VAD_FRAME_SIZE as int, samples@.len() as int);
                &&& final(self).detector().state() == s
                &&& final(self).detector().window() == w
                &&& r.samples@ == (if s.in_speech {
                    out + tail
                } else {
                    out
                })
                &&& r.speech_frames == n
                &&& r.total_frames == total
                &&& r.speech_frames <= r.total_frames
                &&& r.speech_duration_ms == n * VAD_FRAME_DURATION_MS
                &&& r.total_duration_ms == total * VAD_FRAME_DURATION_MS
            }),
            final(self).wf(),
            final(self).detector().prefill() == old(self).detector().prefill(),
            final(self).detector().hangover() == old(self).detector().hangover(),
            final(self).detector().onset() == old(self).detector().onset(),
    {
        let len = samples.len();
        let total = len / VAD_FRAME_SIZE;
        let ghost s0 = self.vad.state();
        let ghost w0 = self.vad.window();
        let ghost pf = self.vad.prefill();
        let ghost on = self.vad.onset();
        let ghost hg = self.vad.hangover();
        let mut out: Vec<T> = Vec::new();
        let mut speech_frames: usize = 0;
        let mut idx: usize = 0;
        proof {
            vstd::arithmetic::div_mod::lemma_fundamental_div_mod(
                samples@.len() as int,
                VAD_FRAME_SIZE as int,
            );
        }
        while idx < total
            invariant
                total == samples@.len() / VAD_FRAME_SIZE as nat,
                total * VAD_FRAME_SIZE <= samples@.len(),
                len == samples@.len(),
                voice@.len() == total,
                idx <= total,
                speech_frames <= idx,
                self.wf(),
                self.detector().prefill() == pf,
                self.detector().onset() == on,
                self.detector().hangover() == hg,
                ({
                    let (s, w, o, n) = run_model(
                        pf,
                        on,
                        hg,
                        s0,
                        w0,
                        frames_of(samples@, idx as nat),
                        voice@.take(idx as int),
                    );
                    &&& self.detector().state() == s
                    &&& self.detector().window() == w
                    &&& out@ == o
                    &&& speech_frames == n
                }),
            decreases total - idx,
        {
            assert((idx + 1) * VAD_FRAME_SIZE <= total * VAD_FRAME_SIZE) by (nonlinear_arith)
                requires
                    idx + 1 <= total,
            ;
            assert((idx + 1) * VAD_FRAME_SIZE == idx * VAD_FRAME_SIZE + VAD_FRAME_SIZE)
                by (nonlinear_arith);
            let start = idx * VAD_FRAME_SIZE;
            let end = start + VAD_FRAME_SIZE;
            let frame = vstd::slice::slice_subrange(samples, start, end);
            let ghost before = out@;
            let res = self.vad.push_decision(frame, voice[idx]);
            match res {
                VadFrame::Speech(p) => {
                    let mut j: usize = 0;
                    while j < p.len()
                        invariant
                            0 <= j <= p@.len(),
                            out@ == before + p@.subrange(0, j as int),
                        decreases p@.len() - j,
                    {
                        out.push(p[j]);
                        j = j + 1;
                        assert(out@ =~= before + p@.subrange(0, j as int));
                    }
                    assert(p@.subrange(0, j as int) =~= p@);
                    speech_frames = speech_frames + 1;
                },
                VadFrame::Noise => {},
            }
            assert(frames_of(samples@, (idx + 1) as nat).drop_last() =~= frames_of(
                samples@,
                idx as nat,
            ));
            assert(frames_of(samples@, (idx + 1) as nat).last() =~= frame@);
            assert(voice@.take(idx + 1).drop_last() =~= voice@.take(idx as int));
            idx = idx + 1;
        }
        assert(voice@.take(total as int) =~= voice@);
        let rem_start = total * VAD_FRAME_SIZE;
        if rem_start < samples.len() && self.vad.is_in_speech() {
            let ghost before = out@;
            let mut j: usize = rem_start;
            while j < samples.len()
                invariant
                    rem_start <= j <= samples@.len(),
                    out@ == before + samples@.subrange(rem_start as int, j as int),
                decreases samples@.len() - j,
            {
                out.push(samples[j]);
                j = j + 1;
                assert(out@ =~= before + samples@.subrange(rem_start as int, j as int));
            }
        }
        assert(samples@.subrange(rem_start as int, samples@.len() as int).len() == 0 ==> samples@.subrange(
            rem_start as int,
            samples@.len() as int,
        ) =~= Seq::<T>::empty());
        assert(out@ + Seq::<T>::empty() =~= out@);
        let speech_ms = speech_frames as u64 * VAD_FRAME_DURATION_MS;
        let total_ms = total as u64 * VAD_FRAME_DURATION_MS;
        VadResult {
            samples: out,
            speech_frames,
            total_frames: total,
            speech_duration_ms: speech_ms,
            total_duration_ms: total_ms,
        }
    }
    /// The speech samples of `filter_audio`, without the timing.
    pub fn filter_audio_simple(&mut self, samples: &[T], voice: &[bool]) -> (r: Vec<T>)
        requires
            old(self).wf(),
            voice@.len() == samples@.len() / VAD_FRAME_SIZE as nat,
        ensures
            ({
                let total = samples@.len() / VAD_FRAME_SIZE as nat;
                let (s, w, out, n) = run_model(
                    old(self).detector().prefill(),
                    old(self).detector().onset(),
                    old(self).detector().hangover(),
                    old(self).detector().state(),
                    old(self).detector().window(),
                    frames_of(samples@, total),
                    voice@,
                );
                let tail = samples@.subrange(total * VAD_FRAME_SIZE as int, samples@.len() as int);
                &&& final(self).detector().state() == s
                &&& final(self).detector().window() == w
                &&& r@ == (if s.in_speech {
                    out + tail
                } else {
                    out
                })
            }),
            final(self).wf(),
            final(self).detector().prefill() == old(self).detector().prefill(),
            final(self).detector().hangover() == old(self).detector().hangover(),
            final(self).detector().onset() == old(self).detector().onset(),
    {
        self.filter_audio(samples, voice).samples
    }
}

} // verus!
