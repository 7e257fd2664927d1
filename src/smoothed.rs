//! Temporal smoothing of per-frame voice decisions.
//!
//! A backend detector says, for each fixed-size frame, whether it holds voice.
//! `SmoothedVad` turns that raw decision stream into speech output with
//! onset confirmation, pre-roll context (prefill) and trailing context
//! (hangover).
use vstd::prelude::*;

verus! {

/// Output for one frame: the samples to keep, or nothing.
pub enum VadFrame<T> {
    /// Speech: the current frame, or the buffered pre-roll frames followed by
    /// the current frame when speech has just been confirmed.
    Speech(Vec<T>),
    /// Silence or noise.
    Noise,
}

impl<T> VadFrame<T> {
    /// The samples carried by a speech frame.
    pub open spec fn payload(&self) -> Option<Seq<T>> {
        match self {
            VadFrame::Speech(v) => Some(v@),
            VadFrame::Noise => None,
        }
    }

    pub fn is_speech(&self) -> (r: bool)
        ensures
            r == self.payload().is_some(),
    {
        match self {
            VadFrame::Speech(_) => true,
            VadFrame::Noise => false,
        }
    }
}

/// Counters of the smoothing state machine.
#[derive(Clone, Copy, Debug)]
pub struct SmootherState {
    pub in_speech: bool,
    pub onset_counter: usize,
    pub hangover_counter: usize,
}

impl SmootherState {
    /// The state after construction or reset.
    pub open spec fn fresh() -> SmootherState {
        SmootherState { in_speech: false, onset_counter: 0, hangover_counter: 0 }
    }
}

/// Reachable counter values for the given onset and hangover lengths.
pub open spec fn state_wf(onset_frames: usize, hangover_frames: usize, s: SmootherState) -> bool {
    if s.in_speech {
        s.onset_counter == 0 && s.hangover_counter <= hangover_frames
    } else {
        s.hangover_counter == 0 && (s.onset_counter == 0 || s.onset_counter < onset_frames)
    }
}

/// One transition: the next state, and whether the frame is reported as speech.
pub open spec fn smooth_step(
    onset_frames: usize,
    hangover_frames: usize,
    s: SmootherState,
    voice: bool,
) -> (SmootherState, bool) {
    if !s.in_speech {
        if voice {
            if s.onset_counter + 1 >= onset_frames {
                (
                    SmootherState {
                        in_speech: true,
                        onset_counter: 0,
                        hangover_counter: hangover_frames,
                    },
                    true,
                )
            } else {
                (
                    SmootherState {
                        in_speech: false,
                        onset_counter: (s.onset_counter + 1) as usize,
                        hangover_counter: s.hangover_counter,
                    },
                    false,
                )
            }
        } else {
            (
                SmootherState {
                    in_speech: false,
                    onset_counter: 0,
                    hangover_counter: s.hangover_counter,
                },
                false,
            )
        }
    } else if voice {
        (
            SmootherState {
                in_speech: true,
                onset_counter: s.onset_counter,
                hangover_counter: hangover_frames,
            },
            true,
        )
    } else if s.hangover_counter > 0 {
        (
            SmootherState {
                in_speech: true,
                onset_counter: s.onset_counter,
                hangover_counter: (s.hangover_counter - 1) as usize,
            },
            true,
        )
    } else {
        (
            SmootherState {
                in_speech: false,
                onset_counter: s.onset_counter,
                hangover_counter: s.hangover_counter,
            },
            false,
        )
    }
}

/// The state reached from `s` after the decisions of `voice`, in order.
pub open spec fn run_state(
    onset_frames: usize,
    hangover_frames: usize,
    s: SmootherState,
    voice: Seq<bool>,
) -> SmootherState
    decreases voice.len(),
{
    if voice.len() == 0 {
        s
    } else {
        smooth_step(
            onset_frames,
            hangover_frames,
            run_state(onset_frames, hangover_frames, s, voice.drop_last()),
            voice.last(),
        ).0
    }
}

/// For each decision of `voice`, whether its frame is reported as speech.
pub open spec fn speech_flags(
    onset_frames: usize,
    hangover_frames: usize,
    s: SmootherState,
    voice: Seq<bool>,
) -> Seq<bool> {
    Seq::new(
        voice.len(),
        |i: int|
            smooth_step(
                onset_frames,
                hangover_frames,
                run_state(onset_frames, hangover_frames, s, voice.take(i)),
                voice[i],
            ).1,
    )
}

proof fn lemma_run_state_step(
    onset_frames: usize,
    hangover_frames: usize,
    s: SmootherState,
    voice: Seq<bool>,
    i: int,
)
    requires
        0 <= i < voice.len(),
    ensures
        run_state(onset_frames, hangover_frames, s, voice.take(i + 1)) == smooth_step(
            onset_frames,
            hangover_frames,
            run_state(onset_frames, hangover_frames, s, voice.take(i)),
            voice[i],
        ).0,
{
    assert(voice.take(i + 1).drop_last() =~= voice.take(i));
}

/// Onset bookkeeping along a run from the fresh state: the state stays
/// reachable, and while not in speech the onset counter counts the voice
/// decisions that end the prefix.
proof fn lemma_onset_invariant(
    onset_frames: usize,
    hangover_frames: usize,
    voice: Seq<bool>,
    i: int,
)
    requires
        0 <= i <= voice.len(),
    ensures
        ({
            let st = run_state(onset_frames, hangover_frames, SmootherState::fresh(), voice.take(i));
            &&& state_wf(onset_frames, hangover_frames, st)
            &&& st.onset_counter <= i
            &&& !st.in_speech ==> forall|m: int|
                i - st.onset_counter <= m < i ==> #[trigger] voice[m]
        }),
    decreases i,
{
    if i == 0 {
        assert(voice.take(0) =~= Seq::<bool>::empty());
    } else {
        lemma_onset_invariant(onset_frames, hangover_frames, voice, i - 1);
        lemma_run_state_step(onset_frames, hangover_frames, SmootherState::fresh(), voice, i - 1);
    }
}

/// Speech is confirmed only after `onset_frames` consecutive voice decisions:
/// from the fresh state, a frame reported as speech right after a frame
/// reported as noise (or as the first frame) closes a run of at least
/// `onset_frames` voice decisions.
pub proof fn lemma_onset_needs_consecutive_voice(
    onset_frames: usize,
    hangover_frames: usize,
    voice: Seq<bool>,
    i: int,
)
    requires
        0 <= i < voice.len(),
        speech_flags(onset_frames, hangover_frames, SmootherState::fresh(), voice)[i],
        i == 0 || !speech_flags(onset_frames, hangover_frames, SmootherState::fresh(), voice)[i
            - 1],
    ensures
        onset_frames <= i + 1,
        forall|m: int| i + 1 - onset_frames <= m <= i ==> #[trigger] voice[m],
{
    let fresh = SmootherState::fresh();
    lemma_onset_invariant(onset_frames, hangover_frames, voice, i);
    let st = run_state(onset_frames, hangover_frames, fresh, voice.take(i));
    if i == 0 {
        assert(voice.take(0) =~= Seq::<bool>::empty());
    } else {
        lemma_run_state_step(onset_frames, hangover_frames, fresh, voice, i - 1);
    }
    assert(!st.in_speech);
}

proof fn lemma_hangover_holds(
    onset_frames: usize,
    hangover_frames: usize,
    s: SmootherState,
    voice: Seq<bool>,
    j: int,
    t: int,
)
    requires
        0 <= j,
        0 <= t,
        j + 1 + t <= voice.len(),
        t <= hangover_frames,
        voice[j],
        speech_flags(onset_frames, hangover_frames, s, voice)[j],
    ensures
        ({
            let st = run_state(onset_frames, hangover_frames, s, voice.take(j + 1 + t));
            st.in_speech && st.hangover_counter >= hangover_frames - t
        }),
    decreases t,
{
    lemma_run_state_step(onset_frames, hangover_frames, s, voice, j);
    if t > 0 {
        lemma_hangover_holds(onset_frames, hangover_frames, s, voice, j, t - 1);
        lemma_run_state_step(onset_frames, hangover_frames, s, voice, j + t);
    }
}

/// Trailing context is never cut short: after a voice decision reported as
/// speech, each of the next `hangover_frames` frames (up to the end of the
/// stream) is reported as speech too.
pub proof fn lemma_hangover_keeps_speech(
    onset_frames: usize,
    hangover_frames: usize,
    s: SmootherState,
    voice: Seq<bool>,
    j: int,
    k: int,
)
    requires
        0 <= j < k < voice.len(),
        k <= j + hangover_frames,
        voice[j],
        speech_flags(onset_frames, hangover_frames, s, voice)[j],
    ensures
        speech_flags(onset_frames, hangover_frames, s, voice)[k],
{
    lemma_hangover_holds(onset_frames, hangover_frames, s, voice, j, k - j - 1);
}

/// The last `n` elements of `s` (all of it when shorter).
pub open spec fn keep_last<A>(s: Seq<A>, n: nat) -> Seq<A> {
    if s.len() > n {
        s.subrange(s.len() - n, s.len() as int)
    } else {
        s
    }
}

/// The frames of `fs` joined in order.
pub open spec fn concat_frames<A>(fs: Seq<Seq<A>>) -> Seq<A>
    decreases fs.len(),
{
    if fs.len() == 0 {
        Seq::empty()
    } else {
        concat_frames(fs.drop_last()) + fs.last()
    }
}

/// What one pushed frame does: next state, next pre-roll window, and output.
pub open spec fn push_model<T>(
    prefill_frames: usize,
    onset_frames: usize,
    hangover_frames: usize,
    s: SmootherState,
    window: Seq<Seq<T>>,
    frame: Seq<T>,
    voice: bool,
) -> (SmootherState, Seq<Seq<T>>, Option<Seq<T>>) {
    let next_window = keep_last(window.push(frame), (prefill_frames + 1) as nat);
    let (next, speech) = smooth_step(onset_frames, hangover_frames, s, voice);
    let out = if !speech {
        None
    } else if !s.in_speech {
        Some(concat_frames(next_window))
    } else {
        Some(frame)
    };
    (next, next_window, out)
}

/// Every frame of `fs` holds `len` samples.
pub open spec fn uniform<A>(fs: Seq<Seq<A>>, len: nat) -> bool {
    forall|i: int| 0 <= i < fs.len() ==> (#[trigger] fs[i]).len() == len
}

proof fn lemma_concat_uniform_len<A>(fs: Seq<Seq<A>>, len: nat)
    requires
        uniform(fs, len),
    ensures
        concat_frames(fs).len() == fs.len() * len,
    decreases fs.len(),
{
    if fs.len() > 0 {
        assert(uniform(fs.drop_last(), len));
        lemma_concat_uniform_len(fs.drop_last(), len);
        assert((fs.len() - 1) * len + len == fs.len() * len) by (nonlinear_arith);
    }
}

/// With frames of equal length, a speech output holds between one frame and
/// `prefill_frames + 1` frames of samples.
pub proof fn lemma_speech_output_size<T>(
    prefill_frames: usize,
    onset_frames: usize,
    hangover_frames: usize,
    s: SmootherState,
    window: Seq<Seq<T>>,
    frame: Seq<T>,
    voice: bool,
)
    requires
        uniform(window, frame.len()),
    ensures
        ({
            let (_, w, out) = push_model(
                prefill_frames,
                onset_frames,
                hangover_frames,
                s,
                window,
                frame,
                voice,
            );
            &&& uniform(w, frame.len())
            &&& out matches Some(p) ==> frame.len() <= p.len() <= (prefill_frames + 1) * frame.len()
        }),
{
    let pushed = window.push(frame);
    assert(uniform(pushed, frame.len()));
    let w = keep_last(pushed, (prefill_frames + 1) as nat);
    assert(uniform(w, frame.len()));
    lemma_concat_uniform_len(w, frame.len());
    assert(1 <= w.len() <= prefill_frames + 1);
    let l = frame.len();
    let n = w.len();
    assert(l <= n * l <= (prefill_frames + 1) * l) by (nonlinear_arith)
        requires
            1 <= n <= prefill_frames + 1,
    ;
}

/// Voice-activity smoothing over a stream of frames and raw voice decisions.
pub struct SmoothedVad<T> {
    prefill_frames: usize,
    hangover_frames: usize,
    onset_frames: usize,
    frame_buffer: Vec<Vec<T>>,
    state: SmootherState,
}

impl<T: Copy> SmoothedVad<T> {
    pub closed spec fn prefill(&self) -> usize {
        self.prefill_frames
    }

    pub closed spec fn hangover(&self) -> usize {
        self.hangover_frames
    }

    pub closed spec fn onset(&self) -> usize {
        self.onset_frames
    }

    pub closed spec fn state(&self) -> SmootherState {
        self.state
    }

    /// The buffered pre-roll frames, oldest first.
    pub closed spec fn window(&self) -> Seq<Seq<T>> {
        self.frame_buffer@.map_values(|f: Vec<T>| f@)
    }

    pub open spec fn wf(&self) -> bool {
        &&& state_wf(self.onset(), self.hangover(), self.state())
        &&& self.window().len() <= self.prefill() + 1
    }

    /// A detector that keeps `prefill_frames` frames of pre-roll, reports
    /// `hangover_frames` frames of trailing speech, and confirms speech after
    /// `onset_frames` consecutive voice frames.
    pub fn new(prefill_frames: usize, hangover_frames: usize, onset_frames: usize) -> (r: Self)
        ensures
            r.wf(),
            r.prefill() == prefill_frames,
            r.hangover() == hangover_frames,
            r.onset() == onset_frames,
            r.state() == SmootherState::fresh(),
            r.window() == Seq::<Seq<T>>::empty(),
    {
        let r = SmoothedVad {
            prefill_frames,
            hangover_frames,
            onset_frames,
            frame_buffer: Vec::new(),
            state: SmootherState { in_speech: false, onset_counter: 0, hangover_counter: 0 },
        };
        assert(r.window() =~= Seq::<Seq<T>>::empty());
        r
    }

    pub fn state_now(&self) -> (r: SmootherState)
        ensures
            r == self.state(),
    {
        self.state
    }

    pub fn is_in_speech(&self) -> (r: bool)
        ensures
            r == self.state().in_speech,
    {
        self.state.in_speech
    }

    /// Clears the counters and the pre-roll buffer.
    pub fn reset(&mut self)
        ensures
            final(self).wf(),
            final(self).prefill() == old(self).prefill(),
            final(self).hangover() == old(self).hangover(),
            final(self).onset() == old(self).onset(),
            final(self).state() == SmootherState::fresh(),
            final(self).window() == Seq::<Seq<T>>::empty(),
    {
        self.frame_buffer.clear();
        self.state = SmootherState { in_speech: false, onset_counter: 0, hangover_counter: 0 };
        assert(self.window() =~= Seq::<Seq<T>>::empty());
    }

    /// Feeds one frame and the backend's voice decision for it.
    pub fn push_decision(&mut self, frame: &[T], is_voice: bool) -> (out: VadFrame<T>)
        requires
            old(self).wf(),
        ensures
            final(self).wf(),
            final(self).prefill() == old(self).prefill(),
            final(self).hangover() == old(self).hangover(),
            final(self).onset() == old(self).onset(),
            (final(self).state(), final(self).window(), out.payload()) == push_model(
                old(self).prefill(),
                old(self).onset(),
                old(self).hangover(),
                old(self).state(),
                old(self).window(),
                frame@,
                is_voice,
            ),
    {
        let ghost w0 = self.window();
        let copy = vstd::slice::slice_to_vec(frame);
        self.frame_buffer.push(copy);
        assert(self.window() =~= w0.push(frame@));
        if self.frame_buffer.len() - 1 > self.prefill_frames {
            let ghost w1 = self.window();
            self.frame_buffer.remove(0);
            assert(self.window() =~= w1.subrange(1, w1.len() as int));
        }
        assert(self.window() =~= keep_last(w0.push(frame@), (self.prefill_frames + 1) as nat));
        let s = self.state;
        if !s.in_speech {
            if is_voice {
                if s.onset_counter + 1 >= self.onset_frames {
                    self.state = SmootherState {
                        in_speech: true,
                        onset_counter: 0,
                        hangover_counter: self.hangover_frames,
                    };
                    let mut out: Vec<T> = Vec::new();
                    let mut i: usize = 0;
                    while i < self.frame_buffer.len()
                        invariant
                            0 <= i <= self.frame_buffer@.len(),
                            out@ == concat_frames(self.window().subrange(0, i as int)),
                        decreases self.frame_buffer@.len() - i,
                    {
                        let f = &self.frame_buffer[i];
                        let mut j: usize = 0;
                        let ghost before = out@;
                        while j < f.len()
                            invariant
                                0 <= j <= f@.len(),
                                out@ == before + f@.subrange(0, j as int),
                            decreases f@.len() - j,
                        {
                            out.push(f[j]);
                            j = j + 1;
                            assert(out@ =~= before + f@.subrange(0, j as int));
                        }
                        assert(f@.subrange(0, j as int) =~= f@);
                        assert(self.window().subrange(0, i + 1).drop_last() =~= self.window().subrange(
                            0,
                            i as int,
                        ));
                        i = i + 1;
                    }
                    assert(self.window().subrange(0, i as int) =~= self.window());
                    VadFrame::Speech(out)
                } else {
                    self.state = SmootherState {
                        in_speech: false,
                        onset_counter: s.onset_counter + 1,
                        hangover_counter: s.hangover_counter,
                    };
                    VadFrame::Noise
                }
            } else {
                self.state = SmootherState {
                    in_speech: false,
                    onset_counter: 0,
                    hangover_counter: s.hangover_counter,
                };
                VadFrame::Noise
            }
        } else if is_voice {
            self.state = SmootherState {
                in_speech: true,
                onset_counter: s.onset_counter,
                hangover_counter: self.hangover_frames,
            };
            VadFrame::Speech(vstd::slice::slice_to_vec(frame))
        } else if s.hangover_counter > 0 {
            self.state = SmootherState {
                in_speech: true,
                onset_counter: s.onset_counter,
                hangover_counter: s.hangover_counter - 1,
            };
            VadFrame::Speech(vstd::slice::slice_to_vec(frame))
        } else {
            self.state = SmootherState {
                in_speech: false,
                onset_counter: s.onset_counter,
                hangover_counter: s.hangover_counter,
            };
            VadFrame::Noise
        }
    }
}

} // verus!
