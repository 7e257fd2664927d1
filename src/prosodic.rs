//! Pause statistics from per-frame voice-activity labels.
//!
//! A pause is a maximal run of noise frames that follows speech: between two
//! speech runs, or trailing at the end. Noise before the first speech frame
//! is no pause. The average pause length is the mean run length times the
//! frame duration (30 ms), and the pause frequency is the number of pauses
//! over the labelled duration; both are ratios of the counts computed here.
use vstd::prelude::*;

verus! {

/// Samples per analysis frame of the prosodic analyzer (32 ms at 16 kHz).
pub const PROSODIC_FRAME_SIZE: usize = 512;

/// Whether a pause starts at `i` (`labels[i]` is true for speech): a noise
/// frame right after a speech frame.
pub open spec fn pause_starts_at(labels: Seq<bool>, i: int) -> bool {
    !labels[i] && i > 0 && labels[i - 1]
}

/// Whether some frame is speech.
pub open spec fn any_speech(labels: Seq<bool>) -> bool {
    exists|j: int| 0 <= j < labels.len() && #[trigger] labels[j]
}

/// Number of pauses.
pub open spec fn pause_count(labels: Seq<bool>) -> nat
    decreases labels.len(),
{
    if labels.len() == 0 {
        0
    } else {
        pause_count(labels.drop_last()) + if pause_starts_at(labels, labels.len() - 1) {
            1nat
        } else {
            0nat
        }
    }
}

/// Number of noise frames in pauses (after the first speech frame).
pub open spec fn noise_frames(labels: Seq<bool>) -> nat
    decreases labels.len(),
{
    if labels.len() == 0 {
        0
    } else {
        noise_frames(labels.drop_last()) + if !labels.last() && any_speech(labels.drop_last()) {
            1nat
        } else {
            0nat
        }
    }
}

/// Counts behind the pause features.
#[derive(Clone, Copy, Debug)]
pub struct PauseStats {
    /// Pauses: runs of noise frames after speech.
    pub pause_count: usize,
    /// Noise frames in all pauses together.
    pub pause_frames: usize,
    /// Labelled frames.
    pub total_frames: usize,
}

/// Time-domain prosodic analysis settings.
pub struct ProsodicAnalyzer {
    sample_rate: u32,
    frame_size: usize,
}

impl ProsodicAnalyzer {
    pub closed spec fn rate(&self) -> u32 {
        self.sample_rate
    }

    pub closed spec fn frame(&self) -> usize {
        self.frame_size
    }

    /// An analyzer for audio at `sample_rate` Hz, with 512-sample frames.
    pub fn new(sample_rate: u32) -> (r: Self)
        ensures
            r.rate() == sample_rate,
            r.frame() == PROSODIC_FRAME_SIZE,
    {
        ProsodicAnalyzer { sample_rate, frame_size: PROSODIC_FRAME_SIZE }
    }

    pub fn sample_rate(&self) -> (r: u32)
        ensures
            r == self.rate(),
    {
        self.sample_rate
    }

    pub fn frame_size(&self) -> (r: usize)
        ensures
            r == self.frame(),
    {
        self.frame_size
    }

    /// Pause counts from the labels (`true` for a speech frame).
    pub fn pause_stats(&self, labels: &[bool]) -> (r: PauseStats)
        ensures
            r.pause_count == pause_count(labels@),
            r.pause_frames == noise_frames(labels@),
            r.total_frames == labels@.len(),
    {
        let n = labels.len();
        let mut count: usize = 0;
        let mut frames: usize = 0;
        let mut seen_speech = false;
        let mut i: usize = 0;
        while i < n
            invariant
                n == labels@.len(),
                i <= n,
                count <= i,
                frames <= i,
                seen_speech == any_speech(labels@.take(i as int)),
                count == pause_count(labels@.take(i as int)),
                frames == noise_frames(labels@.take(i as int)),
            decreases n - i,
        {
            let ghost pre = labels@.take(i as int);
            let ghost next = labels@.take(i + 1);
            assert(next.drop_last() =~= pre);
            if labels[i] {
                assert(next[i as int]);
                seen_speech = true;
            } else {
                if seen_speech {
                    frames = frames + 1;
                    if labels[i - 1] {
                        count = count + 1;
                    }
                }
                assert(any_speech(next) == any_speech(pre)) by {
                    if any_speech(next) {
                        let j = choose|j: int| 0 <= j < next.len() && #[trigger] next[j];
                        assert(j < i);
                        assert(pre[j]);
                    }
                    if any_speech(pre) {
                        let j = choose|j: int| 0 <= j < pre.len() && #[trigger] pre[j];
                        assert(next[j]);
                    }
                }
                assert(i > 0 && labels@[i - 1] ==> any_speech(pre)) by {
                    if i > 0 && labels@[i - 1] {
                        assert(pre[i - 1]);
                    }
                }
            }
            i = i + 1;
        }
        assert(labels@.take(n as int) =~= labels@);
        PauseStats { pause_count: count, pause_frames: frames, total_frames: n }
    }
}

/// `n` speech labels.
pub open spec fn speech_run(n: nat) -> Seq<bool> {
    Seq::new(n, |i: int| true)
}

/// `n` noise labels.
pub open spec fn noise_run(n: nat) -> Seq<bool> {
    Seq::new(n, |i: int| false)
}

/// For each entry `s` of `speech`, `s` speech labels followed by a pause of
/// `pause_len` noise labels.
pub open spec fn pause_pattern(speech: Seq<nat>, pause_len: nat) -> Seq<bool>
    decreases speech.len(),
{
    if speech.len() == 0 {
        Seq::empty()
    } else {
        pause_pattern(speech.drop_last(), pause_len) + speech_run(speech.last()) + noise_run(
            pause_len,
        )
    }
}

proof fn lemma_append_speech(l: Seq<bool>, n: nat)
    ensures
        pause_count(l + speech_run(n)) == pause_count(l),
        noise_frames(l + speech_run(n)) == noise_frames(l),
        n > 0 ==> (l + speech_run(n)).last(),
    decreases n,
{
    if n == 0 {
        assert(l + speech_run(0) =~= l);
    } else {
        lemma_append_speech(l, (n - 1) as nat);
        let a = l + speech_run(n);
        assert(a.drop_last() =~= l + speech_run((n - 1) as nat));
    }
}

proof fn lemma_append_pause(l: Seq<bool>, n: nat)
    requires
        n > 0,
        l.len() > 0,
        l.last(),
    ensures
        pause_count(l + noise_run(n)) == pause_count(l) + 1,
        noise_frames(l + noise_run(n)) == noise_frames(l) + n,
        !(l + noise_run(n)).last(),
    decreases n,
{
    let a = l + noise_run(n);
    assert(a.drop_last() =~= l + noise_run((n - 1) as nat));
    assert(a.drop_last()[l.len() - 1]);
    if n == 1 {
        assert(l + noise_run(0) =~= l);
    } else {
        lemma_append_pause(l, (n - 1) as nat);
    }
}

proof fn lemma_pattern_counts(speech: Seq<nat>, pause_len: nat)
    requires
        pause_len > 0,
        forall|i: int| 0 <= i < speech.len() ==> #[trigger] speech[i] > 0,
    ensures
        pause_count(pause_pattern(speech, pause_len)) == speech.len(),
        noise_frames(pause_pattern(speech, pause_len)) == speech.len() * pause_len,
        speech.len() > 0 ==> !pause_pattern(speech, pause_len).last(),
    decreases speech.len(),
{
    if speech.len() > 0 {
        let prev = pause_pattern(speech.drop_last(), pause_len);
        lemma_pattern_counts(speech.drop_last(), pause_len);
        lemma_append_speech(prev, speech.last());
        lemma_append_pause(prev + speech_run(speech.last()), pause_len);
        assert((speech.len() - 1) * pause_len + pause_len == speech.len() * pause_len)
            by (nonlinear_arith);
    }
}

/// Labels without any noise frame have no pause and no pause time.
pub proof fn lemma_no_noise_no_pauses(labels: Seq<bool>)
    requires
        forall|i: int| 0 <= i < labels.len() ==> #[trigger] labels[i],
    ensures
        pause_count(labels) == 0,
        noise_frames(labels) == 0,
    decreases labels.len(),
{
    if labels.len() > 0 {
        lemma_no_noise_no_pauses(labels.drop_last());
    }
}

/// `k` pauses of `pause_len` frames each, each after a run of speech (and
/// followed by `tail` speech frames), give `k` pauses and `k * pause_len`
/// pause frames: the average pause is `pause_len` frames and the frequency
/// is `k` over the labelled duration.
pub proof fn lemma_equal_pauses(speech: Seq<nat>, pause_len: nat, tail: nat)
    requires
        pause_len > 0,
        forall|i: int| 0 <= i < speech.len() ==> #[trigger] speech[i] > 0,
    ensures
        pause_count(pause_pattern(speech, pause_len) + speech_run(tail)) == speech.len(),
        noise_frames(pause_pattern(speech, pause_len) + speech_run(tail)) == speech.len()
            * pause_len,
{
    lemma_pattern_counts(speech, pause_len);
    lemma_append_speech(pause_pattern(speech, pause_len), tail);
}

} // verus!
