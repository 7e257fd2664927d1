//! The recorder's session buffer.
//!
//! While the recording flag is set, the speech output of every frame is
//! appended to the buffer. The buffer is bounded: once it holds the maximum
//! number of samples at the end of a device callback, recording stops, and the
//! samples stay until the next explicit stop hands them out.
use vstd::prelude::*;

verus! {

/// Longest recording (s): 30 minutes.
pub const MAX_RECORDING_DURATION_SECS: u64 = 1800;

/// Most samples a session keeps: 30 minutes at 16 kHz.
pub const MAX_RECORDING_SAMPLES: usize = 28_800_000;

/// How long `close` waits for the capture thread (ms).
pub const SHUTDOWN_TIMEOUT_MS: u64 = 2000;

/// Buffer and flag after one frame's speech output is offered.
pub open spec fn record_model<T>(samples: Seq<T>, recording: bool, speech: Seq<T>) -> (Seq<T>, bool) {
    if recording {
        (samples + speech, true)
    } else {
        (samples, false)
    }
}

/// Buffer and flag after the end-of-callback check against the cap.
pub open spec fn cap_model<T>(samples: Seq<T>, recording: bool, cap: nat) -> (Seq<T>, bool) {
    if recording && samples.len() >= cap {
        (samples, false)
    } else {
        (samples, recording)
    }
}

/// Buffer and flag after the speech outputs of `frames` are offered in order.
pub open spec fn record_all<T>(samples: Seq<T>, recording: bool, frames: Seq<Seq<T>>) -> (
    Seq<T>,
    bool,
)
    decreases frames.len(),
{
    if frames.len() == 0 {
        (samples, recording)
    } else {
        let (s, r) = record_all(samples, recording, frames.drop_last());
        record_model(s, r, frames.last())
    }
}

/// Once the buffer has reached the cap at a callback's end, no later frame
/// makes it grow: the samples are kept as they are, ready for `stop`.
pub proof fn lemma_cap_halts_growth<T>(
    samples: Seq<T>,
    recording: bool,
    cap: nat,
    frames: Seq<Seq<T>>,
)
    requires
        samples.len() >= cap,
    ensures
        ({
            let (s1, r1) = cap_model(samples, recording, cap);
            record_all(s1, r1, frames) == (samples, false)
        }),
    decreases frames.len(),
{
    if frames.len() > 0 {
        lemma_cap_halts_growth(samples, recording, cap, frames.drop_last());
    }
}

/// The samples of one recording session.
pub struct RecordingSession<T> {
    samples: Vec<T>,
    recording: bool,
    max_samples: usize,
}

impl<T: Copy> RecordingSession<T> {
    pub closed spec fn samples(&self) -> Seq<T> {
        self.samples@
    }

    pub closed spec fn recording(&self) -> bool {
        self.recording
    }

    pub closed spec fn cap(&self) -> usize {
        self.max_samples
    }

    /// An idle session with the default cap of 30 minutes at 16 kHz.
    pub fn new() -> (r: Self)
        ensures
            r.samples() == Seq::<T>::empty(),
            !r.recording(),
            r.cap() == MAX_RECORDING_SAMPLES,
    {
        Self::with_cap(MAX_RECORDING_SAMPLES)
    }

    /// An idle session that keeps at most about `max_samples` samples.
    pub fn with_cap(max_samples: usize) -> (r: Self)
        ensures
            r.samples() == Seq::<T>::empty(),
            !r.recording(),
            r.cap() == max_samples,
    {
        RecordingSession { samples: Vec::new(), recording: false, max_samples }
    }

    pub fn is_recording(&self) -> (r: bool)
        ensures
            r == self.recording(),
    {
        self.recording
    }

    pub fn len(&self) -> (r: usize)
        ensures
            r == self.samples().len(),
    {
        self.samples.len()
    }

    /// Starts a recording: the buffer is cleared and the flag set.
    pub fn start(&mut self)
        ensures
            final(self).samples() == Seq::<T>::empty(),
            final(self).recording(),
            final(self).cap() == old(self).cap(),
    {
        self.samples.clear();
        self.recording = true;
    }

    /// Offers one frame's speech output: kept only while recording.
    pub fn record_frame(&mut self, speech: &[T])
        requires
            old(self).samples().len() + speech@.len() <= usize::MAX,
        ensures
            (final(self).samples(), final(self).recording()) == record_model(
                old(self).samples(),
                old(self).recording(),
                speech@,
            ),
            final(self).cap() == old(self).cap(),
    {
        if self.recording {
            self.append(speech);
        }
    }

    /// Offers a frame flushed at stop time: kept only while recording and
    /// while the cap is not reached.
    pub fn flush_frame(&mut self, speech: &[T])
        requires
            old(self).samples().len() + speech@.len() <= usize::MAX,
        ensures
            final(self).samples() == if old(self).recording() && old(self).samples().len()
                < old(self).cap() {
                old(self).samples() + speech@
            } else {
                old(self).samples()
            },
            final(self).recording() == old(self).recording(),
            final(self).cap() == old(self).cap(),
    {
        if self.recording && self.samples.len() < self.max_samples {
            self.append(speech);
        }
    }

    fn append(&mut self, speech: &[T])
        requires
            old(self).samples().len() + speech@.len() <= usize::MAX,
        ensures
            final(self).samples() == old(self).samples() + speech@,
            final(self).recording() == old(self).recording(),
            final(self).cap() == old(self).cap(),
    {
        let ghost before = self.samples@;
        let mut j: usize = 0;
        while j < speech.len()
            invariant
                0 <= j <= speech@.len(),
                self.samples@ == before + speech@.subrange(0, j as int),
                self.recording == old(self).recording(),
                self.max_samples == old(self).cap(),
            decreases speech@.len() - j,
        {
            self.samples.push(speech[j]);
            j = j + 1;
            assert(self.samples@ =~= before + speech@.subrange(0, j as int));
        }
        assert(speech@.subrange(0, j as int) =~= speech@);
    }

    /// End-of-callback check: recording stops once the buffer holds the
    /// maximum; the samples are kept. Returns whether it stopped here.
    pub fn enforce_cap(&mut self) -> (stopped: bool)
        ensures
            (final(self).samples(), final(self).recording()) == cap_model(
                old(self).samples(),
                old(self).recording(),
                old(self).cap() as nat,
            ),
            final(self).cap() == old(self).cap(),
            stopped == (old(self).recording() && old(self).samples().len() >= old(self).cap()),
    {
        if self.recording && self.samples.len() >= self.max_samples {
            self.recording = false;
            true
        } else {
            false
        }
    }

    /// Stops recording and hands out the buffer, which is left empty.
    pub fn stop(&mut self) -> (r: Vec<T>)
        ensures
            r@ == old(self).samples(),
            final(self).samples() == Seq::<T>::empty(),
            !final(self).recording(),
            final(self).cap() == old(self).cap(),
    {
        self.recording = false;
        let out = vstd::slice::slice_to_vec(self.samples.as_slice());
        self.samples.clear();
        out
    }
}

} // verus!
