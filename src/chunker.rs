//! Re-chunking of a sample stream into fixed-size frames.
//!
//! The frame resampler accumulates its input into fixed-size blocks before
//! each transform, and accumulates the transform's output into fixed-size
//! frames before emitting them. Both are this buffer.
use vstd::prelude::*;

verus! {

/// Number of samples in one frame of `frame_ms` milliseconds at `rate_hz`,
/// rounded to the nearest integer (halves up).
pub open spec fn frame_samples_spec(rate_hz: nat, frame_ms: nat) -> nat {
    (rate_hz * frame_ms + 500) / 1000
}

/// Samples in one output frame of `frame_ms` milliseconds at `rate_hz`.
pub fn frame_samples_for(rate_hz: u32, frame_ms: u32) -> (r: u64)
    ensures
        r == frame_samples_spec(rate_hz as nat, frame_ms as nat),
{
    let a = rate_hz as u64;
    let b = frame_ms as u64;
    assert(a * b <= 0xffff_fffe_0000_0001u64) by (nonlinear_arith)
        requires
            a <= 0xffff_ffffu64,
            b <= 0xffff_ffffu64,
    ;
    let p: u64 = a * b;
    (p + 500) / 1000
}

/// Cuts a stream into frames of a fixed size, keeping the remainder pending.
pub struct FrameChunker<T> {
    frame_samples: usize,
    pending: Vec<T>,
}

impl<T: Copy> FrameChunker<T> {
    pub closed spec fn frame_size(&self) -> usize {
        self.frame_samples
    }

    /// Samples received but not yet emitted in a frame.
    pub closed spec fn pending(&self) -> Seq<T> {
        self.pending@
    }

    pub open spec fn wf(&self) -> bool {
        &&& self.frame_size() > 0
        &&& self.pending().len() < self.frame_size()
    }

    /// A chunker that emits frames of `frame_samples` samples.
    pub fn new(frame_samples: usize) -> (r: Self)
        requires
            frame_samples > 0,
        ensures
            r.wf(),
            r.frame_size() == frame_samples,
            r.pending() == Seq::<T>::empty(),
    {
        FrameChunker { frame_samples, pending: Vec::new() }
    }

    pub fn frame_len(&self) -> (r: usize)
        ensures
            r == self.frame_size(),
    {
        self.frame_samples
    }

    pub fn pending_len(&self) -> (r: usize)
        ensures
            r == self.pending().len(),
    {
        self.pending.len()
    }

    /// Appends `data` to the stream and returns the frames it completes, in
    /// order: with `all` the pending samples followed by `data`, the `k`-th
    /// frame is `all[k * n .. (k + 1) * n]`, and the samples after the last
    /// whole frame stay pending.
    pub fn push(&mut self, data: &[T]) -> (frames: Vec<Vec<T>>)
        requires
            old(self).wf(),
        ensures
            final(self).wf(),
            final(self).frame_size() == old(self).frame_size(),
            ({
                let all = old(self).pending() + data@;
                let n = old(self).frame_size() as int;
                let k = frames@.len() as int;
                &&& k * n <= all.len() < k * n + n
                &&& forall|i: int|
                    0 <= i < k ==> (#[trigger] frames@[i])@ == all.subrange(i * n, i * n + n)
                &&& final(self).pending() == all.subrange(k * n, all.len() as int)
            }),
    {
        let ghost all = self.pending@ + data@;
        let ghost n = self.frame_samples as int;
        let mut frames: Vec<Vec<T>> = Vec::new();
        let mut idx: usize = 0;
        assert(all.subrange(0, old(self).pending().len() as int) =~= self.pending@);
        assert(frames@.len() == 0);
        while idx < data.len()
            invariant
                self.wf(),
                self.frame_size() == n,
                all == old(self).pending() + data@,
                0 <= idx <= data@.len(),
                frames@.len() * n <= old(self).pending().len() + idx,
                self.pending@ == all.subrange(
                    frames@.len() * n,
                    old(self).pending().len() + idx,
                ),
                forall|i: int|
                    0 <= i < frames@.len() ==> (#[trigger] frames@[i])@ == all.subrange(
                        i * n,
                        i * n + n,
                    ),
            decreases data@.len() - idx,
        {
            let ghost k = frames@.len() as int;
            let ghost p0 = self.pending@;
            self.pending.push(data[idx]);
            assert(self.pending@ =~= all.subrange(k * n, old(self).pending().len() + idx + 1));
            if self.pending.len() == self.frame_samples {
                let frame = vstd::slice::slice_to_vec(self.pending.as_slice());
                frames.push(frame);
                self.pending.clear();
                assert((k + 1) * n == k * n + n) by (nonlinear_arith);
                assert(self.pending@ =~= all.subrange(
                    (k + 1) * n,
                    old(self).pending().len() + idx + 1,
                ));
            }
            idx = idx + 1;
        }
        let ghost k = frames@.len() as int;
        assert(old(self).pending().len() + idx == all.len());
        assert(k * n + n == (k + 1) * n) by (nonlinear_arith);
        frames
    }

    /// Ends the stream: the pending samples, padded with `pad` to a whole
    /// frame, or nothing when none are pending.
    pub fn finish(&mut self, pad: T) -> (r: Option<Vec<T>>)
        requires
            old(self).wf(),
        ensures
            final(self).wf(),
            final(self).frame_size() == old(self).frame_size(),
            final(self).pending() == Seq::<T>::empty(),
            old(self).pending().len() == 0 ==> r.is_none(),
            old(self).pending().len() > 0 ==> r.is_some() && r.unwrap()@ == old(self).pending()
                + Seq::new(
                (old(self).frame_size() - old(self).pending().len()) as nat,
                |i: int| pad,
            ),
    {
        if self.pending.len() == 0 {
            return None;
        }
        let ghost p0 = self.pending@;
        let mut frame = vstd::slice::slice_to_vec(self.pending.as_slice());
        while frame.len() < self.frame_samples
            invariant
                p0 == old(self).pending(),
                self.frame_samples == old(self).frame_size(),
                p0.len() <= frame@.len() <= self.frame_samples,
                frame@ == p0 + Seq::new((frame@.len() - p0.len()) as nat, |i: int| pad),
            decreases self.frame_samples - frame@.len(),
        {
            let ghost f0 = frame@;
            frame.push(pad);
            assert(frame@ =~= p0 + Seq::new((frame@.len() - p0.len()) as nat, |i: int| pad));
        }
        self.pending.clear();
        Some(frame)
    }
}

} // verus!
