use vstd::prelude::*;

pub mod iter;
pub mod proxy;
pub mod seq_buf;

mod flat;

use iter::Frame;

verus! {

/// Immutable layout descriptor shared by every PCM buffer: a positive frame
/// count and a positive channel count.
#[derive(Clone, Copy)]
pub struct Spec {
    frames: usize,
    channels: usize,
}

impl Spec {
    /// The frame count, for use in specifications.
    pub closed spec fn spec_frames(&self) -> usize {
        self.frames
    }

    /// The channel count, for use in specifications.
    pub closed spec fn spec_channels(&self) -> usize {
        self.channels
    }

    /// Both dimensions of the layout are positive.
    pub open spec fn wf(&self) -> bool {
        self.spec_frames() > 0 && self.spec_channels() > 0
    }

    pub fn new(frames: usize, channels: usize) -> (s: Spec)
        requires
            frames > 0,
            channels > 0,
        ensures
            s.spec_frames() == frames,
            s.spec_channels() == channels,
            s.wf(),
    {
        Spec { frames, channels }
    }

    #[verifier::when_used_as_spec(spec_frames)]
    pub fn frames(&self) -> (r: usize)
        ensures
            r == self.spec_frames(),
    {
        self.frames
    }

    #[verifier::when_used_as_spec(spec_channels)]
    pub fn channels(&self) -> (r: usize)
        ensures
            r == self.spec_channels(),
    {
        self.channels
    }
}

/// The mathematical model of a PCM buffer: a frame-major grid of samples
/// (`samples[n][c]` is the sample of frame `n` on channel `c`) together with
/// the channel count and the two independent cursors.
pub struct BufView<T> {
    pub samples: Seq<Seq<T>>,
    pub channels: nat,
    pub pos: nat,
    pub len: nat,
}

impl<T> BufView<T> {
    /// The total number of frames the storage holds.
    pub open spec fn frames(&self) -> nat {
        self.samples.len()
    }

    /// Structural sanity: positive dimensions, every frame carries exactly
    /// `channels` samples, and both cursors stay within the storage.
    pub open spec fn wf(&self) -> bool {
        &&& self.frames() > 0
        &&& self.channels > 0
        &&& forall|n: int|
            0 <= n < self.samples.len() ==> (#[trigger] self.samples[n]).len() == self.channels
        &&& self.pos <= self.frames()
        &&& self.len <= self.frames()
    }

    /// The model agrees with a layout descriptor.
    pub open spec fn matches_spec(&self, s: Spec) -> bool {
        self.frames() == s.spec_frames() && self.channels == s.spec_channels()
    }
}

/// Read access to PCM storage under the uniform frame-iteration contract:
/// whatever the memory layout, frame `n` exposes `channels` sample slots.
pub trait Buf: Sized {
    type Item: Copy;

    /// The buffer's mathematical model.
    spec fn view(&self) -> BufView<Self::Item>;

    /// The representation invariant of the concrete backing.
    spec fn inv(&self) -> bool;

    /// A valid buffer always has a well-formed model.
    proof fn inv_wf(&self)
        requires
            self.inv(),
        ensures
            self.view().wf(),
    ;

    /// The layout descriptor this buffer was built with.
    fn get_spec(&self) -> (s: Spec)
        requires
            self.inv(),
        ensures
            s.wf(),
            self.view().matches_spec(s),
    ;

    /// The sample of frame `n` on channel `c`.
    fn sample(&self, n: usize, c: usize) -> (v: Self::Item)
        requires
            self.inv(),
            n < self.view().frames(),
            c < self.view().channels,
        ensures
            v == self.view().samples[n as int][c as int],
    ;

    /// The frame handle for frame `n`; `n` equal to the frame count denotes
    /// the one-past-the-end sentinel, whose slot contents are unspecified.
    fn frame(&self, n: usize) -> (f: Frame<Self::Item>)
        requires
            self.inv(),
            n <= self.view().frames(),
        ensures
            f@.len() == self.view().channels,
            n < self.view().frames() ==> f@ == self.view().samples[n as int],
    ;

    /// The read cursor.
    fn pos(&self) -> (p: usize)
        requires
            self.inv(),
        ensures
            p == self.view().pos,
    ;

    /// The fill cursor.
    fn len(&self) -> (l: usize)
        requires
            self.inv(),
        ensures
            l == self.view().len,
    ;

    /// A buffer is empty exactly when the reader has caught up with the
    /// writer.
    fn is_empty(&self) -> (b: bool)
        requires
            self.inv(),
        ensures
            b == (self.view().pos == self.view().len),
    ;

    /// Move the read cursor to `n`, clamped to the fill cursor.
    fn set_pos(&mut self, n: usize)
        requires
            old(self).inv(),
        ensures
            final(self).inv(),
            final(self).view().samples == old(self).view().samples,
            final(self).view().channels == old(self).view().channels,
            final(self).view().len == old(self).view().len,
            final(self).view().pos == if n <= old(self).view().len {
                n as nat
            } else {
                old(self).view().len
            },
    ;

    /// Move the fill cursor to `n`, clamped to the frame count.
    fn set_len(&mut self, n: usize)
        requires
            old(self).inv(),
        ensures
            final(self).inv(),
            final(self).view().samples == old(self).view().samples,
            final(self).view().channels == old(self).view().channels,
            final(self).view().pos == old(self).view().pos,
            final(self).view().len == if n <= old(self).view().frames() {
                n as nat
            } else {
                old(self).view().frames()
            },
    ;
}

/// Write access: a mutable sample slot for every frame and channel.
pub trait BufMut: Buf {
    /// Store `v` into the slot of frame `n`, channel `c`.
    fn put(&mut self, n: usize, c: usize, v: Self::Item)
        requires
            old(self).inv(),
            n < old(self).view().frames(),
            c < old(self).view().channels,
        ensures
            final(self).inv(),
            final(self).view().samples == old(self).view().samples.update(
                n as int,
                old(self).view().samples[n as int].update(c as int, v),
            ),
            final(self).view().channels == old(self).view().channels,
            final(self).view().pos == old(self).view().pos,
            final(self).view().len == old(self).view().len,
    ;
}

} // verus!
