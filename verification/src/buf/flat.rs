use vstd::prelude::*;

use crate::buf::iter::Frame;
use crate::buf::{BufView, Spec};

verus! {

/// The stride scheme of flat PCM storage: planar keeps each channel
/// contiguous, interleaved alternates channels sample by sample.
#[derive(Clone, Copy)]
pub(crate) enum Layout {
    Planar,
    Interleaved,
}

/// The index of frame `n`, channel `c` inside flat storage of the given
/// dimensions.
pub(crate) open spec fn offset(l: Layout, frames: int, channels: int, n: int, c: int) -> int {
    match l {
        Layout::Planar => c * frames + n,
        Layout::Interleaved => n * channels + c,
    }
}

pub(crate) proof fn lemma_offset_in_range(
    l: Layout,
    frames: int,
    channels: int,
    n: int,
    c: int,
)
    requires
        0 <= n < frames,
        0 <= c < channels,
    ensures
        0 <= offset(l, frames, channels, n, c) < frames * channels,
{
    match l {
        Layout::Planar => {
            assert(0 <= c * frames + n < frames * channels) by (nonlinear_arith)
                requires
                    0 <= n < frames,
                    0 <= c < channels,
            ;
        }
        Layout::Interleaved => {
            assert(0 <= n * channels + c < frames * channels) by (nonlinear_arith)
                requires
                    0 <= n < frames,
                    0 <= c < channels,
            ;
        }
    }
}

pub(crate) proof fn lemma_offset_injective(
    l: Layout,
    frames: int,
    channels: int,
    n1: int,
    c1: int,
    n2: int,
    c2: int,
)
    requires
        0 <= n1 < frames,
        0 <= c1 < channels,
        0 <= n2 < frames,
        0 <= c2 < channels,
        n1 != n2 || c1 != c2,
    ensures
        offset(l, frames, channels, n1, c1) != offset(l, frames, channels, n2, c2),
{
    match l {
        Layout::Planar => {
            if c1 != c2 {
                assert(c1 * frames + n1 != c2 * frames + n2) by (nonlinear_arith)
                    requires
                        0 <= n1 < frames,
                        0 <= n2 < frames,
                        c1 != c2,
                ;
            }
        }
        Layout::Interleaved => {
            if n1 != n2 {
                assert(n1 * channels + c1 != n2 * channels + c2) by (nonlinear_arith)
                    requires
                        0 <= c1 < channels,
                        0 <= c2 < channels,
                        n1 != n2,
                ;
            }
        }
    }
}

/// Flat PCM storage: one `Vec` holding `frames * channels` samples, walked
/// with the stride scheme of `kind`. The public buffer types wrap it and give
/// it a fixed stride scheme.
pub(crate) struct FlatBuf<T> {
    pub(crate) data: Vec<T>,
    pub(crate) layout: Spec,
    pub(crate) kind: Layout,
    pub(crate) pos: usize,
    pub(crate) len: usize,
}

impl<T: Copy> FlatBuf<T> {
    pub(crate) closed spec fn view(&self) -> BufView<T> {
        BufView {
            samples: Seq::new(
                self.layout.spec_frames() as nat,
                |n: int|
                    Seq::new(
                        self.layout.spec_channels() as nat,
                        |c: int|
                            self.data@[offset(
                                self.kind,
                                self.layout.spec_frames() as int,
                                self.layout.spec_channels() as int,
                                n,
                                c,
                            )],
                    ),
            ),
            channels: self.layout.spec_channels() as nat,
            pos: self.pos as nat,
            len: self.len as nat,
        }
    }

    pub(crate) closed spec fn inv(&self) -> bool {
        &&& self.layout.wf()
        &&& self.data.len() >= self.layout.spec_frames() * self.layout.spec_channels()
        &&& self.pos <= self.layout.spec_frames()
        &&& self.len <= self.layout.spec_frames()
    }

    pub(crate) proof fn inv_wf(&self)
        requires
            self.inv(),
        ensures
            self.view().wf(),
    {
    }

    pub(crate) fn new_flat(data: Vec<T>, layout: Spec, kind: Layout) -> (b: FlatBuf<T>)
        requires
            layout.wf(),
            data.len() >= layout.spec_frames() * layout.spec_channels(),
        ensures
            b.inv(),
            b.kind == kind,
            b.view().matches_spec(layout),
            b.view().pos == 0,
            b.view().len == 0,
            forall|n: int, c: int|
                0 <= n < layout.spec_frames() && 0 <= c < layout.spec_channels()
                    ==> b.view().samples[n][c] == data@[offset(
                    kind,
                    layout.spec_frames() as int,
                    layout.spec_channels() as int,
                    n,
                    c,
                )],
    {
        FlatBuf { data, layout, kind, pos: 0, len: 0 }
    }

    pub(crate) fn into_data(self) -> (v: Vec<T>)
        requires
            self.inv(),
        ensures
            v@.len() >= self.view().frames() * self.view().channels,
            forall|n: int, c: int|
                0 <= n < self.view().frames() && 0 <= c < self.view().channels ==> v@[offset(
                    self.kind,
                    self.view().frames() as int,
                    self.view().channels as int,
                    n,
                    c,
                )] == self.view().samples[n][c],
    {
        self.data
    }

    pub(crate) fn get_spec(&self) -> (s: Spec)
        requires
            self.inv(),
        ensures
            s.wf(),
            self.view().matches_spec(s),
    {
        self.layout
    }

    pub(crate) fn sample(&self, n: usize, c: usize) -> (v: T)
        requires
            self.inv(),
            n < self.view().frames(),
            c < self.view().channels,
        ensures
            v == self.view().samples[n as int][c as int],
    {
        let frames = self.layout.frames();
        let channels = self.layout.channels();
        let idx = match self.kind {
            Layout::Planar => {
                proof {
                    lemma_offset_in_range(
                        Layout::Planar,
                        frames as int,
                        channels as int,
                        n as int,
                        c as int,
                    );
                }
                c * frames + n
            }
            Layout::Interleaved => {
                proof {
                    lemma_offset_in_range(
                        Layout::Interleaved,
                        frames as int,
                        channels as int,
                        n as int,
                        c as int,
                    );
                }
                n * channels + c
            }
        };
        self.data[idx]
    }

    pub(crate) fn frame(&self, n: usize) -> (f: Frame<T>)
        requires
            self.inv(),
            n <= self.view().frames(),
        ensures
            f@.len() == self.view().channels,
            n < self.view().frames() ==> f@ == self.view().samples[n as int],
    {
        let frames = self.layout.frames();
        let channels = self.layout.channels();
        let m = if n < frames {
            n
        } else {
            0
        };
        let mut out: Vec<T> = Vec::new();
        let mut c: usize = 0;
        while c < channels
            invariant
                self.inv(),
                frames == self.layout.spec_frames(),
                channels == self.layout.spec_channels(),
                m < frames,
                c <= channels,
                out@.len() == c,
                forall|k: int| 0 <= k < c ==> out@[k] == self.view().samples[m as int][k],
            decreases channels - c,
        {
            out.push(self.sample(m, c));
            c += 1;
        }
        proof {
            if n < frames {
                assert(out@ =~= self.view().samples[n as int]);
            }
        }
        Frame::new(out)
    }

    pub(crate) fn pos(&self) -> (p: usize)
        requires
            self.inv(),
        ensures
            p == self.view().pos,
    {
        self.pos
    }

    pub(crate) fn len(&self) -> (l: usize)
        requires
            self.inv(),
        ensures
            l == self.view().len,
    {
        self.len
    }

    pub(crate) fn is_empty(&self) -> (b: bool)
        requires
            self.inv(),
        ensures
            b == (self.view().pos == self.view().len),
    {
        self.pos == self.len
    }

    pub(crate) fn set_pos(&mut self, n: usize)
        requires
            old(self).inv(),
        ensures
            final(self).inv(),
            final(self).kind == old(self).kind,
            final(self).view().samples == old(self).view().samples,
            final(self).view().channels == old(self).view().channels,
            final(self).view().len == old(self).view().len,
            final(self).view().pos == if n <= old(self).view().len {
                n as nat
            } else {
                old(self).view().len
            },
    {
        self.pos = if n <= self.len {
            n
        } else {
            self.len
        };
        proof {
            assert(self.view().samples =~~= old(self).view().samples);
        }
    }

    pub(crate) fn set_len(&mut self, n: usize)
        requires
            old(self).inv(),
        ensures
            final(self).inv(),
            final(self).kind == old(self).kind,
            final(self).view().samples == old(self).view().samples,
            final(self).view().channels == old(self).view().channels,
            final(self).view().pos == old(self).view().pos,
            final(self).view().len == if n <= old(self).view().frames() {
                n as nat
            } else {
                old(self).view().frames()
            },
    {
        let frames = self.layout.frames();
        self.len = if n <= frames {
            n
        } else {
            frames
        };
        proof {
            assert(self.view().samples =~~= old(self).view().samples);
        }
    }

    pub(crate) fn put(&mut self, n: usize, c: usize, v: T)
        requires
            old(self).inv(),
            n < old(self).view().frames(),
            c < old(self).view().channels,
        ensures
            final(self).inv(),
            final(self).kind == old(self).kind,
            final(self).view().samples == old(self).view().samples.update(
                n as int,
                old(self).view().samples[n as int].update(c as int, v),
            ),
            final(self).view().channels == old(self).view().channels,
            final(self).view().pos == old(self).view().pos,
            final(self).view().len == old(self).view().len,
    {
        let frames = self.layout.frames();
        let channels = self.layout.channels();
        let idx = match self.kind {
            Layout::Planar => {
                proof {
                    lemma_offset_in_range(
                        Layout::Planar,
                        frames as int,
                        channels as int,
                        n as int,
                        c as int,
                    );
                }
                c * frames + n
            }
            Layout::Interleaved => {
                proof {
                    lemma_offset_in_range(
                        Layout::Interleaved,
                        frames as int,
                        channels as int,
                        n as int,
                        c as int,
                    );
                }
                n * channels + c
            }
        };
        proof {
            assert(idx == offset(
                self.kind,
                frames as int,
                channels as int,
                n as int,
                c as int,
            ));
        }
        let elem = &mut self.data[idx];
        *elem = v;
        proof {
            let f = frames as int;
            let ch = channels as int;
            let ni = n as int;
            let ci = c as int;
            let target = old(self).view().samples.update(
                ni,
                old(self).view().samples[ni].update(ci, v),
            );
            assert forall|i: int, k: int| 0 <= i < f && 0 <= k < ch implies self.view().samples[i][k]
                == target[i][k] by {
                lemma_offset_in_range(self.kind, f, ch, i, k);
                assert(self.view().samples[i][k] == self.data@[offset(self.kind, f, ch, i, k)]);
                if i == ni && k == ci {
                    assert(target[i][k] == v);
                } else {
                    lemma_offset_injective(self.kind, f, ch, i, k, ni, ci);
                    assert(target[i][k] == old(self).data@[offset(self.kind, f, ch, i, k)]);
                }
            }
            assert(self.view().samples =~~= target);
        }
    }
}

} // verus!
