use vstd::prelude::*;

use crate::buf::iter::Frame;
use crate::buf::{Buf, BufView, Spec};

verus! {

/// A read-only planar buffer over one sample vector per channel, used to
/// bridge a decoder's planar output into any writable buffer. It starts
/// full: the fill cursor sits at the frame count.
pub struct DyRef<T> {
    data: Vec<Vec<T>>,
    layout: Spec,
    pos: usize,
    len: usize,
}

impl<T: Copy> DyRef<T> {
    pub fn with_spec(buf: Vec<Vec<T>>, layout: Spec) -> (b: DyRef<T>)
        requires
            layout.wf(),
            buf@.len() == layout.spec_channels(),
            forall|c: int|
                0 <= c < buf@.len() ==> (#[trigger] buf@[c])@.len() >= layout.spec_frames(),
        ensures
            b.inv(),
            b.view().matches_spec(layout),
            b.view().pos == 0,
            b.view().len == layout.spec_frames(),
            forall|n: int, c: int|
                0 <= n < layout.spec_frames() && 0 <= c < layout.spec_channels()
                    ==> b.view().samples[n][c] == buf@[c]@[n],
    {
        let len = layout.frames();
        DyRef { data: buf, layout, pos: 0, len }
    }
}

impl<T: Copy> Buf for DyRef<T> {
    type Item = T;

    closed spec fn view(&self) -> BufView<T> {
        BufView {
            samples: Seq::new(
                self.layout.spec_frames() as nat,
                |n: int|
                    Seq::new(
                        self.layout.spec_channels() as nat,
                        |c: int| self.data@[c]@[n],
                    ),
            ),
            channels: self.layout.spec_channels() as nat,
            pos: self.pos as nat,
            len: self.len as nat,
        }
    }

    closed spec fn inv(&self) -> bool {
        &&& self.layout.wf()
        &&& self.data.len() == self.layout.spec_channels()
        &&& forall|c: int|
            0 <= c < self.data@.len() ==> (#[trigger] self.data@[c]).len()
                >= self.layout.spec_frames()
        &&& self.pos <= self.layout.spec_frames()
        &&& self.len <= self.layout.spec_frames()
    }

    proof fn inv_wf(&self) {
    }

    fn get_spec(&self) -> (s: Spec) {
        self.layout
    }

    fn sample(&self, n: usize, c: usize) -> (v: T) {
        self.data[c][n]
    }

    fn frame(&self, n: usize) -> (f: Frame<T>) {
        let frames = self.layout.frames();
        let channels = self.layout.channels();
        let m = if n < frames {
            n
        } else {
            0
        };
        let mut out: Vec<T> = Vec::new();
        let mut c: usize = 0;
        while c < channels
            invariant
                self.inv(),
                frames == self.layout.spec_frames(),
                channels == self.layout.spec_channels(),
                m < frames,
                c <= channels,
                out@.len() == c,
                forall|k: int| 0 <= k < c ==> out@[k] == self.view().samples[m as int][k],
            decreases channels - c,
        {
            out.push(self.sample(m, c));
            c += 1;
        }
        proof {
            if n < frames {
                assert(out@ =~= self.view().samples[n as int]);
            }
        }
        Frame::new(out)
    }

    fn pos(&self) -> (p: usize) {
        self.pos
    }

    fn len(&self) -> (l: usize) {
        self.len
    }

    fn is_empty(&self) -> (b: bool) {
        self.pos == self.len
    }

    fn set_pos(&mut self, n: usize) {
        self.pos = if n <= self.len {
            n
        } else {
            self.len
        };
        proof {
            assert(self.view().samples =~~= old(self).view().samples);
        }
    }

    fn set_len(&mut self, n: usize) {
        let frames = self.layout.frames();
        self.len = if n <= frames {
            n
        } else {
            frames
        };
        proof {
            assert(self.view().samples =~~= old(self).view().samples);
        }
    }
}

} // verus!
