use vstd::prelude::*;

use crate::buf::flat::{lemma_offset_in_range, FlatBuf, Layout};
use crate::buf::iter::Frame;
use crate::buf::{Buf, BufMut, BufView, Spec};

verus! {

/// An owning planar buffer: `channels` contiguous runs of `frames` samples.
/// It serves as the decode-export scratch of a sound.
pub struct SeqBuf<T> {
    inner: FlatBuf<T>,
}

impl<T: Copy + Default> SeqBuf<T> {
    /// A planar buffer of the given layout, with both cursors at the start
    /// and every slot holding one and the same default sample, so that
    /// whatever a copy pass reads past the fill cursor is that silence
    /// value, not arbitrary storage.
    pub fn with_spec(layout: Spec) -> (b: SeqBuf<T>)
        requires
            layout.wf(),
            layout.spec_frames() * layout.spec_channels() <= usize::MAX,
        ensures
            b.inv(),
            b.view().matches_spec(layout),
            b.view().pos == 0,
            b.view().len == 0,
            forall|n: int, c: int|
                0 <= n < layout.spec_frames() && 0 <= c < layout.spec_channels()
                    ==> #[trigger] b.view().samples[n][c] == b.view().samples[0][0],
    {
        let n = layout.frames() * layout.channels();
        let fill = T::default();
        let mut data: Vec<T> = Vec::new();
        while data.len() < n
            invariant
                data@.len() <= n,
                forall|i: int| 0 <= i < data@.len() ==> data@[i] == fill,
            decreases n - data@.len(),
        {
            data.push(fill);
        }
        let b = SeqBuf { inner: FlatBuf::new_flat(data, layout, Layout::Planar) };
        proof {
            let fr = layout.spec_frames() as int;
            let ch = layout.spec_channels() as int;
            assert forall|i: int, c: int| 0 <= i < fr && 0 <= c < ch implies #[trigger] b.view().samples[i][c]
                == b.view().samples[0][0] by {
                lemma_offset_in_range(Layout::Planar, fr, ch, i, c);
                lemma_offset_in_range(Layout::Planar, fr, ch, 0, 0);
            }
        }
        b
    }
}

impl<T: Copy> Buf for SeqBuf<T> {
    type Item = T;

    closed spec fn view(&self) -> BufView<T> {
        self.inner.view()
    }

    closed spec fn inv(&self) -> bool {
        self.inner.inv() && self.inner.kind is Planar
    }

    proof fn inv_wf(&self) {
        self.inner.inv_wf();
    }

    fn get_spec(&self) -> (s: Spec) {
        self.inner.get_spec()
    }

    fn sample(&self, n: usize, c: usize) -> (v: T) {
        self.inner.sample(n, c)
    }

    fn frame(&self, n: usize) -> (f: Frame<T>) {
        self.inner.frame(n)
    }

    fn pos(&self) -> (p: usize) {
        self.inner.pos()
    }

    fn len(&self) -> (l: usize) {
        self.inner.len()
    }

    fn is_empty(&self) -> (b: bool) {
        self.inner.is_empty()
    }

    fn set_pos(&mut self, n: usize) {
        self.inner.set_pos(n);
    }

    fn set_len(&mut self, n: usize) {
        self.inner.set_len(n);
    }
}

impl<T: Copy> BufMut for SeqBuf<T> {
    fn put(&mut self, n: usize, c: usize, v: T) {
        self.inner.put(n, c, v);
    }
}

} // verus!
