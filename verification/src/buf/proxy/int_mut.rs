use vstd::prelude::*;

use crate::buf::flat::{offset, FlatBuf, Layout};
use crate::buf::iter::Frame;
use crate::buf::{Buf, BufMut, BufView, Spec};

verus! {

/// A writable interleaved buffer over one flat sample vector: the channels
/// alternate every sample, as an audio device expects them. It starts empty:
/// both cursors sit at the start.
pub struct IntMut<T> {
    inner: FlatBuf<T>,
}

impl<T: Copy> IntMut<T> {
    pub fn with_spec(buf: Vec<T>, layout: Spec) -> (b: IntMut<T>)
        requires
            layout.wf(),
            buf@.len() >= layout.spec_frames() * layout.spec_channels(),
        ensures
            b.inv(),
            b.view().matches_spec(layout),
            b.view().pos == 0,
            b.view().len == 0,
            forall|n: int, c: int|
                0 <= n < layout.spec_frames() && 0 <= c < layout.spec_channels()
                    ==> b.view().samples[n][c] == buf@[n * layout.spec_channels() + c],
    {
        let ghost snap = buf@;
        let b = IntMut { inner: FlatBuf::new_flat(buf, layout, Layout::Interleaved) };
        proof {
            let fr = layout.spec_frames() as int;
            let ch = layout.spec_channels() as int;
            assert forall|n: int, c: int| 0 <= n < fr && 0 <= c < ch implies b.view().samples[n][c]
                == snap[n * ch + c] by {
                assert(b.inner.view().samples[n][c] == snap[offset(
                    Layout::Interleaved,
                    fr,
                    ch,
                    n,
                    c,
                )]);
            }
        }
        b
    }

    /// Hand the interleaved storage back, with every sample at its
    /// layout-determined position.
    pub fn into_inner(self) -> (v: Vec<T>)
        requires
            self.inv(),
        ensures
            v@.len() >= self.view().frames() * self.view().channels,
            forall|n: int, c: int|
                0 <= n < self.view().frames() && 0 <= c < self.view().channels ==> v@[n
                    * self.view().channels + c] == self.view().samples[n][c],
    {
        self.inner.into_data()
    }
}

impl<T: Copy> Buf for IntMut<T> {
    type Item = T;

    closed spec fn view(&self) -> BufView<T> {
        self.inner.view()
    }

    closed spec fn inv(&self) -> bool {
        self.inner.inv() && self.inner.kind is Interleaved
    }

    proof fn inv_wf(&self) {
        self.inner.inv_wf();
    }

    fn get_spec(&self) -> (s: Spec) {
        self.inner.get_spec()
    }

    fn sample(&self, n: usize, c: usize) -> (v: T) {
        self.inner.sample(n, c)
    }

    fn frame(&self, n: usize) -> (f: Frame<T>) {
        self.inner.frame(n)
    }

    fn pos(&self) -> (p: usize) {
        self.inner.pos()
    }

    fn len(&self) -> (l: usize) {
        self.inner.len()
    }

    fn is_empty(&self) -> (b: bool) {
        self.inner.is_empty()
    }

    fn set_pos(&mut self, n: usize) {
        self.inner.set_pos(n);
    }

    fn set_len(&mut self, n: usize) {
        self.inner.set_len(n);
    }
}

impl<T: Copy> BufMut for IntMut<T> {
    fn put(&mut self, n: usize, c: usize, v: T) {
        self.inner.put(n, c, v);
    }
}

} // verus!
