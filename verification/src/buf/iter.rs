use vstd::prelude::*;

verus! {

/// An owned snapshot of one frame: one sample per channel, in channel order.
pub struct Frame<T> {
    samples: Vec<T>,
}

impl<T> View for Frame<T> {
    type V = Seq<T>;

    closed spec fn view(&self) -> Seq<T> {
        self.samples@
    }
}

impl<T> Frame<T> {
    pub fn new(samples: Vec<T>) -> (f: Frame<T>)
        ensures
            f@ == samples@,
    {
        Frame { samples }
    }

    /// Give the backing storage of the frame back to the caller.
    pub fn into_raw(self) -> (r: Vec<T>)
        ensures
            r@ == self@,
    {
        self.samples
    }

    /// The sample slot of channel `c`.
    pub fn get(&self, c: usize) -> (v: &T)
        requires
            c < self@.len(),
        ensures
            *v == self@[c as int],
    {
        &self.samples[c]
    }
}

impl<T: Copy> Frame<T> {
    /// The frame's samples as a plain vector.
    pub fn into_vec(self) -> (r: Vec<T>)
        ensures
            r@ == self@,
    {
        self.samples
    }
}

} // verus!
