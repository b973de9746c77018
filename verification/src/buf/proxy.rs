use vstd::prelude::*;

pub mod dy;
pub mod int_mut;

use crate::buf::{Buf, Spec};
use dy::DyRef;
use int_mut::IntMut;

verus! {

/// Wrap per-channel sample vectors as a read-only planar view.
pub fn dy<T: Copy>(buf: Vec<Vec<T>>, layout: Spec) -> (b: DyRef<T>)
    requires
        layout.wf(),
        buf@.len() == layout.spec_channels(),
        forall|c: int|
            0 <= c < buf@.len() ==> (#[trigger] buf@[c])@.len() >= layout.spec_frames(),
    ensures
        b.inv(),
        b.view().matches_spec(layout),
        b.view().pos == 0,
        b.view().len == layout.spec_frames(),
        forall|n: int, c: int|
            0 <= n < layout.spec_frames() && 0 <= c < layout.spec_channels() ==> b.view().samples[n][c]
                == buf@[c]@[n],
{
    DyRef::with_spec(buf, layout)
}

/// Wrap a flat sample vector as a writable interleaved buffer.
pub fn int_mut<T: Copy>(buf: Vec<T>, layout: Spec) -> (b: IntMut<T>)
    requires
        layout.wf(),
        buf@.len() >= layout.spec_frames() * layout.spec_channels(),
    ensures
        b.inv(),
        b.view().matches_spec(layout),
        b.view().pos == 0,
        b.view().len == 0,
        forall|n: int, c: int|
            0 <= n < layout.spec_frames() && 0 <= c < layout.spec_channels() ==> b.view().samples[n][c]
                == buf@[n * layout.spec_channels() + c],
{
    IntMut::with_spec(buf, layout)
}

} // verus!
