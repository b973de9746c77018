use vstd::prelude::*;

use crate::buf::Spec;

verus! {

/// The engine's logical playback state, as distinct from the state of the
/// platform stream it drives.
#[derive(Clone, Copy, PartialEq, Eq, Structural, Debug)]
pub enum PlaybackState {
    Paused,
    Playing,
}

impl PlaybackState {
    pub fn get(&self) -> (s: PlaybackState)
        ensures
            s == *self,
    {
        *self
    }

    pub fn set(&mut self, state: PlaybackState)
        ensures
            *final(self) == state,
    {
        *self = state;
    }
}

/// The buffer layout of one device callback: `samples` interleaved samples
/// over `channels` channels make `samples / channels` whole frames. `None`
/// when the callback carries no whole frame.
pub fn callback_spec(samples: usize, channels: usize) -> (r: Option<Spec>)
    ensures
        match r {
            Some(s) => channels > 0 && samples / channels > 0 && s.spec_frames() == samples
                / channels && s.spec_channels() == channels,
            None => channels == 0 || samples / channels == 0,
        },
{
    if channels == 0 {
        return None;
    }
    let frames = samples / channels;
    if frames == 0 {
        return None;
    }
    Some(Spec::new(frames, channels))
}

} // verus!
