use vstd::prelude::*;

use crate::buf::proxy::dy;
use crate::buf::proxy::int_mut::IntMut;
use crate::buf::seq_buf::SeqBuf;
use crate::buf::{Buf, BufView, Spec};
use crate::io::{copied_exact, copy_len, refilled_copy, write_all_frames, write_frames, Seek, Write};

verus! {

/// Why a sound cannot be built from a byte source.
#[derive(Clone, Copy, PartialEq, Eq, Structural, Debug)]
pub enum SoundError {
    Unsupported,
    Invalid,
}

impl SoundError {
    /// A short description of the failure.
    pub fn message(&self) -> (m: &'static str)
        ensures
            *self is Unsupported ==> m@ == "unsupported media container"@,
            *self is Invalid ==> m@ == "invalid media container"@,
    {
        match self {
            SoundError::Unsupported => "unsupported media container",
            SoundError::Invalid => "invalid media container",
        }
    }
}

/// The family of demux or decode failure a packet operation hit; one variant
/// for each error family of the codec library.
pub enum CodecErrorKind {
    Io,
    Decode,
    Seek,
    Unsupported,
    Limit,
    Reset,
    Other,
}

/// The step at which opening a media source failed: no container format
/// matched, the container has no default audio track, or no decoder could be
/// built for the track.
pub enum OpenError {
    Probe,
    Track,
    Codec,
}

#[verifier::external_type_specification]
#[verifier::external_body]
pub struct ExMediaSourceStream<'s>(symphonia::core::io::MediaSourceStream<'s>);

#[verifier::external_type_specification]
#[verifier::external_body]
pub struct ExPacket(symphonia::core::packet::Packet);

/// The media-format machinery a sound owns: the demuxer and the decoder.
/// Verus sees nothing of the pair; every use goes through the trusted
/// wrappers below.
#[verifier::external_body]
pub struct SoundReader {
    demuxer: Box<dyn symphonia::core::formats::FormatReader>,
    decoder: Box<dyn symphonia::core::codecs::audio::AudioDecoder>,
}

/// A probed container format, waiting for its decoder. Opaque to Verus,
/// like `SoundReader`.
#[verifier::external_body]
struct ProbedFormat {
    demuxer: Box<dyn symphonia::core::formats::FormatReader>,
}

/// Relies on symphonia's default probe with default format and metadata
/// options: find the container format of the byte source.
#[verifier::external_body]
fn probe_format(source: symphonia::core::io::MediaSourceStream<'static>) -> (r: Result<
    ProbedFormat,
    OpenError,
>) {
    let hint = symphonia::core::formats::probe::Hint::new();
    let probed = symphonia::default::get_probe().probe(&hint, source, Default::default(), Default::default());
    match probed {
        Ok(demuxer) => Ok(ProbedFormat { demuxer }),
        Err(_) => Err(OpenError::Probe),
    }
}

/// Relies on FormatReader::default_track and symphonia's default codec
/// registry (with default decoder options, gapless playback included): take
/// the container's default audio track and build its decoder. Each failure
/// names the step that failed.
#[verifier::external_body]
fn open_decoder(f: ProbedFormat) -> (r: Result<SoundReader, OpenError>) {
    let demuxer = f.demuxer;
    let track = match demuxer.default_track(symphonia::core::formats::TrackType::Audio) { Some(t) => t, None => return Err(OpenError::Track) };
    let params = match &track.codec_params { Some(symphonia::core::codecs::CodecParameters::Audio(p)) => p.clone(), _ => return Err(OpenError::Codec) };
    let made = symphonia::default::get_codecs().make_audio_decoder(&params, &Default::default());
    let decoder = match made { Ok(d) => d, Err(_) => return Err(OpenError::Codec) };
    Ok(SoundReader { demuxer, decoder })
}

/// Relies on FormatReader::next_packet: the next packet, or nothing at the
/// end of the stream or on any demux error — either ends the track.
#[verifier::external_body]
fn demux_next(r: &mut SoundReader) -> (p: Option<symphonia::core::packet::Packet>) {
    match r.demuxer.next_packet() {
        Ok(Some(p)) => Some(p),
        _ => None,
    }
}

/// Relies on AudioDecoder::decode; a failure is mapped one variant to one
/// variant onto the codec error families.
#[verifier::external_body]
fn decode_packet(r: &mut SoundReader, packet: &symphonia::core::packet::Packet) -> (res: Result<(), CodecErrorKind>) {
    match r.decoder.decode(packet) {
        Ok(_) => Ok(()),
        Err(symphonia::core::errors::Error::IoError(_)) => Err(CodecErrorKind::Io),
        Err(symphonia::core::errors::Error::DecodeError(_)) => Err(CodecErrorKind::Decode),
        Err(symphonia::core::errors::Error::SeekError(_)) => Err(CodecErrorKind::Seek),
        Err(symphonia::core::errors::Error::Unsupported(_)) => Err(CodecErrorKind::Unsupported),
        Err(symphonia::core::errors::Error::LimitError(_)) => Err(CodecErrorKind::Limit),
        Err(symphonia::core::errors::Error::ResetRequired) => Err(CodecErrorKind::Reset),
        Err(_) => Err(CodecErrorKind::Other),
    }
}

/// Relies on AudioDecoder::last_decoded and copy_to_vecs_planar: the last
/// decoded block as one sample vector per channel, converted to `i32`, with
/// the block's frame count and channel count. The copy resizes the outer
/// vector to one entry per audio plane and each plane to the block's frame
/// count.
#[verifier::external_body]
fn decoded_block(r: &SoundReader) -> (out: (Vec<Vec<i32>>, usize, usize))
    ensures
        out.0@.len() == out.2,
        forall|c: int| 0 <= c < out.0@.len() ==> (#[trigger] out.0@[c])@.len() == out.1,
{
    let block = r.decoder.last_decoded();
    let mut planes: Vec<Vec<i32>> = Vec::new();
    block.copy_to_vecs_planar(&mut planes);
    (planes, block.frames(), block.spec().channels().count())
}

/// Relies on AudioDecoder::last_decoded: the per-channel capacity of the
/// decoder's output buffer.
#[verifier::external_body]
fn decoded_capacity(r: &SoundReader) -> (n: usize) {
    r.decoder.last_decoded().capacity()
}

/// Relies on FormatReader::seek in accurate mode at whole seconds; reports
/// whether the demuxer accepted the seek. Seconds beyond the timestamp range
/// are refused without a call.
#[verifier::external_body]
fn demux_seek(r: &mut SoundReader, t: u64) -> (ok: bool) {
    let seconds = match i64::try_from(t) {
        Ok(s) => s,
        Err(_) => return false,
    };
    let time = match symphonia::core::units::Time::try_new(seconds, 0) {
        Some(x) => x,
        None => return false,
    };
    r.demuxer.seek(symphonia::core::formats::SeekMode::Accurate, symphonia::core::formats::SeekTo::Time { time, track_id: None }).is_ok()
}

/// Whether a fault of this family is skipped — the next packet is tried —
/// rather than ending the track: only the decode and I/O families are
/// recoverable.
pub fn recoverable(k: &CodecErrorKind) -> (r: bool)
    ensures
        r == (k is Decode || k is Io),
{
    matches!(k, CodecErrorKind::Decode | CodecErrorKind::Io)
}

/// Fetch and decode packets until one decodes. Recoverable faults are
/// skipped, though only up to a fixed budget of consecutive faults, so that
/// the loop provably ends; any other fault, or the end of the stream, ends
/// the track.
fn advance_reader(r: &mut SoundReader) -> (ok: bool) {
    let mut budget: usize = 65536;
    while budget > 0
        decreases budget,
    {
        let packet = match demux_next(r) {
            Some(p) => p,
            None => return false,
        };
        match decode_packet(r, &packet) {
            Ok(()) => return true,
            Err(k) => {
                if !recoverable(&k) {
                    return false;
                }
            },
        }
        budget -= 1;
    }
    false
}

/// A decode-to-PCM sound: a demuxer/decoder pair and a planar scratch
/// buffer that decoded blocks are exported into.
pub struct Sound {
    reader: SoundReader,
    buf: SeqBuf<i32>,
}

impl Sound {
    /// The scratch buffer keeps its representation invariant, and its read
    /// cursor never passes its fill cursor.
    pub closed spec fn inv(&self) -> bool {
        &&& self.buf.inv()
        &&& self.buf.view().pos <= self.buf.view().len
    }

    /// The sound error for a failed open: a container without a default
    /// audio track is invalid; every other failure is unsupported.
    pub fn open_error_of(e: OpenError) -> (r: SoundError)
        ensures
            r == (match e {
                OpenError::Track => SoundError::Invalid,
                _ => SoundError::Unsupported,
            }),
    {
        match e {
            OpenError::Track => SoundError::Invalid,
            _ => SoundError::Unsupported,
        }
    }

    /// Build a sound from an opened byte source: probe the container, build
    /// the decoder, decode the first packet, size the scratch by the
    /// decoder's reported capacity, and export the first block into it. A
    /// source whose first packet cannot be decoded, or whose decoder reports
    /// an unusable capacity or channel count, is unsupported.
    pub fn new(source: symphonia::core::io::MediaSourceStream<'static>) -> (r: Result<Sound, SoundError>)
        ensures
            r is Ok ==> r.unwrap().inv(),
    {
        let probed = match probe_format(source) {
            Ok(x) => x,
            Err(e) => return Err(Self::open_error_of(e)),
        };
        let mut reader = match open_decoder(probed) {
            Ok(x) => x,
            Err(e) => return Err(Self::open_error_of(e)),
        };
        if !advance_reader(&mut reader) {
            return Err(SoundError::Unsupported);
        }
        let cap = decoded_capacity(&reader);
        let (planes, frames, channels) = decoded_block(&reader);
        if cap == 0 || channels == 0 {
            return Err(SoundError::Unsupported);
        }
        if cap.checked_mul(channels).is_none() {
            return Err(SoundError::Unsupported);
        }
        let layout = Spec::new(cap, channels);
        let buf = SeqBuf::<i32>::with_spec(layout);
        let mut sound = Sound { reader, buf };
        let _ = sound.refill(planes, frames, channels);
        Ok(sound)
    }

    /// Reset the scratch cursors and export a decoded block — one sample
    /// vector per channel — into the scratch: afterwards the read cursor is
    /// at the start and the fill cursor at the block's frame count, clamped
    /// to the scratch capacity, with the block's samples in place. A
    /// degenerate block (no frames or no channels) is refused untouched.
    fn refill(&mut self, planes: Vec<Vec<i32>>, frames: usize, channels: usize) -> (ok: bool)
        requires
            old(self).inv(),
            planes@.len() == channels,
            forall|c: int| 0 <= c < planes@.len() ==> (#[trigger] planes@[c])@.len() == frames,
        ensures
            final(self).inv(),
            ok == (frames > 0 && channels > 0),
            !ok ==> *final(self) == *old(self),
            ok ==> {
                let cap = old(self).buf.view().frames();
                &&& final(self).buf.view().pos == 0
                &&& final(self).buf.view().len == (if frames <= cap {
                    frames as nat
                } else {
                    cap
                })
                &&& final(self).buf.view().frames() == cap
                &&& final(self).buf.view().channels == old(self).buf.view().channels
                &&& forall|i: int, c: int|
                    0 <= i < final(self).buf.view().len && 0 <= c < (if channels
                        <= old(self).buf.view().channels {
                        channels as int
                    } else {
                        old(self).buf.view().channels as int
                    }) ==> #[trigger] final(self).buf.view().samples[i][c] == planes@[c]@[i]
            },
    {
        if frames == 0 || channels == 0 {
            return false;
        }
        proof {
            self.buf.inv_wf();
        }
        let layout = Spec::new(frames, channels);
        let ghost pv = planes@;
        let mut src = dy(planes, layout);
        let ghost src0 = src.view();
        self.buf.set_pos(0);
        self.buf.set_len(0);
        let ghost scratch0 = self.buf.view();
        let ident = |x: i32| -> (r: i32)
            ensures
                r == x,
            { x };
        write_all_frames(&mut src, &mut self.buf, ident);
        proof {
            let sv = self.buf.view();
            let cap = scratch0.frames() as int;
            let n = copy_len(src0, scratch0);
            assert(n == if frames <= cap {
                frames as int
            } else {
                cap
            });
            assert forall|i: int, c: int|
                0 <= i < sv.len && 0 <= c < (if channels <= scratch0.channels {
                    channels as int
                } else {
                    scratch0.channels as int
                }) implies #[trigger] sv.samples[i][c] == pv[c]@[i] by {
                assert(call_ensures(ident, (src0.samples[i][c],), sv.samples[i][c]));
            }
        }
        true
    }
}

impl Seek for Sound {
    closed spec fn sinv(&self) -> bool {
        self.inv()
    }

    fn seek(&mut self, t: u64) -> (ok: bool) {
        demux_seek(&mut self.reader, t)
    }
}

impl Write for Sound {
    closed spec fn buffered(&self) -> BufView<i32> {
        self.buf.view()
    }

    closed spec fn exhausted(&self) -> bool {
        self.buf.view().pos == self.buf.view().len
    }

    fn write(&mut self, dst: &mut IntMut<i32>) -> (n: usize) {
        proof {
            dst.inv_wf();
            self.buf.inv_wf();
        }
        if self.buf.is_empty() {
            if !advance_reader(&mut self.reader) {
                return 0;
            }
            let (planes, frames, channels) = decoded_block(&self.reader);
            if !self.refill(planes, frames, channels) {
                return 0;
            }
        }
        let ident = |x: i32| -> (r: i32)
            ensures
                r == x,
            { x };
        let ghost pre = self.buf.view();
        let n = write_frames(&mut self.buf, dst, ident);
        proof {
            let dv = old(dst).view();
            let nv = dst.view();
            assert forall|j: int, c: int|
                dv.len <= j < dv.len + copy_len(pre, dv) && 0 <= c < crate::io::copy_channels(
                    pre,
                    dv,
                ) implies #[trigger] nv.samples[j][c] == pre.samples[j - dv.len + pre.pos][c] by {
                assert(call_ensures(ident, (pre.samples[j - dv.len + pre.pos][c],), nv.samples[j][c]));
            }
            if !old(self).exhausted() {
                assert(pre == old(self).buffered());
                assert(copied_exact(old(self).buffered(), dv, nv));
            } else if n != 0 {
                assert(pre.pos == 0);
                assert(self.buffered().samples == pre.samples);
                assert(refilled_copy(self.buffered(), dv, nv, n as int));
            }
        }
        n
    }
}

} // verus!
