use std::io::Cursor;

use tape::buf::proxy::int_mut;
use tape::buf::{Buf, Spec};
use tape::engine::{callback_spec, PlaybackState};
use tape::factory::Factory;
use tape::io::{Seek, Write};
use tape::request::Request;
use tape::sound::{recoverable, CodecErrorKind, Sound, SoundError};

fn le16(v: i16, out: &mut Vec<u8>) {
    let b = v.to_le_bytes();
    out.push(b[0]);
    out.push(b[1]);
}

fn le32(v: u32, out: &mut Vec<u8>) {
    let b = v.to_le_bytes();
    out.extend_from_slice(&b);
}

/// A minimal 16-bit PCM stereo WAV holding the given frames.
fn wav_stereo(frames: &[(i16, i16)]) -> Vec<u8> {
    let data_len = (frames.len() * 4) as u32;
    let mut out = Vec::new();
    out.extend_from_slice(b"RIFF");
    le32(36 + data_len, &mut out);
    out.extend_from_slice(b"WAVE");
    out.extend_from_slice(b"fmt ");
    le32(16, &mut out);
    le16(1, &mut out); // PCM
    le16(2, &mut out); // channels
    le32(8000, &mut out); // sample rate
    le32(8000 * 4, &mut out); // byte rate
    le16(4, &mut out); // block align
    le16(16, &mut out); // bits per sample
    out.extend_from_slice(b"data");
    le32(data_len, &mut out);
    for &(l, r) in frames {
        le16(l, &mut out);
        le16(r, &mut out);
    }
    out
}

fn open_sound(bytes: Vec<u8>) -> Result<Sound, SoundError> {
    let mss = symphonia::core::io::MediaSourceStream::new(
        Box::new(Cursor::new(bytes)),
        symphonia::core::io::MediaSourceStreamOptions::default(),
    );
    Sound::new(mss)
}

#[test]
fn wav_decodes_into_interleaved_samples() {
    // 16-bit samples come out widened to i32: shifted left by 16 bits.
    let bytes = wav_stereo(&[(256, -256), (512, -512), (768, -768), (1024, -1024)]);
    let mut sound = open_sound(bytes).unwrap();
    let mut dst = int_mut(vec![0i32; 8], Spec::new(4, 2));
    let n = sound.write(&mut dst);
    assert_eq!(n, 4);
    assert_eq!(
        dst.into_inner(),
        vec![
            256 << 16,
            -256 << 16,
            512 << 16,
            -512 << 16,
            768 << 16,
            -768 << 16,
            1024 << 16,
            -1024 << 16,
        ],
    );
}

#[test]
fn wav_reports_exhaustion_with_zero() {
    let bytes = wav_stereo(&[(1, 1), (2, 2)]);
    let mut sound = open_sound(bytes).unwrap();
    let mut total = 0;
    loop {
        let mut dst = int_mut(vec![0i32; 4], Spec::new(2, 2));
        let n = sound.write(&mut dst);
        if n == 0 {
            break;
        }
        total += n;
        assert!(total < 1000);
    }
    assert_eq!(total, 2);
}

#[test]
fn wav_accepts_a_seek_to_the_start() {
    let bytes = wav_stereo(&[(5, 6), (7, 8)]);
    let mut sound = open_sound(bytes).unwrap();
    let mut dst = int_mut(vec![0i32; 4], Spec::new(2, 2));
    assert_eq!(sound.write(&mut dst), 2);
    assert!(sound.rewind());
}

#[test]
fn garbage_bytes_are_an_unsupported_container() {
    let e = match open_sound(vec![0x13, 0x57, 0x9b, 0xdf, 0x00, 0x01, 0x02]) {
        Err(e) => e,
        Ok(_) => panic!("garbage opened as a sound"),
    };
    assert!(matches!(e, SoundError::Unsupported));
    assert_eq!(e.message(), "unsupported media container");
    assert_eq!(SoundError::Invalid.message(), "invalid media container");
}

#[test]
fn playlist_of_sounds_plays_through_the_factory() {
    let mut f: Factory<Sound> = Factory::new();
    f.push(open_sound(wav_stereo(&[(100, 100), (200, 200)])).unwrap());
    assert_eq!(f.count(), 1);
    let mut dst = int_mut(vec![0i32; 4], Spec::new(2, 2));
    assert!(!f.write_all(&mut dst));
    assert_eq!(dst.len(), 2);
    assert_eq!(
        dst.into_inner(),
        vec![100 << 16, 100 << 16, 200 << 16, 200 << 16],
    );
}

#[test]
fn callback_spec_frames_whole_frames_only() {
    let s = callback_spec(8, 2).unwrap();
    assert_eq!(s.frames(), 4);
    assert_eq!(s.channels(), 2);
    assert!(callback_spec(8, 0).is_none());
    assert!(callback_spec(1, 2).is_none());
    let s = callback_spec(7, 2).unwrap();
    assert_eq!(s.frames(), 3);
}

#[test]
fn socket_path_sits_under_the_runtime_directory() {
    let p = tape::request::socket_path("/run/user/1000");
    assert_eq!(p, "/run/user/1000/tape/tape.sock");
}

#[test]
fn only_decode_and_io_faults_are_recoverable() {
    assert!(recoverable(&CodecErrorKind::Decode));
    assert!(recoverable(&CodecErrorKind::Io));
    assert!(!recoverable(&CodecErrorKind::Seek));
    assert!(!recoverable(&CodecErrorKind::Unsupported));
    assert!(!recoverable(&CodecErrorKind::Limit));
    assert!(!recoverable(&CodecErrorKind::Reset));
    assert!(!recoverable(&CodecErrorKind::Other));
}

#[test]
fn playback_state_toggles() {
    let mut s = PlaybackState::Paused;
    assert!(matches!(s.get(), PlaybackState::Paused));
    s.set(PlaybackState::Playing);
    assert!(matches!(s.get(), PlaybackState::Playing));
}

#[test]
fn requests_carry_plain_values() {
    let reqs = vec![
        Request::Add { paths: vec!["/music/a.flac".to_string()] },
        Request::Remove { ids: vec![0, 1] },
        Request::Config { props: vec![("repeat-mode".to_string(), "track".to_string())] },
        Request::Seek { t: 5 },
        Request::Jump { pos: -1, relative: true },
        Request::Play,
        Request::Pause,
    ];
    assert_eq!(reqs.len(), 7);
    if let Request::Jump { pos, relative } = &reqs[4] {
        assert_eq!(*pos, -1);
        assert!(*relative);
    } else {
        panic!("wrong variant");
    }
}
