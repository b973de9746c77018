use tape::buf::iter::Frame;
use tape::buf::proxy::{dy, int_mut};
use tape::buf::seq_buf::SeqBuf;
use tape::buf::{Buf, BufMut, Spec};
use tape::io::{write_all_frames, write_frames};

#[test]
fn spec_reports_its_dimensions() {
    let s = Spec::new(4, 2);
    assert_eq!(s.frames(), 4);
    assert_eq!(s.channels(), 2);
}

#[test]
fn frame_yields_exactly_channels_slots() {
    // Every frame handle, the one-past-the-end sentinel included, carries
    // one slot per channel.
    let s = Spec::new(4, 3);
    let b: SeqBuf<i32> = SeqBuf::with_spec(s);
    for n in 0..=4 {
        let f = b.frame(n);
        assert_eq!(f.into_vec().len(), 3);
    }
    let mut data = vec![0i32; 12];
    data.truncate(12);
    let ib = int_mut(data, s);
    for n in 0..=4 {
        assert_eq!(ib.frame(n).into_vec().len(), 3);
    }
}

#[test]
fn planar_buffer_walks_channel_major() {
    let s = Spec::new(3, 2);
    let mut b: SeqBuf<i32> = SeqBuf::with_spec(s);
    for n in 0..3 {
        for c in 0..2 {
            b.put(n, c, (10 * c + n) as i32);
        }
    }
    assert_eq!(b.sample(0, 0), 0);
    assert_eq!(b.sample(2, 1), 12);
    assert_eq!(b.frame(1).into_vec(), vec![1, 11]);
}

#[test]
fn interleaved_buffer_walks_sample_major() {
    let s = Spec::new(3, 2);
    let b = int_mut(vec![1, 2, 3, 4, 5, 6], s);
    assert_eq!(b.sample(0, 0), 1);
    assert_eq!(b.sample(0, 1), 2);
    assert_eq!(b.sample(2, 0), 5);
    assert_eq!(b.frame(1).into_vec(), vec![3, 4]);
}

#[test]
fn planar_view_reads_per_channel_vectors() {
    let s = Spec::new(3, 2);
    let v = dy(vec![vec![1, 2, 3], vec![4, 5, 6]], s);
    assert_eq!(v.sample(0, 0), 1);
    assert_eq!(v.sample(0, 1), 4);
    assert_eq!(v.sample(2, 1), 6);
    // A planar view starts full: its fill cursor sits at the frame count.
    assert_eq!(v.len(), 3);
    assert_eq!(v.pos(), 0);
}

#[test]
fn fresh_planar_buffer_is_uniformly_silent() {
    let b: SeqBuf<i32> = SeqBuf::with_spec(Spec::new(3, 2));
    for n in 0..3 {
        for c in 0..2 {
            assert_eq!(b.sample(n, c), 0);
        }
    }
    let f: SeqBuf<f32> = SeqBuf::with_spec(Spec::new(2, 1));
    assert_eq!(f.sample(0, 0), 0.0);
    assert_eq!(f.sample(1, 0), 0.0);
}

#[test]
fn cursors_clamp_at_their_bounds() {
    let s = Spec::new(4, 1);
    let mut b: SeqBuf<i32> = SeqBuf::with_spec(s);
    assert!(b.is_empty());
    b.set_len(9);
    assert_eq!(b.len(), 4);
    b.set_pos(2);
    assert_eq!(b.pos(), 2);
    assert!(!b.is_empty());
    b.set_pos(17);
    assert_eq!(b.pos(), 4);
    b.set_len(1);
    assert_eq!(b.len(), 1);
}

#[test]
fn frame_handle_round_trips_its_storage() {
    let f = Frame::new(vec![7, 8, 9]);
    assert_eq!(f.into_raw(), vec![7, 8, 9]);
    let f = Frame::new(vec![1, 2]);
    assert_eq!(*f.get(1), 2);
    assert_eq!(f.into_vec(), vec![1, 2]);
}

#[test]
fn write_frames_copies_and_advances_cursors() {
    let s = Spec::new(3, 2);
    let src = dy(vec![vec![1, 2, 3], vec![4, 5, 6]], s);
    let mut src = src;
    let mut dst = int_mut(vec![0i32; 6], s);
    let n = write_frames(&mut src, &mut dst, |x: i32| x);
    assert_eq!(n, 3);
    assert_eq!(src.pos(), 3);
    assert_eq!(dst.len(), 3);
    assert_eq!(dst.into_inner(), vec![1, 4, 2, 5, 3, 6]);
}

#[test]
fn write_frames_converts_each_sample() {
    let s = Spec::new(2, 1);
    let mut src = dy(vec![vec![3, -4]], s);
    let mut dst = int_mut(vec![0i32; 2], s);
    let n = write_frames(&mut src, &mut dst, |x: i32| x * 2);
    assert_eq!(n, 2);
    assert_eq!(dst.into_inner(), vec![6, -8]);
}

#[test]
fn write_frames_handles_float_samples() {
    let s = Spec::new(2, 2);
    let mut src = dy(vec![vec![0.5f32, -1.0], vec![0.25, 1.0]], s);
    let mut dst = int_mut(vec![0.0f32; 4], s);
    let n = write_frames(&mut src, &mut dst, |x: f32| x);
    assert_eq!(n, 2);
    assert_eq!(dst.into_inner(), vec![0.5, 0.25, -1.0, 1.0]);
}

#[test]
fn write_all_fills_or_drains() {
    // The destination fills completely, or the source reports zero progress
    // after being drained; the fill cursor never passes the frame count.
    let short = Spec::new(2, 1);
    let long = Spec::new(5, 1);
    let mut src = dy(vec![vec![1, 2]], short);
    let mut dst = int_mut(vec![0i32; 5], long);
    write_all_frames(&mut src, &mut dst, |x: i32| x);
    assert_eq!(dst.len(), 2);
    assert_eq!(src.pos(), src.len());

    let mut src = dy(vec![vec![1, 2, 3, 4, 5]], long);
    let mut dst = int_mut(vec![0i32; 2], short);
    write_all_frames(&mut src, &mut dst, |x: i32| x);
    assert_eq!(dst.len(), 2);
    assert_eq!(dst.into_inner(), vec![1, 2]);
}

#[test]
fn round_trip_through_planar_scratch() {
    // Interleaved -> planar scratch -> interleaved reproduces the samples
    // one for one.
    let s = Spec::new(4, 2);
    let original = vec![10, 20, 11, 21, 12, 22, 13, 23];
    let mut a = int_mut(original.clone(), s);
    let mut scratch: SeqBuf<i32> = SeqBuf::with_spec(s);
    let n = write_frames(&mut a, &mut scratch, |x: i32| x);
    assert_eq!(n, 4);
    scratch.set_pos(0);
    let mut b = int_mut(vec![0i32; 8], s);
    let n = write_frames(&mut scratch, &mut b, |x: i32| x);
    assert_eq!(n, 4);
    assert_eq!(b.into_inner(), original);
}
