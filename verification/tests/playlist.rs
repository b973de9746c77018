use tape::buf::proxy::int_mut::IntMut;
use tape::buf::{Buf, BufMut, Spec};
use tape::factory::{Factory, RepeatMode, TranslateBehavior};
use tape::io::{Seek, Write};

/// A scripted track: it emits `left` frames of the constant sample `tag`,
/// then reports exhaustion; rewinding reports `rewind_ok` and refills it.
struct Stub {
    tag: i32,
    size: usize,
    left: usize,
    rewind_ok: bool,
}

impl Stub {
    fn new(tag: i32, size: usize) -> Stub {
        Stub { tag, size, left: size, rewind_ok: true }
    }

    fn balky(tag: i32, size: usize) -> Stub {
        Stub { tag, size, left: size, rewind_ok: false }
    }
}

impl Seek for Stub {
    fn sinv(&self) -> bool {
        true
    }

    fn seek(&mut self, _t: u64) -> bool {
        if self.rewind_ok {
            self.left = self.size;
        }
        self.rewind_ok
    }
}

impl Write for Stub {
    // The ghost model of the buffer is never evaluated at runtime.
    fn buffered(&self) -> tape::buf::BufView<i32> {
        unreachable!()
    }

    fn exhausted(&self) -> bool {
        self.left == 0
    }

    fn write(&mut self, dst: &mut IntMut<i32>) -> usize {
        let spec = dst.get_spec();
        let p2 = dst.len();
        let avail = spec.frames() - p2;
        let n = if self.left <= avail { self.left } else { avail };
        for i in 0..n {
            for c in 0..spec.channels() {
                dst.put(p2 + i, c, self.tag);
            }
        }
        dst.set_len(p2 + n);
        self.left -= n;
        n
    }
}

fn sink(frames: usize) -> IntMut<i32> {
    tape::buf::proxy::int_mut(vec![0i32; frames], Spec::new(frames, 1))
}

#[test]
fn new_factory_is_empty_at_zero() {
    let f: Factory<Stub> = Factory::new();
    assert_eq!(f.count(), 0);
    assert_eq!(f.pos(), 0);
    assert!(matches!(f.state().repeat_mode(), RepeatMode::Disabled));
}

#[test]
fn empty_playlist_produces_no_frames() {
    // An empty playlist yields zero frames and the fill loop terminates.
    let mut f: Factory<Stub> = Factory::new();
    let mut dst = sink(4);
    assert_eq!(f.write(&mut dst), 0);
    assert!(f.write_all(&mut dst));
    assert_eq!(dst.len(), 0);
    assert!(!f.translate(1, TranslateBehavior::Modal));
    assert!(!f.translate(1, TranslateBehavior::Free));
}

#[test]
fn select_moves_to_valid_indices_only() {
    let mut f = Factory::new();
    f.push(Stub::new(1, 2));
    f.push(Stub::new(2, 2));
    assert!(f.select(1));
    assert_eq!(f.pos(), 1);
    assert!(!f.select(5));
    assert_eq!(f.pos(), 1);
}

#[test]
fn select_fails_without_moving_when_rewind_fails() {
    let mut f = Factory::new();
    f.push(Stub::new(1, 2));
    f.push(Stub::balky(2, 2));
    assert!(!f.select(1));
    assert_eq!(f.pos(), 0);
}

#[test]
fn free_translation_wraps_forward() {
    // A relative jump by k lands on (pos + k) mod len while pos + k stays
    // non-negative.
    let mut f = Factory::new();
    f.push(Stub::new(1, 2));
    f.push(Stub::new(2, 2));
    f.push(Stub::new(3, 2));
    assert!(f.translate(4, TranslateBehavior::Free));
    assert_eq!(f.pos(), 1);
    assert!(f.translate(2, TranslateBehavior::Free));
    assert_eq!(f.pos(), 0);
}

#[test]
fn free_translation_backward_wraps_euclidean() {
    // Stepping back from the first track lands on the last one:
    // ((0 - 1) mod 3 + 3) mod 3 == 2.
    let mut f = Factory::new();
    f.push(Stub::new(1, 2));
    f.push(Stub::new(2, 2));
    f.push(Stub::new(3, 2));
    assert!(f.translate(-1, TranslateBehavior::Free));
    assert_eq!(f.pos(), 2);
    assert!(f.translate(-7, TranslateBehavior::Free));
    assert_eq!(f.pos(), 1);
}

#[test]
fn modal_translation_refused_at_end_under_disabled() {
    // Disabled repeat at the last track: a forward step returns false and
    // the cursor stays.
    let mut f = Factory::new();
    f.push(Stub::new(1, 2));
    f.push(Stub::new(2, 2));
    assert!(f.select(1));
    assert!(!f.translate(1, TranslateBehavior::Modal));
    assert_eq!(f.pos(), 1);
}

#[test]
fn modal_translation_steps_forward_under_disabled() {
    let mut f = Factory::new();
    f.push(Stub::new(1, 2));
    f.push(Stub::new(2, 2));
    assert!(f.translate(1, TranslateBehavior::Modal));
    assert_eq!(f.pos(), 1);
}

#[test]
fn modal_translation_stays_put_under_track_repeat() {
    let mut f = Factory::new();
    f.push(Stub::new(1, 2));
    f.push(Stub::new(2, 2));
    let props = vec![("repeat-mode".to_string(), "track".to_string())];
    assert!(f.config(&props));
    assert!(f.translate(1, TranslateBehavior::Modal));
    assert_eq!(f.pos(), 0);
}

#[test]
fn modal_translation_wraps_under_playlist_repeat() {
    let mut f = Factory::new();
    f.push(Stub::new(1, 2));
    f.push(Stub::new(2, 2));
    let props = vec![("repeat-mode".to_string(), "playlist".to_string())];
    assert!(f.config(&props));
    assert!(f.select(1));
    assert!(f.translate(1, TranslateBehavior::Modal));
    assert_eq!(f.pos(), 0);
}

#[test]
fn seek_advances_when_the_reader_reports_the_flag() {
    let mut f = Factory::new();
    f.push(Stub::new(1, 2));
    f.push(Stub::new(2, 2));
    f.seek(5);
    assert_eq!(f.pos(), 1);
}

#[test]
fn seek_leaves_the_cursor_when_the_flag_is_off() {
    let mut f = Factory::new();
    f.push(Stub::balky(1, 2));
    f.push(Stub::new(2, 2));
    f.seek(5);
    assert_eq!(f.pos(), 0);
}

#[test]
fn remove_applies_ids_with_a_running_offset() {
    // The ids address the playlist as it was before the request: removing
    // [0, 1] deletes the first two tracks, not the first and the last.
    let mut f = Factory::new();
    f.push(Stub::new(1, 4));
    f.push(Stub::new(2, 4));
    f.push(Stub::new(3, 4));
    f.remove(&vec![0, 1]);
    assert_eq!(f.count(), 1);
    // The remaining track is the third one: its tag shows in the samples.
    assert!(f.select(0));
    let mut dst = sink(2);
    assert_eq!(f.write(&mut dst), 2);
    assert_eq!(dst.into_inner(), vec![3, 3]);
}

#[test]
fn remove_skips_out_of_range_ids() {
    let mut f = Factory::new();
    f.push(Stub::new(1, 4));
    f.push(Stub::new(2, 4));
    f.remove(&vec![7, 1]);
    assert_eq!(f.count(), 1);
    assert!(f.select(0));
    let mut dst = sink(2);
    assert_eq!(f.write(&mut dst), 2);
    assert_eq!(dst.into_inner(), vec![1, 1]);
}

#[test]
fn remove_twice_is_a_noop_when_ids_fall_off_the_end() {
    // Once every id lies past what the first application left, the same
    // literal ids remove nothing more.
    let mut f = Factory::new();
    f.push(Stub::new(1, 4));
    f.push(Stub::new(2, 4));
    f.push(Stub::new(3, 4));
    f.remove(&vec![2]);
    assert_eq!(f.count(), 2);
    f.remove(&vec![2]);
    assert_eq!(f.count(), 2);
}

#[test]
fn remove_everything_leaves_a_quiet_playlist() {
    let mut f = Factory::new();
    f.push(Stub::new(1, 4));
    f.push(Stub::new(2, 4));
    f.remove(&vec![0, 1]);
    assert_eq!(f.count(), 0);
    let mut dst = sink(4);
    assert!(f.write_all(&mut dst));
    assert_eq!(dst.len(), 0);
}

#[test]
fn removing_past_the_cursor_clamps_it_into_range() {
    // Deleting the current last track pulls the cursor back onto the last
    // remaining item, so it always names a real item.
    let mut f = Factory::new();
    f.push(Stub::new(1, 4));
    f.push(Stub::new(2, 4));
    f.push(Stub::new(3, 4));
    assert!(f.select(2));
    f.remove(&vec![1, 2]);
    assert_eq!(f.count(), 1);
    assert_eq!(f.pos(), 0);
    f.remove(&vec![0]);
    assert_eq!(f.count(), 0);
    assert_eq!(f.pos(), 0);
}

#[test]
fn removing_the_current_track_does_not_rewind_the_next() {
    // After the clamp, the now-current track plays on from wherever its
    // own cursor was: the remove rewinds nothing.
    let mut f = Factory::new();
    f.push(Stub::new(1, 4));
    f.push(Stub::new(2, 4));
    let mut dst = sink(2);
    assert_eq!(f.write(&mut dst), 2);
    assert!(f.select(1));
    f.remove(&vec![1]);
    assert_eq!(f.pos(), 0);
    let mut dst2 = sink(4);
    assert_eq!(f.write(&mut dst2), 2);
    assert_eq!(dst2.len(), 2);
}

#[test]
fn config_ignores_unknown_keys() {
    let mut f: Factory<Stub> = Factory::new();
    let props = vec![("volume".to_string(), "11".to_string())];
    assert!(f.config(&props));
    assert!(matches!(f.state().repeat_mode(), RepeatMode::Disabled));
}

#[test]
fn config_rejects_an_unknown_repeat_mode() {
    let mut f: Factory<Stub> = Factory::new();
    let props = vec![("repeat-mode".to_string(), "sideways".to_string())];
    assert!(!f.config(&props));
    assert!(matches!(f.state().repeat_mode(), RepeatMode::Disabled));
}

#[test]
fn config_takes_the_last_value_for_a_key() {
    let mut f: Factory<Stub> = Factory::new();
    let props = vec![
        ("repeat-mode".to_string(), "sideways".to_string()),
        ("repeat-mode".to_string(), "playlist".to_string()),
    ];
    assert!(f.config(&props));
    assert!(matches!(f.state().repeat_mode(), RepeatMode::Playlist));
}

#[test]
fn jump_relative_wraps_and_absolute_selects() {
    let mut f = Factory::new();
    f.push(Stub::new(1, 2));
    f.push(Stub::new(2, 2));
    f.push(Stub::new(3, 2));
    assert!(f.jump(1, true));
    assert_eq!(f.pos(), 1);
    assert!(f.jump(-2, true));
    assert_eq!(f.pos(), 2);
    assert!(f.jump(2, false));
    assert_eq!(f.pos(), 2);
    assert!(!f.jump(-3, false));
    assert_eq!(f.pos(), 2);
    assert!(!f.jump(9, false));
    assert_eq!(f.pos(), 2);
}

#[test]
fn write_auto_advances_at_track_end() {
    // A zero return from the current track advances the playhead; the next
    // call reads the new current track.
    let mut f = Factory::new();
    f.push(Stub::new(1, 2));
    f.push(Stub::new(2, 4));
    let mut dst = sink(4);
    assert_eq!(f.write(&mut dst), 2);
    assert_eq!(f.pos(), 0);
    assert_eq!(f.write(&mut dst), 0);
    assert_eq!(f.pos(), 1);
    let mut dst2 = sink(4);
    assert_eq!(f.write(&mut dst2), 4);
    assert_eq!(dst2.into_inner(), vec![2, 2, 2, 2]);
}

#[test]
fn factory_default_is_a_fresh_playlist() {
    let f: Factory<Stub> = Factory::default();
    assert_eq!(f.count(), 0);
    assert_eq!(f.pos(), 0);
    assert!(matches!(f.state().repeat_mode(), RepeatMode::Disabled));
}

#[test]
fn replace_swaps_the_whole_state() {
    let mut s = tape::factory::FactoryState::default();
    let mut other = tape::factory::FactoryState::default();
    other.set_repeat_mode(RepeatMode::Track);
    let prev = s.replace(other);
    assert!(matches!(prev.repeat_mode(), RepeatMode::Disabled));
    assert!(matches!(s.repeat_mode(), RepeatMode::Track));
    let mut m = s.repeat_mode();
    m.set(RepeatMode::Playlist);
    assert!(matches!(m.get(), RepeatMode::Playlist));
}
