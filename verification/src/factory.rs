use vstd::prelude::*;

use crate::buf::proxy::int_mut::IntMut;
use crate::buf::Buf;
use crate::io::{Seek, Write};

verus! {

/// The policy for how the playhead moves at a track boundary.
#[derive(Clone, Copy, PartialEq, Eq, Structural)]
pub enum RepeatMode {
    Disabled,
    Track,
    Playlist,
}

impl RepeatMode {
    pub fn get(&self) -> (m: RepeatMode)
        ensures
            m == *self,
    {
        *self
    }

    pub fn set(&mut self, repeat_mode: RepeatMode)
        ensures
            *final(self) == repeat_mode,
    {
        *self = repeat_mode;
    }
}

/// How a cursor translation interprets the repeat mode: `Free` always wraps
/// (the user-initiated relative jump), `Modal` follows the configured mode
/// (automatic end-of-track advancement).
#[derive(Clone, Copy)]
pub enum TranslateBehavior {
    Free,
    Modal,
}

/// The runtime-configurable playback state: the repeat mode.
#[derive(Clone, Copy)]
pub struct FactoryState {
    repeat_mode: RepeatMode,
}

impl FactoryState {
    /// The repeat mode, for use in specifications.
    pub closed spec fn spec_repeat_mode(&self) -> RepeatMode {
        self.repeat_mode
    }

    #[verifier::when_used_as_spec(spec_repeat_mode)]
    pub fn repeat_mode(&self) -> (m: RepeatMode)
        ensures
            m == self.spec_repeat_mode(),
    {
        self.repeat_mode
    }

    pub fn set_repeat_mode(&mut self, m: RepeatMode)
        ensures
            final(self).spec_repeat_mode() == m,
    {
        self.repeat_mode = m;
    }

    /// Swap in a whole new state and hand back the one it replaces.
    pub fn replace(&mut self, src: FactoryState) -> (prev: FactoryState)
        ensures
            *final(self) == src,
            prev == *old(self),
    {
        let prev = *self;
        *self = src;
        prev
    }
}

impl Default for FactoryState {
    fn default() -> (s: FactoryState)
        ensures
            s.spec_repeat_mode() == RepeatMode::Disabled,
    {
        FactoryState { repeat_mode: RepeatMode::Disabled }
    }
}

/// The repeat mode a configuration value names, if any; the wire values are
/// the kebab-cased mode names.
pub open spec fn parse_repeat_mode(v: Seq<char>) -> Option<RepeatMode> {
    if v == "disabled"@ {
        Some(RepeatMode::Disabled)
    } else if v == "track"@ {
        Some(RepeatMode::Track)
    } else if v == "playlist"@ {
        Some(RepeatMode::Playlist)
    } else {
        None
    }
}

/// The last value paired with `key` among the property pairs, if any.
pub open spec fn last_value(props: Seq<(String, String)>, key: Seq<char>) -> Option<Seq<char>>
    decreases props.len(),
{
    if props.len() == 0 {
        None
    } else if props.last().0@ == key {
        Some(props.last().1@)
    } else {
        last_value(props.drop_last(), key)
    }
}

/// What a configuration request makes of the repeat mode: unknown keys are
/// ignored, the last `repeat-mode` value wins, and an unrecognized value
/// fails the whole request (`None`).
pub open spec fn config_result(m0: RepeatMode, props: Seq<(String, String)>) -> Option<
    RepeatMode,
> {
    match last_value(props, "repeat-mode"@) {
        None => Some(m0),
        Some(v) => parse_repeat_mode(v),
    }
}

/// The repeat mode named by a configuration value, if any.
pub fn parse_repeat_mode_value(v: &String) -> (r: Option<RepeatMode>)
    ensures
        r == parse_repeat_mode(v@),
{
    if *v == "disabled".to_owned() {
        Some(RepeatMode::Disabled)
    } else if *v == "track".to_owned() {
        Some(RepeatMode::Track)
    } else if *v == "playlist".to_owned() {
        Some(RepeatMode::Playlist)
    } else {
        None
    }
}

/// The items left after a remove request: the ids address the sequence as it
/// was before the request, in the order given, so the running count `d` of
/// deletions already made is subtracted from each id; ids that then fall out
/// of range are skipped silently.
pub open spec fn remove_ids<T>(items: Seq<T>, ids: Seq<usize>, d: nat) -> Seq<T>
    decreases ids.len(),
{
    if ids.len() == 0 {
        items
    } else {
        let i = ids[0] as int;
        if i >= d && i - d < items.len() {
            remove_ids(items.remove(i - d), ids.drop_first(), d + 1)
        } else {
            remove_ids(items, ids.drop_first(), d)
        }
    }
}

/// A remove whose every id lies at or past the end of the sequence (after
/// the running offset) deletes nothing.
pub proof fn lemma_remove_ids_noop<T>(items: Seq<T>, ids: Seq<usize>, d: nat)
    requires
        forall|k: int| 0 <= k < ids.len() ==> ids[k] >= items.len() + d,
    ensures
        remove_ids(items, ids, d) == items,
    decreases ids.len(),
{
    if ids.len() > 0 {
        assert(forall|k: int|
            0 <= k < ids.drop_first().len() ==> #[trigger] ids.drop_first()[k] == ids[k + 1]);
        lemma_remove_ids_noop(items, ids.drop_first(), d);
    }
}

/// Remove-sequence idempotence: once every id lies past the end of what one
/// application leaves behind, applying the same literal ids again is a
/// no-op.
pub proof fn lemma_remove_ids_idempotent<T>(items: Seq<T>, ids: Seq<usize>)
    requires
        forall|k: int| 0 <= k < ids.len() ==> ids[k] >= remove_ids(items, ids, 0).len(),
    ensures
        remove_ids(remove_ids(items, ids, 0), ids, 0) == remove_ids(items, ids, 0),
{
    lemma_remove_ids_noop(remove_ids(items, ids, 0), ids, 0);
}

/// Saturating addition of a signed step to an unsigned cursor, clamped at
/// both ends of the usize range.
pub open spec fn sat_target(pos: usize, delta: isize) -> int {
    if pos + delta < 0 {
        0
    } else if pos + delta > usize::MAX {
        usize::MAX as int
    } else {
        pos + delta
    }
}

fn sat_add_signed(pos: usize, delta: isize) -> (r: usize)
    ensures
        r as int == sat_target(pos, delta),
{
    if delta >= 0 {
        let d = delta as usize;
        if pos <= usize::MAX - d {
            pos + d
        } else {
            usize::MAX
        }
    } else {
        let m: usize = if delta == isize::MIN {
            (isize::MAX as usize) + 1
        } else {
            (-delta) as usize
        };
        if pos >= m {
            pos - m
        } else {
            0
        }
    }
}

/// The repeat mode a translation runs under: `Free` always wraps.
pub open spec fn effective_mode(m: RepeatMode, b: TranslateBehavior) -> RepeatMode {
    match b {
        TranslateBehavior::Free => RepeatMode::Playlist,
        TranslateBehavior::Modal => m,
    }
}

/// The index a translation aims at: clamped under `Disabled`, unchanged
/// under `Track`, wrapped into range under `Playlist` — the Euclidean
/// remainder of `pos + delta` by the length, whatever the sign of the sum.
pub open spec fn translate_target(m: RepeatMode, pos: usize, len: usize, delta: isize) -> int {
    match m {
        RepeatMode::Disabled => sat_target(pos, delta),
        RepeatMode::Track => pos as int,
        RepeatMode::Playlist => (pos + delta) % (len as int),
    }
}

/// The Euclidean wrap of `pos + delta` into `[0, len)`.
fn wrap_index(pos: usize, delta: isize, len: usize) -> (t: usize)
    requires
        len > 0,
    ensures
        t as int == (pos + delta) % (len as int),
        t < len,
{
    let l = len;
    let a = pos % l;
    if delta >= 0 {
        let b = (delta as usize) % l;
        let t = if b == 0 {
            a
        } else if a >= l - b {
            a - (l - b)
        } else {
            a + b
        };
        proof {
            let li = l as int;
            let ai = a as int;
            let bi = b as int;
            vstd::arithmetic::div_mod::lemma_add_mod_noop(pos as int, delta as int, li);
            if bi == 0 {
                vstd::arithmetic::div_mod::lemma_small_mod(ai as nat, li as nat);
            } else if ai + bi >= li {
                vstd::arithmetic::div_mod::lemma_mod_sub_multiples_vanish(ai + bi, li);
                vstd::arithmetic::div_mod::lemma_small_mod((ai + bi - li) as nat, li as nat);
            } else {
                vstd::arithmetic::div_mod::lemma_small_mod((ai + bi) as nat, li as nat);
            }
        }
        t
    } else {
        let m: usize = if delta == isize::MIN {
            (isize::MAX as usize) + 1
        } else {
            (-delta) as usize
        };
        let b = m % l;
        let t = if b == 0 {
            a
        } else if a >= b {
            a - b
        } else {
            a + (l - b)
        };
        proof {
            let li = l as int;
            let ai = a as int;
            let bi = b as int;
            assert(m as int == -(delta as int));
            vstd::arithmetic::div_mod::lemma_sub_mod_noop(pos as int, m as int, li);
            if bi == 0 {
                vstd::arithmetic::div_mod::lemma_small_mod(ai as nat, li as nat);
            } else if ai >= bi {
                vstd::arithmetic::div_mod::lemma_small_mod((ai - bi) as nat, li as nat);
            } else {
                vstd::arithmetic::div_mod::lemma_mod_add_multiples_vanish(ai - bi, li);
                vstd::arithmetic::div_mod::lemma_small_mod((ai - bi + li) as nat, li as nat);
            }
        }
        t
    }
}

/// Whether a `Modal` translation is allowed to move at all.
pub open spec fn can_translate_spec(m: RepeatMode, pos: int, len: int, delta: int) -> bool {
    ||| !(m is Disabled)
    ||| pos > 0 && pos != len - 1
    ||| pos < len && pos != 0
    ||| pos == 0 && delta > 0
    ||| pos == len - 1 && delta < 0
}

/// The playlist: an ordered sequence of sounds, the current-track cursor,
/// and the repeat-mode state.
pub struct Factory<T> {
    items: Vec<T>,
    state: FactoryState,
    pos: usize,
}

impl<T> Factory<T> {
    pub closed spec fn spec_items(&self) -> Seq<T> {
        self.items@
    }

    pub closed spec fn spec_pos(&self) -> usize {
        self.pos
    }

    pub closed spec fn spec_state(&self) -> FactoryState {
        self.state
    }

    /// The cursor names a real item whenever the playlist is non-empty, and
    /// rests at zero when it is empty. Every operation keeps this; a remove
    /// request that deletes past the cursor clamps it back onto the last
    /// remaining item.
    pub open spec fn cursor_ok(&self) -> bool {
        &&& self.spec_items().len() > 0 ==> self.spec_pos() < self.spec_items().len()
        &&& self.spec_items().len() == 0 ==> self.spec_pos() == 0
    }

    pub fn new() -> (f: Factory<T>)
        ensures
            f.spec_items().len() == 0,
            f.spec_pos() == 0,
            f.spec_state().spec_repeat_mode() == RepeatMode::Disabled,
            f.cursor_ok(),
    {
        Factory { items: Vec::new(), state: FactoryState::default(), pos: 0 }
    }

    /// The current-track index.
    pub fn pos(&self) -> (p: usize)
        ensures
            p == self.spec_pos(),
    {
        self.pos
    }

    /// How many items the playlist holds.
    pub fn count(&self) -> (n: usize)
        ensures
            n == self.spec_items().len(),
    {
        self.items.len()
    }

    /// A read-only borrow of the configuration state.
    pub fn state(&self) -> (s: &FactoryState)
        ensures
            *s == self.spec_state(),
    {
        &self.state
    }

    /// Apply a configuration request. Returns false, changing nothing, when
    /// the request names an unrecognized repeat mode.
    pub fn config(&mut self, props: &Vec<(String, String)>) -> (ok: bool)
        ensures
            final(self).spec_items() == old(self).spec_items(),
            final(self).spec_pos() == old(self).spec_pos(),
            match config_result(old(self).spec_state().spec_repeat_mode(), props@) {
                Some(m) => ok && final(self).spec_state().spec_repeat_mode() == m,
                None => !ok && final(self).spec_state() == old(self).spec_state(),
            },
    {
        let key = "repeat-mode".to_owned();
        let mut found: Option<String> = None;
        let mut k: usize = 0;
        while k < props.len()
            invariant
                k <= props@.len(),
                key@ == "repeat-mode"@,
                (match found {
                    None => last_value(props@.take(k as int), "repeat-mode"@) is None,
                    Some(v) => last_value(props@.take(k as int), "repeat-mode"@) == Some(v@),
                }),
            decreases props@.len() - k,
        {
            let p = &props[k];
            proof {
                assert(props@.take(k + 1).drop_last() =~= props@.take(k as int));
                assert(props@.take(k + 1).last() == props@[k as int]);
            }
            if p.0 == key {
                found = Some(p.1.clone());
            }
            k += 1;
        }
        proof {
            assert(props@.take(props@.len() as int) =~= props@);
        }
        match found {
            None => true,
            Some(v) => {
                match parse_repeat_mode_value(&v) {
                    Some(m) => {
                        self.state.set_repeat_mode(m);
                        true
                    }
                    None => false,
                }
            }
        }
    }
}

impl<T> Default for Factory<T> {
    fn default() -> (f: Factory<T>)
        ensures
            f.spec_items().len() == 0,
            f.spec_pos() == 0,
            f.spec_state().spec_repeat_mode() == RepeatMode::Disabled,
            f.cursor_ok(),
    {
        Factory::new()
    }
}

impl<T: Seek> Factory<T> {
    /// Every item keeps its own invariant.
    pub open spec fn items_ok(&self) -> bool {
        forall|i: int|
            0 <= i < self.spec_items().len() ==> (#[trigger] self.spec_items()[i]).sinv()
    }

    /// Append a sound at the end of the playlist.
    pub fn push(&mut self, item: T)
        ensures
            final(self).spec_items() == old(self).spec_items().push(item),
            final(self).spec_pos() == old(self).spec_pos(),
            final(self).spec_state() == old(self).spec_state(),
            old(self).cursor_ok() ==> final(self).cursor_ok(),
            old(self).items_ok() && item.sinv() ==> final(self).items_ok(),
    {
        let ghost it = item;
        self.items.push(item);
        proof {
            if old(self).items_ok() && it.sinv() {
                assert forall|i: int|
                    0 <= i < self.spec_items().len() implies (#[trigger] self.spec_items()[i]).sinv()
                by {
                    if i < old(self).spec_items().len() {
                        assert(self.spec_items()[i] == old(self).spec_items()[i]);
                    } else {
                        assert(self.spec_items()[i] == it);
                    }
                }
            }
        }
    }

    /// Rewind the item at `idx`; iff that succeeds, make `idx` the current
    /// position. An out-of-range `idx` fails without side effect.
    pub fn select(&mut self, pos: usize) -> (r: bool)
        requires
            old(self).items_ok(),
        ensures
            final(self).items_ok(),
            final(self).spec_items().len() == old(self).spec_items().len(),
            final(self).spec_state() == old(self).spec_state(),
            forall|j: int|
                0 <= j < old(self).spec_items().len() && j != pos ==> final(self).spec_items()[j]
                    == old(self).spec_items()[j],
            r ==> pos < old(self).spec_items().len() && final(self).spec_pos() == pos,
            !r ==> final(self).spec_pos() == old(self).spec_pos(),
            pos >= old(self).spec_items().len() ==> !r && final(self).spec_items() == old(self).spec_items(),
            old(self).cursor_ok() ==> final(self).cursor_ok(),
    {
        if pos < self.items.len() {
            let item = &mut self.items[pos];
            let ok = item.rewind();
            proof {
                assert forall|i: int|
                    0 <= i < self.spec_items().len() implies (#[trigger] self.spec_items()[i]).sinv()
                by {
                    if i != pos {
                        assert(self.spec_items()[i] == old(self).spec_items()[i]);
                    }
                }
            }
            if !ok {
                return false;
            }
            self.pos = pos;
            true
        } else {
            false
        }
    }

    /// Whether a `Modal` translation by `delta` may move the cursor under
    /// the configured repeat mode.
    pub fn can_translate(&self, delta: isize) -> (r: bool)
        ensures
            r == can_translate_spec(
                self.spec_state().spec_repeat_mode(),
                self.spec_pos() as int,
                self.spec_items().len() as int,
                delta as int,
            ),
    {
        let m = self.state.repeat_mode();
        let pos = self.pos;
        let len = self.items.len();
        !matches!(m, RepeatMode::Disabled) || pos > 0 && (len == 0 || pos != len - 1) || pos < len
            && pos != 0 || pos == 0 && delta > 0 || (len > 0 && pos == len - 1 && delta < 0)
    }

    /// Move the cursor by `delta` under the repeat-mode policy and select
    /// the target track, rewinding it; report whether a track was selected.
    pub fn translate(&mut self, delta: isize, behavior: TranslateBehavior) -> (r: bool)
        requires
            old(self).items_ok(),
        ensures
            final(self).items_ok(),
            final(self).spec_items().len() == old(self).spec_items().len(),
            final(self).spec_state() == old(self).spec_state(),
            old(self).cursor_ok() ==> final(self).cursor_ok(),
            !r ==> final(self).spec_pos() == old(self).spec_pos(),
            old(self).spec_items().len() == 0 ==> !r && final(self).spec_items() == old(self).spec_items(),
            (behavior is Modal && old(self).spec_items().len() > 0 && !can_translate_spec(
                old(self).spec_state().spec_repeat_mode(),
                old(self).spec_pos() as int,
                old(self).spec_items().len() as int,
                delta as int,
            )) ==> !r && final(self).spec_items() == old(self).spec_items(),
            (old(self).spec_items().len() > 0 && (behavior is Free || can_translate_spec(
                old(self).spec_state().spec_repeat_mode(),
                old(self).spec_pos() as int,
                old(self).spec_items().len() as int,
                delta as int,
            ))) ==> {
                let t = translate_target(
                    effective_mode(old(self).spec_state().spec_repeat_mode(), behavior),
                    old(self).spec_pos(),
                    old(self).spec_items().len() as usize,
                    delta,
                );
                &&& (r ==> final(self).spec_pos() == t && t < old(self).spec_items().len())
                &&& forall|j: int|
                    0 <= j < old(self).spec_items().len() && j != t ==> final(self).spec_items()[j] == old(self).spec_items()[j]
            },
            // Under Disabled repeat at the last track, a forward Modal step
            // is refused and the cursor stays put.
            (behavior is Modal && old(self).spec_items().len() > 0 && old(self).spec_state().spec_repeat_mode() is Disabled && old(self).spec_pos() == old(self).spec_items().len() - 1 && delta > 0) ==> !r && final(self).spec_pos() == old(self).spec_pos(),
            // A Free translation lands on the wrapped index
            // ((pos + delta) mod len + len) mod len.
            (behavior is Free && old(self).spec_items().len() > 0 && r) ==> final(self).spec_pos()
                == ((old(self).spec_pos() + delta) % (old(self).spec_items().len() as int) + old(self).spec_items().len()) % (old(self).spec_items().len() as int),
    {
        if self.items.len() == 0 {
            return false;
        }
        let repeat_mode = match behavior {
            TranslateBehavior::Free => RepeatMode::Playlist,
            TranslateBehavior::Modal => {
                if self.can_translate(delta) {
                    self.state.repeat_mode()
                } else {
                    return false;
                }
            }
        };
        let len = self.items.len();
        let pos = self.pos;
        let new_pos = match repeat_mode {
            RepeatMode::Disabled => sat_add_signed(pos, delta),
            RepeatMode::Track => pos,
            RepeatMode::Playlist => wrap_index(pos, delta, len),
        };
        proof {
            let li = len as int;
            let x = pos + delta;
            vstd::arithmetic::div_mod::lemma_mod_division_less_than_divisor(x, li);
            vstd::arithmetic::div_mod::lemma_mod_add_multiples_vanish(x % li, li);
            vstd::arithmetic::div_mod::lemma_small_mod((x % li) as nat, li as nat);
        }
        self.select(new_pos)
    }

    /// Seek the current track to `ts` seconds. When the underlying reader
    /// reports the flag, advance to the next track under the configured
    /// repeat mode.
    pub fn seek(&mut self, ts: u64)
        requires
            old(self).items_ok(),
        ensures
            final(self).items_ok(),
            final(self).spec_items().len() == old(self).spec_items().len(),
            final(self).spec_state() == old(self).spec_state(),
            old(self).cursor_ok() ==> final(self).cursor_ok(),
            // a cursor past the end seeks nothing and changes nothing
            old(self).spec_pos() >= old(self).spec_items().len() ==> final(self).spec_pos()
                == old(self).spec_pos() && final(self).spec_items() == old(self).spec_items(),
            // otherwise the cursor stays, or — when the reader reported the
            // flag — moves exactly per a Modal step of one
            old(self).spec_pos() < old(self).spec_items().len() ==> {
                let t = translate_target(
                    old(self).spec_state().spec_repeat_mode(),
                    old(self).spec_pos(),
                    old(self).spec_items().len() as usize,
                    1,
                );
                &&& (final(self).spec_pos() == old(self).spec_pos() || (can_translate_spec(
                    old(self).spec_state().spec_repeat_mode(),
                    old(self).spec_pos() as int,
                    old(self).spec_items().len() as int,
                    1,
                ) && final(self).spec_pos() == t && t < old(self).spec_items().len()))
                &&& (!can_translate_spec(
                    old(self).spec_state().spec_repeat_mode(),
                    old(self).spec_pos() as int,
                    old(self).spec_items().len() as int,
                    1,
                ) ==> final(self).spec_pos() == old(self).spec_pos())
                &&& forall|j: int|
                    0 <= j < old(self).spec_items().len() && j != old(self).spec_pos() && j != t
                        ==> final(self).spec_items()[j] == old(self).spec_items()[j]
            },
    {
        let pos = self.pos;
        if pos >= self.items.len() {
            return;
        }
        let flag = {
            proof {
                assert(self.spec_items()[pos as int].sinv());
            }
            let item = &mut self.items[pos];
            item.seek(ts)
        };
        proof {
            assert forall|i: int|
                0 <= i < self.spec_items().len() implies (#[trigger] self.spec_items()[i]).sinv()
            by {
                if i != pos {
                    assert(self.spec_items()[i] == old(self).spec_items()[i]);
                }
            }
        }
        if flag {
            let _ = self.translate(1, TranslateBehavior::Modal);
        }
    }

    /// Apply a remove request: each id addresses the playlist as it was
    /// before the request, so a running deletion offset is kept; ids out of
    /// range are skipped. When the deletions leave the cursor past the end,
    /// it is clamped onto the last remaining item (without rewinding it), so
    /// the cursor stays in range.
    pub fn remove(&mut self, ids: &Vec<usize>)
        ensures
            final(self).spec_items() == remove_ids(old(self).spec_items(), ids@, 0),
            final(self).spec_state() == old(self).spec_state(),
            final(self).cursor_ok(),
            final(self).spec_pos() as int == (if final(self).spec_items().len() == 0 {
                0int
            } else if old(self).spec_pos() < final(self).spec_items().len() {
                old(self).spec_pos() as int
            } else {
                final(self).spec_items().len() - 1
            }),
            old(self).items_ok() ==> final(self).items_ok(),
    {
        proof {
            assert(ids@.skip(0) =~= ids@);
        }
        let mut d: usize = 0;
        let mut k: usize = 0;
        while k < ids.len()
            invariant
                k <= ids@.len(),
                d <= k,
                remove_ids(old(self).spec_items(), ids@, 0) == remove_ids(
                    self.spec_items(),
                    ids@.skip(k as int),
                    d as nat,
                ),
                self.spec_pos() == old(self).spec_pos(),
                self.spec_state() == old(self).spec_state(),
                old(self).items_ok() ==> self.items_ok(),
            decreases ids@.len() - k,
        {
            proof {
                assert(ids@.skip(k as int)[0] == ids@[k as int]);
                assert(ids@.skip(k as int).drop_first() =~= ids@.skip(k + 1));
            }
            let i = ids[k];
            if i >= d {
                let j = i - d;
                if j < self.items.len() {
                    let ghost prev = self.spec_items();
                    let _ = self.items.remove(j);
                    proof {
                        if old(self).items_ok() {
                            assert forall|q: int|
                                0 <= q < self.spec_items().len() implies (#[trigger] self.spec_items()[q]).sinv()
                            by {
                                assert(self.spec_items()[q] == prev.remove(j as int)[q]);
                            }
                        }
                    }
                    d += 1;
                }
            }
            k += 1;
        }
        proof {
            assert(ids@.skip(ids@.len() as int) =~= Seq::<usize>::empty());
        }
        if self.items.len() == 0 {
            self.pos = 0;
        } else if self.pos >= self.items.len() {
            self.pos = self.items.len() - 1;
        }
    }

    /// Apply a jump request: a relative jump always wraps; an absolute jump
    /// selects the index, and a negative absolute index is ignored.
    pub fn jump(&mut self, pos: isize, relative: bool) -> (r: bool)
        requires
            old(self).items_ok(),
        ensures
            final(self).items_ok(),
            final(self).spec_items().len() == old(self).spec_items().len(),
            final(self).spec_state() == old(self).spec_state(),
            old(self).cursor_ok() ==> final(self).cursor_ok(),
            !r ==> final(self).spec_pos() == old(self).spec_pos(),
            !relative && pos < 0 ==> !r && final(self).spec_items() == old(self).spec_items(),
            !relative && pos >= 0 && r ==> final(self).spec_pos() == pos,
            !relative && pos >= old(self).spec_items().len() ==> !r && final(self).spec_items()
                == old(self).spec_items(),
            relative && old(self).spec_items().len() == 0 ==> !r && final(self).spec_items()
                == old(self).spec_items(),
            relative && old(self).spec_items().len() > 0 && r ==> final(self).spec_pos()
                == translate_target(
                RepeatMode::Playlist,
                old(self).spec_pos(),
                old(self).spec_items().len() as usize,
                pos,
            ),
    {
        if relative {
            self.translate(pos, TranslateBehavior::Free)
        } else if pos >= 0 {
            self.select(pos as usize)
        } else {
            false
        }
    }
}

impl<T: Write> Factory<T> {
    /// Pull frames from the current track into `dst`. A zero return means
    /// the track is exhausted; the playhead then advances under the
    /// configured repeat mode, and the next call reads the new track.
    pub fn write(&mut self, dst: &mut IntMut<i32>) -> (n: usize)
        requires
            old(self).items_ok(),
            old(dst).inv(),
        ensures
            final(self).items_ok(),
            final(self).spec_items().len() == old(self).spec_items().len(),
            final(self).spec_state() == old(self).spec_state(),
            old(self).cursor_ok() ==> final(self).cursor_ok(),
            final(dst).inv(),
            final(dst).view().channels == old(dst).view().channels,
            final(dst).view().samples.len() == old(dst).view().samples.len(),
            final(dst).view().pos == old(dst).view().pos,
            old(dst).view().len + n <= old(dst).view().frames(),
            final(dst).view().len == old(dst).view().len + n,
            forall|j: int|
                0 <= j < old(dst).view().frames() && !(old(dst).view().len <= j < old(dst).view().len + n) ==> final(dst).view().samples[j] == old(dst).view().samples[j],
            // a pull that produced frames does not move the playhead
            n > 0 ==> final(self).spec_pos() == old(self).spec_pos(),
            // a current track with unread buffered frames must produce
            (old(self).spec_pos() < old(self).spec_items().len() && !old(self).spec_items()[old(self).spec_pos() as int].exhausted() && old(dst).view().len < old(dst).view().frames()) ==> n > 0,
            // auto-advance at track end: on a zero pull the playhead moves
            // exactly per a Modal step of one, or stays where that step is
            // refused
            (n == 0 && old(self).spec_items().len() == 0) ==> final(self).spec_pos() == old(self).spec_pos() && final(self).spec_items() == old(self).spec_items(),
            (n == 0 && old(self).spec_items().len() > 0) ==> {
                let t = translate_target(
                    old(self).spec_state().spec_repeat_mode(),
                    old(self).spec_pos(),
                    old(self).spec_items().len() as usize,
                    1,
                );
                final(self).spec_pos() == old(self).spec_pos() || (can_translate_spec(
                    old(self).spec_state().spec_repeat_mode(),
                    old(self).spec_pos() as int,
                    old(self).spec_items().len() as int,
                    1,
                ) && final(self).spec_pos() == t && t < old(self).spec_items().len())
            },
            (n == 0 && old(self).spec_items().len() > 0 && !can_translate_spec(
                old(self).spec_state().spec_repeat_mode(),
                old(self).spec_pos() as int,
                old(self).spec_items().len() as int,
                1,
            )) ==> final(self).spec_pos() == old(self).spec_pos(),
    {
        proof {
            dst.inv_wf();
        }
        let pos = self.pos;
        let mut n: usize = 0;
        if pos < self.items.len() {
            proof {
                assert(self.spec_items()[pos as int].sinv());
            }
            let item = &mut self.items[pos];
            n = item.write(dst);
            proof {
                assert forall|i: int|
                    0 <= i < self.spec_items().len() implies (#[trigger] self.spec_items()[i]).sinv()
                by {
                    if i != pos {
                        assert(self.spec_items()[i] == old(self).spec_items()[i]);
                    }
                }
            }
        }
        if n == 0 {
            let _ = self.translate(1, TranslateBehavior::Modal);
        }
        n
    }

    /// Fill `dst` from the playlist, advancing across track boundaries,
    /// until it is full or a pull produces nothing. The return reports the
    /// latter: `true` means some pull reported zero progress and the
    /// destination stopped short of full.
    pub fn write_all(&mut self, dst: &mut IntMut<i32>) -> (stalled: bool)
        requires
            old(self).items_ok(),
            old(dst).inv(),
        ensures
            final(self).items_ok(),
            final(self).spec_items().len() == old(self).spec_items().len(),
            final(self).spec_state() == old(self).spec_state(),
            old(self).cursor_ok() ==> final(self).cursor_ok(),
            final(dst).inv(),
            final(dst).view().channels == old(dst).view().channels,
            final(dst).view().samples.len() == old(dst).view().samples.len(),
            final(dst).view().pos == old(dst).view().pos,
            old(dst).view().len <= final(dst).view().len <= final(dst).view().frames(),
            forall|j: int|
                0 <= j < old(dst).view().frames() && !(old(dst).view().len <= j < final(dst).view().len) ==> final(dst).view().samples[j] == old(dst).view().samples[j],
            // the destination is full, or a pull reported zero progress
            stalled == (final(dst).view().len < final(dst).view().frames()),
            // a current track with unread buffered frames fills something
            (old(self).spec_pos() < old(self).spec_items().len() && !old(self).spec_items()[old(self).spec_pos() as int].exhausted() && old(dst).view().len < old(dst).view().frames()) ==> final(dst).view().len > old(dst).view().len,
    {
        proof {
            dst.inv_wf();
        }
        let df = dst.get_spec().frames();
        let mut filled = dst.len();
        let mut stalled = false;
        while !stalled && filled < df
            invariant
                self.items_ok(),
                dst.inv(),
                filled == dst.view().len,
                df == dst.view().frames(),
                self.spec_items().len() == old(self).spec_items().len(),
                self.spec_state() == old(self).spec_state(),
                old(self).cursor_ok() ==> self.cursor_ok(),
                dst.view().channels == old(dst).view().channels,
                dst.view().samples.len() == old(dst).view().samples.len(),
                dst.view().pos == old(dst).view().pos,
                old(dst).view().len <= filled <= df,
                stalled ==> filled < df,
                forall|j: int|
                    0 <= j < df && !(old(dst).view().len <= j < filled) ==> dst.view().samples[j]
                        == old(dst).view().samples[j],
                (old(self).spec_pos() < old(self).spec_items().len() && !old(self).spec_items()[old(self).spec_pos() as int].exhausted() && old(dst).view().len
                    < df) ==> filled > old(dst).view().len || (*self == *old(self) && !stalled),
            decreases (df - filled) + if stalled {
                0int
            } else {
                1int
            },
        {
            let n = self.write(dst);
            if n == 0 {
                stalled = true;
            } else {
                filled = dst.len();
            }
        }
        proof {
            dst.inv_wf();
        }
        stalled
    }
}

} // verus!
