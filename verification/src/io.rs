use vstd::prelude::*;

use crate::buf::proxy::int_mut::IntMut;
use crate::buf::{Buf, BufMut, BufView};

verus! {

/// Time-based repositioning of a sample source. What the returned flag means
/// is up to the implementation: for a decoded sound it is the demuxer's own
/// seek flag, so nothing is promised about it here.
pub trait Seek: Sized {
    /// The invariant a source keeps across seeks.
    spec fn sinv(&self) -> bool;

    /// Request a seek to `t` seconds from the start of the source and report
    /// the underlying reader's flag.
    fn seek(&mut self, t: u64) -> (ok: bool)
        requires
            old(self).sinv(),
        ensures
            final(self).sinv(),
    ;

    /// Seek back to the start of the source.
    fn rewind(&mut self) -> (ok: bool)
        requires
            old(self).sinv(),
        ensures
            final(self).sinv(),
    {
        self.seek(0)
    }
}

/// A source of interleaved device-ready samples. One call appends whole
/// frames at the destination's fill cursor and reports how many it wrote;
/// zero signals that the source is exhausted for now.
pub trait Write: Seek {
    /// The source's buffered frames, as a planar model: what a pull copies
    /// from while any of it is unread.
    spec fn buffered(&self) -> BufView<i32>;

    /// The source holds no unread buffered frames: a pull must first obtain
    /// new ones, and reports zero when it cannot.
    spec fn exhausted(&self) -> bool;

    fn write(&mut self, dst: &mut IntMut<i32>) -> (n: usize)
        requires
            old(self).sinv(),
            old(dst).inv(),
        ensures
            final(self).sinv(),
            final(dst).inv(),
            final(dst).view().channels == old(dst).view().channels,
            final(dst).view().samples.len() == old(dst).view().samples.len(),
            final(dst).view().pos == old(dst).view().pos,
            old(dst).view().len + n <= old(dst).view().frames(),
            final(dst).view().len == old(dst).view().len + n,
            forall|j: int|
                0 <= j < old(dst).view().frames() && !(old(dst).view().len <= j < old(dst).view().len + n) ==> final(dst).view().samples[j] == old(dst).view().samples[j],
            // an empty pull on a destination with room means the source is
            // spent
            (n == 0 && old(dst).view().len < old(dst).view().frames()) ==> final(self).exhausted(),
            // a source with unread buffered frames hands exactly those out:
            // the copy length of its buffer against the destination, with
            // the buffered samples landing in the copied slots
            !old(self).exhausted() ==> {
                &&& n == copy_len(old(self).buffered(), old(dst).view())
                &&& copied_exact(old(self).buffered(), old(dst).view(), final(dst).view())
                &&& final(self).buffered().samples == old(self).buffered().samples
                &&& final(self).buffered().channels == old(self).buffered().channels
                &&& final(self).buffered().len == old(self).buffered().len
                &&& final(self).buffered().pos == (if old(self).buffered().pos + n <= old(self).buffered().len {
                    (old(self).buffered().pos + n) as nat
                } else {
                    old(self).buffered().len
                })
            },
            (!old(self).exhausted() && old(dst).view().len < old(dst).view().frames()) ==> n
                > 0,
            // a spent source that managed to refill hands out the new
            // buffer's leading frames
            (old(self).exhausted() && n != 0) ==> refilled_copy(
                final(self).buffered(),
                old(dst).view(),
                final(dst).view(),
                n as int,
            ),
    ;

    /// Repeat `write` until the destination is full or the source reports
    /// zero progress; treating the zero return as terminal is what keeps a
    /// drained source from spinning. The fill cursor never passes the frame
    /// count, and when it stops short the source is exhausted.
    fn write_all(&mut self, dst: &mut IntMut<i32>)
        requires
            old(self).sinv(),
            old(dst).inv(),
        ensures
            final(self).sinv(),
            final(dst).inv(),
            final(dst).view().channels == old(dst).view().channels,
            final(dst).view().samples.len() == old(dst).view().samples.len(),
            final(dst).view().pos == old(dst).view().pos,
            old(dst).view().len <= final(dst).view().len <= final(dst).view().frames(),
            forall|j: int|
                0 <= j < old(dst).view().frames() && !(old(dst).view().len <= j < final(dst).view().len) ==> final(dst).view().samples[j] == old(dst).view().samples[j],
            final(dst).view().len == final(dst).view().frames() || final(self).exhausted(),
            (!old(self).exhausted() && old(dst).view().len < old(dst).view().frames())
                ==> final(dst).view().len > old(dst).view().len,
    {
        proof {
            dst.inv_wf();
        }
        let df = dst.get_spec().frames();
        let mut filled = dst.len();
        let mut stalled = false;
        while !stalled && filled < df
            invariant
                self.sinv(),
                dst.inv(),
                filled == dst.view().len,
                df == dst.view().frames(),
                dst.view().channels == old(dst).view().channels,
                dst.view().samples.len() == old(dst).view().samples.len(),
                dst.view().pos == old(dst).view().pos,
                old(dst).view().len <= filled <= df,
                stalled ==> self.exhausted() && filled < df,
                forall|j: int|
                    0 <= j < df && !(old(dst).view().len <= j < filled) ==> dst.view().samples[j]
                        == old(dst).view().samples[j],
                (!old(self).exhausted() && old(dst).view().len < df) ==> filled > old(dst).view().len || (*self == *old(self) && !stalled),
            decreases (df - filled) + if stalled {
                0int
            } else {
                1int
            },
        {
            let n = self.write(dst);
            if n == 0 {
                stalled = true;
            } else {
                filled = dst.len();
            }
        }
        proof {
            dst.inv_wf();
        }
    }
}

/// How many frames one copy pass moves: the shorter of what is left of the
/// source's storage past its read cursor and of the destination's storage
/// past its fill cursor.
pub open spec fn copy_len<A, B>(sv: BufView<A>, dv: BufView<B>) -> int {
    let a = sv.frames() - sv.pos;
    let b = dv.frames() - dv.len;
    if a <= b {
        a
    } else {
        b
    }
}

/// How many channels one copy pass fills per frame: the smaller channel
/// count of the two buffers.
pub open spec fn copy_channels<A, B>(sv: BufView<A>, dv: BufView<B>) -> nat {
    if sv.channels <= dv.channels {
        sv.channels
    } else {
        dv.channels
    }
}

/// The relation `write_frames` establishes between the source model `sv`,
/// the destination model before (`dv`) and after (`nv`) the pass: every
/// copied slot holds a possible output of the conversion on the matching
/// source sample, and every other slot is untouched.
pub open spec fn frames_transferred<A, B, F: Fn(A) -> B>(
    conv: F,
    sv: BufView<A>,
    dv: BufView<B>,
    nv: BufView<B>,
) -> bool {
    let p1 = sv.pos;
    let p2 = dv.len;
    let n = copy_len(sv, dv);
    let cc = copy_channels(sv, dv);
    &&& nv.samples.len() == dv.samples.len()
    &&& nv.channels == dv.channels
    &&& nv.pos == dv.pos
    &&& nv.len == dv.len + n
    &&& forall|j: int|
        0 <= j < dv.frames() && !(p2 <= j < p2 + n) ==> nv.samples[j] == dv.samples[j]
    &&& forall|j: int, c: int|
        p2 <= j < p2 + n && 0 <= c < cc ==> call_ensures(
            conv,
            (sv.samples[j - p2 + p1][c],),
            #[trigger] nv.samples[j][c],
        )
    &&& forall|j: int, c: int|
        p2 <= j < p2 + n && cc <= c < dv.channels ==> #[trigger] nv.samples[j][c]
            == dv.samples[j][c]
}

/// The same relation for a conversion that keeps each sample: the copied
/// slots equal the matching source samples.
pub open spec fn copied_exact<T>(sv: BufView<T>, dv: BufView<T>, nv: BufView<T>) -> bool {
    let p1 = sv.pos;
    let p2 = dv.len;
    let n = copy_len(sv, dv);
    let cc = copy_channels(sv, dv);
    &&& nv.samples.len() == dv.samples.len()
    &&& nv.channels == dv.channels
    &&& nv.pos == dv.pos
    &&& nv.len == dv.len + n
    &&& forall|j: int|
        0 <= j < dv.frames() && !(p2 <= j < p2 + n) ==> nv.samples[j] == dv.samples[j]
    &&& forall|j: int, c: int|
        p2 <= j < p2 + n && 0 <= c < cc ==> #[trigger] nv.samples[j][c] == sv.samples[j - p2
            + p1][c]
    &&& forall|j: int, c: int|
        p2 <= j < p2 + n && cc <= c < dv.channels ==> #[trigger] nv.samples[j][c]
            == dv.samples[j][c]
}

/// The relation a pull establishes after refilling its buffer: the
/// destination gained the leading frames of the new buffer `src`, as many
/// as buffer and room allow.
pub open spec fn refilled_copy<T>(
    src: BufView<T>,
    dv: BufView<T>,
    nv: BufView<T>,
    n: int,
) -> bool {
    let room = dv.frames() - dv.len;
    let cc = copy_channels(src, dv);
    &&& n == if src.frames() <= room {
        src.frames() as int
    } else {
        room
    }
    &&& forall|j: int, c: int|
        dv.len <= j < dv.len + n && 0 <= c < cc ==> #[trigger] nv.samples[j][c] == src.samples[j
            - dv.len][c]
}

/// Copy frames from `src`, starting at its read cursor, into `dst`, starting
/// at its fill cursor, converting every sample with `conv`; then advance the
/// two cursors by the number of frames copied and return it.
pub fn write_frames<S: Buf, D: BufMut, F: Fn(S::Item) -> D::Item + Copy>(
    src: &mut S,
    dst: &mut D,
    conv: F,
) -> (n: usize)
    requires
        old(src).inv(),
        old(dst).inv(),
        forall|x: S::Item| call_requires(conv, (x,)),
    ensures
        final(src).inv(),
        final(dst).inv(),
        n == copy_len(old(src).view(), old(dst).view()),
        final(src).view().samples == old(src).view().samples,
        final(src).view().channels == old(src).view().channels,
        final(src).view().len == old(src).view().len,
        final(src).view().pos == if old(src).view().pos + n <= old(src).view().len {
            (old(src).view().pos + n) as nat
        } else {
            old(src).view().len
        },
        frames_transferred(conv, old(src).view(), old(dst).view(), final(dst).view()),
{
    proof {
        src.inv_wf();
        dst.inv_wf();
    }
    let sspec = src.get_spec();
    let dspec = dst.get_spec();
    let p1 = src.pos();
    let p2 = dst.len();
    let sf = sspec.frames();
    let df = dspec.frames();
    let avail_s = sf - p1;
    let avail_d = df - p2;
    let n = if avail_s <= avail_d {
        avail_s
    } else {
        avail_d
    };
    let sc = sspec.channels();
    let dc = dspec.channels();
    let cc = if sc <= dc {
        sc
    } else {
        dc
    };
    let mut i: usize = 0;
    while i < n
        invariant
            src.inv(),
            dst.inv(),
            src.view() == old(src).view(),
            i <= n,
            p1 == old(src).view().pos,
            p2 == old(dst).view().len,
            sf == old(src).view().frames(),
            df == old(dst).view().frames(),
            sc == old(src).view().channels,
            dc == old(dst).view().channels,
            n == copy_len(old(src).view(), old(dst).view()),
            cc == copy_channels(old(src).view(), old(dst).view()),
            forall|x: S::Item| call_requires(conv, (x,)),
            dst.view().channels == dc,
            dst.view().samples.len() == df,
            dst.view().pos == old(dst).view().pos,
            dst.view().len == p2,
            forall|j: int|
                0 <= j < df && !(p2 <= j < p2 + i) ==> dst.view().samples[j] == old(dst).view().samples[j],
            forall|j: int, k: int|
                p2 <= j < p2 + i && 0 <= k < cc ==> call_ensures(
                    conv,
                    (old(src).view().samples[j - p2 + p1][k],),
                    #[trigger] dst.view().samples[j][k],
                ),
            forall|j: int, k: int|
                p2 <= j < p2 + i && cc <= k < dc ==> #[trigger] dst.view().samples[j][k] == old(dst).view().samples[j][k],
        decreases n - i,
    {
        let mut c: usize = 0;
        while c < cc
            invariant
                src.inv(),
                dst.inv(),
                src.view() == old(src).view(),
                i < n,
                c <= cc,
                p1 == old(src).view().pos,
                p2 == old(dst).view().len,
                sf == old(src).view().frames(),
                df == old(dst).view().frames(),
                sc == old(src).view().channels,
                dc == old(dst).view().channels,
                n == copy_len(old(src).view(), old(dst).view()),
                cc == copy_channels(old(src).view(), old(dst).view()),
                forall|x: S::Item| call_requires(conv, (x,)),
                dst.view().channels == dc,
                dst.view().samples.len() == df,
                dst.view().pos == old(dst).view().pos,
                dst.view().len == p2,
                forall|j: int|
                    0 <= j < df && !(p2 <= j < p2 + i + 1) ==> dst.view().samples[j] == old(dst).view().samples[j],
                forall|j: int, k: int|
                    p2 <= j < p2 + i && 0 <= k < cc ==> call_ensures(
                        conv,
                        (old(src).view().samples[j - p2 + p1][k],),
                        #[trigger] dst.view().samples[j][k],
                    ),
                forall|j: int, k: int|
                    p2 <= j < p2 + i && cc <= k < dc ==> #[trigger] dst.view().samples[j][k] == old(dst).view().samples[j][k],
                forall|k: int|
                    0 <= k < c ==> call_ensures(
                        conv,
                        (old(src).view().samples[p1 + i as int][k],),
                        #[trigger] dst.view().samples[p2 + i as int][k],
                    ),
                forall|k: int|
                    c <= k < dc ==> #[trigger] dst.view().samples[p2 + i as int][k] == old(dst).view().samples[p2 + i as int][k],
            decreases cc - c,
        {
            let v = src.sample(p1 + i, c);
            let w = conv(v);
            let ghost prev = dst.view();
            proof {
                dst.inv_wf();
                assert(prev.wf());
            }
            dst.put(p2 + i, c, w);
            proof {
                let fi = p2 + i as int;
                let ci = c as int;
                assert(dst.view().samples[fi] == prev.samples[fi].update(ci, w));
                assert forall|j: int| 0 <= j < df && j != fi implies dst.view().samples[j]
                    == prev.samples[j] by {}
                assert(dst.view().samples[fi][ci] == w);
                assert forall|k: int| 0 <= k < dc && k != ci implies dst.view().samples[fi][k]
                    == prev.samples[fi][k] by {}
            }
            c += 1;
        }
        proof {
            let fi = p2 + i as int;
            assert forall|k: int| 0 <= k < cc implies call_ensures(
                conv,
                (old(src).view().samples[fi - p2 + p1][k],),
                dst.view().samples[fi][k],
            ) by {
                assert(old(src).view().samples[fi - p2 + p1][k] == old(src).view().samples[p1
                    + i as int][k]);
            }
        }
        i += 1;
    }
    src.set_pos(p1 + n);
    dst.set_len(p2 + n);
    proof {
        assert(dst.view().len == p2 + n);
    }
    n
}

/// Repeat `write_frames` until the destination is full or the source's read
/// cursor has reached the end of its storage — the point at which a pass
/// reports zero progress. When one pass covers the whole job (the source's
/// fill cursor sits at its frame count, or one pass tops the destination
/// off), the call is exactly that one pass.
pub fn write_all_frames<S: Buf, D: BufMut, F: Fn(S::Item) -> D::Item + Copy>(
    src: &mut S,
    dst: &mut D,
    conv: F,
)
    requires
        old(src).inv(),
        old(dst).inv(),
        forall|x: S::Item| call_requires(conv, (x,)),
    ensures
        final(src).inv(),
        final(dst).inv(),
        final(src).view().samples == old(src).view().samples,
        final(src).view().channels == old(src).view().channels,
        final(src).view().len == old(src).view().len,
        final(dst).view().channels == old(dst).view().channels,
        final(dst).view().samples.len() == old(dst).view().samples.len(),
        final(dst).view().pos == old(dst).view().pos,
        old(dst).view().len <= final(dst).view().len <= final(dst).view().frames(),
        final(dst).view().len == final(dst).view().frames()
            || final(src).view().pos == final(src).view().len,
        (old(src).view().len == old(src).view().frames() || copy_len(
            old(src).view(),
            old(dst).view(),
        ) == old(dst).view().frames() - old(dst).view().len) ==> frames_transferred(
            conv,
            old(src).view(),
            old(dst).view(),
            final(dst).view(),
        ),
{
    proof {
        src.inv_wf();
        dst.inv_wf();
    }
    let ghost single = old(src).view().len == old(src).view().frames() || copy_len(
        old(src).view(),
        old(dst).view(),
    ) == old(dst).view().frames() - old(dst).view().len;
    let df = dst.get_spec().frames();
    let sf = src.get_spec().frames();
    if dst.len() >= df {
        proof {
            assert(copy_len(old(src).view(), old(dst).view()) == 0);
            assert(frames_transferred(conv, old(src).view(), old(dst).view(), dst.view()));
        }
        return;
    }
    let n0 = write_frames(src, dst, conv);
    let mut filled = dst.len();
    let mut stalled = n0 == 0;
    proof {
        src.inv_wf();
        if stalled {
            assert(src.view().pos == src.view().len);
        }
    }
    while !stalled && filled < df
        invariant
            src.inv(),
            dst.inv(),
            forall|x: S::Item| call_requires(conv, (x,)),
            filled == dst.view().len,
            df == dst.view().frames(),
            sf == src.view().frames(),
            src.view().samples == old(src).view().samples,
            src.view().channels == old(src).view().channels,
            src.view().len == old(src).view().len,
            dst.view().channels == old(dst).view().channels,
            dst.view().samples.len() == old(dst).view().samples.len(),
            dst.view().pos == old(dst).view().pos,
            old(dst).view().len <= filled <= df,
            stalled ==> src.view().pos == src.view().len,
            single ==> frames_transferred(conv, old(src).view(), old(dst).view(), dst.view()),
            single ==> copy_len(src.view(), dst.view()) == 0 || filled == df || stalled,
        decreases (df - filled) + if stalled {
            0int
        } else {
            1int
        },
    {
        proof {
            src.inv_wf();
            dst.inv_wf();
        }
        let ghost pre_dst = dst.view();
        let ghost pos_before = src.view().pos;
        let n = write_frames(src, dst, conv);
        proof {
            if single {
                assert(n == 0);
                assert forall|j: int| 0 <= j < pre_dst.frames() implies dst.view().samples[j]
                    == pre_dst.samples[j] by {}
            }
        }
        if n == 0 {
            stalled = true;
            proof {
                assert(pos_before == sf);
                assert(src.view().pos == src.view().len);
            }
        } else {
            filled = dst.len();
        }
    }
    proof {
        dst.inv_wf();
    }
}

/// Round trip: pushing every frame of an interleaved buffer `a` through a
/// planar scratch of the same layout and on into a second interleaved buffer
/// of that layout reproduces `a` sample for sample. `s0` and `b0` are the
/// scratch and the second buffer before their copy, `s1` and `b1` after it.
pub proof fn lemma_round_trip<T>(
    a: BufView<T>,
    s0: BufView<T>,
    s1: BufView<T>,
    b0: BufView<T>,
    b1: BufView<T>,
)
    requires
        a.wf(),
        s0.wf(),
        b0.wf(),
        a.frames() == s0.frames(),
        a.channels == s0.channels,
        s0.frames() == b0.frames(),
        s0.channels == b0.channels,
        a.pos == 0,
        s0.pos == 0,
        s0.len == 0,
        b0.len == 0,
        copied_exact(a, s0, s1),
        copied_exact(s1, b0, b1),
    ensures
        forall|n: int, c: int|
            0 <= n < a.frames() && 0 <= c < a.channels ==> #[trigger] b1.samples[n][c]
                == a.samples[n][c],
{
    let f = a.frames() as int;
    assert(copy_len(a, s0) == f);
    assert(s1.len == f);
    assert(s1.pos == 0);
    assert(s1.samples.len() == f);
    assert(copy_len(s1, b0) == f);
    assert forall|n: int, c: int| 0 <= n < f && 0 <= c < a.channels implies #[trigger] b1.samples[n][c]
        == a.samples[n][c] by {
        assert(b1.samples[n][c] == s1.samples[n - b0.len + s1.pos][c]);
        assert(s1.samples[n][c] == a.samples[n - s0.len + a.pos][c]);
    }
}

} // verus!
