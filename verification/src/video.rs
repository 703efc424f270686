//! Frame pacing and pixel conversion for the video pipe.
//!
//! Screen capture only delivers frames when the content changes, while the
//! rawvideo pipe needs a steady frame rate: the pacer holds the last frame
//! and re-emits it at the profile rate. Pushed frames must be exactly
//! `w*h*4` bytes (BGRA); capture backends scale before pushing.
//!
//! Time is a monotonic nanosecond counter chosen by the caller.

pub mod nv12;
pub mod scale;

use crate::error::{Error, Result};
use crate::ffmpeg::args::{input_pix, Transport};
use crate::video::nv12::{bgra_to_nv12, convertible, is_nv12_black, is_nv12_of, nv12_size};
use crate::text::{concat, decimal, decimal_string, owned, push_str};
use vstd::prelude::*;
use vstd::slice::slice_to_vec;

verus! {

/// Holds the newest frame and re-emits it at a fixed rate.
pub struct FramePacer {
    frame_size: usize,
    interval_ns: u64,
    last_frame: Option<Vec<u8>>,
    next_emit: Option<u64>,
}

/// The abstract state of a pacer.
pub struct PacerView {
    /// Accepted frame length in bytes.
    pub frame_size: nat,
    /// Emit period in nanoseconds.
    pub interval: nat,
    /// The newest accepted frame.
    pub last_frame: Option<Seq<u8>>,
    /// When the next emit is due.
    pub next_emit: Option<nat>,
}

impl View for FramePacer {
    type V = PacerView;

    closed spec fn view(&self) -> PacerView {
        PacerView {
            frame_size: self.frame_size as nat,
            interval: self.interval_ns as nat,
            last_frame: match self.last_frame {
                Some(f) => Some(f@),
                None => None,
            },
            next_emit: match self.next_emit {
                Some(t) => Some(t as nat),
                None => None,
            },
        }
    }
}

/// The emit period for `fps` frames per second, rounded to the nanosecond
/// (`fps` 0 is treated as 1).
pub open spec fn frame_interval(fps: u32) -> nat {
    let f = if fps == 0 {
        1
    } else {
        fps as int
    };
    ((1_000_000_000 + f / 2) / f) as nat
}

/// The first tick strictly after `now` on the grid `next + k*interval`,
/// `k >= 1`: `advance` collapses any backlog of missed ticks into one.
pub open spec fn is_next_tick(r: int, next: int, interval: int, now: int) -> bool {
    &&& r > now
    &&& r >= next + interval
    &&& (r - next) % interval == 0
    &&& (r == next + interval || r - interval <= now)
}

/// Advances to the next tick after `now`, collapsing backlog into one frame.
pub fn advance(next: u64, interval: u64, now: u64) -> (r: u64)
    requires
        interval > 0,
        now + interval <= u64::MAX,
        next + interval <= u64::MAX,
    ensures
        is_next_tick(r as int, next as int, interval as int, now as int),
{
    let mut cur: u64 = next + interval;
    let ghost mut k: int = 1;
    while cur <= now
        invariant
            interval > 0,
            now + interval <= u64::MAX,
            k >= 1,
            cur == next + k * interval,
            cur >= next + interval,
            cur - interval <= now || k == 1,
            cur <= now + interval || k == 1,
        decreases now + interval - cur,
    {
        cur = cur + interval;
        proof {
            vstd::arithmetic::mul::lemma_mul_is_distributive_add_other_way(interval as int, k, 1);
            k = k + 1;
        }
    }
    proof {
        vstd::arithmetic::div_mod::lemma_mod_multiples_basic(k, interval as int);
    }
    cur
}

/// What a push does to the pacer: a frame of the frame size is accepted
/// (`ok`) and held, and the first accepted frame is due at once; any other
/// frame is refused and changes nothing.
pub open spec fn pushed(old: PacerView, new: PacerView, frame: Seq<u8>, now: u64, ok: bool) -> bool {
    &&& ok <==> frame.len() == old.frame_size
    &&& !ok ==> new == old
    &&& ok ==> new == (PacerView {
        last_frame: Some(frame),
        next_emit: if old.last_frame is None {
            Some(now as nat)
        } else {
            old.next_emit
        },
        ..old
    })
}

/// What a poll at `now` does: before the due tick nothing; from it on the
/// held frame (`out`) is emitted and the next tick becomes the first one
/// after `now`. The held frame, size and interval never change.
pub open spec fn polled(old: PacerView, new: PacerView, now: u64, out: Option<Seq<u8>>) -> bool {
    &&& new.frame_size == old.frame_size
    &&& new.interval == old.interval
    &&& new.last_frame == old.last_frame
    &&& match old.next_emit {
        Some(n) => if now < n {
            out is None && new.next_emit == old.next_emit
        } else {
            &&& out matches Some(f) && old.last_frame == Some(f)
            &&& new.next_emit matches Some(m) && is_next_tick(
                m as int,
                n as int,
                old.interval as int,
                now as int,
            )
        },
        None => out is None && new.next_emit is None,
    }
}

impl FramePacer {
    /// Well-formedness: an accepted frame has the frame size, and an emit is
    /// scheduled exactly when a frame is held.
    pub open spec fn wf(&self) -> bool {
        &&& self@.interval > 0
        &&& self@.next_emit is Some <==> self@.last_frame is Some
        &&& self@.last_frame matches Some(f) ==> f.len() == self@.frame_size
    }

    /// A pacer for `w`x`h` BGRA frames at `fps` frames per second.
    pub fn new(w: u32, h: u32, fps: u32) -> (p: Self)
        requires
            w * h * 4 <= usize::MAX,
            fps <= 2_000_000_000,
        ensures
            p.wf(),
            p@.frame_size == w * h * 4,
            p@.interval == frame_interval(fps),
            p@.last_frame is None,
            p@.next_emit is None,
    {
        let f: u64 = if fps == 0 {
            1
        } else {
            fps as u64
        };
        assert((1_000_000_000 + f / 2) / (f as int) >= 1) by (nonlinear_arith)
            requires
                1 <= f <= 2_000_000_000,
        ;
        FramePacer {
            frame_size: (w as usize) * (h as usize) * 4,
            interval_ns: (1_000_000_000u64 + f / 2) / f,
            last_frame: None,
            next_emit: None,
        }
    }

    /// The emit period in nanoseconds.
    pub fn interval_ns(&self) -> (r: u64)
        ensures
            r == self@.interval,
    {
        self.interval_ns
    }

    /// Feeds a freshly captured frame (already normalized to the profile
    /// size) at time `now`. A frame of another size is refused and changes
    /// nothing; the first accepted frame is due at once.
    pub fn push(&mut self, frame: &[u8], now: u64) -> (r: Result<()>)
        requires
            old(self).wf(),
        ensures
            final(self).wf(),
            r matches Err(e) ==> e matches Error::Capture(m) && m@ == "frame size mismatch: got "@
                + decimal(frame@.len()) + ", expected "@ + decimal(old(self)@.frame_size)
                + " (resize must be handled upstream)"@,
            pushed(old(self)@, final(self)@, frame@, now, r is Ok),
    {
        if frame.len() != self.frame_size {
            let mut m = owned("frame size mismatch: got ");
            let a = decimal_string(frame.len() as u64);
            push_str(&mut m, a.as_str());
            push_str(&mut m, ", expected ");
            let b = decimal_string(self.frame_size as u64);
            push_str(&mut m, b.as_str());
            push_str(&mut m, " (resize must be handled upstream)");
            return Err(Error::Capture(m));
        }
        let first = self.last_frame.is_none();
        self.last_frame = Some(slice_to_vec(frame));
        if first {
            self.next_emit = Some(now);
        }
        Ok(())
    }

    /// The frame to emit at `now`, if the rate tick has elapsed. Skipped
    /// ticks collapse into one emit, so a late poll never floods the pipe.
    pub fn poll(&mut self, now: u64) -> (r: Option<&[u8]>)
        requires
            old(self).wf(),
            now + old(self)@.interval <= u64::MAX,
        ensures
            final(self).wf(),
            polled(
                old(self)@,
                final(self)@,
                now,
                match r {
                    Some(f) => Some(f@),
                    None => None,
                },
            ),
    {
        let next = match self.next_emit {
            Some(n) => n,
            None => {
                return None;
            },
        };
        if now < next {
            return None;
        }
        self.next_emit = Some(advance(next, self.interval_ns, now));
        match &self.last_frame {
            Some(f) => Some(f.as_slice()),
            None => None,
        }
    }

    /// Whether a frame has been accepted.
    pub fn has_frame(&self) -> (r: bool)
        ensures
            r == self@.last_frame is Some,
    {
        self.last_frame.is_some()
    }
}

/// Whether the video sink converts paced BGRA frames to NV12 just before
/// the pipe: on the NV12 transport, for an even frame size.
pub open spec fn converts_to_nv12(transport: Transport, w: u32, h: u32) -> bool {
    transport == Transport::PipeNv12 && w % 2 == 0 && h % 2 == 0
}

/// Whether the video sink converts frames to NV12 for `transport`.
pub fn sink_converts_nv12(transport: &Transport, w: u32, h: u32) -> (r: bool)
    ensures
        r == converts_to_nv12(*transport, w, h),
{
    *transport == Transport::PipeNv12 && w % 2 == 0 && h % 2 == 0
}

/// The bytes the video sink writes for one paced `w`x`h` BGRA frame: the
/// frame itself, or its NV12 conversion when `to_nv12`.
pub fn pipe_frame(frame: &[u8], w: u32, h: u32, to_nv12: bool) -> (r: Vec<u8>)
    requires
        w * h * 4 <= usize::MAX,
    ensures
        !to_nv12 ==> r@ == frame@,
        to_nv12 ==> r@.len() == nv12_size(w, h),
        to_nv12 && convertible(w, h, frame@.len() as int, nv12_size(w, h)) ==> is_nv12_of(
            r@,
            frame@,
            w,
            h,
        ),
        to_nv12 && !convertible(w, h, frame@.len() as int, nv12_size(w, h)) ==> is_nv12_black(
            r@,
            w,
            h,
        ),
{
    if to_nv12 {
        assert(w * h * 3 <= w * h * 4) by (nonlinear_arith);
        bgra_to_nv12(frame, w, h)
    } else {
        slice_to_vec(frame)
    }
}

/// The video pipe carries what ffmpeg is told to read: NV12 frames exactly
/// when the command line declares an `nv12` input. (Not so with the
/// `HwDirect` transport, or with an odd frame size, where the sink writes
/// BGRA.)
pub proof fn lemma_pipe_format_matches_argv(transport: Transport, w: u32, h: u32)
    requires
        transport != Transport::HwDirect,
        w % 2 == 0 && h % 2 == 0,
    ensures
        converts_to_nv12(transport, w, h) <==> input_pix(transport) == "nv12"@,
{
    reveal_strlit("nv12");
    reveal_strlit("bgra");
    assert("bgra"@[0] != "nv12"@[0]);
}

/// The pacer never runs faster than its rate: when each emit happens at or
/// after the tick it was due (`ticks[k]`, emitted at `times[k]`) and the next
/// tick is the one `poll` schedules, the `k`-th emit comes no earlier than
/// `k` intervals after the first tick.
pub proof fn lemma_pacer_rate(ticks: Seq<int>, times: Seq<int>, interval: int)
    requires
        interval > 0,
        ticks.len() == times.len(),
        forall|k: int| 0 <= k < times.len() ==> #[trigger] times[k] >= ticks[k],
        forall|k: int|
            0 <= k < ticks.len() - 1 ==> is_next_tick(
                #[trigger] ticks[k + 1],
                ticks[k],
                interval,
                times[k],
            ),
    ensures
        forall|k: int| 0 <= k < ticks.len() ==> #[trigger] ticks[k] >= ticks[0] + k * interval,
        forall|k: int|
            0 <= k < times.len() ==> #[trigger] times[k] >= ticks[0] + k * interval,
    decreases ticks.len(),
{
    if ticks.len() > 1 {
        let n = (ticks.len() - 1) as int;
        let tk = ticks.take(n);
        let tm = times.take(n);
        assert forall|k: int| 0 <= k < tm.len() implies #[trigger] tm[k] >= tk[k] by {
            assert(tm[k] == times[k] && tk[k] == ticks[k]);
        }
        assert forall|k: int| 0 <= k < tk.len() - 1 implies is_next_tick(
            #[trigger] tk[k + 1],
            tk[k],
            interval,
            tm[k],
        ) by {
            assert(tk[k + 1] == ticks[k + 1] && tk[k] == ticks[k] && tm[k] == times[k]);
        }
        lemma_pacer_rate(tk, tm, interval);
        assert(tk[0] == ticks[0]);
        assert forall|k: int| 0 <= k < ticks.len() implies #[trigger] ticks[k] >= ticks[0] + k
            * interval by {
            if k < n {
                assert(tk[k] == ticks[k]);
            } else {
                assert(tk[n - 1] == ticks[n - 1]);
                assert(tk[n - 1] >= tk[0] + (n - 1) * interval);
                assert(tm[n - 1] == times[n - 1]);
                let j = n - 1;
                assert(is_next_tick(ticks[j + 1], ticks[j], interval, times[j]));
                assert(k * interval == (n - 1) * interval + interval) by (nonlinear_arith)
                    requires
                        k == n,
                ;
            }
        }
        assert forall|k: int| 0 <= k < times.len() implies #[trigger] times[k] >= ticks[0] + k
            * interval by {
            assert(times[k] >= ticks[k]);
            assert(ticks[k] >= ticks[0] + k * interval);
        }
    }
}

/// After a poll at `t` emitted (the tick `n` was due, `n <= t`, and the next
/// tick became `m`), and with pushes in between leaving the schedule as it
/// is, a later poll at `t2` emits nothing when `t2 <= t` (a backlog gives one
/// frame, never a burst), and re-emits the last frame once `t2 >= t +
/// interval`, with or without new captures.
pub proof fn lemma_pacer_reemits(m: int, n: int, interval: int, t: int, t2: int)
    requires
        interval > 0,
        n <= t,
        is_next_tick(m, n, interval, t),
    ensures
        t2 <= t ==> t2 < m,
        t2 >= t + interval ==> t2 >= m,
{
}

/// For a well-formed pacer (a tick is scheduled exactly when a frame is
/// held): a push is accepted exactly when the frame has the frame size; a refused
/// push changes nothing; after an accepted one every poll that emits, until
/// the next accepted push, emits a copy of that frame.
pub proof fn lemma_pacer_push_then_poll(
    v0: PacerView,
    v1: PacerView,
    frame: Seq<u8>,
    now: u64,
    ok: bool,
    v2: PacerView,
    t: u64,
    out: Option<Seq<u8>>,
)
    requires
        v0.next_emit is Some <==> v0.last_frame is Some,
        pushed(v0, v1, frame, now, ok),
        polled(v1, v2, t, out),
    ensures
        ok <==> frame.len() == v0.frame_size,
        !ok ==> v1 == v0,
        ok ==> v1.last_frame == Some(frame) && v1.next_emit is Some,
        ok && out is Some ==> out == Some(frame),
        v2.last_frame == v1.last_frame,
{
}

/// Pushing into a pacer that already holds a frame keeps its schedule.
pub proof fn lemma_push_keeps_schedule(v0: PacerView, v1: PacerView, frame: Seq<u8>, now: u64, ok: bool)
    requires
        pushed(v0, v1, frame, now, ok),
        v0.last_frame is Some,
    ensures
        v1.next_emit == v0.next_emit,
        v1.interval == v0.interval,
        v1.last_frame is Some,
{
}

/// After a poll at `t` emitted, and whatever pushes kept the schedule (see
/// `lemma_push_keeps_schedule`), the next poll at `t2` emits nothing when
/// `t2 <= t` (a backlog gives one frame, never a burst) and re-emits the
/// held frame once `t2 >= t + interval`, with or without new captures.
pub proof fn lemma_poll_then_poll(
    v0: PacerView,
    v1: PacerView,
    t: u64,
    f: Seq<u8>,
    v2: PacerView,
    v3: PacerView,
    t2: u64,
    out: Option<Seq<u8>>,
)
    requires
        v0.interval > 0,
        polled(v0, v1, t, Some(f)),
        v2.next_emit == v1.next_emit,
        v2.interval == v1.interval,
        v2.last_frame is Some,
        polled(v2, v3, t2, out),
    ensures
        t2 <= t ==> out is None,
        t2 >= t + v0.interval ==> out is Some,
{
    let n = v0.next_emit->0;
    let m = v1.next_emit->0;
    lemma_pacer_reemits(m as int, n as int, v0.interval as int, t as int, t2 as int);
}

} // verus!
