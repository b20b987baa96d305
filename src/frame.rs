//! The frame limiter: at most one render per frame interval, with bursts of
//! redraw requests collapsed into one trailing redraw.
use vstd::prelude::*;

verus! {

/// Renders per second that the limiter aims at.
pub const TARGET_FPS: u64 = 144;

/// The frame interval in nanoseconds: 1000/144 ms, about 6.94 ms.
pub const FRAME_BUDGET_NS: u64 = 1_000_000_000 / TARGET_FPS;

/// What the dispatch loop does about the display before taking the next event.
#[derive(Clone, Copy, Debug, PartialEq, Eq, Structural)]
pub enum FrameAction {
    /// Draw now, then report the time with `mark_rendered`.
    Render,
    /// Too soon to draw: start a timer that emits a `Redraw` event after the
    /// given number of nanoseconds, and report it with `redraw_fired`.
    ScheduleRedraw(u64),
    /// Too soon to draw, and a deferred redraw is already pending.
    Skip,
}

/// The limiter's state: the interval, the time of the last completed render,
/// and whether a deferred redraw is pending.
///
/// Times are nanoseconds on a monotonic clock of the caller's choosing.
#[derive(Clone, Copy, Debug, PartialEq, Eq, Structural)]
pub struct FrameLimiter {
    pub budget_ns: u64,
    pub last_render_ns: u64,
    pub redraw_pending: bool,
}

/// Nanoseconds since the last render at time `now`; a clock that reads
/// earlier than the last render counts as no time elapsed.
pub open spec fn elapsed_since(last: u64, now: u64) -> int {
    if now >= last {
        now - last
    } else {
        0
    }
}

/// One decision of the limiter at time `now`: the new state and the action.
pub open spec fn frame_step(l: FrameLimiter, now: u64) -> (FrameLimiter, FrameAction) {
    let e = elapsed_since(l.last_render_ns, now);
    if e >= l.budget_ns {
        (l, FrameAction::Render)
    } else if l.redraw_pending {
        (l, FrameAction::Skip)
    } else {
        (
            FrameLimiter { redraw_pending: true, ..l },
            FrameAction::ScheduleRedraw((l.budget_ns - e) as u64),
        )
    }
}

/// The limiter polled at each of `times` in turn, with no render and no
/// timer firing in between: the final state and the actions in order.
pub open spec fn poll_run(l: FrameLimiter, times: Seq<u64>) -> (FrameLimiter, Seq<FrameAction>)
    decreases times.len(),
{
    if times.len() == 0 {
        (l, Seq::empty())
    } else {
        let (next, a) = frame_step(l, times[0]);
        let (last, rest) = poll_run(next, times.drop_first());
        (last, seq![a] + rest)
    }
}

/// How many timers the actions start.
pub open spec fn count_scheduled(acts: Seq<FrameAction>) -> nat
    decreases acts.len(),
{
    if acts.len() == 0 {
        0
    } else {
        (if acts[0] is ScheduleRedraw {
            1nat
        } else {
            0nat
        }) + count_scheduled(acts.drop_first())
    }
}

/// Whether time `t` falls in the frame interval that began with the last render.
pub open spec fn in_window(l: FrameLimiter, t: u64) -> bool {
    l.last_render_ns <= t && t < l.last_render_ns + l.budget_ns
}

impl FrameLimiter {
    /// A limiter at the default frame rate whose last render is at `now_ns`.
    pub fn new(now_ns: u64) -> (r: FrameLimiter)
        ensures
            r.budget_ns == FRAME_BUDGET_NS,
            r.last_render_ns == now_ns,
            !r.redraw_pending,
    {
        FrameLimiter { budget_ns: FRAME_BUDGET_NS, last_render_ns: now_ns, redraw_pending: false }
    }

    /// A limiter with the given frame interval whose last render is at `now_ns`.
    pub fn with_budget(budget_ns: u64, now_ns: u64) -> (r: FrameLimiter)
        ensures
            r.budget_ns == budget_ns,
            r.last_render_ns == now_ns,
            !r.redraw_pending,
    {
        FrameLimiter { budget_ns, last_render_ns: now_ns, redraw_pending: false }
    }

    /// Decides at time `now_ns` whether to render now, to defer the render
    /// to the end of the frame interval, or to leave it to the redraw that is
    /// already pending.
    pub fn poll(&mut self, now_ns: u64) -> (r: FrameAction)
        ensures
            (*final(self), r) == frame_step(*old(self), now_ns),
    {
        let elapsed: u64 = if now_ns >= self.last_render_ns {
            now_ns - self.last_render_ns
        } else {
            0
        };
        if elapsed >= self.budget_ns {
            FrameAction::Render
        } else if self.redraw_pending {
            FrameAction::Skip
        } else {
            self.redraw_pending = true;
            FrameAction::ScheduleRedraw(self.budget_ns - elapsed)
        }
    }

    /// Records that a render completed at `now_ns`.
    pub fn mark_rendered(&mut self, now_ns: u64)
        ensures
            *final(self) == (FrameLimiter { last_render_ns: now_ns, ..*old(self) }),
    {
        self.last_render_ns = now_ns;
    }

    /// Records that the pending timer fired, so that a new one may be started.
    pub fn redraw_fired(&mut self)
        ensures
            *final(self) == (FrameLimiter { redraw_pending: false, ..*old(self) }),
    {
        self.redraw_pending = false;
    }

    /// Whether a deferred redraw is pending.
    pub fn is_redraw_pending(&self) -> (r: bool)
        ensures
            r == self.redraw_pending,
    {
        self.redraw_pending
    }
}

/// Requests inside one frame interval start one timer at most: exactly one
/// when none was pending, none when one already was, and none of them
/// renders at once.
pub proof fn lemma_burst_collapses(l: FrameLimiter, times: Seq<u64>)
    requires
        times.len() > 0,
        forall|i: int| 0 <= i < times.len() ==> in_window(l, #[trigger] times[i]),
    ensures
        count_scheduled(poll_run(l, times).1) == (if l.redraw_pending {
            0nat
        } else {
            1nat
        }),
        forall|i: int|
            0 <= i < poll_run(l, times).1.len() ==> !(#[trigger] poll_run(l, times).1[i] is Render),
    decreases times.len(),
{
    lemma_pending_burst_quiet(frame_step(l, times[0]).0, times.drop_first());
    let (next, a) = frame_step(l, times[0]);
    let rest = poll_run(next, times.drop_first()).1;
    assert(poll_run(l, times).1 == seq![a] + rest);
    assert((seq![a] + rest).drop_first() =~= rest);
    assert forall|i: int| 0 <= i < poll_run(l, times).1.len() implies !(#[trigger] poll_run(
        l,
        times,
    ).1[i] is Render) by {
        if i > 0 {
            assert(poll_run(l, times).1[i] == rest[i - 1]);
        }
    }
}

/// A request made once the frame interval has run out renders at once; one
/// made earlier, with no redraw pending, defers the render to exactly the end
/// of the interval, so that it fires no earlier than that.
pub proof fn lemma_deferral_ends_interval(l: FrameLimiter, now: u64)
    requires
        l.last_render_ns <= now,
    ensures
        now - l.last_render_ns >= l.budget_ns ==> frame_step(l, now).1 == FrameAction::Render,
        now - l.last_render_ns < l.budget_ns && !l.redraw_pending ==> {
            &&& frame_step(l, now).1 is ScheduleRedraw
            &&& now + frame_step(l, now).1->ScheduleRedraw_0 == l.last_render_ns + l.budget_ns
        },
{
}

/// With a redraw pending, polls inside the frame interval neither render nor
/// start a timer, and the state does not change.
proof fn lemma_pending_burst_quiet(l: FrameLimiter, times: Seq<u64>)
    requires
        l.redraw_pending,
        forall|i: int| 0 <= i < times.len() ==> in_window(l, #[trigger] times[i]),
    ensures
        count_scheduled(poll_run(l, times).1) == 0,
        forall|i: int| 0 <= i < poll_run(l, times).1.len() ==> #[trigger] poll_run(l, times).1[i] == FrameAction::Skip,
        poll_run(l, times).1.len() == times.len(),
    decreases times.len(),
{
    if times.len() > 0 {
        let tail = times.drop_first();
        assert forall|i: int| 0 <= i < tail.len() implies in_window(l, #[trigger] tail[i]) by {
            assert(tail[i] == times[i + 1]);
        }
        lemma_pending_burst_quiet(l, tail);
        let rest = poll_run(l, tail).1;
        assert(frame_step(l, times[0]) == (l, FrameAction::Skip));
        assert((seq![FrameAction::Skip] + rest).drop_first() =~= rest);
        assert forall|i: int| 0 <= i < poll_run(l, times).1.len() implies #[trigger] poll_run(l, times).1[i] == FrameAction::Skip by {
            if i > 0 {
                assert(poll_run(l, times).1[i] == rest[i - 1]);
            }
        }
    }
}

} // verus!
