//! When frames are drawn: requests for a frame at some instant are
//! coalesced, so that one frame is drawn at the earliest requested instant,
//! and a request for an instant already reached draws at once.
use vstd::prelude::*;

verus! {

/// A request for a frame at `at`, the clock reading `now`: the earliest
/// pending instant is kept, and when `at` has been reached the frame is
/// drawn at once and nothing stays pending. The new pending instant and
/// whether to draw.
pub open spec fn request_step(next: Option<u64>, at: u64, now: u64) -> (Option<u64>, bool) {
    if at <= now {
        (None, true)
    } else {
        match next {
            Some(cur) => (Some(if at < cur { at } else { cur }), false),
            None => (Some(at), false),
        }
    }
}

/// The wait for the pending instant ended: a frame is drawn when one was
/// pending, and nothing stays pending.
pub open spec fn deadline_step(next: Option<u64>) -> (Option<u64>, bool) {
    (None, next is Some)
}

/// The pending instant after a series of requests, all at the same clock
/// reading.
pub open spec fn requests_all(next: Option<u64>, ats: Seq<u64>, now: u64) -> Option<u64>
    decreases ats.len(),
{
    if ats.len() == 0 {
        next
    } else {
        requests_all(request_step(next, ats[0], now).0, ats.drop_first(), now)
    }
}

/// Whether any of a series of requests draws at once.
pub open spec fn requests_draw(next: Option<u64>, ats: Seq<u64>, now: u64) -> bool
    decreases ats.len(),
{
    if ats.len() == 0 {
        false
    } else {
        request_step(next, ats[0], now).1 || requests_draw(request_step(next, ats[0], now).0, ats.drop_first(), now)
    }
}

/// The earliest instant of a non-empty series.
pub open spec fn earliest(ats: Seq<u64>) -> u64
    decreases ats.len(),
{
    if ats.len() <= 1 {
        ats[0]
    } else {
        let rest = earliest(ats.drop_first());
        if ats[0] < rest {
            ats[0]
        } else {
            rest
        }
    }
}

/// Coalesces frame requests: the instant at which the next frame is due.
pub struct FrameScheduler {
    next_deadline: Option<u64>,
}

impl FrameScheduler {
    /// The instant at which the next frame is due, if any.
    pub closed spec fn view(&self) -> Option<u64> {
        self.next_deadline
    }

    /// No frame is due.
    pub fn new() -> (r: Self)
        ensures
            r.view() is None,
    {
        FrameScheduler { next_deadline: None }
    }

    /// The instant at which the next frame is due, if any.
    pub fn next_deadline(&self) -> (r: Option<u64>)
        ensures
            r == self.view(),
    {
        self.next_deadline
    }

    /// A frame is requested for `at`, the clock reading `now`. Whether to
    /// draw now.
    pub fn on_request(&mut self, at: u64, now: u64) -> (draw: bool)
        ensures
            (final(self).view(), draw) == request_step(old(self).view(), at, now),
    {
        let earlier = match self.next_deadline {
            Some(cur) => at < cur,
            None => true,
        };
        if earlier {
            self.next_deadline = Some(at);
        }
        if at <= now {
            self.next_deadline = None;
            true
        } else {
            false
        }
    }

    /// The wait for the due frame ended. Whether to draw.
    pub fn on_deadline(&mut self) -> (draw: bool)
        ensures
            (final(self).view(), draw) == deadline_step(old(self).view()),
    {
        let draw = self.next_deadline.is_some();
        self.next_deadline = None;
        draw
    }

    /// Until when to wait: the due instant, or `idle_until` when no frame
    /// is due.
    pub fn sleep_target(&self, idle_until: u64) -> (r: u64)
        ensures
            r == match self.view() {
                Some(d) => d,
                None => idle_until,
            },
    {
        match self.next_deadline {
            Some(d) => d,
            None => idle_until,
        }
    }
}

proof fn lemma_requests_coalesce(next: Option<u64>, ats: Seq<u64>, now: u64)
    requires
        forall|i: int| 0 <= i < ats.len() ==> ats[i] > now,
    ensures
        !requests_draw(next, ats, now),
        ats.len() == 0 ==> requests_all(next, ats, now) == next,
        ats.len() > 0 ==> requests_all(next, ats, now) == Some(
            match next {
                Some(d) => if d < earliest(ats) { d } else { earliest(ats) },
                None => earliest(ats),
            },
        ),
    decreases ats.len(),
{
    if ats.len() > 0 {
        let rest = ats.drop_first();
        let n1 = request_step(next, ats[0], now).0;
        lemma_requests_coalesce(n1, rest, now);
    }
}

/// Frame requests for instants still to come are coalesced: none of them
/// draws at once, the frame falls due at the earliest of them, and when
/// that instant comes exactly one frame is drawn.
pub proof fn law_requests_coalesce(ats: Seq<u64>, now: u64)
    requires
        ats.len() > 0,
        forall|i: int| 0 <= i < ats.len() ==> ats[i] > now,
    ensures
        !requests_draw(None, ats, now),
        requests_all(None, ats, now) == Some(earliest(ats)),
        deadline_step(requests_all(None, ats, now)).1,
        !deadline_step(deadline_step(requests_all(None, ats, now)).0).1,
{
    lemma_requests_coalesce(None, ats, now);
}

} // verus!
