//! Fixed-window request admission.
//!
//! Time is a plain count of nanoseconds on a monotonic clock chosen by the
//! caller. Within a window at most `max_requests` checks are admitted; the
//! first check later than `window` after the window's start opens a new one.
use vstd::prelude::*;

verus! {

/// The abstract state of a limiter.
pub struct RateWindow {
    /// Most checks admitted in one window.
    pub limit: nat,
    /// Length of a window, in nanoseconds.
    pub window: nat,
    /// Checks admitted in the current window.
    pub count: nat,
    /// When the current window began, in nanoseconds.
    pub start: nat,
}

impl RateWindow {
    /// Whether a check at `now` opens a new window.
    pub open spec fn rolls_over(self, now: nat) -> bool {
        now > self.start && now - self.start > self.window
    }

    /// The window that a check at `now` is counted in, before it is counted.
    pub open spec fn current(self, now: nat) -> RateWindow {
        if self.rolls_over(now) {
            RateWindow { count: 0, start: now, ..self }
        } else {
            self
        }
    }

    /// Whether a check at `now` is admitted.
    pub open spec fn admits(self, now: nat) -> bool {
        self.current(now).count < self.limit
    }

    /// The state after a check at `now`.
    pub open spec fn after(self, now: nat) -> RateWindow {
        let c = self.current(now);
        if c.count < c.limit {
            RateWindow { count: c.count + 1, ..c }
        } else {
            c
        }
    }

    /// The state after checks at each of `times`, in order.
    pub open spec fn after_all(self, times: Seq<nat>) -> RateWindow
        decreases times.len(),
    {
        if times.len() == 0 {
            self
        } else {
            self.after(times[0]).after_all(times.drop_first())
        }
    }

    /// What checks at each of `times`, in order, return.
    pub open spec fn outcomes(self, times: Seq<nat>) -> Seq<bool>
        decreases times.len(),
    {
        if times.len() == 0 {
            Seq::empty()
        } else {
            seq![self.admits(times[0])] + self.after(times[0]).outcomes(times.drop_first())
        }
    }

    /// No more than the limit is admitted in the current window.
    pub open spec fn wf(self) -> bool {
        self.count <= self.limit
    }
}

/// Checks within one window, starting from `count` admitted checks, are
/// admitted exactly while the admitted total stays under the limit.
proof fn lemma_outcomes_within_window(s: RateWindow, times: Seq<nat>)
    requires
        s.wf(),
        forall|i: int| 0 <= i < times.len() ==> !s.rolls_over(#[trigger] times[i]),
    ensures
        s.outcomes(times).len() == times.len(),
        forall|i: int|
            0 <= i < times.len() ==> s.outcomes(times)[i] == (s.count + i < s.limit),
    decreases times.len(),
{
    if times.len() > 0 {
        let t = times[0];
        let rest = times.drop_first();
        let next = s.after(t);
        assert forall|i: int| 0 <= i < rest.len() implies !next.rolls_over(#[trigger] rest[i]) by {
            assert(rest[i] == times[i + 1]);
        }
        lemma_outcomes_within_window(next, rest);
        let o = s.outcomes(times);
        assert forall|i: int| 0 <= i < times.len() implies o[i] == (s.count + i < s.limit) by {
            if i > 0 {
                assert(o[i] == next.outcomes(rest)[i - 1]);
            }
        }
    }
}

/// Within one window that starts with no admitted checks, every one of the
/// first `limit` checks is admitted and every later check is rejected; in
/// particular the check after the first `limit` ones is rejected.
pub proof fn lemma_limit_per_window(s: RateWindow, times: Seq<nat>)
    requires
        s.wf(),
        s.count == 0,
        forall|i: int| 0 <= i < times.len() ==> !s.rolls_over(#[trigger] times[i]),
    ensures
        s.outcomes(times).len() == times.len(),
        forall|i: int| 0 <= i < times.len() ==> s.outcomes(times)[i] == (i < s.limit),
{
    lemma_outcomes_within_window(s, times);
}

/// Once more than a window has passed since the window's start, the next
/// check opens a new window and is admitted, whatever was rejected before,
/// provided the limit admits any request at all.
pub proof fn lemma_rollover_admits(s: RateWindow, now: nat)
    requires
        s.wf(),
        s.limit > 0,
        now > s.start + s.window,
    ensures
        s.admits(now),
        s.after(now).count == 1,
        s.after(now).start == now,
{
}

/// A fixed-window counter of admitted requests.
#[derive(Debug)]
pub struct RateLimit {
    max_requests: usize,
    window: u64,
    requests: usize,
    last_reset: u64,
}

impl View for RateLimit {
    type V = RateWindow;

    closed spec fn view(&self) -> RateWindow {
        RateWindow {
            limit: self.max_requests as nat,
            window: self.window as nat,
            count: self.requests as nat,
            start: self.last_reset as nat,
        }
    }
}

impl RateLimit {
    /// At most the limit is ever admitted in the current window.
    #[verifier::type_invariant]
    spec fn inv(&self) -> bool {
        self.requests <= self.max_requests
    }

    /// A limiter that admits `max_requests` checks per `window` nanoseconds,
    /// with its first window starting at `now`.
    pub fn new(max_requests: usize, window: u64, now: u64) -> (r: RateLimit)
        ensures
            r@ == (RateWindow {
                limit: max_requests as nat,
                window: window as nat,
                count: 0,
                start: now as nat,
            }),
    {
        RateLimit { max_requests, window, requests: 0, last_reset: now }
    }

    /// Counts a request made at `now` and says whether it is admitted.
    pub fn check(&mut self, now: u64) -> (admitted: bool)
        ensures
            old(self)@.wf(),
            admitted == old(self)@.admits(now as nat),
            final(self)@ == old(self)@.after(now as nat),
            final(self)@.wf(),
            final(self)@.start >= old(self)@.start,
    {
        proof {
            use_type_invariant(&*self);
        }
        if now > self.last_reset && now - self.last_reset > self.window {
            self.requests = 0;
            self.last_reset = now;
        }
        if self.requests < self.max_requests {
            self.requests = self.requests + 1;
            true
        } else {
            false
        }
    }

    /// Checks admitted in the current window.
    pub fn requests(&self) -> (r: usize)
        ensures
            r as nat == self@.count,
    {
        self.requests
    }
}

} // verus!
