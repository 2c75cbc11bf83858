//! Reno-style congestion controller: slow start below the threshold,
//! additive increase above it, a full restart on a retransmission timeout,
//! and a plain halving on a fast retransmit.
//!
//! The window is kept in fixed point: one window unit is `CWND_UNIT` ticks,
//! so `cwnd` ticks stand for the real-valued window `cwnd / CWND_UNIT`.
//! The usable window is the floor of that quotient.

use vstd::prelude::*;

verus! {

/// Fixed-point scale: ticks per one whole congestion-window unit.
pub const CWND_UNIT: u32 = 1024;

/// Smallest window, one unit: `1.0` in fixed point.
pub const MIN_CWND: u32 = 1024;

/// Largest window, sixty-four units: `64.0` in fixed point.
pub const MAX_CWND: u32 = 65536;

/// Window at the start of a transfer: `2.0` in fixed point.
pub const INITIAL_CWND: u32 = 2048;

/// Slow-start threshold at the start of a transfer: `64.0` in fixed point.
pub const INITIAL_SSTHRESH: u32 = 65536;

pub struct CongestionControl {
    /// Congestion window, in `1/CWND_UNIT` window ticks.
    pub cwnd: u32,
    /// Slow-start threshold, in the same ticks.
    pub ssthresh: u32,
}

impl CongestionControl {
    /// Both state variables stay between one and sixty-four window units.
    pub open spec fn wf(self) -> bool {
        &&& MIN_CWND <= self.cwnd <= MAX_CWND
        &&& MIN_CWND <= self.ssthresh <= MAX_CWND
    }

    pub fn new() -> (r: Self)
        ensures
            r.wf(),
            r.cwnd == INITIAL_CWND,
            r.ssthresh == INITIAL_SSTHRESH,
    {
        Self { cwnd: INITIAL_CWND, ssthresh: INITIAL_SSTHRESH }
    }

    /// Called once per newly cumulatively-acknowledged segment: grow by one
    /// unit in slow start, by `1/cwnd` of a unit in congestion avoidance,
    /// clamped to the largest window.
    pub fn on_ack(&mut self)
        requires
            old(self).wf(),
        ensures
            final(self).wf(),
            final(self).cwnd == grown_cwnd(old(self).cwnd as int, old(self).ssthresh as int),
            final(self).ssthresh == old(self).ssthresh,
            final(self).cwnd >= old(self).cwnd,
            *final(self) == controller_after_ack(*old(self)),
    {
        let grown: u32 = if self.cwnd < self.ssthresh {
            self.cwnd + CWND_UNIT
        } else {
            assert((CWND_UNIT as int * CWND_UNIT as int) / self.cwnd as int <= CWND_UNIT as int)
                by (nonlinear_arith)
                requires
                    MIN_CWND <= self.cwnd,
            ;
            self.cwnd + (CWND_UNIT * CWND_UNIT) / self.cwnd
        };
        self.cwnd = if grown > MAX_CWND {
            MAX_CWND
        } else {
            grown
        };
    }

    /// A retransmission timer expired with no duplicate-ack signal: remember
    /// half the window as the new threshold and restart from the smallest
    /// window (slow start again).
    pub fn on_timeout(&mut self)
        requires
            old(self).wf(),
        ensures
            final(self).wf(),
            final(self).cwnd == MIN_CWND,
            final(self).ssthresh == halved_cwnd(old(self).cwnd as int),
            final(self).cwnd <= old(self).cwnd,
            *final(self) == controller_after_timeout(*old(self)),
    {
        self.ssthresh = if self.cwnd / 2 > MIN_CWND {
            self.cwnd / 2
        } else {
            MIN_CWND
        };
        self.cwnd = MIN_CWND;
    }

    /// Three duplicate cumulative acknowledgments: halve only, keeping the
    /// window at the new threshold, with no reset to the smallest window.
    pub fn on_fast_retransmit(&mut self)
        requires
            old(self).wf(),
        ensures
            final(self).wf(),
            final(self).cwnd == halved_cwnd(old(self).cwnd as int),
            final(self).ssthresh == halved_cwnd(old(self).cwnd as int),
            final(self).cwnd <= old(self).cwnd,
            *final(self) == controller_after_fast_retransmit(*old(self)),
    {
        self.ssthresh = if self.cwnd / 2 > MIN_CWND {
            self.cwnd / 2
        } else {
            MIN_CWND
        };
        self.cwnd = self.ssthresh;
    }

    /// The usable send window: the floor of the fixed-point window, always
    /// between one and sixty-four segments.
    pub fn window(&self) -> (w: usize)
        requires
            self.wf(),
        ensures
            w == spec_window(*self),
            1 <= w <= 64,
    {
        (self.cwnd / CWND_UNIT) as usize
    }
}

impl Default for CongestionControl {
    fn default() -> (r: Self)
        ensures
            r.wf(),
            r.cwnd == INITIAL_CWND,
            r.ssthresh == INITIAL_SSTHRESH,
    {
        Self::new()
    }
}

/// Window after one acknowledgment, in ticks: one unit below the threshold,
/// `1/cwnd` of a unit otherwise, clamped to the largest window.
pub open spec fn grown_cwnd(cwnd: int, ssthresh: int) -> int {
    let grown = if cwnd < ssthresh {
        cwnd + CWND_UNIT as int
    } else {
        cwnd + (CWND_UNIT as int * CWND_UNIT as int) / cwnd
    };
    if grown > MAX_CWND as int {
        MAX_CWND as int
    } else {
        grown
    }
}

/// Half the window, in ticks, never below the smallest window: the value both
/// loss events store as the new slow-start threshold.
pub open spec fn halved_cwnd(cwnd: int) -> int {
    if cwnd / 2 > MIN_CWND as int {
        cwnd / 2
    } else {
        MIN_CWND as int
    }
}

/// The usable send window of a controller: the floor of its fixed-point
/// window.
pub open spec fn spec_window(c: CongestionControl) -> int {
    c.cwnd as int / CWND_UNIT as int
}

/// The whole controller after one acknowledgment: what `on_ack` leaves
/// behind.
pub open spec fn controller_after_ack(c: CongestionControl) -> CongestionControl {
    (CongestionControl {
        cwnd: grown_cwnd(c.cwnd as int, c.ssthresh as int) as u32,
        ssthresh: c.ssthresh,
    })
}

/// The whole controller after `n` acknowledgments in a row.
pub open spec fn controller_after_acks(c: CongestionControl, n: nat) -> CongestionControl
    decreases n,
{
    if n == 0 {
        c
    } else {
        controller_after_ack(controller_after_acks(c, (n - 1) as nat))
    }
}

/// The whole controller after a retransmission timeout: what `on_timeout`
/// leaves behind.
pub open spec fn controller_after_timeout(c: CongestionControl) -> CongestionControl {
    (CongestionControl { cwnd: MIN_CWND, ssthresh: halved_cwnd(c.cwnd as int) as u32 })
}

/// The whole controller after a fast retransmit: what `on_fast_retransmit`
/// leaves behind.
pub open spec fn controller_after_fast_retransmit(c: CongestionControl) -> CongestionControl {
    (CongestionControl {
        cwnd: halved_cwnd(c.cwnd as int) as u32,
        ssthresh: halved_cwnd(c.cwnd as int) as u32,
    })
}

/// Window after `n` acknowledgments in a row, starting from `cwnd` with a
/// fixed threshold `ssthresh` (acknowledgments leave the threshold alone).
pub open spec fn cwnd_after_acks(cwnd: int, ssthresh: int, n: nat) -> int
    decreases n,
{
    if n == 0 {
        cwnd
    } else {
        grown_cwnd(cwnd_after_acks(cwnd, ssthresh, (n - 1) as nat), ssthresh)
    }
}

/// Law: any run of acknowledgments never decreases the congestion window,
/// and keeps it within its bounds.
pub proof fn lemma_repeated_acks_never_decrease_cwnd(cwnd: int, ssthresh: int, n: nat)
    requires
        MIN_CWND <= cwnd <= MAX_CWND,
        MIN_CWND <= ssthresh <= MAX_CWND,
    ensures
        cwnd <= cwnd_after_acks(cwnd, ssthresh, n) <= MAX_CWND,
    decreases n,
{
    if n > 0 {
        lemma_repeated_acks_never_decrease_cwnd(cwnd, ssthresh, (n - 1) as nat);
        let prev = cwnd_after_acks(cwnd, ssthresh, (n - 1) as nat);
        assert(0 <= (CWND_UNIT as int * CWND_UNIT as int) / prev <= CWND_UNIT as int)
            by (nonlinear_arith)
            requires
                MIN_CWND <= prev,
        ;
    }
}

/// Law: a timeout or a fast retransmit never increases the congestion
/// window: the halved value both events compute stays between the smallest
/// window and the window they started from.
pub proof fn lemma_loss_events_never_increase_cwnd(cwnd: int)
    requires
        MIN_CWND <= cwnd <= MAX_CWND,
    ensures
        MIN_CWND <= halved_cwnd(cwnd) <= cwnd,
        MIN_CWND <= cwnd,
{
}

} // verus!
