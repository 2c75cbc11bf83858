//! Round-trip-time estimator: an exponentially-weighted mean and variance
//! over trusted samples, the derived retransmission timeout, and an explicit
//! backoff for timeouts that yield no trustworthy sample.
//!
//! The mean and the variance are kept in fixed point: `RTT_UNIT` ticks stand
//! for one millisecond, so the weights `7/8`, `1/8`, `3/4` and `1/4` of the
//! estimator only ever divide by small powers of two.  The derived timeout is
//! kept in whole milliseconds.

use vstd::prelude::*;

verus! {

/// Fixed-point scale: ticks per millisecond of smoothed time.
pub const RTT_UNIT: u64 = 8;

/// Timeout before any sample has been folded in, in milliseconds.
pub const INITIAL_RTO_MS: u64 = 1000;

/// Smallest derived timeout, in milliseconds.
pub const MIN_RTO_MS: u64 = 200;

/// Largest derived timeout, in milliseconds.
pub const MAX_RTO_MS: u64 = 10000;

/// Largest accepted round-trip sample, in milliseconds: a machine limit that
/// keeps every fixed-point intermediate inside a `u64`.
pub const MAX_SAMPLE_MS: u64 = 0x00FF_FFFF_FFFF_FFFF;

/// Largest smoothed value, in ticks: the scale times the largest sample.
pub const MAX_SMOOTHED_TICKS: u64 = 8 * 0x00FF_FFFF_FFFF_FFFF;

pub struct RttEstimator {
    /// Smoothed round-trip time, in `1/RTT_UNIT` millisecond ticks;
    /// zero means that no sample has been folded in yet.
    pub srtt: u64,
    /// Round-trip-time variance, in the same ticks.
    pub rttvar: u64,
    /// Current retransmission timeout, in whole milliseconds.
    pub rto_ms: u64,
}

impl RttEstimator {
    /// The timeout stays within its clamp, and the smoothed values stay
    /// below the bound that keeps the update arithmetic inside a `u64`.
    pub open spec fn wf(self) -> bool {
        &&& MIN_RTO_MS <= self.rto_ms <= MAX_RTO_MS
        &&& self.srtt <= MAX_SMOOTHED_TICKS
        &&& self.rttvar <= MAX_SMOOTHED_TICKS
    }

    pub fn new() -> (r: Self)
        ensures
            r.wf(),
            r.srtt == 0,
            r.rttvar == 0,
            r.rto_ms == INITIAL_RTO_MS,
    {
        Self { srtt: 0, rttvar: 0, rto_ms: INITIAL_RTO_MS }
    }

    /// Folds one round-trip sample in.  The first sample seeds the mean with
    /// itself and the variance with half of itself; later samples are
    /// weighted an eighth into the mean and a quarter into the variance.
    /// After every update the timeout is re-derived from mean and variance.
    pub fn update(&mut self, rtt_ms: u64)
        requires
            old(self).wf(),
            rtt_ms <= MAX_SAMPLE_MS,
        ensures
            final(self).wf(),
            *final(self) == estimator_after_sample(*old(self), rtt_ms as int),
    {
        let ticks = rtt_ms * RTT_UNIT;
        if self.srtt == 0 {
            self.srtt = ticks;
            self.rttvar = ticks / 2;
        } else {
            let deviation = if self.srtt >= ticks {
                self.srtt - ticks
            } else {
                ticks - self.srtt
            };
            self.rttvar = (3 * self.rttvar + deviation) / 4;
            self.srtt = (7 * self.srtt + ticks) / 8;
        }
        self.update_rto();
    }

    /// Doubles the timeout, capped at its largest value: for a timeout that
    /// fired without a trustworthy sample.
    pub fn backoff(&mut self)
        requires
            old(self).wf(),
        ensures
            final(self).wf(),
            *final(self) == estimator_after_backoff(*old(self)),
            final(self).rto_ms >= old(self).rto_ms,
    {
        let doubled = self.rto_ms * 2;
        self.rto_ms = if doubled > MAX_RTO_MS {
            MAX_RTO_MS
        } else {
            doubled
        };
    }

    /// Re-derives the timeout as mean plus four times the variance, clamped.
    fn update_rto(&mut self)
        requires
            old(self).srtt <= MAX_SMOOTHED_TICKS,
            old(self).rttvar <= MAX_SMOOTHED_TICKS,
        ensures
            final(self).srtt == old(self).srtt,
            final(self).rttvar == old(self).rttvar,
            final(self).rto_ms == derived_rto_ms(old(self).srtt as int, old(self).rttvar as int),
            final(self).wf(),
    {
        let raw_ms = (self.srtt + 4 * self.rttvar) / RTT_UNIT;
        self.rto_ms = if raw_ms < MIN_RTO_MS {
            MIN_RTO_MS
        } else if raw_ms > MAX_RTO_MS {
            MAX_RTO_MS
        } else {
            raw_ms
        };
    }
}

impl Default for RttEstimator {
    fn default() -> (r: Self)
        ensures
            r.wf(),
            r.srtt == 0,
            r.rttvar == 0,
            r.rto_ms == INITIAL_RTO_MS,
    {
        Self::new()
    }
}

/// Smoothed mean after one further sample, in ticks: seven eighths of the
/// old mean plus an eighth of the sample.
pub open spec fn updated_srtt(srtt: int, sample_ticks: int) -> int {
    (7 * srtt + sample_ticks) / 8
}

/// Variance after one further sample, in ticks: three quarters of the old
/// variance plus a quarter of the absolute deviation of the sample from the
/// old mean.
pub open spec fn updated_rttvar(srtt: int, rttvar: int, sample_ticks: int) -> int {
    let deviation = if srtt >= sample_ticks {
        srtt - sample_ticks
    } else {
        sample_ticks - srtt
    };
    (3 * rttvar + deviation) / 4
}

/// Timeout derived from mean and variance: mean plus four variances,
/// converted to milliseconds and clamped between the smallest and the
/// largest timeout.
pub open spec fn derived_rto_ms(srtt: int, rttvar: int) -> int {
    let raw_ms = (srtt + 4 * rttvar) / RTT_UNIT as int;
    if raw_ms < MIN_RTO_MS as int {
        MIN_RTO_MS as int
    } else if raw_ms > MAX_RTO_MS as int {
        MAX_RTO_MS as int
    } else {
        raw_ms
    }
}

/// The whole estimator state after folding in one sample, given in
/// milliseconds: what `update` leaves behind.
pub open spec fn estimator_after_sample(e: RttEstimator, sample_ms: int) -> RttEstimator {
    let sample_ticks = sample_ms * RTT_UNIT as int;
    let srtt2 = if e.srtt == 0 {
        sample_ticks
    } else {
        updated_srtt(e.srtt as int, sample_ticks)
    };
    let rttvar2 = if e.srtt == 0 {
        sample_ticks / 2
    } else {
        updated_rttvar(e.srtt as int, e.rttvar as int, sample_ticks)
    };
    (RttEstimator {
        srtt: srtt2 as u64,
        rttvar: rttvar2 as u64,
        rto_ms: derived_rto_ms(srtt2, rttvar2) as u64,
    })
}

/// The whole estimator state after one backoff: the timeout doubled and
/// capped, mean and variance untouched.
pub open spec fn estimator_after_backoff(e: RttEstimator) -> RttEstimator {
    let doubled = 2 * e.rto_ms as int;
    (RttEstimator {
        srtt: e.srtt,
        rttvar: e.rttvar,
        rto_ms: if doubled > MAX_RTO_MS as int {
            MAX_RTO_MS
        } else {
            doubled as u64
        },
    })
}

} // verus!
