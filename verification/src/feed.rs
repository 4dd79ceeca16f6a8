//! The feed stage's decision core: what one decoded navigation message
//! does to the metrics, the reference time, and the system clock. The
//! surrounding loop performs the I/O; every decision is made here.

use vstd::prelude::*;

use crate::metrics::Metric;
use crate::time::{spec_trunc_div, Instant};
use crate::ubx_nav::{spec_gps_total_nanos, NavPacket};

verus! {

/// What the feed remembers between messages: whether a first clock sync
/// has already happened.
#[derive(Debug, Copy, Clone, PartialEq, Eq, Structural)]
pub struct FeedState {
    pub synced_once: bool,
}

/// What one message asks the surrounding loop to do: publish these
/// metrics, and, when a time arrived, install it as the reference time
/// and write it into the system clock.
#[derive(Debug)]
pub struct FeedOutcome {
    pub metrics: Vec<Metric>,
    pub new_time: Option<Instant>,
}

impl FeedState {
    /// The state at boot: no sync has happened.
    pub fn new() -> (r: FeedState)
        ensures
            r.synced_once == false,
    {
        FeedState { synced_once: false }
    }

    /// Decides on one navigation message, given the current system
    /// clock reading. A GPS time message always publishes its accuracy;
    /// when it passes the quality gate it yields the new reference time
    /// and, on every sync but the first, a clock-adjust sample for the
    /// step about to be applied. A status message publishes fix and
    /// uptime, a satellite report its healthy channel count, and a
    /// calendar message nothing.
    pub fn process_nav(&mut self, nav: &NavPacket, clock_now: Instant) -> (r: FeedOutcome)
        requires
            clock_now.wf(),
            0 <= clock_now.secs <= 0x40_0000_0000,
        ensures
            (match *nav {
                NavPacket::TimeGPS(t) => {
                    let gate = t.accuracy_ns <= 100_000_000 && t.valid_flags.time_of_week
                        && t.valid_flags.week_num && t.valid_flags.leap_sec;
                    let adj = spec_trunc_div(
                        spec_gps_total_nanos(t) - clock_now.total_nanos(),
                        1_000_000,
                    );
                    &&& final(self).synced_once == (old(self).synced_once || gate)
                    &&& (if gate {
                        &&& r.new_time is Some
                        &&& r.new_time->0.wf()
                        &&& r.new_time->0.total_nanos() == spec_gps_total_nanos(t)
                        &&& (if old(self).synced_once {
                            r.metrics@ == seq![
                                Metric::Accuracy(t.accuracy_ns as u64),
                                Metric::ClockAdjust(adj as i64),
                            ]
                        } else {
                            r.metrics@ == seq![Metric::Accuracy(t.accuracy_ns as u64)]
                        })
                    } else {
                        &&& r.new_time is None
                        &&& r.metrics@ == seq![Metric::Accuracy(t.accuracy_ns as u64)]
                    })
                },
                NavPacket::Status(st) => {
                    &&& *final(self) == *old(self)
                    &&& r.new_time is None
                    &&& r.metrics@ == seq![
                        Metric::HasFix(!(st.fix is NoFix || st.fix is Reserved)),
                        Metric::SensorUptime(st.uptime_ms as u64),
                    ]
                },
                NavPacket::TimeUTC(_) => {
                    &&& *final(self) == *old(self)
                    &&& r.new_time is None
                    &&& r.metrics@ == Seq::<Metric>::empty()
                },
                NavPacket::SVInfo(sv) => {
                    &&& *final(self) == *old(self)
                    &&& r.new_time is None
                    &&& r.metrics@ == seq![Metric::SatelliteCount(sv.healthy_channels)]
                },
            }),
    {
        match nav {
            NavPacket::TimeGPS(t) => {
                let mut metrics: Vec<Metric> = Vec::new();
                metrics.push(Metric::Accuracy(t.accuracy_ns as u64));
                match t.to_utc() {
                    Some(new) => {
                        proof {
                            lemma_adjust_fits(new, clock_now);
                        }
                        let adj = new.millis_since(&clock_now);
                        if self.synced_once {
                            metrics.push(Metric::ClockAdjust(adj));
                            assert(metrics@ =~= seq![
                                Metric::Accuracy(t.accuracy_ns as u64),
                                Metric::ClockAdjust(adj),
                            ]);
                        }
                        self.synced_once = true;
                        FeedOutcome { metrics, new_time: Some(new) }
                    },
                    None => {
                        assert(metrics@ =~= seq![Metric::Accuracy(t.accuracy_ns as u64)]);
                        FeedOutcome { metrics, new_time: None }
                    },
                }
            },
            NavPacket::Status(st) => {
                let mut metrics: Vec<Metric> = Vec::new();
                metrics.push(Metric::HasFix(st.fix.valid()));
                metrics.push(Metric::SensorUptime(st.uptime_ms as u64));
                assert(metrics@ =~= seq![
                    Metric::HasFix(!(st.fix is NoFix || st.fix is Reserved)),
                    Metric::SensorUptime(st.uptime_ms as u64),
                ]);
                FeedOutcome { metrics, new_time: None }
            },
            NavPacket::TimeUTC(_) => {
                FeedOutcome { metrics: Vec::new(), new_time: None }
            },
            NavPacket::SVInfo(sv) => {
                let mut metrics: Vec<Metric> = Vec::new();
                metrics.push(Metric::SatelliteCount(sv.healthy_channels));
                assert(metrics@ =~= seq![Metric::SatelliteCount(sv.healthy_channels)]);
                FeedOutcome { metrics, new_time: None }
            },
        }
    }
}

/// The clock step between a decoded GPS instant and a sane clock reading
/// fits the signed millisecond field.
proof fn lemma_adjust_fits(new: Instant, clock_now: Instant)
    requires
        new.wf(),
        clock_now.wf(),
        0 <= clock_now.secs <= 0x40_0000_0000,
        -0x1_0000_0000_0000 <= new.secs <= 0x1_0000_0000_0000,
    ensures
        -0x7fff_ffff_ffff_ffff <= spec_trunc_div(
            new.total_nanos() - clock_now.total_nanos(),
            1_000_000,
        ) <= 0x7fff_ffff_ffff_ffff,
{
    let delta = new.total_nanos() - clock_now.total_nanos();
    assert(-0x2_0000_0000_0000 * 1_000_000_000 <= delta <= 0x2_0000_0000_0000 * 1_000_000_000);
    let bound: int = (0x2_0000_0000_0000 * 1_000_000_000) as int;
    if delta >= 0 {
        vstd::arithmetic::div_mod::lemma_div_is_ordered(delta, bound, 1_000_000);
    } else {
        vstd::arithmetic::div_mod::lemma_div_is_ordered(-delta, bound, 1_000_000);
    }
}

} // verus!
