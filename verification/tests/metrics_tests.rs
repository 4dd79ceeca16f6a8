use gps_ntp::feed::FeedState;
use gps_ntp::metrics::{i64_to_string, u64_to_string, Metric, Metrics, QuantileMetric};
use gps_ntp::time::Instant;
use gps_ntp::ubx_nav::{NavPacket, NavStatus, NavFix, SVInfo, TimeGPS, Valid};

#[test]
fn quantile_order_statistics() {
    // S6: five samples in a five-slot ring
    let mut ring = QuantileMetric::new(5);
    for v in [10i64, 20, 30, 40, 50] {
        ring.update(v);
    }
    assert_eq!(ring.quantile(50), Some(30));
    assert_eq!(ring.quantile(99), Some(50));
    assert_eq!(ring.quantile(10), Some(10));
}

#[test]
fn quantile_empty_ring() {
    let ring = QuantileMetric::new(30);
    assert_eq!(ring.quantile(50), None);
}

#[test]
fn quantile_unsorted_input() {
    let mut ring = QuantileMetric::new(8);
    for v in [50i64, 10, 40, 20, 30] {
        ring.update(v);
    }
    assert_eq!(ring.quantile(0), Some(10));
    assert_eq!(ring.quantile(50), Some(30));
    assert_eq!(ring.quantile(99), Some(50));
}

#[test]
fn quantile_monotonic_in_q() {
    let mut ring = QuantileMetric::new(16);
    for v in [3i64, -7, 22, 8, 8, 0, 15, -2, 9] {
        ring.update(v);
    }
    let mut prev = ring.quantile(0).unwrap();
    for q in 1..=99u8 {
        let cur = ring.quantile(q).unwrap();
        assert!(prev <= cur);
        prev = cur;
    }
}

#[test]
fn ring_evicts_oldest() {
    // after N > C insertions the ring holds exactly the last C samples
    let mut ring = QuantileMetric::new(3);
    for v in [1i64, 2, 3, 4, 5] {
        ring.update(v);
    }
    // live samples are 3, 4, 5: the minimum is 3, the maximum 5
    assert_eq!(ring.quantile(0), Some(3));
    assert_eq!(ring.quantile(99), Some(5));
}

#[test]
fn ring_partial_fill() {
    let mut ring = QuantileMetric::new(30);
    ring.update(42);
    ring.update(7);
    assert_eq!(ring.quantile(0), Some(7));
    assert_eq!(ring.quantile(99), Some(42));
}

#[test]
fn decimal_formatting() {
    assert_eq!(u64_to_string(0), "0");
    assert_eq!(u64_to_string(7), "7");
    assert_eq!(u64_to_string(10), "10");
    assert_eq!(u64_to_string(18446744073709551615), "18446744073709551615");
    assert_eq!(i64_to_string(-1), "-1");
    assert_eq!(i64_to_string(-9223372036854775808), "-9223372036854775808");
    assert_eq!(i64_to_string(2024), "2024");
}

#[test]
fn metrics_serialize_empty() {
    // no samples yet: only the gauge and the two counters appear
    let m = Metrics::with_default_quantiles();
    let lines = m.serialize();
    assert_eq!(
        lines,
        vec!["has_fix 0", "received_ntp_queries 0", "answered_ntp_queries 0"]
    );
}

#[test]
fn metrics_serialize_lines() {
    let mut m = Metrics::with_default_quantiles();
    m.update(Metric::SatelliteCount(7));
    m.update(Metric::Accuracy(250_000));
    m.update(Metric::ClockAdjust(-3));
    m.update(Metric::HasFix(true));
    m.update(Metric::SensorUptime(55_000));
    m.update(Metric::ReceivedNtpQuery);
    m.update(Metric::ReceivedNtpQuery);
    m.update(Metric::AnsweredNtpQuery);
    let lines = m.serialize();
    let expected = vec![
        "satellite_count{quantile=\"0.10\"} 7",
        "satellite_count{quantile=\"0.50\"} 7",
        "satellite_count{quantile=\"0.90\"} 7",
        "satellite_count{quantile=\"0.99\"} 7",
        "gps_clock_accuracy_us{quantile=\"0.10\"} 250",
        "gps_clock_accuracy_us{quantile=\"0.50\"} 250",
        "gps_clock_accuracy_us{quantile=\"0.90\"} 250",
        "gps_clock_accuracy_us{quantile=\"0.99\"} 250",
        "rtc_clock_adjust_ms{quantile=\"0.10\"} -3",
        "rtc_clock_adjust_ms{quantile=\"0.50\"} -3",
        "rtc_clock_adjust_ms{quantile=\"0.90\"} -3",
        "rtc_clock_adjust_ms{quantile=\"0.99\"} -3",
        "has_fix 1",
        "received_ntp_queries 2",
        "answered_ntp_queries 1",
    ];
    assert_eq!(lines, expected);
}

fn good_timegps() -> TimeGPS {
    TimeGPS {
        milli: 71_201_998,
        nanos: -340_856,
        week: 1921,
        leap_sec: 17,
        valid_flags: Valid { time_of_week: true, week_num: true, leap_sec: true },
        accuracy_ns: 1,
    }
}

#[test]
fn feed_first_sync_drops_adjust() {
    let mut state = FeedState::new();
    let clock = Instant::new(3_686_845_000, 0);
    let out = state.process_nav(&NavPacket::TimeGPS(good_timegps()), clock);
    // the first sync publishes accuracy only: a clock-adjust sample
    // spanning the whole boot-to-now gap would be meaningless
    assert_eq!(out.metrics, vec![Metric::Accuracy(1)]);
    assert!(out.new_time.is_some());
    assert!(state.synced_once);

    let out = state.process_nav(&NavPacket::TimeGPS(good_timegps()), clock);
    assert_eq!(
        out.metrics,
        vec![Metric::Accuracy(1), Metric::ClockAdjust(584_997)]
    );
    let t = out.new_time.unwrap();
    assert_eq!(t.secs, 3_686_845_584);
    assert_eq!(t.nanos, 997_659_144);
}

#[test]
fn feed_gated_time_touches_nothing() {
    let mut state = FeedState::new();
    let clock = Instant::new(3_686_845_000, 0);
    let mut t = good_timegps();
    t.accuracy_ns = 200_000_000;
    let out = state.process_nav(&NavPacket::TimeGPS(t), clock);
    assert_eq!(out.metrics, vec![Metric::Accuracy(200_000_000)]);
    assert!(out.new_time.is_none());
    assert!(!state.synced_once);
}

#[test]
fn feed_status_and_svinfo() {
    let mut state = FeedState::new();
    let clock = Instant::new(3_686_845_000, 0);
    let status = NavStatus { milli: 0, fix: NavFix::Fix3D, time_to_fix: 0, uptime_ms: 9000 };
    let out = state.process_nav(&NavPacket::Status(status), clock);
    assert_eq!(
        out.metrics,
        vec![Metric::HasFix(true), Metric::SensorUptime(9000)]
    );
    assert!(out.new_time.is_none());

    let out = state.process_nav(&NavPacket::SVInfo(SVInfo { healthy_channels: 5 }), clock);
    assert_eq!(out.metrics, vec![Metric::SatelliteCount(5)]);
}
