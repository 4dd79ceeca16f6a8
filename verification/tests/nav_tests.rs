use chrono::{Datelike, Timelike};
use gps_ntp::time::{days_from_civil, Instant};
use gps_ntp::ubx::Packet;
use gps_ntp::ubx_nav::{NavFix, NavPacket, NavStatus, ParsedPacket, SVInfo, TimeGPS, TimeUTC, Valid};

/// Seconds from 1900-01-01 to 1970-01-01.
const UNIX_OFFSET: i64 = 2_208_988_800;

fn utc_datetime_of(t: Instant) -> chrono::DateTime<chrono::Utc> {
    chrono::DateTime::from_timestamp(t.secs - UNIX_OFFSET, t.nanos).unwrap()
}

fn timegps_frame(accuracy: [u8; 4]) -> Vec<u8> {
    let mut payload = vec![
        0xce, 0x74, 0x3e, 0x04, 0x88, 0xcc, 0xfa, 0xff, 0x81, 0x07, 0x11, 0x07,
    ];
    payload.extend(accuracy);
    Packet { class: gps_ntp::ubx::Class::Navigation, id: 0x20, payload }.serialize()
}

#[test]
fn parse_gps_packet() {
    let buf = timegps_frame([0x1, 0x00, 0x00, 0x00]);
    assert_eq!(&buf[buf.len() - 2..], &[163, 125]);
    let p = Packet::deserialize(&buf).unwrap();
    let pp = ParsedPacket::try_from_packet(&p).unwrap();
    match pp {
        ParsedPacket::Navigation(n) => match n {
            NavPacket::TimeGPS(t) => {
                assert_eq!(t.accuracy_ns, 1);
                // converted from GPS week plus seconds of week:
                // 2016-10-30T19:46:24.997659144Z
                let dt = utc_datetime_of(t.to_utc().unwrap());
                assert_eq!(dt.year(), 2016);
                assert_eq!(dt.month(), 10);
                assert_eq!(dt.day(), 30);
                assert_eq!(dt.hour(), 19);
                assert_eq!(dt.minute(), 46);
                assert_eq!(dt.second(), 24);
                assert_eq!(dt.nanosecond(), 997659144);
            }
            _ => panic!(),
        },
        _ => panic!(),
    }
}

#[test]
fn timegps_gate_accuracy() {
    // the quality gate: 100 ms accuracy passes, a nanosecond more fails
    let payload = vec![
        0xce, 0x74, 0x3e, 0x04, 0x88, 0xcc, 0xfa, 0xff, 0x81, 0x07, 0x11, 0x07, 0x00, 0xe1,
        0xf5, 0x05,
    ];
    let t = TimeGPS::from_payload(&payload);
    assert_eq!(t.accuracy_ns, 100_000_000);
    assert!(t.to_utc().is_some());

    let mut worse = payload.clone();
    worse[12] = 0x01;
    let t = TimeGPS::from_payload(&worse);
    assert_eq!(t.accuracy_ns, 100_000_001);
    assert!(t.to_utc().is_none());
}

#[test]
fn timegps_gate_flags() {
    // clearing the validity flags withholds the time
    let mut payload = vec![
        0xce, 0x74, 0x3e, 0x04, 0x88, 0xcc, 0xfa, 0xff, 0x81, 0x07, 0x11, 0x07, 0x01, 0x00,
        0x00, 0x00,
    ];
    payload[11] = 0x04;
    let t = TimeGPS::from_payload(&payload);
    assert!(!t.valid_flags.time_of_week);
    assert!(!t.valid_flags.week_num);
    assert!(!t.valid_flags.leap_sec);
    assert!(t.to_utc().is_none());
}

#[test]
fn valid_flags_masks() {
    // the leap flag tests the mask 0x3, so either low bit sets it
    let v = Valid::from_byte(0x01);
    assert!(v.time_of_week && !v.week_num && v.leap_sec);
    let v = Valid::from_byte(0x02);
    assert!(!v.time_of_week && v.week_num && v.leap_sec);
    let v = Valid::from_byte(0x07);
    assert!(v.time_of_week && v.week_num && v.leap_sec);
    let v = Valid::from_byte(0x00);
    assert!(!v.time_of_week && !v.week_num && !v.leap_sec);
}

#[test]
fn gps_to_utc_subtracts_leap_seconds() {
    // two payloads differing only in the leap count: seventeen leap
    // seconds pull the UTC instant seventeen seconds earlier
    let payload = vec![
        0xce, 0x74, 0x3e, 0x04, 0x88, 0xcc, 0xfa, 0xff, 0x81, 0x07, 0x11, 0x07, 0x01, 0x00,
        0x00, 0x00,
    ];
    let mut zero_leap = payload.clone();
    zero_leap[10] = 0x00;
    let with_leap = TimeGPS::from_payload(&payload).to_utc().unwrap();
    let without_leap = TimeGPS::from_payload(&zero_leap).to_utc().unwrap();
    assert_eq!(without_leap.secs - with_leap.secs, 17);
    assert_eq!(with_leap.nanos, without_leap.nanos);
}

#[test]
fn nav_status_decoding() {
    let mut payload = vec![0u8; 16];
    payload[0] = 0x10; // time of week
    payload[4] = 3; // 3D fix
    payload[12] = 0xe8;
    payload[13] = 0x03; // uptime 1000 ms
    let s = NavStatus::from_payload(&payload);
    assert!(matches!(s.fix, NavFix::Fix3D));
    assert!(s.fix.valid());
    assert_eq!(s.uptime_ms, 1000);

    payload[4] = 0;
    let s = NavStatus::from_payload(&payload);
    assert!(matches!(s.fix, NavFix::NoFix));
    assert!(!s.fix.valid());

    payload[4] = 0xee;
    let s = NavStatus::from_payload(&payload);
    assert!(matches!(s.fix, NavFix::Reserved));
    assert!(!s.fix.valid());
}

#[test]
fn svinfo_counts_healthy_channels() {
    // three channels: healthy+acquired, unhealthy+acquired, healthy+idle
    let mut payload = vec![0u8; 8 + 12 * 3];
    payload[4] = 3;
    payload[10] = 0x00;
    payload[11] = 0b100;
    payload[10 + 12] = 0x10;
    payload[11 + 12] = 0b100;
    payload[10 + 24] = 0x00;
    payload[11 + 24] = 0b001;
    let s = SVInfo::from_payload(&payload);
    assert_eq!(s.healthy_channels, 1);
}

#[test]
fn timeutc_composes_calendar_fields() {
    let mut payload = vec![0u8; 20];
    // 2016-10-30T19:46:24, 500 ns
    payload[8] = 0xf4;
    payload[9] = 0x01; // nanos = 500
    payload[12] = 0xe0;
    payload[13] = 0x07; // year 2016
    payload[14] = 10;
    payload[15] = 30;
    payload[16] = 19;
    payload[17] = 46;
    payload[18] = 24;
    payload[19] = 0x07;
    let t = TimeUTC::from_payload(&payload);
    assert_eq!(t.year, 2016);
    let instant = t.to_instant();
    let dt = utc_datetime_of(instant);
    assert_eq!(dt.year(), 2016);
    assert_eq!(dt.month(), 10);
    assert_eq!(dt.day(), 30);
    assert_eq!(dt.hour(), 19);
    assert_eq!(dt.minute(), 46);
    assert_eq!(dt.second(), 24);
    assert_eq!(dt.nanosecond(), 500);
}

#[test]
fn civil_day_numbers_match_calendar() {
    // spot checks of the day-number formula against the calendar oracle
    for (y, m, d) in [
        (1970u16, 1u8, 1u8),
        (1980, 1, 6),
        (1900, 1, 1),
        (2000, 2, 29),
        (2016, 10, 30),
        (2038, 1, 19),
    ] {
        let expected = chrono::NaiveDate::from_ymd_opt(y as i32, m as u32, d as u32)
            .unwrap()
            .signed_duration_since(chrono::NaiveDate::from_ymd_opt(1970, 1, 1).unwrap())
            .num_days();
        assert_eq!(days_from_civil(y, m, d), expected);
    }
}

#[test]
fn nack_and_short_payloads() {
    let p = Packet { class: gps_ntp::ubx::Class::AckNack, id: 0, payload: vec![] };
    assert!(matches!(ParsedPacket::try_from_packet(&p), Some(ParsedPacket::Nack)));

    // a navigation frame with a truncated payload is refused
    let p = Packet { class: gps_ntp::ubx::Class::Navigation, id: 0x20, payload: vec![0; 15] };
    assert!(ParsedPacket::try_from_packet(&p).is_none());

    // an unknown navigation id is refused
    let p = Packet { class: gps_ntp::ubx::Class::Navigation, id: 0x77, payload: vec![0; 32] };
    assert!(ParsedPacket::try_from_packet(&p).is_none());
}
