use std::time::Duration;

use chrono::{NaiveDate, TimeZone, Utc};
use gps_ntp::ntp::{
    ntp_zero, Fix32, LeapIndicator, Mode, NTPFlags, NTPMessage, NTPQuery, NTPTimestamp,
    PeerPrecision, Reference, VersionNumber,
};
use gps_ntp::server::GPSServer;
use gps_ntp::time::Instant;
use gps_ntp::ubx::Serialize;

/// Seconds from 1900-01-01 to 1970-01-01: the offset between the NTP
/// epoch and the Unix epoch.
const UNIX_OFFSET: i64 = 2_208_988_800;

fn instant_from_ymd_hms(y: i32, mo: u32, d: u32, h: u32, mi: u32, s: u32) -> Instant {
    let dt = Utc
        .from_utc_datetime(
            &NaiveDate::from_ymd_opt(y, mo, d).unwrap().and_hms_opt(h, mi, s).unwrap(),
        );
    Instant::new(dt.timestamp() + UNIX_OFFSET, 0)
}

#[test]
fn lib_serialize_flags() {
    let flags = NTPFlags { v: VersionNumber(3), l: LeapIndicator::Alarm, m: Mode::SymActive };
    let result: u8 = flags.to_byte();
    assert_eq!(result, 0xd9);
}

#[test]
fn proto_serialize_flags() {
    let flags = NTPFlags { v: VersionNumber(3), l: LeapIndicator::Alarm, m: Mode::SymActive };
    let result: u8 = flags.to_byte();
    assert_eq!(result, 0xd9);
}

#[test]
fn serialize_root_delay() {
    assert_eq!(Fix32 { i: 0, f: 0 }.serialize(), vec![0, 0, 0, 0]);

    assert_eq!(Fix32 { i: 1, f: 0 }.serialize(), vec![0, 1, 0, 0]);
    assert_eq!(Fix32 { i: 2, f: 0 }.serialize(), vec![0, 2, 0, 0]);

    assert_eq!(Fix32 { i: 256 * 1, f: 0 }.serialize(), vec![1, 0, 0, 0]);
    assert_eq!(Fix32 { i: 256 * 2, f: 0 }.serialize(), vec![2, 0, 0, 0]);

    assert_eq!(Fix32 { i: 0, f: 1 }.serialize(), vec![0, 0, 0, 1]);
    assert_eq!(Fix32 { i: 0, f: 2 }.serialize(), vec![0, 0, 0, 2]);

    assert_eq!(Fix32 { i: 0, f: 256 * 1 }.serialize(), vec![0, 0, 1, 0]);
    assert_eq!(Fix32 { i: 0, f: 256 * 2 }.serialize(), vec![0, 0, 2, 0]);
}

#[test]
fn test_serialize_ref_id() {
    assert_eq!(Reference::GPS.serialize(), vec![b'G', b'P', b'S', 0]);
    assert_eq!(Reference::IPv4(1, 2, 3, 4).serialize(), vec![1, 2, 3, 4]);
}

#[test]
fn test_serialize_timestamp() {
    assert_eq!(
        NTPTimestamp::from_instant(&ntp_zero()).serialize(),
        vec![0, 0, 0, 0, 0, 0, 0, 0]
    )
}

#[test]
fn test_peer_precision_duration() {
    let from = |d: Duration| PeerPrecision::from_duration(d.as_secs(), d.subsec_nanos());
    assert_eq!(from(Duration::from_nanos(1)).0, -30);
    assert_eq!(from(Duration::from_micros(1)).0, -20);
    assert_eq!(from(Duration::from_millis(1)).0, -10);
    assert_eq!(from(Duration::from_secs(1)).0, 0);
    assert_eq!(from(Duration::from_secs(2)).0, 1);
}

#[test]
fn test_peer_precision_f32() {
    assert_eq!(PeerPrecision::from_fraction(1, 1025).0, -11);
    assert_eq!(PeerPrecision::from_fraction(1, 1024).0, -10);
    assert_eq!(PeerPrecision::from_fraction(1, 513).0, -10);
    assert_eq!(PeerPrecision::from_fraction(1, 512).0, -9);
    assert_eq!(PeerPrecision::from_fraction(1, 511).0, -9);
    assert_eq!(PeerPrecision::from_fraction(1, 1).0, 0);
}

#[test]
fn test_fix32_from_duration() {
    let from = |d: Duration| Fix32::from_duration(d.as_secs(), d.subsec_micros());
    let got = from(Duration::from_micros(1526));
    let expected = Fix32 { i: 0, f: 100 };
    assert_eq!(expected, got);

    let got = from(Duration::from_micros(153));
    let expected = Fix32 { i: 0, f: 10 };
    assert_eq!(expected, got);

    let got = from(Duration::from_micros(16));
    let expected = Fix32 { i: 0, f: 1 };
    assert_eq!(expected, got);
}

fn root_answer_expected() -> Vec<u8> {
    vec![
        0x1a, 0x1, 0xa, 0xf0,
        /* root_delay */
        0, 0, 0, 0,
        /* root_dispersion */
        0, 0, 0, 0,
        /* ref id */
        b'G', b'P', b'S', 0,
        /* ref tstamp */
        197, 2, 4, 122, 0, 0, 0, 0,
        /* origin tstamp */
        197, 2, 4, 122, 0, 0, 0, 0,
        /* rcv tstamp */
        197, 2, 4, 122, 0, 0, 0, 0,
        /* transmit tstamp */
        197, 2, 4, 122, 0, 0, 0, 0,
    ]
}

#[test]
fn lib_serialize_root_answer() {
    let ts = NTPTimestamp::from_instant(&instant_from_ymd_hms(2004, 9, 27, 3, 16, 10));
    let m = NTPMessage {
        flags: NTPFlags {
            v: VersionNumber(3),
            l: LeapIndicator::NoWarning,
            m: Mode::SymPassive,
        },
        peer_stratum: 1,
        peer_polling_interval: 10,
        peer_clock_precision: PeerPrecision(0xf0u8 as i8),
        root_delay: Fix32 { i: 0, f: 0 },
        root_dispersion: Fix32 { i: 0, f: 0 },
        ref_id: Reference::GPS,
        ref_tstamp: ts,
        origin_tstamp: ts,
        rcv_tstamp: ts,
        transmit_tstamp: ts,
    };

    assert_eq!(m.serialize(), root_answer_expected());
}

#[test]
fn proto_serialize_root_answer() {
    let ts = NTPTimestamp::from_instant(&instant_from_ymd_hms(2004, 9, 27, 3, 16, 10));
    let precision = {
        let d = Duration::from_micros(15);
        PeerPrecision::from_duration(d.as_secs(), d.subsec_nanos())
    };
    let dispersion = {
        let d = Duration::from_micros(320);
        Fix32::from_duration(d.as_secs(), d.subsec_micros())
    };
    let m = NTPMessage {
        flags: NTPFlags {
            v: VersionNumber(3),
            l: LeapIndicator::NoWarning,
            m: Mode::SymPassive,
        },
        peer_stratum: 1,
        peer_polling_interval: 10,
        peer_clock_precision: precision,
        root_delay: Fix32 { i: 0, f: 0 },
        root_dispersion: dispersion,
        ref_id: Reference::GPS,
        ref_tstamp: ts,
        origin_tstamp: ts,
        rcv_tstamp: ts,
        transmit_tstamp: ts,
    };

    let mut expected = root_answer_expected();
    // the proto variant carries a computed dispersion of 320 microseconds
    expected[11] = 0x14;
    assert_eq!(m.serialize(), expected);
}

fn sample_query_bytes() -> Vec<u8> {
    let mut q = vec![0u8; 48];
    q[0] = 0x1b; // leap 0, version 3, mode 3 (client)
    // transmit timestamp: 2004-09-27T03:16:10Z, zero fraction
    q[40] = 197;
    q[41] = 2;
    q[42] = 4;
    q[43] = 122;
    q
}

#[test]
fn query_deserialize_length_gate() {
    let q = sample_query_bytes();
    assert!(NTPQuery::deserialize(&q).is_some());
    assert!(NTPQuery::deserialize(&q[..47]).is_none());
    let mut long = q.clone();
    long.push(0);
    assert!(NTPQuery::deserialize(&long).is_none());
}

#[test]
fn query_deserialize_fields() {
    let q = NTPQuery::deserialize(&sample_query_bytes()).unwrap();
    assert_eq!(q.flags.v.0, 3);
    assert!(matches!(q.flags.m, Mode::Client));
    assert!(matches!(q.flags.l, LeapIndicator::NoWarning));
    assert_eq!(q.transmit_tstamp, NTPTimestamp { int_part: 0xc502047a, frac_part: 0 });
}

#[test]
fn ntp_alarm_reply() {
    // an unsynchronized server answers with alarm bits and stratum 16
    let srv = GPSServer::new();
    let q = NTPQuery::deserialize(&sample_query_bytes()).unwrap();
    let now = instant_from_ymd_hms(2004, 9, 27, 3, 16, 10);
    let reply = srv.answer_query(&q, now, now).serialize();
    // leap 11, version 011, mode 100
    assert_eq!(reply[0], 0xdc);
    assert_eq!(reply[0] >> 6, 0b11);
    assert_eq!(reply[1], 16);
    // reference timestamp is the NTP epoch
    assert_eq!(&reply[16..24], &[0, 0, 0, 0, 0, 0, 0, 0]);
}

#[test]
fn ntp_synced_reply() {
    let mut srv = GPSServer::new();
    let reftime = instant_from_ymd_hms(2004, 9, 27, 3, 16, 10);
    srv.update_reference_time(reftime);
    let qb = sample_query_bytes();
    let q = NTPQuery::deserialize(&qb).unwrap();
    let now = reftime;
    let reply = srv.answer_query(&q, now, now).serialize();
    assert_eq!(reply.len(), 48);
    assert_eq!(reply[0], 0x1a);
    assert_eq!(reply[1], 1);
    assert_eq!(&reply[12..16], &[b'G', b'P', b'S', 0]);
    // reference timestamp names the installed reference time
    assert_eq!(&reply[16..24], &[197, 2, 4, 122, 0, 0, 0, 0]);
    // the origin timestamp echoes the query's transmit timestamp
    assert_eq!(&reply[24..32], &qb[40..48]);
}
