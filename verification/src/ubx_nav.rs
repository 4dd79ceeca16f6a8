//! UBX navigation-class payloads: status, satellite info, GPS time and UTC
//! calendar time, each decoded from fixed little-endian offsets, and the
//! gated conversion of GPS time to UTC.

use vstd::prelude::*;

use crate::bytes::{spec_as_i16, spec_as_i32, spec_as_i8, spec_u16_le_at, spec_u32_le_at};
use crate::bytes::{i16_le_at, i32_le_at, i8_at, u32_le_at};
use crate::time::{instant_from_secs_and_nanos, spec_days_from_civil, spec_valid_civil};
use crate::time::{days_from_civil, Instant, DAYS_1900_TO_1970, GPS_EPOCH_SECS};
use crate::ubx::{Class, Packet, Poll};
use crate::ubx_cfg::CfgPacket;

verus! {

/// A navigation-class message of any supported id.
#[derive(Debug)]
pub enum NavPacket {
    Status(NavStatus),
    TimeUTC(TimeUTC),
    TimeGPS(TimeGPS),
    SVInfo(SVInfo),
}

impl NavPacket {
    /// Decodes a navigation packet by id, `None` when the id is unknown or
    /// the payload too short for it.
    pub fn try_from_packet(p: &Packet) -> (r: Option<NavPacket>)
        requires
            p.class == Class::Navigation,
        ensures
            (r is Some) == (nav_payload_ok(p.id, p.payload@)),
            r is Some ==> (match r->0 {
                NavPacket::Status(s) => p.id == 0x03 && s == spec_nav_status(p.payload@),
                NavPacket::TimeGPS(t) => p.id == 0x20 && t == spec_time_gps(p.payload@),
                NavPacket::TimeUTC(t) => p.id == 0x21 && t == spec_time_utc(p.payload@),
                NavPacket::SVInfo(s) => p.id == 0x30 && s.healthy_channels as int
                    == spec_healthy_count(p.payload@, p.payload@[4] as int),
            }),
    {
        match p.id {
            0x03 => {
                if p.payload.len() >= 16 {
                    Some(NavPacket::Status(NavStatus::from_payload(p.payload.as_slice())))
                } else {
                    None
                }
            },
            0x20 => {
                if p.payload.len() >= 16 {
                    Some(NavPacket::TimeGPS(TimeGPS::from_payload(p.payload.as_slice())))
                } else {
                    None
                }
            },
            0x21 => {
                if p.payload.len() >= 20 {
                    Some(NavPacket::TimeUTC(TimeUTC::from_payload(p.payload.as_slice())))
                } else {
                    None
                }
            },
            0x30 => {
                if p.payload.len() >= 8 && p.payload.len() >= 8 + 12 * (p.payload[4] as usize) {
                    Some(NavPacket::SVInfo(SVInfo::from_payload(p.payload.as_slice())))
                } else {
                    None
                }
            },
            _ => None,
        }
    }
}

/// Whether a navigation payload of the given id is long enough to decode:
/// the fixed sizes of the time and status messages, and for satellite info
/// room for every channel block the count byte announces.
pub open spec fn nav_payload_ok(id: u8, s: Seq<u8>) -> bool {
    if id == 0x03 || id == 0x20 {
        s.len() >= 16
    } else if id == 0x21 {
        s.len() >= 20
    } else if id == 0x30 {
        s.len() >= 8 && 8 + 12 * s[4] <= s.len()
    } else {
        false
    }
}

/// Quality of a GPS fix.
#[derive(Debug, Copy, Clone, PartialEq, Eq, Structural)]
pub enum NavFix {
    NoFix,
    DeadReckoning,
    Fix2D,
    Fix3D,
    GpsDeadReckoning,
    TimeOnly,
    Reserved,
}

/// Fix byte decoding: the six named kinds, everything else reserved.
pub open spec fn spec_nav_fix(u: u8) -> NavFix {
    match u {
        0u8 => NavFix::NoFix,
        1u8 => NavFix::DeadReckoning,
        2u8 => NavFix::Fix2D,
        3u8 => NavFix::Fix3D,
        4u8 => NavFix::GpsDeadReckoning,
        5u8 => NavFix::TimeOnly,
        _ => NavFix::Reserved,
    }
}

impl NavFix {
    /// True for every fix kind that carries usable time: everything but
    /// `NoFix` and `Reserved`.
    pub fn valid(&self) -> (r: bool)
        ensures
            r == !(self is NoFix || self is Reserved),
    {
        match self {
            NavFix::NoFix => false,
            NavFix::Reserved => false,
            _ => true,
        }
    }

    /// Decodes the fix byte.
    pub fn from_byte(u: u8) -> (r: NavFix)
        ensures
            r == spec_nav_fix(u),
    {
        match u {
            0 => NavFix::NoFix,
            1 => NavFix::DeadReckoning,
            2 => NavFix::Fix2D,
            3 => NavFix::Fix3D,
            4 => NavFix::GpsDeadReckoning,
            5 => NavFix::TimeOnly,
            _ => NavFix::Reserved,
        }
    }
}

/// NAV-STATUS: fix quality and receiver uptime.
#[derive(Debug, Copy, Clone, PartialEq, Eq, Structural)]
pub struct NavStatus {
    pub milli: u32,
    pub fix: NavFix,
    pub time_to_fix: u32,
    /// Receiver uptime in milliseconds.
    pub uptime_ms: u32,
}

/// NAV-STATUS decoding at its fixed offsets.
pub open spec fn spec_nav_status(s: Seq<u8>) -> NavStatus {
    NavStatus {
        milli: spec_u32_le_at(s, 0) as u32,
        fix: spec_nav_fix(s[4]),
        time_to_fix: spec_u32_le_at(s, 8) as u32,
        uptime_ms: spec_u32_le_at(s, 12) as u32,
    }
}

impl NavStatus {
    /// Decodes a NAV-STATUS payload.
    pub fn from_payload(buf: &[u8]) -> (r: NavStatus)
        requires
            buf@.len() >= 16,
        ensures
            r == spec_nav_status(buf@),
    {
        NavStatus {
            milli: u32_le_at(buf, 0),
            fix: NavFix::from_byte(buf[4]),
            time_to_fix: u32_le_at(buf, 8),
            uptime_ms: u32_le_at(buf, 12),
        }
    }
}

/// Polling request marker for NAV-STATUS.
#[derive(Debug)]
pub struct NavStatusPoll {}

impl Poll for NavStatusPoll {
    open spec fn spec_class() -> Class {
        Class::Navigation
    }

    open spec fn spec_id() -> u8 {
        0x03
    }

    open spec fn spec_payload() -> Seq<u8> {
        Seq::empty()
    }

    fn class() -> Class {
        Class::Navigation
    }

    fn id() -> u8 {
        0x03
    }

    fn polling_payload() -> (r: Vec<u8>) {
        let r: Vec<u8> = Vec::new();
        assert(r@ =~= Seq::<u8>::empty());
        r
    }
}

/// Whether one 12-byte channel block reports a healthy, acquired signal:
/// the unhealthy flag (bit 0x10 of the flags byte) clear and the
/// signal-acquired bit (0b100 of the quality byte) set.
pub open spec fn spec_channel_healthy(flags: u8, quality: u8) -> bool {
    (flags & 0x10) == 0 && (quality & 0b100) != 0
}

/// How many of the first `n` channel blocks report healthy, acquired
/// signals.
pub open spec fn spec_healthy_count(s: Seq<u8>, n: int) -> int
    decreases n,
{
    if n <= 0 {
        0
    } else {
        spec_healthy_count(s, n - 1) + if spec_channel_healthy(
            s[10 + 12 * (n - 1)],
            s[11 + 12 * (n - 1)],
        ) {
            1int
        } else {
            0int
        }
    }
}

/// NAV-SVINFO reduced to what the metrics need: the healthy channel count.
#[derive(Debug, Copy, Clone, PartialEq, Eq, Structural)]
pub struct SVInfo {
    pub healthy_channels: u8,
}

impl SVInfo {
    /// Counts channels with healthy, acquired signals over the channel
    /// blocks of a NAV-SVINFO payload.
    pub fn from_payload(buf: &[u8]) -> (r: SVInfo)
        requires
            buf@.len() >= 8,
            8 + 12 * (buf@[4] as int) <= buf@.len(),
        ensures
            r.healthy_channels as int == spec_healthy_count(buf@, buf@[4] as int),
    {
        let chan_n: u8 = buf[4];
        let mut healthy_n: u8 = 0;
        let mut i: u8 = 0;
        while i < chan_n
            invariant
                i <= chan_n,
                buf@.len() >= 8 + 12 * (chan_n as int),
                healthy_n as int == spec_healthy_count(buf@, i as int),
                healthy_n <= i,
            decreases chan_n - i,
        {
            let flags: u8 = buf[10 + 12 * (i as usize)];
            let quality: u8 = buf[11 + 12 * (i as usize)];
            if (flags & 0x10) == 0 && (quality & 0b100) != 0 {
                healthy_n = healthy_n + 1;
            }
            i = i + 1;
        }
        SVInfo { healthy_channels: healthy_n }
    }
}

/// Polling request marker for NAV-SVINFO.
#[derive(Debug)]
pub struct SVInfoPoll {}

impl Poll for SVInfoPoll {
    open spec fn spec_class() -> Class {
        Class::Navigation
    }

    open spec fn spec_id() -> u8 {
        0x30
    }

    open spec fn spec_payload() -> Seq<u8> {
        Seq::empty()
    }

    fn class() -> Class {
        Class::Navigation
    }

    fn id() -> u8 {
        0x30
    }

    fn polling_payload() -> (r: Vec<u8>) {
        let r: Vec<u8> = Vec::new();
        assert(r@ =~= Seq::<u8>::empty());
        r
    }
}

/// Validity flags of a NAV-TIMEGPS payload. The leap-second flag tests the
/// mask 0x3, as the receiver-facing decoder always has.
#[derive(Debug, Copy, Clone, PartialEq, Eq, Structural)]
pub struct Valid {
    pub time_of_week: bool,
    pub week_num: bool,
    pub leap_sec: bool,
}

/// Flag byte decoding, mask for mask.
pub open spec fn spec_valid(b: u8) -> Valid {
    Valid { time_of_week: (b & 0x1) > 0, week_num: (b & 0x2) > 0, leap_sec: (b & 0x3) > 0 }
}

impl Valid {
    /// Decodes the validity flag byte.
    pub fn from_byte(b: u8) -> (r: Valid)
        ensures
            r == spec_valid(b),
    {
        Valid { time_of_week: (b & 0x1) > 0, week_num: (b & 0x2) > 0, leap_sec: (b & 0x3) > 0 }
    }
}

/// NAV-TIMEGPS: GPS time of week, week number, leap seconds, validity
/// flags, and the receiver's own accuracy estimate.
#[derive(Debug, Copy, Clone, PartialEq, Eq, Structural)]
pub struct TimeGPS {
    /// Milliseconds into the GPS week.
    pub milli: u32,
    /// Nanosecond correction, nominally within ±500000.
    pub nanos: i32,
    /// GPS week number.
    pub week: i16,
    /// GPS-to-UTC leap second offset.
    pub leap_sec: i8,
    pub valid_flags: Valid,
    /// Time accuracy estimate in nanoseconds.
    pub accuracy_ns: u32,
}

/// NAV-TIMEGPS decoding at its fixed offsets.
pub open spec fn spec_time_gps(s: Seq<u8>) -> TimeGPS {
    TimeGPS {
        milli: spec_u32_le_at(s, 0) as u32,
        nanos: spec_as_i32(spec_u32_le_at(s, 4)) as i32,
        week: spec_as_i16(spec_u16_le_at(s, 8)) as i16,
        leap_sec: spec_as_i8(s[10] as int) as i8,
        valid_flags: spec_valid(s[11]),
        accuracy_ns: spec_u32_le_at(s, 12) as u32,
    }
}

/// Nanoseconds since the NTP epoch that a GPS time reading names, after
/// the leap-second offset is subtracted: GPS epoch plus weeks plus
/// milliseconds plus the nanosecond correction, minus leap seconds.
pub open spec fn spec_gps_total_nanos(t: TimeGPS) -> int {
    (GPS_EPOCH_SECS + t.week * 604800 - t.leap_sec) * 1_000_000_000 + t.milli * 1_000_000
        + t.nanos
}

impl TimeGPS {
    /// Decodes a NAV-TIMEGPS payload.
    pub fn from_payload(buf: &[u8]) -> (r: TimeGPS)
        requires
            buf@.len() >= 16,
        ensures
            r == spec_time_gps(buf@),
    {
        TimeGPS {
            milli: u32_le_at(buf, 0),
            nanos: i32_le_at(buf, 4),
            week: i16_le_at(buf, 8),
            leap_sec: i8_at(buf, 10),
            valid_flags: Valid::from_byte(buf[11]),
            accuracy_ns: u32_le_at(buf, 12),
        }
    }

    /// Converts a GPS time reading to UTC, gated on quality: a UTC instant
    /// comes back exactly when the accuracy estimate is at most 100
    /// milliseconds and all three validity flags are set, and it names
    /// GPS epoch + week + milli + nanos − leap seconds.
    pub fn to_utc(&self) -> (r: Option<Instant>)
        ensures
            (r is Some) == (self.accuracy_ns <= 100_000_000 && self.valid_flags.time_of_week
                && self.valid_flags.week_num && self.valid_flags.leap_sec),
            r is Some ==> r->0.wf() && r->0.total_nanos() == spec_gps_total_nanos(*self),
    {
        if self.accuracy_ns > 100_000_000 {
            return None;
        }
        if !self.valid_flags.time_of_week || !self.valid_flags.week_num
            || !self.valid_flags.leap_sec {
            return None;
        }
        let secs: i64 = GPS_EPOCH_SECS + (self.week as i64) * 604800 - (self.leap_sec as i64) + (
        self.milli / 1000) as i64;
        let nanos: i64 = ((self.milli % 1000) as i64) * 1_000_000 + (self.nanos as i64);
        let r = instant_from_secs_and_nanos(secs, nanos);
        assert(r.total_nanos() == spec_gps_total_nanos(*self)) by {
            assert((self.milli / 1000) * 1000 + self.milli % 1000 == self.milli);
            assert(secs * 1_000_000_000 + nanos == spec_gps_total_nanos(*self))
                by (nonlinear_arith)
                requires
                    secs == GPS_EPOCH_SECS + self.week * 604800 - self.leap_sec + self.milli
                        / 1000,
                    nanos == (self.milli % 1000) * 1_000_000 + self.nanos,
                    (self.milli / 1000) * 1000 + self.milli % 1000 == self.milli,
                    spec_gps_total_nanos(*self) == (GPS_EPOCH_SECS + self.week * 604800
                        - self.leap_sec) * 1_000_000_000 + self.milli * 1_000_000 + self.nanos,
            ;
        }
        Some(r)
    }
}

impl Poll for TimeGPS {
    open spec fn spec_class() -> Class {
        Class::Navigation
    }

    open spec fn spec_id() -> u8 {
        0x20
    }

    open spec fn spec_payload() -> Seq<u8> {
        Seq::empty()
    }

    fn class() -> Class {
        Class::Navigation
    }

    fn id() -> u8 {
        0x20
    }

    fn polling_payload() -> (r: Vec<u8>) {
        let r: Vec<u8> = Vec::new();
        assert(r@ =~= Seq::<u8>::empty());
        r
    }
}

/// NAV-TIMEUTC: a calendar decomposition of UTC time.
#[derive(Debug, Copy, Clone, PartialEq, Eq, Structural)]
pub struct TimeUTC {
    /// Milliseconds into the GPS week.
    pub tow_ms: u32,
    /// Time accuracy estimate in nanoseconds.
    pub accuracy_ns: u32,
    /// Nanosecond correction of the second.
    pub nanos: i32,
    pub year: u16,
    pub month: u8,
    pub day: u8,
    pub hour: u8,
    pub min: u8,
    pub sec: u8,
    pub valid: Valid,
}

/// NAV-TIMEUTC decoding at its fixed offsets.
pub open spec fn spec_time_utc(s: Seq<u8>) -> TimeUTC {
    TimeUTC {
        tow_ms: spec_u32_le_at(s, 0) as u32,
        accuracy_ns: spec_u32_le_at(s, 4) as u32,
        nanos: spec_as_i32(spec_u32_le_at(s, 8)) as i32,
        year: spec_u16_le_at(s, 12) as u16,
        month: s[14],
        day: s[15],
        hour: s[16],
        min: s[17],
        sec: s[18],
        valid: spec_valid(s[19]),
    }
}

/// Nanoseconds since the NTP epoch that a calendar reading composes to:
/// its civil day number, hours, minutes and seconds, plus the nanosecond
/// correction.
pub open spec fn spec_civil_total_nanos(t: TimeUTC) -> int {
    ((spec_days_from_civil(t.year as int, t.month as int, t.day as int) + DAYS_1900_TO_1970)
        * 86400 + t.hour * 3600 + t.min * 60 + t.sec) * 1_000_000_000 + t.nanos
}

impl TimeUTC {
    /// Decodes a NAV-TIMEUTC payload.
    pub fn from_payload(buf: &[u8]) -> (r: TimeUTC)
        requires
            buf@.len() >= 20,
        ensures
            r == spec_time_utc(buf@),
    {
        TimeUTC {
            tow_ms: u32_le_at(buf, 0),
            accuracy_ns: u32_le_at(buf, 4),
            nanos: i32_le_at(buf, 8),
            year: crate::bytes::u16_le_at(buf, 12),
            month: buf[14],
            day: buf[15],
            hour: buf[16],
            min: buf[17],
            sec: buf[18],
            valid: Valid::from_byte(buf[19]),
        }
    }

    /// Composes the calendar fields into a UTC instant.
    pub fn to_instant(&self) -> (r: Instant)
        requires
            spec_valid_civil(self.year as int, self.month as int, self.day as int),
            self.hour <= 23,
            self.min <= 59,
            self.sec <= 59,
        ensures
            r.wf(),
            r.total_nanos() == spec_civil_total_nanos(*self),
    {
        let days: i64 = days_from_civil(self.year, self.month, self.day);
        let days1900: i64 = days + DAYS_1900_TO_1970;
        let secs: i64 = days1900 * 86400 + (self.hour as i64) * 3600 + (self.min as i64) * 60
            + self.sec as i64;
        instant_from_secs_and_nanos(secs, self.nanos as i64)
    }
}

/// A frame sorted by class: navigation traffic, configuration echoes,
/// and negative acknowledgements.
#[derive(Debug)]
pub enum ParsedPacket {
    Navigation(NavPacket),
    Configuration(CfgPacket),
    Nack,
}

impl ParsedPacket {
    /// Sorts one frame: a navigation frame with a known id and a long
    /// enough payload decodes, an acknowledgement-class frame reads as a
    /// nack, and everything else is refused.
    pub fn try_from_packet(p: &Packet) -> (r: Option<ParsedPacket>)
        ensures
            (r is Some) == (p.class == Class::AckNack || (p.class == Class::Navigation
                && nav_payload_ok(p.id, p.payload@))),
            r is Some ==> (match r->0 {
                ParsedPacket::Nack => p.class == Class::AckNack,
                ParsedPacket::Navigation(n) => {
                    &&& p.class == Class::Navigation
                    &&& (match n {
                        NavPacket::Status(s) => p.id == 0x03 && s == spec_nav_status(p.payload@),
                        NavPacket::TimeGPS(t) => p.id == 0x20 && t == spec_time_gps(p.payload@),
                        NavPacket::TimeUTC(t) => p.id == 0x21 && t == spec_time_utc(p.payload@),
                        NavPacket::SVInfo(s) => p.id == 0x30 && s.healthy_channels as int
                            == spec_healthy_count(p.payload@, p.payload@[4] as int),
                    })
                },
                ParsedPacket::Configuration(_) => false,
            }),
    {
        match p.class {
            Class::AckNack => Some(ParsedPacket::Nack),
            Class::Navigation => match NavPacket::try_from_packet(p) {
                Some(n) => Some(ParsedPacket::Navigation(n)),
                None => None,
            },
            _ => None,
        }
    }
}

/// Nanoseconds since the NTP epoch of the raw GPS instant a reading
/// names, before the leap-second offset is applied.
pub open spec fn spec_gps_raw_nanos(t: TimeGPS) -> int {
    (GPS_EPOCH_SECS + t.week * 604800) * 1_000_000_000 + t.milli * 1_000_000 + t.nanos
}

/// Law: the GPS-to-UTC conversion subtracts the leap-second offset; with
/// the non-negative offset GPS has always broadcast, the UTC instant is
/// never later than the raw GPS instant.
pub proof fn lemma_gps_to_utc_subtracts_leap(t: TimeGPS)
    ensures
        spec_gps_total_nanos(t) == spec_gps_raw_nanos(t) - (t.leap_sec as int) * 1_000_000_000,
        t.leap_sec >= 0 ==> spec_gps_total_nanos(t) <= spec_gps_raw_nanos(t),
{
}

} // verus!
