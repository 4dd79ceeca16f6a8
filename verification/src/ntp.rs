//! NTP version 3 wire codec: the 48-byte message, its bit-packed flags
//! byte, 16.16 fixed-point intervals, 64-bit timestamps, and the clock
//! precision exponent.

use vstd::arithmetic::power2::{
    lemma2_to64, lemma2_to64_rest, lemma_pow2_pos, lemma_pow2_strictly_increases,
    lemma_pow2_unfold, pow2,
};
use vstd::prelude::*;

use crate::bytes::{spec_be16, spec_be32, spec_u32_be_at, u32_be_at};
use crate::bytes::{push_be16, push_be32};
use crate::time::Instant;
use crate::ubx::Serialize;

verus! {

/// Protocol version this server speaks.
pub const NTP_VERSION: u8 = 3;

/// Exact byte length of every NTP message.
pub const NTP_MESSAGE_LEN: usize = 48;

/// Stratum of a server reading a reference clock directly.
pub const NTP_STRATUM_ONE: u8 = 1;

/// Stratum that marks a server as unsynchronized.
pub const NTP_STRATUM_UNSYNCHRONIZED: u8 = 16;

/// A 32-bit fixed-point interval: 16 integer bits, 16 fraction bits in
/// steps of about 15.26 microseconds.
#[derive(Debug, Copy, Clone, PartialEq, Eq, Structural)]
pub struct Fix32 {
    pub i: u16,
    pub f: u16,
}

impl Serialize for Fix32 {
    open spec fn spec_serialize(&self) -> Seq<u8> {
        spec_be16(self.i) + spec_be16(self.f)
    }

    fn serialize(&self) -> (r: Vec<u8>) {
        let mut v: Vec<u8> = Vec::new();
        push_be16(&mut v, self.i);
        push_be16(&mut v, self.f);
        assert(v@ =~= self.spec_serialize());
        v
    }
}

impl Fix32 {
    /// Encodes a duration given as whole seconds plus sub-second
    /// microseconds: the seconds truncate into the integer part, the
    /// microseconds scale into 1/65536-second steps.
    pub fn from_duration(secs: u64, subsec_micros: u32) -> (r: Fix32)
        requires
            subsec_micros < 1_000_000,
        ensures
            r.i == secs % 0x10000,
            r.f == (subsec_micros * 1_000_000) / 15_258_789,
    {
        let scaled: u64 = (subsec_micros as u64) * 1_000_000 / 15_258_789;
        assert(scaled < 0x10000) by {
            assert((subsec_micros as u64) * 1_000_000 <= 999_999u64 * 1_000_000)
                by (nonlinear_arith)
                requires
                    subsec_micros < 1_000_000,
            ;
        }
        Fix32 { i: (secs % 0x10000) as u16, f: scaled as u16 }
    }
}

/// A 64-bit NTP timestamp: seconds since 1900-01-01T00:00:00Z in the
/// upper half, the sub-second count in the lower half. This server fills
/// the lower half with nanoseconds.
#[derive(Debug, Copy, Clone, PartialEq, Eq, Structural)]
pub struct NTPTimestamp {
    pub int_part: u32,
    pub frac_part: u32,
}

impl Serialize for NTPTimestamp {
    open spec fn spec_serialize(&self) -> Seq<u8> {
        spec_be32(self.int_part) + spec_be32(self.frac_part)
    }

    fn serialize(&self) -> (r: Vec<u8>) {
        let mut v: Vec<u8> = Vec::new();
        push_be32(&mut v, self.int_part);
        push_be32(&mut v, self.frac_part);
        assert(v@ =~= self.spec_serialize());
        v
    }
}

impl NTPTimestamp {
    /// The timestamp an instant names: its seconds since 1900 truncated
    /// to 32 bits, its nanoseconds as the fraction field.
    pub fn from_instant(t: &Instant) -> (r: NTPTimestamp)
        requires
            t.wf(),
            t.secs >= 0,
        ensures
            r == spec_timestamp_of(*t),
    {
        NTPTimestamp { int_part: (t.secs % 0x1_0000_0000) as u32, frac_part: t.nanos }
    }
}

/// The timestamp encoding of an instant at or after the NTP epoch.
pub open spec fn spec_timestamp_of(t: Instant) -> NTPTimestamp {
    NTPTimestamp { int_part: (t.secs % 0x1_0000_0000) as u32, frac_part: t.nanos }
}

/// Two-bit leap indicator; `Alarm` marks an unsynchronized server.
#[derive(Debug, Copy, Clone, PartialEq, Eq, Structural)]
pub enum LeapIndicator {
    NoWarning,
    LastMinuteHas61Seconds,
    LastMinuteHas59Seconds,
    Alarm,
}

/// Wire bits of the leap indicator.
pub open spec fn leap_bits(l: LeapIndicator) -> u8 {
    match l {
        LeapIndicator::NoWarning => 0,
        LeapIndicator::LastMinuteHas61Seconds => 1,
        LeapIndicator::LastMinuteHas59Seconds => 2,
        LeapIndicator::Alarm => 3,
    }
}

impl LeapIndicator {
    /// Encodes the two wire bits.
    pub fn to_bits(&self) -> (r: u8)
        ensures
            r == leap_bits(*self),
    {
        match self {
            LeapIndicator::NoWarning => 0,
            LeapIndicator::LastMinuteHas61Seconds => 1,
            LeapIndicator::LastMinuteHas59Seconds => 2,
            LeapIndicator::Alarm => 3,
        }
    }

    /// Decodes two wire bits.
    pub fn from_bits(b: u8) -> (r: LeapIndicator)
        requires
            b < 4,
        ensures
            leap_bits(r) == b,
    {
        match b {
            0 => LeapIndicator::NoWarning,
            1 => LeapIndicator::LastMinuteHas61Seconds,
            2 => LeapIndicator::LastMinuteHas59Seconds,
            _ => LeapIndicator::Alarm,
        }
    }
}

/// Three-bit association mode.
#[derive(Debug, Copy, Clone, PartialEq, Eq, Structural)]
pub enum Mode {
    Unspecified,
    SymActive,
    SymPassive,
    Client,
    Server,
    Broadcast,
    ControlMessage,
    Reserved,
}

/// Wire bits of the mode.
pub open spec fn mode_bits(m: Mode) -> u8 {
    match m {
        Mode::Unspecified => 0,
        Mode::SymActive => 1,
        Mode::SymPassive => 2,
        Mode::Client => 3,
        Mode::Server => 4,
        Mode::Broadcast => 5,
        Mode::ControlMessage => 6,
        Mode::Reserved => 7,
    }
}

impl Mode {
    /// Encodes the three wire bits.
    pub fn to_bits(&self) -> (r: u8)
        ensures
            r == mode_bits(*self),
    {
        match self {
            Mode::Unspecified => 0,
            Mode::SymActive => 1,
            Mode::SymPassive => 2,
            Mode::Client => 3,
            Mode::Server => 4,
            Mode::Broadcast => 5,
            Mode::ControlMessage => 6,
            Mode::Reserved => 7,
        }
    }

    /// Decodes three wire bits.
    pub fn from_bits(b: u8) -> (r: Mode)
        requires
            b < 8,
        ensures
            mode_bits(r) == b,
    {
        match b {
            0 => Mode::Unspecified,
            1 => Mode::SymActive,
            2 => Mode::SymPassive,
            3 => Mode::Client,
            4 => Mode::Server,
            5 => Mode::Broadcast,
            6 => Mode::ControlMessage,
            _ => Mode::Reserved,
        }
    }
}

/// Protocol version carried in the flags byte.
#[derive(Debug, Copy, Clone, PartialEq, Eq, Structural)]
pub struct VersionNumber(pub u8);

/// The packed first byte of a message: leap indicator, version, mode.
#[derive(Debug, Copy, Clone, PartialEq, Eq, Structural)]
pub struct NTPFlags {
    pub l: LeapIndicator,
    pub v: VersionNumber,
    pub m: Mode,
}

/// Flags byte packing: `leap` in the top two bits, `version` in the next
/// three, `mode` in the low three.
pub open spec fn spec_flags_byte(f: NTPFlags) -> u8 {
    (leap_bits(f.l) * 64 + (f.v.0 & 7) * 8 + mode_bits(f.m)) as u8
}

impl NTPFlags {
    /// Packs the flags byte.
    pub fn to_byte(&self) -> (r: u8)
        ensures
            r == spec_flags_byte(*self),
    {
        let l = self.l.to_bits();
        let raw = self.v.0;
        let v = raw & 7;
        let m = self.m.to_bits();
        assert(l <= 3);
        assert(raw & 7 <= 7) by (bit_vector);
        assert(m <= 7);
        l * 64 + v * 8 + m
    }
}

/// The four-byte reference identifier of a stratum-1 source.
#[derive(Debug, Copy, Clone, PartialEq, Eq, Structural)]
pub enum Reference {
    /// A GPS reference clock, written `GPS` and a zero byte.
    GPS,
    /// An IPv4 address, one octet per byte.
    IPv4(u8, u8, u8, u8),
}

impl Serialize for Reference {
    open spec fn spec_serialize(&self) -> Seq<u8> {
        match self {
            Reference::GPS => seq![71u8, 80u8, 83u8, 0u8],
            Reference::IPv4(a, b, c, d) => seq![*a, *b, *c, *d],
        }
    }

    fn serialize(&self) -> (r: Vec<u8>) {
        let mut v: Vec<u8> = Vec::new();
        match self {
            Reference::GPS => {
                v.push(71);
                v.push(80);
                v.push(83);
                v.push(0);
            },
            Reference::IPv4(a, b, c, d) => {
                v.push(*a);
                v.push(*b);
                v.push(*c);
                v.push(*d);
            },
        }
        assert(v@ =~= self.spec_serialize());
        v
    }
}

/// Clock precision as a signed power-of-two exponent of seconds.
#[derive(Debug, Copy, Clone, PartialEq, Eq, Structural)]
pub struct PeerPrecision(pub i8);

impl PeerPrecision {
    /// The exponent of a duration: for whole seconds, the smallest `k`
    /// with `2^k` at least the seconds; for a sub-second duration, the
    /// same over nanoseconds, shifted down by 30 (2^30 nanoseconds is
    /// about one second).
    pub fn from_duration(secs: u64, subsec_nanos: u32) -> (r: PeerPrecision)
        requires
            secs <= 0x8000_0000_0000_0000,
            subsec_nanos < 1_000_000_000,
        ensures
            secs > 0 ==> {
                &&& 0 <= r.0 <= 63
                &&& pow2(r.0 as nat) >= secs
                &&& (r.0 == 0 || pow2((r.0 - 1) as nat) < secs)
            },
            secs == 0 ==> {
                &&& -30 <= r.0 <= 0
                &&& pow2((r.0 + 30) as nat) >= subsec_nanos
                &&& (r.0 == -30 || pow2((r.0 + 29) as nat) < subsec_nanos)
            },
    {
        if secs > 0 {
            let k = log2_ceil_u64(secs);
            PeerPrecision(k as i8)
        } else {
            let k = log2_ceil_u64(subsec_nanos as u64);
            proof {
                lemma2_to64();
            }
            if k > 30 {
                proof {
                    lemma_pow2_strictly_increases(30, (k - 1) as nat);
                }
                assert(false);
            }
            PeerPrecision(k as i8 - 30)
        }
    }

    /// The exponent of a ratio `num/den`: the smallest `i` between -30
    /// and 2 with `2^i` strictly above the ratio gives `i - 1`; when even
    /// `2^2` does not exceed it, 127.
    #[verifier::loop_isolation(false)]
    pub fn from_fraction(num: u64, den: u64) -> (r: PeerPrecision)
        requires
            den > 0,
        ensures
            r.0 == 127 ==> forall|i: int|
                -30 <= i <= 2 ==> !ratio_below_pow2(num as int, den as int, i),
            r.0 != 127 ==> {
                &&& -31 <= r.0 <= 1
                &&& ratio_below_pow2(num as int, den as int, r.0 + 1)
                &&& forall|j: int|
                    -30 <= j <= r.0 ==> !ratio_below_pow2(num as int, den as int, j)
            },
    {
        let rhs: u128 = (num as u128) * 0x4000_0000;
        let mut lhs: u128 = den as u128;
        let mut i: i32 = -30;
        proof {
            lemma2_to64();
            assert(pow2(0) == 1);
            assert(den * pow2(0) == den);
        }
        while i <= 2
            invariant
                -30 <= i <= 3,
                den > 0,
                rhs == num * 0x4000_0000,
                lhs == den * pow2((i + 30) as nat),
                forall|j: int| -30 <= j < i ==> !ratio_below_pow2(num as int, den as int, j),
            decreases 3 - i,
        {
            if lhs > rhs {
                assert(ratio_below_pow2(num as int, den as int, i as int));
                return PeerPrecision((i - 1) as i8);
            }
            proof {
                lemma_pow2_unfold((i + 31) as nat);
                assert(den * pow2((i + 31) as nat) == 2 * (den * pow2((i + 30) as nat)))
                    by (nonlinear_arith)
                    requires
                        pow2((i + 31) as nat) == 2 * pow2((i + 30) as nat),
                ;
                assert(lhs * 2 <= u128::MAX) by {
                    lemma_pow2_strictly_increases((i + 30) as nat, 33);
                    lemma2_to64_rest();
                    assert(den * pow2((i + 30) as nat) <= den * 0x2_0000_0000)
                        by (nonlinear_arith)
                        requires
                            pow2((i + 30) as nat) <= 0x2_0000_0000,
                            den > 0,
                    ;
                }
            }
            lhs = lhs * 2;
            i = i + 1;
        }
        PeerPrecision(127)
    }
}

/// Whether `2^i` (for `i` of either sign) strictly exceeds `num/den`,
/// compared exactly: both sides scaled by `2^30 * den`.
pub open spec fn ratio_below_pow2(num: int, den: int, i: int) -> bool {
    den * pow2((i + 30) as nat) > num * pow2(30)
}

/// Smallest exponent whose power of two reaches `x`; zero for `x <= 1`.
#[verifier::loop_isolation(false)]
fn log2_ceil_u64(x: u64) -> (k: u32)
    requires
        x <= 0x8000_0000_0000_0000,
    ensures
        k <= 63,
        pow2(k as nat) >= x,
        k == 0 || pow2((k - 1) as nat) < x,
{
    let mut k: u32 = 0;
    let mut p: u64 = 1;
    proof {
        lemma2_to64();
        lemma2_to64_rest();
    }
    while p < x
        invariant
            x <= 0x8000_0000_0000_0000,
            k <= 63,
            p == pow2(k as nat),
            k == 0 || pow2((k - 1) as nat) < x,
        decreases 64 - k,
    {
        proof {
            if k >= 63 {
                assert(p >= x);
                assert(false);
            }
            lemma_pow2_unfold((k + 1) as nat);
        }
        p = p * 2;
        k = k + 1;
    }
    proof {
        lemma_pow2_pos(k as nat);
    }
    k
}

/// Truncating view of a signed precision exponent as its wire byte.
pub open spec fn spec_i8_byte(x: i8) -> u8 {
    if x < 0 {
        (x + 256) as u8
    } else {
        x as u8
    }
}

/// Leap indicator of two wire bits; out-of-range values (impossible for
/// two bits) read as `Alarm`.
pub open spec fn leap_from_bits(b: u8) -> LeapIndicator {
    if b == 0 {
        LeapIndicator::NoWarning
    } else if b == 1 {
        LeapIndicator::LastMinuteHas61Seconds
    } else if b == 2 {
        LeapIndicator::LastMinuteHas59Seconds
    } else {
        LeapIndicator::Alarm
    }
}

/// Mode of three wire bits; out-of-range values (impossible for three
/// bits) read as `Reserved`.
pub open spec fn mode_from_bits(b: u8) -> Mode {
    if b == 0 {
        Mode::Unspecified
    } else if b == 1 {
        Mode::SymActive
    } else if b == 2 {
        Mode::SymPassive
    } else if b == 3 {
        Mode::Client
    } else if b == 4 {
        Mode::Server
    } else if b == 5 {
        Mode::Broadcast
    } else if b == 6 {
        Mode::ControlMessage
    } else {
        Mode::Reserved
    }
}

/// A complete server message, ready to serialize.
#[derive(Debug, Copy, Clone, PartialEq, Eq, Structural)]
pub struct NTPMessage {
    pub flags: NTPFlags,
    pub peer_stratum: u8,
    pub peer_polling_interval: u8,
    /// Clock precision in log2 seconds.
    pub peer_clock_precision: PeerPrecision,
    pub root_delay: Fix32,
    pub root_dispersion: Fix32,
    pub ref_id: Reference,
    pub ref_tstamp: NTPTimestamp,
    pub origin_tstamp: NTPTimestamp,
    pub rcv_tstamp: NTPTimestamp,
    pub transmit_tstamp: NTPTimestamp,
}

/// The 48-byte wire image of a message: flags, stratum, poll interval,
/// precision, the two fixed-point intervals, the reference id, and the
/// four timestamps, big-endian throughout.
pub open spec fn spec_message_bytes(m: NTPMessage) -> Seq<u8> {
    seq![
        spec_flags_byte(m.flags),
        m.peer_stratum,
        m.peer_polling_interval,
        spec_i8_byte(m.peer_clock_precision.0),
    ] + m.root_delay.spec_serialize() + m.root_dispersion.spec_serialize()
        + m.ref_id.spec_serialize() + m.ref_tstamp.spec_serialize()
        + m.origin_tstamp.spec_serialize() + m.rcv_tstamp.spec_serialize()
        + m.transmit_tstamp.spec_serialize()
}

impl NTPMessage {
    /// Serializes the message into its exact 48-byte wire image.
    pub fn serialize(&self) -> (r: Vec<u8>)
        ensures
            r@ == spec_message_bytes(*self),
            r@.len() == NTP_MESSAGE_LEN,
    {
        let mut v: Vec<u8> = Vec::new();
        v.push(self.flags.to_byte());
        v.push(self.peer_stratum);
        v.push(self.peer_polling_interval);
        let p = self.peer_clock_precision.0;
        if p < 0 {
            v.push(((p as i16) + 256) as u8);
        } else {
            v.push(p as u8);
        }
        let mut part = self.root_delay.serialize();
        v.append(&mut part);
        let mut part = self.root_dispersion.serialize();
        v.append(&mut part);
        let mut part = self.ref_id.serialize();
        v.append(&mut part);
        let mut part = self.ref_tstamp.serialize();
        v.append(&mut part);
        let mut part = self.origin_tstamp.serialize();
        v.append(&mut part);
        let mut part = self.rcv_tstamp.serialize();
        v.append(&mut part);
        let mut part = self.transmit_tstamp.serialize();
        v.append(&mut part);
        assert(v@ =~= spec_message_bytes(*self));
        v
    }
}

/// Four raw reference-id bytes as a client sent them.
#[derive(Debug, Copy, Clone, PartialEq, Eq, Structural)]
pub struct RawRefId {
    pub a: u8,
    pub b: u8,
    pub c: u8,
    pub d: u8,
}

/// The first two wire bytes of any serialized message are its flags byte
/// and its stratum.
pub proof fn lemma_message_bytes_header(m: NTPMessage)
    ensures
        spec_message_bytes(m)[0] == spec_flags_byte(m.flags),
        spec_message_bytes(m)[1] == m.peer_stratum,
{
    let h = seq![
        spec_flags_byte(m.flags),
        m.peer_stratum,
        m.peer_polling_interval,
        spec_i8_byte(m.peer_clock_precision.0),
    ];
    assert(spec_message_bytes(m)[0] == h[0]);
    assert(spec_message_bytes(m)[1] == h[1]);
}

/// A client query, decoded field by field from a 48-byte datagram.
#[derive(Debug, Copy, Clone, PartialEq, Eq, Structural)]
pub struct NTPQuery {
    pub flags: NTPFlags,
    pub peer_stratum: u8,
    pub peer_polling_interval: u8,
    pub peer_clock_precision: PeerPrecision,
    pub root_delay: Fix32,
    pub root_dispersion: Fix32,
    /// The four reference-id bytes as the client sent them.
    pub ref_id: RawRefId,
    pub ref_tstamp: NTPTimestamp,
    pub origin_tstamp: NTPTimestamp,
    pub rcv_tstamp: NTPTimestamp,
    pub transmit_tstamp: NTPTimestamp,
}

/// Field-by-field reading of a 48-byte client datagram.
pub open spec fn spec_parse_query(s: Seq<u8>) -> NTPQuery {
    NTPQuery {
        flags: NTPFlags {
            l: leap_from_bits((s[0] >> 6) & 3),
            v: VersionNumber((s[0] >> 3) & 7),
            m: mode_from_bits(s[0] & 7),
        },
        peer_stratum: s[1],
        peer_polling_interval: s[2],
        peer_clock_precision: PeerPrecision(crate::bytes::spec_as_i8(s[3] as int) as i8),
        root_delay: Fix32 {
            i: crate::bytes::spec_u16_be_at(s, 4) as u16,
            f: crate::bytes::spec_u16_be_at(s, 6) as u16,
        },
        root_dispersion: Fix32 {
            i: crate::bytes::spec_u16_be_at(s, 8) as u16,
            f: crate::bytes::spec_u16_be_at(s, 10) as u16,
        },
        ref_id: RawRefId { a: s[12], b: s[13], c: s[14], d: s[15] },
        ref_tstamp: NTPTimestamp {
            int_part: spec_u32_be_at(s, 16) as u32,
            frac_part: spec_u32_be_at(s, 20) as u32,
        },
        origin_tstamp: NTPTimestamp {
            int_part: spec_u32_be_at(s, 24) as u32,
            frac_part: spec_u32_be_at(s, 28) as u32,
        },
        rcv_tstamp: NTPTimestamp {
            int_part: spec_u32_be_at(s, 32) as u32,
            frac_part: spec_u32_be_at(s, 36) as u32,
        },
        transmit_tstamp: NTPTimestamp {
            int_part: spec_u32_be_at(s, 40) as u32,
            frac_part: spec_u32_be_at(s, 44) as u32,
        },
    }
}

impl NTPQuery {
    /// Deserializes a client datagram. A query comes back exactly when
    /// the datagram is exactly 48 bytes long; anything else is rejected.
    pub fn deserialize(buf: &[u8]) -> (r: Option<NTPQuery>)
        ensures
            (r is Some) <==> buf@.len() == NTP_MESSAGE_LEN,
            r is Some ==> r->0 == spec_parse_query(buf@),
    {
        if buf.len() != NTP_MESSAGE_LEN {
            return None;
        }
        let b0 = buf[0];
        assert((b0 >> 6) & 3 < 4 && (b0 >> 3) & 7 < 8 && b0 & 7 < 8) by (bit_vector);
        let flags = NTPFlags {
            l: LeapIndicator::from_bits((b0 >> 6) & 3),
            v: VersionNumber((b0 >> 3) & 7),
            m: Mode::from_bits(b0 & 7),
        };
        Some(
            NTPQuery {
                flags,
                peer_stratum: buf[1],
                peer_polling_interval: buf[2],
                peer_clock_precision: PeerPrecision(crate::bytes::i8_at(buf, 3)),
                root_delay: Fix32 {
                    i: crate::bytes::u16_be_at(buf, 4),
                    f: crate::bytes::u16_be_at(buf, 6),
                },
                root_dispersion: Fix32 {
                    i: crate::bytes::u16_be_at(buf, 8),
                    f: crate::bytes::u16_be_at(buf, 10),
                },
                ref_id: RawRefId { a: buf[12], b: buf[13], c: buf[14], d: buf[15] },
                ref_tstamp: NTPTimestamp {
                    int_part: u32_be_at(buf, 16),
                    frac_part: u32_be_at(buf, 20),
                },
                origin_tstamp: NTPTimestamp {
                    int_part: u32_be_at(buf, 24),
                    frac_part: u32_be_at(buf, 28),
                },
                rcv_tstamp: NTPTimestamp {
                    int_part: u32_be_at(buf, 32),
                    frac_part: u32_be_at(buf, 36),
                },
                transmit_tstamp: NTPTimestamp {
                    int_part: u32_be_at(buf, 40),
                    frac_part: u32_be_at(buf, 44),
                },
            },
        )
    }
}

/// The NTP epoch, 1900-01-01T00:00:00Z, as an instant.
pub fn ntp_zero() -> (r: Instant)
    ensures
        r.wf(),
        r.total_nanos() == 0,
{
    Instant::ntp_zero()
}

} // verus!
