//! The stateless NTP response engine: one shared reference time installed
//! by the GPS feed, and a query answered from it plus the wall clock.

use vstd::arithmetic::power2::{lemma2_to64, lemma_pow2_strictly_increases, pow2};
use vstd::prelude::*;

use crate::ntp::{
    spec_flags_byte, spec_message_bytes, spec_parse_query, spec_timestamp_of, Fix32,
    leap_bits, LeapIndicator, Mode, NTPFlags, NTPMessage, NTPQuery, NTPTimestamp, PeerPrecision,
    Reference, VersionNumber, NTP_STRATUM_ONE, NTP_STRATUM_UNSYNCHRONIZED, NTP_VERSION,
};
use crate::time::Instant;

verus! {

/// The NTP server's whole state: the latest GPS reference time, if any
/// was ever installed.
pub struct GPSServer {
    pub reftime: Option<Instant>,
}

impl GPSServer {
    /// An installed reference time is well formed and not before the NTP
    /// epoch.
    pub open spec fn wf(self) -> bool {
        self.reftime is Some ==> self.reftime->0.wf() && self.reftime->0.secs >= 0
    }

    /// A server that has never been synchronized.
    pub fn new() -> (r: GPSServer)
        ensures
            r.reftime is None,
            r.wf(),
    {
        GPSServer { reftime: None }
    }

    /// Installs a new reference time. The cell only ever goes from
    /// nothing to a value, never back.
    pub fn update_reference_time(&mut self, dt: Instant)
        requires
            dt.wf(),
            dt.secs >= 0,
        ensures
            final(self).reftime == Some(dt),
            final(self).wf(),
    {
        self.reftime = Some(dt);
    }

    /// Builds the reply to one client query, exactly as
    /// [`spec_answer`] lays it out: stratum 1 and no leap warning when a
    /// reference time is installed, stratum 16 and alarm when not, the
    /// client's transmit timestamp echoed as the origin.
    pub fn answer_query(&self, q: &NTPQuery, received_at: Instant, now: Instant) -> (r:
        NTPMessage)
        requires
            self.wf(),
            received_at.wf(),
            received_at.secs >= 0,
            now.wf(),
            now.secs >= 0,
        ensures
            r == spec_answer(*self, *q, received_at, now),
    {
        let precision = PeerPrecision::from_duration(0, 1000);
        proof {
            lemma2_to64();
            let k = (precision.0 + 30) as nat;
            if k < 10 {
                lemma_pow2_strictly_increases(k, 10);
                assert(pow2(k) < 1024);
            }
            if k > 10 {
                lemma_pow2_strictly_increases(10, k);
            }
            assert(precision.0 == -20);
        }
        NTPMessage {
            flags: NTPFlags {
                l: match self.reftime {
                    Some(_) => LeapIndicator::NoWarning,
                    None => LeapIndicator::Alarm,
                },
                v: VersionNumber(NTP_VERSION),
                m: match self.reftime {
                    Some(_) => Mode::SymPassive,
                    None => Mode::Server,
                },
            },
            peer_stratum: if self.reftime.is_some() {
                NTP_STRATUM_ONE
            } else {
                NTP_STRATUM_UNSYNCHRONIZED
            },
            peer_polling_interval: 4,
            peer_clock_precision: precision,
            root_delay: Fix32 { i: 0, f: 0 },
            root_dispersion: Fix32 { i: 0, f: 0 },
            ref_id: Reference::GPS,
            ref_tstamp: match &self.reftime {
                Some(t) => NTPTimestamp::from_instant(t),
                None => NTPTimestamp { int_part: 0, frac_part: 0 },
            },
            origin_tstamp: q.transmit_tstamp,
            rcv_tstamp: NTPTimestamp::from_instant(&received_at),
            transmit_tstamp: NTPTimestamp::from_instant(&now),
        }
    }
}

impl Default for GPSServer {
    /// The state at boot: never synchronized.
    fn default() -> (r: GPSServer)
        ensures
            r.reftime is None,
            r.wf(),
    {
        GPSServer::new()
    }
}

/// The reply a server state owes to a query: leap, mode and stratum
/// switched on whether a reference time is installed, the reference
/// timestamp taken from it (the epoch when none is), the query's transmit
/// timestamp echoed as origin, and the receive and transmit timestamps
/// taken from the wall clock.
pub open spec fn spec_answer(
    srv: GPSServer,
    q: NTPQuery,
    received_at: Instant,
    now: Instant,
) -> NTPMessage {
    NTPMessage {
        flags: NTPFlags {
            l: if srv.reftime is Some {
                LeapIndicator::NoWarning
            } else {
                LeapIndicator::Alarm
            },
            v: VersionNumber(NTP_VERSION),
            m: if srv.reftime is Some {
                Mode::SymPassive
            } else {
                Mode::Server
            },
        },
        peer_stratum: if srv.reftime is Some {
            NTP_STRATUM_ONE
        } else {
            NTP_STRATUM_UNSYNCHRONIZED
        },
        peer_polling_interval: 4,
        peer_clock_precision: PeerPrecision(-20i8),
        root_delay: Fix32 { i: 0, f: 0 },
        root_dispersion: Fix32 { i: 0, f: 0 },
        ref_id: Reference::GPS,
        ref_tstamp: match srv.reftime {
            Some(t) => spec_timestamp_of(t),
            None => NTPTimestamp { int_part: 0, frac_part: 0 },
        },
        origin_tstamp: q.transmit_tstamp,
        rcv_tstamp: spec_timestamp_of(received_at),
        transmit_tstamp: spec_timestamp_of(now),
    }
}

/// Law: the reply's origin timestamp repeats the query's transmit
/// timestamp byte for byte — reply bytes 24 to 31 equal query bytes 40
/// to 47.
pub proof fn lemma_reply_origin_echoes_query(
    srv: GPSServer,
    qb: Seq<u8>,
    received_at: Instant,
    now: Instant,
)
    requires
        qb.len() == 48,
    ensures
        spec_message_bytes(spec_answer(srv, spec_parse_query(qb), received_at, now)).subrange(
            24,
            32,
        ) == qb.subrange(40, 48),
{
    let m = spec_answer(srv, spec_parse_query(qb), received_at, now);
    crate::bytes::lemma_be32_decode_encode(qb, 40);
    crate::bytes::lemma_be32_decode_encode(qb, 44);
    assert(spec_message_bytes(m).subrange(24, 32) =~= qb.subrange(40, 48));
}

/// Law: the reply's stratum byte is 1 exactly when a reference time is
/// installed and 16 otherwise, and the two leap bits of its first byte
/// read `Alarm` (3) exactly when none is.
#[verifier::rlimit(100)]
pub proof fn lemma_reply_stratum_and_leap(
    srv: GPSServer,
    q: NTPQuery,
    received_at: Instant,
    now: Instant,
)
    ensures
        spec_message_bytes(spec_answer(srv, q, received_at, now))[1] == (if srv.reftime is Some {
            1u8
        } else {
            16u8
        }),
        leap_bits(spec_answer(srv, q, received_at, now).flags.l) == (if srv.reftime is Some {
            0u8
        } else {
            3u8
        }),
        spec_message_bytes(spec_answer(srv, q, received_at, now))[0] == (
        if srv.reftime is Some {
            26u8
        } else {
            220u8
        }),
{
    let m = spec_answer(srv, q, received_at, now);
    crate::ntp::lemma_message_bytes_header(m);
    assert(3u8 & 7 == 3) by (bit_vector);
    if srv.reftime is Some {
        assert(spec_flags_byte(m.flags) == 26);
        assert(26u8 >> 6 == 0) by (bit_vector);
    } else {
        assert(spec_flags_byte(m.flags) == 220);
        assert(220u8 >> 6 == 3) by (bit_vector);
    }
}

} // verus!
