//! UBX binary protocol: frame layout, Fletcher-style checksum, serialization,
//! deserialization, and a resynchronising packet scanner.
//!
//! A frame on the wire is `B5 62 class id len_lo len_hi payload ck_a ck_b`,
//! where the two checksum bytes run over `class..end-of-payload`.

use vstd::prelude::*;

verus! {

/// First sync byte of every UBX frame.
pub const SYNC_CHAR_1: u8 = 0xb5;

/// Second sync byte of every UBX frame.
pub const SYNC_CHAR_2: u8 = 0x62;

/// Byte count of a frame with an empty payload: two sync bytes, class, id,
/// two length bytes, two checksum bytes.
pub const MIN_PKT_LEN: usize = 8;

/// Message classes this receiver knows how to carry.
#[derive(Debug, Copy, Clone, PartialEq, Eq, Structural)]
pub enum Class {
    Navigation,
    ReceiverManager,
    Information,
    AckNack,
    ConfigInput,
    Monitoring,
    AssistNowAid,
    Timing,
    Reserved3,
}

/// Wire byte of each class.
pub open spec fn class_byte(c: Class) -> u8 {
    match c {
        Class::Navigation => 0x1,
        Class::ReceiverManager => 0x2,
        Class::Reserved3 => 0x3,
        Class::Information => 0x4,
        Class::AckNack => 0x5,
        Class::ConfigInput => 0x6,
        Class::Monitoring => 0xA,
        Class::AssistNowAid => 0xB,
        Class::Timing => 0xD,
    }
}

/// Class of a wire byte, `None` for the bytes no class uses.
pub open spec fn byte_class(u: u8) -> Option<Class> {
    match u {
        0x1 => Some(Class::Navigation),
        0x2 => Some(Class::ReceiverManager),
        0x3 => Some(Class::Reserved3),
        0x4 => Some(Class::Information),
        0x5 => Some(Class::AckNack),
        0x6 => Some(Class::ConfigInput),
        0xA => Some(Class::Monitoring),
        0xB => Some(Class::AssistNowAid),
        0xD => Some(Class::Timing),
        _ => None,
    }
}

impl Class {
    /// The byte that stands for this class on the wire.
    pub fn to_byte(self) -> (r: u8)
        ensures
            r == class_byte(self),
    {
        match self {
            Class::Navigation => 0x1,
            Class::ReceiverManager => 0x2,
            Class::Reserved3 => 0x3,
            Class::Information => 0x4,
            Class::AckNack => 0x5,
            Class::ConfigInput => 0x6,
            Class::Monitoring => 0xA,
            Class::AssistNowAid => 0xB,
            Class::Timing => 0xD,
        }
    }

    /// The class a wire byte stands for, if any.
    pub fn from_byte(u: u8) -> (r: Option<Class>)
        ensures
            r == byte_class(u),
    {
        match u {
            0x1 => Some(Class::Navigation),
            0x2 => Some(Class::ReceiverManager),
            0x3 => Some(Class::Reserved3),
            0x4 => Some(Class::Information),
            0x5 => Some(Class::AckNack),
            0x6 => Some(Class::ConfigInput),
            0xA => Some(Class::Monitoring),
            0xB => Some(Class::AssistNowAid),
            0xD => Some(Class::Timing),
            _ => None,
        }
    }
}

/// A type with a fixed byte-level wire image.
pub trait Serialize {
    /// The wire image, as a specification.
    spec fn spec_serialize(&self) -> Seq<u8>;

    /// Produces the wire image.
    fn serialize(&self) -> (r: Vec<u8>)
        ensures
            r@ == self.spec_serialize(),
    ;
}

/// A message kind the receiver answers when polled with an (often empty)
/// request payload.
pub trait Poll {
    /// Class of the polling frame.
    spec fn spec_class() -> Class;

    /// Id of the polling frame.
    spec fn spec_id() -> u8;

    /// Payload of the polling frame.
    spec fn spec_payload() -> Seq<u8>;

    /// Class of the polling frame.
    fn class() -> (c: Class)
        ensures
            c == Self::spec_class(),
    ;

    /// Id of the polling frame.
    fn id() -> (i: u8)
        ensures
            i == Self::spec_id(),
    ;

    /// Payload of the polling frame.
    fn polling_payload() -> (r: Vec<u8>)
        ensures
            r@ == Self::spec_payload(),
            r@.len() <= 0xffff,
    ;
}

/// A type with a complete polling frame image.
pub trait Frame {
    /// The polling frame, as a specification.
    spec fn spec_frame() -> Seq<u8>;

    /// Builds the complete polling frame, sync bytes and checksum included.
    fn frame() -> (r: Vec<u8>)
        ensures
            r@ == Self::spec_frame(),
    ;
}

/// Mathematical model of a frame: class, id, payload bytes.
pub struct FrameView {
    pub class: Class,
    pub id: u8,
    pub payload: Seq<u8>,
}

/// A decoded UBX frame.
#[derive(Debug)]
pub struct Packet {
    pub class: Class,
    pub id: u8,
    pub payload: Vec<u8>,
}

impl View for Packet {
    type V = FrameView;

    open spec fn view(&self) -> FrameView {
        FrameView { class: self.class, id: self.id, payload: self.payload@ }
    }
}

/// Why a byte sequence failed to deserialize as a frame.
#[derive(Debug, PartialEq, Eq, Structural)]
pub enum BadDeserialization {
    IncompleteRead,
    BadChecksum,
    BadMagic,
    Unsupported(u8),
}

/// One step of the Fletcher-style checksum: add the byte into `ck_a`, then
/// add `ck_a` into `ck_b`, both modulo 256.
pub open spec fn checksum_step(acc: (u8, u8), b: u8) -> (u8, u8) {
    let a = ((acc.0 + b) % 256) as u8;
    let bb = ((acc.1 + a) % 256) as u8;
    (a, bb)
}

/// Checksum of a byte sequence, folded left to right from `(0, 0)`.
pub open spec fn spec_checksum(s: Seq<u8>) -> (u8, u8)
    decreases s.len(),
{
    if s.len() == 0 {
        (0u8, 0u8)
    } else {
        checksum_step(spec_checksum(s.drop_last()), s.last())
    }
}

/// Payload length a (would-be) frame claims in its two little-endian
/// length bytes.
pub open spec fn payload_len_at(s: Seq<u8>) -> int
    recommends
        s.len() >= 6,
{
    s[4] + 256 * s[5]
}

/// What one deserialization attempt at the head of `s` yields.
pub enum ParseOut {
    /// More bytes are needed before anything can be decided.
    Incomplete,
    /// The first two bytes are not the sync sequence.
    BadMagic,
    /// The trailer does not match the checksum computed over the body.
    BadChecksum,
    /// The class byte is one no known class uses.
    Unsupported(u8),
    /// A complete, checksummed frame of a known class.
    Parsed(FrameView),
}

/// Deserialization attempt at the head of `s`, mirroring the order of the
/// checks: sync bytes first, then completeness, then checksum, then class.
pub open spec fn parse(s: Seq<u8>) -> ParseOut {
    if s.len() < 1 {
        ParseOut::Incomplete
    } else if s[0] != SYNC_CHAR_1 {
        ParseOut::BadMagic
    } else if s.len() < 2 {
        ParseOut::Incomplete
    } else if s[1] != SYNC_CHAR_2 {
        ParseOut::BadMagic
    } else if s.len() < 6 {
        ParseOut::Incomplete
    } else if s.len() < 8 + payload_len_at(s) {
        ParseOut::Incomplete
    } else {
        let plen = payload_len_at(s);
        let ck = spec_checksum(s.subrange(2, 6 + plen));
        if s[6 + plen] != ck.0 || s[7 + plen] != ck.1 {
            ParseOut::BadChecksum
        } else {
            match byte_class(s[2]) {
                Some(c) => ParseOut::Parsed(
                    FrameView { class: c, id: s[3], payload: s.subrange(6, 6 + plen) },
                ),
                None => ParseOut::Unsupported(s[2]),
            }
        }
    }
}

/// Bytes the checksum runs over: class, id, length, payload.
pub open spec fn frame_body(f: FrameView) -> Seq<u8> {
    seq![
        class_byte(f.class),
        f.id,
        (f.payload.len() % 256) as u8,
        ((f.payload.len() / 256) % 256) as u8,
    ] + f.payload
}

/// Full wire image of a frame: sync bytes, body, checksum trailer.
pub open spec fn frame_seq(f: FrameView) -> Seq<u8> {
    let ck = spec_checksum(frame_body(f));
    seq![SYNC_CHAR_1, SYNC_CHAR_2] + frame_body(f) + seq![ck.0, ck.1]
}

/// Computes the two running checksum bytes over `buf`.
pub fn checksum(buf: &[u8]) -> (r: (u8, u8))
    ensures
        r == spec_checksum(buf@),
{
    let r = checksum_range(buf, 0, buf.len());
    assert(buf@.subrange(0, buf@.len() as int) =~= buf@);
    r
}

/// Computes the checksum bytes over `buf[from..to]`.
fn checksum_range(buf: &[u8], from: usize, to: usize) -> (r: (u8, u8))
    requires
        from <= to <= buf@.len(),
    ensures
        r == spec_checksum(buf@.subrange(from as int, to as int)),
{
    let mut ck_a: u8 = 0;
    let mut ck_b: u8 = 0;
    let mut i: usize = from;
    assert(buf@.subrange(from as int, from as int) =~= Seq::<u8>::empty());
    while i < to
        invariant
            from <= i <= to <= buf@.len(),
            (ck_a, ck_b) == spec_checksum(buf@.subrange(from as int, i as int)),
        decreases to - i,
    {
        ck_a = ck_a.wrapping_add(buf[i]);
        ck_b = ck_b.wrapping_add(ck_a);
        i = i + 1;
        assert(buf@.subrange(from as int, i as int).drop_last() =~= buf@.subrange(
            from as int,
            i - 1,
        ));
    }
    (ck_a, ck_b)
}

/// Copies `buf[from..to]` into a fresh vector.
fn bytes_range(buf: &[u8], from: usize, to: usize) -> (r: Vec<u8>)
    requires
        from <= to <= buf@.len(),
    ensures
        r@ == buf@.subrange(from as int, to as int),
{
    let mut r: Vec<u8> = Vec::new();
    let mut i: usize = from;
    while i < to
        invariant
            from <= i <= to <= buf@.len(),
            r@ == buf@.subrange(from as int, i as int),
        decreases to - i,
    {
        r.push(buf[i]);
        i = i + 1;
        assert(r@ =~= buf@.subrange(from as int, i as int));
    }
    assert(r@ =~= buf@.subrange(from as int, to as int));
    r
}

impl Packet {
    /// Frame length of this packet on the wire.
    pub fn len_with_frame(&self) -> (r: usize)
        requires
            self.payload@.len() + MIN_PKT_LEN <= usize::MAX,
        ensures
            r == self.payload@.len() + MIN_PKT_LEN,
    {
        self.payload.len() + MIN_PKT_LEN
    }

    /// Serializes this packet as a complete wire frame with sync bytes,
    /// little-endian payload length, and checksum trailer.
    pub fn serialize(&self) -> (r: Vec<u8>)
        requires
            self.payload@.len() <= 0xffff,
        ensures
            r@ == frame_seq(self@),
    {
        let plen: usize = self.payload.len();
        let mut v: Vec<u8> = Vec::new();
        v.push(SYNC_CHAR_1);
        v.push(SYNC_CHAR_2);
        v.push(self.class.to_byte());
        v.push(self.id);
        v.push((plen % 256) as u8);
        v.push((plen / 256) as u8);
        let mut i: usize = 0;
        while i < self.payload.len()
            invariant
                i <= self.payload@.len() <= 0xffff,
                v@.len() == 6 + i,
                v@ == seq![
                    SYNC_CHAR_1,
                    SYNC_CHAR_2,
                    class_byte(self.class),
                    self.id,
                    (self.payload@.len() % 256) as u8,
                    ((self.payload@.len() / 256) % 256) as u8,
                ] + self.payload@.take(i as int),
            decreases self.payload@.len() - i,
        {
            v.push(self.payload[i]);
            i = i + 1;
            assert(self.payload@.take(i as int) =~= self.payload@.take(i - 1).push(
                self.payload@[i - 1],
            ));
            assert(v@ =~= seq![
                SYNC_CHAR_1,
                SYNC_CHAR_2,
                class_byte(self.class),
                self.id,
                (self.payload@.len() % 256) as u8,
                ((self.payload@.len() / 256) % 256) as u8,
            ] + self.payload@.take(i as int));
        }
        assert(self.payload@.take(plen as int) =~= self.payload@);
        assert(v@.subrange(2, v@.len() as int) =~= frame_body(self@));
        let (ck_a, ck_b) = checksum_range(v.as_slice(), 2, v.len());
        v.push(ck_a);
        v.push(ck_b);
        assert(v@ =~= frame_seq(self@));
        v
    }

    /// Deserializes one frame from the head of `buf`; bytes past the frame
    /// are ignored. The result mirrors [`parse`] exactly, error for error.
    pub fn deserialize(buf: &[u8]) -> (r: Result<Packet, BadDeserialization>)
        ensures
            (match parse(buf@) {
                ParseOut::Parsed(f) => r is Ok && r->Ok_0@ == f,
                ParseOut::Incomplete => r == Err::<Packet, BadDeserialization>(
                    BadDeserialization::IncompleteRead,
                ),
                ParseOut::BadMagic => r == Err::<Packet, BadDeserialization>(
                    BadDeserialization::BadMagic,
                ),
                ParseOut::BadChecksum => r == Err::<Packet, BadDeserialization>(
                    BadDeserialization::BadChecksum,
                ),
                ParseOut::Unsupported(u) => r == Err::<Packet, BadDeserialization>(
                    BadDeserialization::Unsupported(u),
                ),
            }),
    {
        Packet::from_iter(buf)
    }

    /// Deserializes one frame from the head of a byte slice, checking the
    /// sync bytes, completeness, checksum, and class in that order.
    pub fn from_iter(buf: &[u8]) -> (r: Result<Packet, BadDeserialization>)
        ensures
            (match parse(buf@) {
                ParseOut::Parsed(f) => r is Ok && r->Ok_0@ == f,
                ParseOut::Incomplete => r == Err::<Packet, BadDeserialization>(
                    BadDeserialization::IncompleteRead,
                ),
                ParseOut::BadMagic => r == Err::<Packet, BadDeserialization>(
                    BadDeserialization::BadMagic,
                ),
                ParseOut::BadChecksum => r == Err::<Packet, BadDeserialization>(
                    BadDeserialization::BadChecksum,
                ),
                ParseOut::Unsupported(u) => r == Err::<Packet, BadDeserialization>(
                    BadDeserialization::Unsupported(u),
                ),
            }),
    {
        if buf.len() < 1 {
            return Err(BadDeserialization::IncompleteRead);
        }
        if buf[0] != SYNC_CHAR_1 {
            return Err(BadDeserialization::BadMagic);
        }
        if buf.len() < 2 {
            return Err(BadDeserialization::IncompleteRead);
        }
        if buf[1] != SYNC_CHAR_2 {
            return Err(BadDeserialization::BadMagic);
        }
        if buf.len() < 6 {
            return Err(BadDeserialization::IncompleteRead);
        }
        let plen: usize = buf[4] as usize + 256 * (buf[5] as usize);
        if buf.len() < 8 + plen {
            return Err(BadDeserialization::IncompleteRead);
        }
        let (ck_a, ck_b) = checksum_range(buf, 2, 6 + plen);
        if buf[6 + plen] != ck_a || buf[7 + plen] != ck_b {
            return Err(BadDeserialization::BadChecksum);
        }
        match Class::from_byte(buf[2]) {
            Some(class) => Ok(
                Packet { class, id: buf[3], payload: bytes_range(buf, 6, 6 + plen) },
            ),
            None => Err(BadDeserialization::Unsupported(buf[2])),
        }
    }
}

impl<T: Poll> Frame for T {
    open spec fn spec_frame() -> Seq<u8> {
        frame_seq(
            FrameView {
                class: T::spec_class(),
                id: T::spec_id(),
                payload: T::spec_payload(),
            },
        )
    }

    fn frame() -> (r: Vec<u8>) {
        let p = Packet { class: T::class(), id: T::id(), payload: T::polling_payload() };
        p.serialize()
    }
}

/// All frames a finite byte sequence yields: parse at the head; on a
/// definite failure resynchronise by dropping exactly one byte; on success
/// emit the frame and drop exactly its bytes; when bytes are missing, stop
/// and await more input.
pub open spec fn scan(s: Seq<u8>) -> Seq<FrameView>
    decreases s.len(),
{
    match parse(s) {
        ParseOut::Incomplete => Seq::empty(),
        ParseOut::Parsed(f) => seq![f] + scan(s.skip(8 + payload_len_at(s))),
        _ => scan(s.skip(1)),
    }
}

/// Once the head of a byte sequence parses to anything but `Incomplete`,
/// appending further bytes cannot change that outcome.
pub proof fn lemma_parse_prefix_stable(s: Seq<u8>, rest: Seq<u8>)
    requires
        !(parse(s) is Incomplete),
    ensures
        parse(s + rest) == parse(s),
{
    let t = s + rest;
    if s.len() >= 2 && s[0] == SYNC_CHAR_1 && s[1] == SYNC_CHAR_2 {
        let plen = payload_len_at(s);
        assert(s.len() >= 8 + plen);
        assert(payload_len_at(t) == plen);
        assert(t.subrange(2, 6 + plen) =~= s.subrange(2, 6 + plen));
        assert(t.subrange(6, 6 + plen) =~= s.subrange(6, 6 + plen));
        assert(t[6 + plen] == s[6 + plen] && t[7 + plen] == s[7 + plen]);
    }
}

/// Resynchronisation is sound: when the head is a definite failure,
/// dropping one byte does not change what the stream yields, whatever
/// bytes arrive later.
pub proof fn lemma_scan_skip_one(s: Seq<u8>, rest: Seq<u8>)
    requires
        parse(s) is BadMagic || parse(s) is BadChecksum || parse(s) is Unsupported,
    ensures
        scan(s + rest) == scan(s.skip(1) + rest),
{
    lemma_parse_prefix_stable(s, rest);
    assert((s + rest).skip(1) =~= s.skip(1) + rest);
}

/// Emission is stable: when a complete frame sits at the head, the stream
/// yields it first, whatever bytes arrive later.
pub proof fn lemma_scan_emit(s: Seq<u8>, rest: Seq<u8>)
    requires
        parse(s) is Parsed,
    ensures
        scan(s + rest) == seq![parse(s)->Parsed_0] + scan(
            s.skip(8 + payload_len_at(s)) + rest,
        ),
{
    lemma_parse_prefix_stable(s, rest);
    assert(payload_len_at(s + rest) == payload_len_at(s));
    assert((s + rest).skip(8 + payload_len_at(s)) =~= s.skip(8 + payload_len_at(s)) + rest);
}

/// Resynchronising packet scanner over a byte stream. Bytes are pushed in
/// as they arrive; [`PacketIterator::next_packet`] extracts the frames that
/// are complete so far.
pub struct PacketIterator {
    buf: Vec<u8>,
}

impl View for PacketIterator {
    type V = Seq<u8>;

    closed spec fn view(&self) -> Seq<u8> {
        self.buf@
    }
}

impl PacketIterator {
    /// A scanner with an empty read-ahead buffer.
    pub fn new() -> (r: PacketIterator)
        ensures
            r@ == Seq::<u8>::empty(),
    {
        PacketIterator { buf: Vec::new() }
    }

    /// Feeds one byte from the source into the read-ahead buffer.
    pub fn push_byte(&mut self, b: u8)
        ensures
            final(self)@ == old(self)@.push(b),
    {
        self.buf.push(b);
    }

    /// Feeds a batch of bytes from the source into the read-ahead buffer.
    pub fn push_bytes(&mut self, bytes: &[u8])
        ensures
            final(self)@ == old(self)@ + bytes@,
    {
        let mut i: usize = 0;
        while i < bytes.len()
            invariant
                i <= bytes@.len(),
                self@ == old(self)@ + bytes@.take(i as int),
            decreases bytes@.len() - i,
        {
            self.buf.push(bytes[i]);
            i = i + 1;
            assert(old(self)@ + bytes@.take(i as int) =~= (old(self)@ + bytes@.take(i - 1)).push(
                bytes@[i - 1],
            ));
        }
        assert(old(self)@ + bytes@.take(bytes@.len() as int) =~= old(self)@ + bytes@);
    }

    /// Extracts the next frame from the buffered bytes, resynchronising
    /// past garbage one byte at a time. Returns `None` when the buffer
    /// holds no complete frame and more input is needed; buffered bytes
    /// that may still begin a frame are kept.
    pub fn next_packet(&mut self) -> (r: Option<Packet>)
        ensures
            (match r {
                Some(p) => {
                    &&& final(self)@.len() < old(self)@.len()
                    &&& forall|rest: Seq<u8>|
                        #[trigger] scan(old(self)@ + rest) == seq![p@] + scan(final(self)@ + rest)
                },
                None => {
                    &&& parse(final(self)@) is Incomplete
                    &&& forall|rest: Seq<u8>|
                        #[trigger] scan(old(self)@ + rest) == scan(final(self)@ + rest)
                },
            }),
    {
        loop
            invariant
                self@.len() <= old(self)@.len(),
                forall|rest: Seq<u8>|
                    #[trigger] scan(old(self)@ + rest) == scan(self@ + rest),
            decreases self.buf@.len(),
        {
            let prev = Ghost(self@);
            match Packet::from_iter(self.buf.as_slice()) {
                Err(BadDeserialization::IncompleteRead) => {
                    return None;
                },
                Err(_) => {
                    proof {
                        assert forall|rest: Seq<u8>|
                            #[trigger] scan(old(self)@ + rest) == scan(
                                prev@.skip(1) + rest,
                            ) by {
                            lemma_scan_skip_one(prev@, rest);
                        }
                    }
                    self.buf.remove(0);
                    assert(self@ =~= prev@.skip(1));
                },
                Ok(p) => {
                    let ghost f = parse(prev@)->Parsed_0;
                    assert(p@.payload.len() == payload_len_at(prev@));
                    let k = p.len_with_frame();
                    let tail = self.buf.split_off(k);
                    self.buf = tail;
                    proof {
                        assert(self@ =~= prev@.skip(8 + payload_len_at(prev@)));
                        assert forall|rest: Seq<u8>|
                            #[trigger] scan(old(self)@ + rest) == seq![p@] + scan(
                                self@ + rest,
                            ) by {
                            lemma_scan_emit(prev@, rest);
                        }
                    }
                    return Some(p);
                },
            }
        }
    }
}

/// Runs the scanner over one finite byte sequence and collects every frame
/// it yields, in order.
pub fn packets_from_bytes(bytes: &[u8]) -> (r: Vec<Packet>)
    ensures
        r@.map_values(|p: Packet| p@) == scan(bytes@),
{
    let mut it = PacketIterator::new();
    it.push_bytes(bytes);
    assert(it@ =~= bytes@);
    let mut r: Vec<Packet> = Vec::new();
    loop
        invariant
            r@.map_values(|p: Packet| p@) + scan(it@) == scan(bytes@),
        decreases it@.len(),
    {
        let ghost before = it@;
        match it.next_packet() {
            Some(p) => {
                proof {
                    assert(before + Seq::<u8>::empty() =~= before);
                    assert(it@ + Seq::<u8>::empty() =~= it@);
                    assert(scan(before) == seq![p@] + scan(it@));
                }
                r.push(p);
                assert(r@.map_values(|q: Packet| q@) =~= r@.drop_last().map_values(
                    |q: Packet| q@,
                ).push(p@));
            },
            None => {
                proof {
                    assert(before + Seq::<u8>::empty() =~= before);
                    assert(it@ + Seq::<u8>::empty() =~= it@);
                }
                assert(scan(it@) =~= Seq::<FrameView>::empty());
                assert(r@.map_values(|p: Packet| p@) =~= scan(bytes@));
                return r;
            },
        }
    }
}

/// Law: serialization of a frame with a known class and a payload that fits
/// the two length bytes deserializes back to the same frame.
pub proof fn lemma_serialize_deserialize_roundtrip(f: FrameView)
    requires
        f.payload.len() <= 0xffff,
    ensures
        parse(frame_seq(f)) == ParseOut::Parsed(f),
{
    let s = frame_seq(f);
    let plen = f.payload.len() as int;
    let a = (plen % 256) as int;
    let b = ((plen / 256) % 256) as int;
    assert(plen / 256 < 256);
    assert((plen / 256) % 256 == plen / 256);
    assert(a + 256 * b == plen) by (nonlinear_arith)
        requires
            0 <= plen <= 0xffff,
            a == plen % 256,
            b == (plen / 256) % 256,
    ;
    assert(s.len() == 8 + plen);
    assert(s[4] == (plen % 256) as u8 && s[5] == ((plen / 256) % 256) as u8);
    assert(payload_len_at(s) == plen);
    assert(s.subrange(2, 6 + plen) =~= frame_body(f));
    assert(s[6 + plen] == spec_checksum(frame_body(f)).0);
    assert(s[7 + plen] == spec_checksum(frame_body(f)).1);
    assert(byte_class(s[2]) == Some(f.class));
    assert(s.subrange(6, 6 + plen) =~= f.payload);
    assert(parse(s)->Parsed_0.payload == f.payload);
}

/// Law: deserializing a complete wire frame and serializing the result
/// reproduces the input byte for byte.
pub proof fn lemma_deserialize_serialize_roundtrip(s: Seq<u8>)
    requires
        parse(s) is Parsed,
        s.len() == 8 + payload_len_at(s),
    ensures
        frame_seq(parse(s)->Parsed_0) == s,
{
    let f = parse(s)->Parsed_0;
    let plen = payload_len_at(s);
    assert(f.payload =~= s.subrange(6, 6 + plen));
    assert(f.payload.len() == plen);
    let a = s[4] as int;
    let b = s[5] as int;
    assert((a + 256 * b) % 256 == a && (a + 256 * b) / 256 == b) by (nonlinear_arith)
        requires
            0 <= a < 256,
            0 <= b < 256,
    ;
    assert((f.payload.len() % 256) as u8 == s[4]);
    assert(((f.payload.len() / 256) % 256) as u8 == s[5]);
    assert(class_byte(f.class) == s[2]);
    assert(frame_body(f) =~= s.subrange(2, 6 + plen));
    assert(s[6 + plen] == spec_checksum(frame_body(f)).0);
    assert(s[7 + plen] == spec_checksum(frame_body(f)).1);
    assert(frame_seq(f) =~= s);
}

/// Law: a byte sequence shaped like a complete frame whose trailer differs
/// from the checksum computed over its body is rejected as `BadChecksum`.
pub proof fn lemma_checksum_mismatch_rejected(s: Seq<u8>)
    requires
        s.len() >= 8 + payload_len_at(s),
        s.len() >= 6,
        s[0] == SYNC_CHAR_1,
        s[1] == SYNC_CHAR_2,
        (
            s[6 + payload_len_at(s)],
            s[7 + payload_len_at(s)],
        ) != spec_checksum(s.subrange(2, 6 + payload_len_at(s))),
    ensures
        parse(s) is BadChecksum,
{
}

/// Garbage that never holds the first sync byte is skipped without
/// touching what follows.
pub proof fn lemma_scan_garbage_prefix(g: Seq<u8>, t: Seq<u8>)
    requires
        forall|i: int| 0 <= i < g.len() ==> g[i] != SYNC_CHAR_1,
    ensures
        scan(g + t) == scan(t),
    decreases g.len(),
{
    if g.len() == 0 {
        assert(g + t =~= t);
    } else {
        let s = g + t;
        assert(s[0] == g[0]);
        assert(parse(s) is BadMagic);
        assert(s.skip(1) =~= g.skip(1) + t);
        assert(forall|i: int| 0 <= i < g.skip(1).len() ==> g.skip(1)[i] != SYNC_CHAR_1);
        lemma_scan_garbage_prefix(g.skip(1), t);
    }
}

/// A complete frame at the head of the stream is emitted first, and
/// scanning resumes right after its last byte.
pub proof fn lemma_scan_frame_prefix(f: FrameView, t: Seq<u8>)
    requires
        f.payload.len() <= 0xffff,
    ensures
        scan(frame_seq(f) + t) == seq![f] + scan(t),
{
    let s = frame_seq(f);
    lemma_serialize_deserialize_roundtrip(f);
    lemma_scan_emit(s, t);
    assert(payload_len_at(s) == f.payload.len()) by {
        let plen = f.payload.len() as int;
        let a = (plen % 256) as int;
        let b = ((plen / 256) % 256) as int;
        assert(a + 256 * b == plen) by (nonlinear_arith)
            requires
                0 <= plen <= 0xffff,
                a == plen % 256,
                b == (plen / 256) % 256,
        ;
    }
    assert(s.skip(8 + payload_len_at(s)) =~= Seq::<u8>::empty());
    assert(Seq::<u8>::empty() + t =~= t);
}

/// Law: two valid frames separated and preceded by garbage that never
/// holds the first sync byte are recovered exactly, in order.
pub proof fn lemma_scan_recovers_frames(g1: Seq<u8>, f1: FrameView, g2: Seq<u8>, f2: FrameView)
    requires
        f1.payload.len() <= 0xffff,
        f2.payload.len() <= 0xffff,
        forall|i: int| 0 <= i < g1.len() ==> g1[i] != SYNC_CHAR_1,
        forall|i: int| 0 <= i < g2.len() ==> g2[i] != SYNC_CHAR_1,
    ensures
        scan(g1 + frame_seq(f1) + g2 + frame_seq(f2)) == seq![f1, f2],
{
    let s1 = frame_seq(f1);
    let s2 = frame_seq(f2);
    assert(g1 + s1 + g2 + s2 =~= g1 + (s1 + (g2 + s2)));
    lemma_scan_garbage_prefix(g1, s1 + (g2 + s2));
    lemma_scan_frame_prefix(f1, g2 + s2);
    lemma_scan_garbage_prefix(g2, s2);
    assert(s2 + Seq::<u8>::empty() =~= s2);
    lemma_scan_frame_prefix(f2, Seq::<u8>::empty());
    assert(parse(Seq::<u8>::empty()) is Incomplete);
    assert(scan(Seq::<u8>::empty()) =~= Seq::<FrameView>::empty());
    assert(seq![f1] + (seq![f2] + Seq::<FrameView>::empty()) =~= seq![f1, f2]);
}

/// Every strict prefix of a wire frame is incomplete: the scanner waits
/// for more bytes rather than consuming it.
pub proof fn lemma_frame_prefix_incomplete(f: FrameView, n: int)
    requires
        f.payload.len() <= 0xffff,
        0 <= n < frame_seq(f).len(),
    ensures
        parse(frame_seq(f).take(n)) is Incomplete,
{
    let s = frame_seq(f);
    let t = s.take(n);
    lemma_serialize_deserialize_roundtrip(f);
    if n >= 6 {
        assert(t[4] == s[4] && t[5] == s[5]);
        assert(payload_len_at(t) == payload_len_at(s));
        assert(t.len() < 8 + payload_len_at(t));
    }
}

/// Law: over a frame followed by a truncated tail, only the frame fully
/// present is yielded.
pub proof fn lemma_scan_truncated_tail(f1: FrameView, t: Seq<u8>)
    requires
        f1.payload.len() <= 0xffff,
        parse(t) is Incomplete,
    ensures
        scan(frame_seq(f1) + t) == seq![f1],
{
    lemma_scan_frame_prefix(f1, t);
    assert(scan(t) =~= Seq::<FrameView>::empty());
    assert(seq![f1] + Seq::<FrameView>::empty() =~= seq![f1]);
}

} // verus!
