use gps_ntp::ubx::{checksum, packets_from_bytes, Class, Packet, PacketIterator, Serialize};
use gps_ntp::ubx_cfg::{disable_nmea, CfgMsg, Port, PortMode, PortProto, UartCfg, UartMode};

fn sample_frame() -> Vec<u8> {
    vec![
        0xb5, 0x62, 0x01, 0x20, 0x10, 0x00, 0xce, 0x74, 0x3e, 0x04, 0x88, 0xcc, 0xfa, 0xff,
        0x81, 0x07, 0x11, 0x07, 0x2c, 0x33, 0x31, 0x01, 0x33, 0x25,
    ]
}

#[test]
fn test_checksum() {
    let buf = sample_frame();
    let (ck_a, ck_b) = checksum(&buf[2..buf.len() - 2]);
    assert_eq!(ck_a, 0x33);
    assert_eq!(ck_b, 0x25);
}

#[test]
fn test_roundtrip() {
    let inbuf = sample_frame();
    let p = Packet::deserialize(&inbuf).unwrap();
    let outbuf = p.serialize();
    assert_eq!(inbuf, outbuf);
}

#[test]
fn from_iterator() {
    let buf = sample_frame();
    let p = Packet::from_iter(&buf).unwrap();
    assert_eq!(p.class, Class::Navigation);
    assert_eq!(p.id, 0x20);
}

#[test]
fn from_iterator_many() {
    let mut buf = sample_frame();
    buf.extend(sample_frame());
    let mut count = 0;
    for p in packets_from_bytes(&buf) {
        assert_eq!(p.class, Class::Navigation);
        assert_eq!(p.id, 0x20);
        count += 1;
    }
    assert_eq!(count, 2);
}

#[test]
fn from_iterator_leading_garbage() {
    let mut buf = vec![0xaa, 0xaa, 0xbb];
    buf.extend(sample_frame());
    buf.push(0xff);
    buf.extend(sample_frame());
    let mut count = 0;
    for p in packets_from_bytes(&buf) {
        assert_eq!(p.class, Class::Navigation);
        assert_eq!(p.id, 0x20);
        count += 1;
    }
    assert_eq!(count, 2);
}

#[test]
fn from_iterator_incomplete_payload() {
    let buf = &sample_frame()[..22];
    let mut count = 0;
    for _ in packets_from_bytes(buf) {
        count += 1;
    }
    assert_eq!(count, 0);
}

#[test]
fn streaming_iterator_resyncs() {
    // the same bytes arriving one at a time yield the same two frames
    let mut bytes = vec![0xaa, 0xaa, 0xbb];
    bytes.extend(sample_frame());
    bytes.push(0xff);
    bytes.extend(sample_frame());
    let mut it = PacketIterator::new();
    let mut count = 0;
    for b in bytes {
        it.push_byte(b);
        while let Some(p) = it.next_packet() {
            assert_eq!(p.class, Class::Navigation);
            assert_eq!(p.id, 0x20);
            count += 1;
        }
    }
    assert_eq!(count, 2);
}

#[test]
fn bad_checksum_rejected() {
    let mut buf = sample_frame();
    let last = buf.len() - 1;
    buf[last] ^= 0xff;
    assert!(Packet::deserialize(&buf).is_err());
    assert_eq!(packets_from_bytes(&buf).len(), 0);
}

#[test]
fn unknown_class_rejected() {
    // rebuild the sample frame with an unassigned class byte and a fixed
    // checksum: the scanner must skip it
    let mut buf = sample_frame();
    buf[2] = 0x07;
    let (ck_a, ck_b) = checksum(&buf[2..22]);
    buf[22] = ck_a;
    buf[23] = ck_b;
    assert!(Packet::deserialize(&buf).is_err());
    assert_eq!(packets_from_bytes(&buf).len(), 0);
}

#[test]
fn portconfig_serialization() {
    let pc = Port {
        port_mode: PortMode::UART(UartCfg {
            baudrate: 9600,
            mode: UartMode::Mode8N1,
            lsb: true,
        }),
        proto_in: PortProto::UBX,
        proto_out: PortProto::UBX,
    };

    let expected = vec![
        0x01, 0x00, 0x00, 0x00, 0xD0, 0x08, 0x00, 0x00, 0x80, 0x25, 0x00, 0x00, 0x01, 0x00,
        0x01, 0x00, 0x00, 0x00, 0x00, 0x00,
    ];
    assert_eq!(pc.serialize(), expected);
}

#[test]
fn disable_nmea_frame() {
    let frame = disable_nmea(9600);
    let p = Packet::deserialize(&frame).unwrap();
    assert_eq!(p.class, Class::ConfigInput);
    assert_eq!(p.id, 0);
    let expected_payload = vec![
        0x01, 0x00, 0x00, 0x00, 0xD0, 0x08, 0x00, 0x00, 0x80, 0x25, 0x00, 0x00, 0x01, 0x00,
        0x01, 0x00, 0x00, 0x00, 0x00, 0x00,
    ];
    assert_eq!(p.payload, expected_payload);
    assert_eq!(frame.len(), 28);
}

#[test]
fn cfg_msg_request_frame() {
    let msg = CfgMsg { c: Class::Navigation, id: 0x8, rate_ms: 1000 };
    let buf = msg.serialize_request();
    let expected = vec![
        0xb5, 0x62, 0x06, 0x08, 0x06, 0x00, 0xe8, 0x03, 0x01, 0x00, 0x01, 0x00, 0x01, 0x39,
    ];
    assert_eq!(buf, expected);
}
