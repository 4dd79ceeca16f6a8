//! UBX configuration messages: port setup (CFG-PRT) and message rate
//! requests (CFG-MSG), serialized byte for byte.

use vstd::prelude::*;

use crate::bytes::spec_le32;
use crate::ubx::{frame_seq, Class, FrameView, Packet, Serialize};

verus! {

/// A configuration message of either supported kind.
#[derive(Debug)]
pub enum CfgPacket {
    Msg(CfgMsg),
    Port(Port),
}

/// Protocols a port can accept or emit.
#[derive(Debug)]
#[allow(non_camel_case_types)]
pub enum PortProto {
    UBX,
    NMEA,
    UBX_NMEA,
}

/// Physical port kinds that can be configured.
#[derive(Debug)]
pub enum PortMode {
    UART(UartCfg),
}

/// Serial line disciplines the receiver supports.
#[derive(Debug)]
pub enum UartMode {
    Mode8N1,
}

/// UART settings: baud rate, line discipline, bit order flag.
#[derive(Debug)]
pub struct UartCfg {
    pub baudrate: u32,
    pub mode: UartMode,
    pub lsb: bool,
}

/// A CFG-PRT payload: one port with its input and output protocols.
#[derive(Debug)]
pub struct Port {
    pub port_mode: PortMode,
    pub proto_in: PortProto,
    pub proto_out: PortProto,
}

impl Serialize for PortProto {
    open spec fn spec_serialize(&self) -> Seq<u8> {
        match self {
            PortProto::UBX => seq![1u8, 0u8],
            PortProto::NMEA => seq![2u8, 0u8],
            PortProto::UBX_NMEA => seq![3u8, 0u8],
        }
    }

    fn serialize(&self) -> (r: Vec<u8>) {
        let mut out: Vec<u8> = Vec::new();
        match self {
            PortProto::UBX => out.push(1),
            PortProto::NMEA => out.push(2),
            PortProto::UBX_NMEA => out.push(3),
        }
        out.push(0);
        assert(out@ =~= self.spec_serialize());
        out
    }
}

impl Serialize for UartCfg {
    open spec fn spec_serialize(&self) -> Seq<u8> {
        seq![1u8, 0u8, 0u8, 0u8]  // port id 1: UART
         + seq![0xd0u8, 0x08u8]  // 8N1
         + (if self.lsb {
            seq![0u8, 0u8]
        } else {
            seq![1u8, 0u8]
        }) + spec_le32(self.baudrate)
    }

    fn serialize(&self) -> (r: Vec<u8>) {
        let mut out: Vec<u8> = Vec::new();
        out.push(1);
        out.push(0);
        out.push(0);
        out.push(0);
        match self.mode {
            UartMode::Mode8N1 => {
                out.push(0xd0);
                out.push(0x08);
            },
        }
        if self.lsb {
            out.push(0);
            out.push(0);
        } else {
            out.push(1);
            out.push(0);
        }
        crate::bytes::push_le32(&mut out, self.baudrate);
        assert(out@ =~= self.spec_serialize());
        out
    }
}

impl Serialize for PortMode {
    open spec fn spec_serialize(&self) -> Seq<u8> {
        match self {
            PortMode::UART(cfg) => cfg.spec_serialize(),
        }
    }

    fn serialize(&self) -> (r: Vec<u8>) {
        match self {
            PortMode::UART(cfg) => cfg.serialize(),
        }
    }
}

impl Serialize for Port {
    open spec fn spec_serialize(&self) -> Seq<u8> {
        self.port_mode.spec_serialize() + self.proto_in.spec_serialize()
            + self.proto_out.spec_serialize() + seq![0u8, 0u8, 0u8, 0u8]
    }

    fn serialize(&self) -> (r: Vec<u8>) {
        let mut out = self.port_mode.serialize();
        let mut tail = self.proto_in.serialize();
        out.append(&mut tail);
        let mut tail = self.proto_out.serialize();
        out.append(&mut tail);
        out.push(0);
        out.push(0);
        out.push(0);
        out.push(0);
        assert(out@ =~= self.spec_serialize());
        out
    }
}

/// A CFG-MSG rate request for one message kind.
#[derive(Debug)]
pub struct CfgMsg {
    pub c: Class,
    pub id: u8,
    /// Requested interval between unsolicited messages, in milliseconds.
    pub rate_ms: u32,
}

/// The fixed CFG-MSG request payload: a one-second rate on the UART port.
pub open spec fn cfg_msg_payload() -> Seq<u8> {
    seq![0xe8u8, 0x03u8, 0x01u8, 0x00u8, 0x01u8, 0x00u8]
}

impl CfgMsg {
    /// Serializes the full request frame carrying the fixed rate payload.
    pub fn serialize_request(&self) -> (r: Vec<u8>)
        ensures
            r@ == frame_seq(
                (FrameView {
                    class: Class::ConfigInput,
                    id: self.id,
                    payload: cfg_msg_payload(),
                }),
            ),
    {
        let mut payload: Vec<u8> = Vec::new();
        payload.push(0xe8);
        payload.push(0x03);
        payload.push(0x01);
        payload.push(0x00);
        payload.push(0x01);
        payload.push(0x00);
        assert(payload@ =~= cfg_msg_payload());
        let p = Packet { class: Class::ConfigInput, id: self.id, payload };
        p.serialize()
    }
}

/// Builds the CFG-PRT frame that restricts the UART port to the UBX
/// protocol in both directions, 8N1, at the given baud rate.
pub fn disable_nmea(baudrate: u32) -> (r: Vec<u8>)
    ensures
        r@ == frame_seq(
            (FrameView {
                class: Class::ConfigInput,
                id: 0,
                payload: port_ubx_only_payload(baudrate),
            }),
        ),
{
    let pc = Port {
        port_mode: PortMode::UART(UartCfg { baudrate, mode: UartMode::Mode8N1, lsb: true }),
        proto_in: PortProto::UBX,
        proto_out: PortProto::UBX,
    };
    let buf = pc.serialize();
    assert(buf@ =~= port_ubx_only_payload(baudrate));
    let p = Packet { class: Class::ConfigInput, id: 0x0, payload: buf };
    p.serialize()
}

/// CFG-PRT payload selecting UBX-only input and output over 8N1 UART.
pub open spec fn port_ubx_only_payload(baudrate: u32) -> Seq<u8> {
    seq![1u8, 0u8, 0u8, 0u8, 0xd0u8, 0x08u8, 0u8, 0u8] + spec_le32(baudrate) + seq![
        1u8,
        0u8,
        1u8,
        0u8,
        0u8,
        0u8,
        0u8,
        0u8,
    ]
}

} // verus!
