//! The host side of the simpler simulation transport. In both directions
//! each packet travels as its packet type (its message type, one byte),
//! its length (big-endian, two bytes), then the packet itself.
use vstd::prelude::*;

use crate::codec::{append_from, mt_of};
use crate::nci::{
    GID_CORE, MT_COMMAND, MT_DATA, MT_NOTIFICATION, MT_RESPONSE, OID_CORE_INIT, OID_CORE_RESET,
};

verus! {

/// Where the host sends a packet that came from the HAL.
#[derive(Clone, Copy, Debug, PartialEq, Eq, Structural)]
pub enum HalRoute {
    /// A Response or Notification, for the command channel.
    Control,
    /// A Data packet, for the data channel.
    Data,
    /// Anything else, which is dropped.
    Unsupported,
}

/// Errors of the minimal server and of the host framing.
#[derive(Clone, Copy, Debug, PartialEq, Eq, Structural)]
pub enum HostError {
    /// The packet does not fit a 16-bit length.
    PacketTooLong,
    /// The packet is empty, or its message type is reserved.
    InvalidPacket,
    /// The packet type is not Command.
    UnsupportedPacket,
    /// The Command packet is malformed.
    InvalidCommand,
    /// The server does not answer this Command.
    UnsupportedCommand,
}

/// Big-endian bytes of `v`.
pub open spec fn be16(v: u16) -> Seq<u8> {
    seq![(v / 256) as u8, (v % 256) as u8]
}

/// CORE_RESET_RSP with status OK.
pub open spec fn reset_response() -> Seq<u8> {
    seq![0x40u8, OID_CORE_RESET, 0x01, 0x00]
}

/// CORE_INIT_RSP with an empty payload.
pub open spec fn init_response() -> Seq<u8> {
    seq![0x40u8, OID_CORE_INIT, 0x00]
}

/// The route of a packet by the packet-type byte in front of it.
pub fn classify_incoming(packet_type: u8) -> (r: HalRoute)
    ensures
        r == (if packet_type == MT_RESPONSE || packet_type == MT_NOTIFICATION {
            HalRoute::Control
        } else if packet_type == MT_DATA {
            HalRoute::Data
        } else {
            HalRoute::Unsupported
        }),
{
    if packet_type == MT_RESPONSE || packet_type == MT_NOTIFICATION {
        HalRoute::Control
    } else if packet_type == MT_DATA {
        HalRoute::Data
    } else {
        HalRoute::Unsupported
    }
}

/// Length announced by a big-endian 2-byte prefix.
pub fn frame_length(header: [u8; 2]) -> (r: usize)
    ensures
        r == 256 * header@[0] + header@[1],
{
    256 * (header[0] as usize) + header[1] as usize
}

/// The bytes written on the link for `packet`: its message type as the
/// packet type, its length, then the packet. An empty packet has no
/// message type, and a reserved one names no packet type.
pub fn hal_frame(packet: &Vec<u8>) -> (r: Result<Vec<u8>, HostError>)
    ensures
        r is Ok <==> 1 <= packet@.len() <= 0xffff && mt_of(packet@[0]) <= MT_NOTIFICATION,
        r matches Ok(v) ==> v@ == seq![mt_of(packet@[0])] + be16(packet@.len() as u16) + packet@,
        packet@.len() == 0 || (packet@.len() <= 0xffff && mt_of(packet@[0]) > MT_NOTIFICATION) ==> r
            == Err::<Vec<u8>, HostError>(HostError::InvalidPacket),
        packet@.len() > 0xffff ==> r == Err::<Vec<u8>, HostError>(HostError::PacketTooLong),
{
    if packet.len() > 0xffff {
        return Err(HostError::PacketTooLong);
    }
    if packet.len() == 0 || packet[0] >> 5u8 > MT_NOTIFICATION {
        return Err(HostError::InvalidPacket);
    }
    let len = packet.len() as u16;
    let mut v: Vec<u8> = Vec::new();
    v.push(packet[0] >> 5u8);
    v.push((len / 256) as u8);
    v.push((len % 256) as u8);
    append_from(&mut v, packet, 0);
    assert(packet@.skip(0) =~= packet@);
    assert(v@ =~= seq![mt_of(packet@[0])] + be16(len) + packet@);
    Ok(v)
}

/// The minimal server's answer to a Command packet: CORE_RESET gets an
/// OK Response, CORE_INIT a Response with an empty payload, and any other
/// Command an error.
pub open spec fn command_answer(cmd: Seq<u8>) -> Result<Seq<u8>, HostError> {
    if cmd.len() < 3 || mt_of(cmd[0]) != MT_COMMAND {
        Err(HostError::InvalidCommand)
    } else if cmd[0] & 0x0f == GID_CORE && cmd[1] & 0x3f == OID_CORE_RESET {
        Ok(reset_response())
    } else if cmd[0] & 0x0f == GID_CORE && cmd[1] & 0x3f == OID_CORE_INIT {
        Ok(init_response())
    } else {
        Err(HostError::UnsupportedCommand)
    }
}

pub open spec fn answers(r: Result<Vec<u8>, HostError>, a: Result<Seq<u8>, HostError>) -> bool {
    match a {
        Ok(v) => r matches Ok(x) && x@ == v,
        Err(e) => r == Err::<Vec<u8>, HostError>(e),
    }
}

pub fn command_response(cmd: &Vec<u8>) -> (r: Result<Vec<u8>, HostError>)
    ensures
        answers(r, command_answer(cmd@)),
{
    if cmd.len() < 3 || cmd[0] >> 5u8 != MT_COMMAND {
        return Err(HostError::InvalidCommand);
    }
    let gid = cmd[0] & 0x0f;
    let oid = cmd[1] & 0x3f;
    let mut v: Vec<u8> = Vec::new();
    if gid == GID_CORE && oid == OID_CORE_RESET {
        v.push(0x40);
        v.push(OID_CORE_RESET);
        v.push(0x01);
        v.push(0x00);
        assert(v@ =~= reset_response());
        Ok(v)
    } else if gid == GID_CORE && oid == OID_CORE_INIT {
        v.push(0x40);
        v.push(OID_CORE_INIT);
        v.push(0x00);
        assert(v@ =~= init_response());
        Ok(v)
    } else {
        Err(HostError::UnsupportedCommand)
    }
}

/// What the minimal server writes back for one packet of type
/// `packet_type` with content `packet`: only Commands are answered.
pub fn process(packet_type: u8, packet: &Vec<u8>) -> (r: Result<Vec<u8>, HostError>)
    ensures
        packet_type != MT_COMMAND ==> r == Err::<Vec<u8>, HostError>(HostError::UnsupportedPacket),
        packet_type == MT_COMMAND ==> answers(
            r,
            match command_answer(packet@) {
                Ok(v) => Ok(seq![MT_RESPONSE] + be16(v.len() as u16) + v),
                Err(e) => Err(e),
            },
        ),
{
    if packet_type != MT_COMMAND {
        return Err(HostError::UnsupportedPacket);
    }
    match command_response(packet) {
        Ok(rsp) => {
            assert(rsp@[0] == 0x40);
            assert(0x40u8 >> 5u8 == 2) by (bit_vector);
            hal_frame(&rsp)
        },
        Err(e) => Err(e),
    }
}

/// CORE_RESET_CMD asking for the configuration to be reset.
pub open spec fn reset_command() -> Seq<u8> {
    seq![0x20u8, OID_CORE_RESET, 0x01, 0x01]
}

/// CORE_INIT_CMD with no feature enabled.
pub open spec fn init_command() -> Seq<u8> {
    seq![0x20u8, OID_CORE_INIT, 0x02, 0x00, 0x00]
}

/// The Command packet for the Core opcode `oid`: CORE_RESET (configuration
/// reset) and CORE_INIT are built, other opcodes are not.
pub fn build_command(oid: u8) -> (r: Option<Vec<u8>>)
    ensures
        oid == OID_CORE_RESET ==> (r matches Some(v) && v@ == reset_command()),
        oid == OID_CORE_INIT ==> (r matches Some(v) && v@ == init_command()),
        oid != OID_CORE_RESET && oid != OID_CORE_INIT ==> r is None,
{
    let mut v: Vec<u8> = Vec::new();
    if oid == OID_CORE_RESET {
        v.push(0x20);
        v.push(OID_CORE_RESET);
        v.push(0x01);
        v.push(0x01);
        assert(v@ =~= reset_command());
        Some(v)
    } else if oid == OID_CORE_INIT {
        v.push(0x20);
        v.push(OID_CORE_INIT);
        v.push(0x02);
        v.push(0x00);
        v.push(0x00);
        assert(v@ =~= init_command());
        Some(v)
    } else {
        None
    }
}

} // verus!
