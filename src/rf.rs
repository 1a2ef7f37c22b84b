//! RF frames: their framing on the socket, their sender and receiver
//! fields, and the sender that a device task writes into each frame.
use vstd::prelude::*;

use crate::codec::append_from;

verus! {

/// Receiver identifier that addresses every device.
pub const BROADCAST: u16 = 0xffff;

/// Largest RF frame, in bytes.
pub const MAX_RF_FRAME: usize = 0xffff;

/// Errors on RF frames.
#[derive(Clone, Copy, Debug, PartialEq, Eq, Structural)]
pub enum RfError {
    /// The frame does not fit its 16-bit length prefix.
    FrameTooLong,
    /// The frame is too short to hold its sender and receiver.
    PacketTooShort,
}

/// Little-endian bytes of `v`.
pub open spec fn le16(v: u16) -> Seq<u8> {
    seq![(v % 256) as u8, (v / 256) as u8]
}

/// The value of the little-endian bytes `lo`, `hi`.
pub open spec fn le16_value(lo: u8, hi: u8) -> u16 {
    (lo + 256 * hi) as u16
}

proof fn lemma_le16(lo: u8, hi: u8)
    ensures
        le16(le16_value(lo, hi)) == seq![lo, hi],
{
    assert(le16(le16_value(lo, hi)) =~= seq![lo, hi]);
}

/// Length of the frame announced by its 2-byte little-endian prefix.
pub fn rf_frame_length(header: [u8; 2]) -> (r: usize)
    ensures
        r == header@[0] + 256 * header@[1],
{
    header[0] as usize + 256 * (header[1] as usize)
}

/// The frame written on the socket for `payload`: its length as a
/// little-endian `u16`, then the payload.
pub fn rf_frame(payload: &Vec<u8>) -> (r: Result<Vec<u8>, RfError>)
    ensures
        r is Ok <==> payload@.len() <= MAX_RF_FRAME,
        r matches Ok(v) ==> v@ == le16(payload@.len() as u16) + payload@,
        r is Err ==> r == Err::<Vec<u8>, RfError>(RfError::FrameTooLong),
{
    if payload.len() > MAX_RF_FRAME {
        return Err(RfError::FrameTooLong);
    }
    let len = payload.len() as u16;
    let mut v: Vec<u8> = Vec::new();
    v.push((len % 256) as u8);
    v.push((len / 256) as u8);
    append_from(&mut v, payload, 0);
    assert(payload@.skip(0) =~= payload@);
    assert(v@ =~= le16(len) + payload@);
    Ok(v)
}

/// An RF frame: sender, receiver, and an opaque payload.
#[derive(Clone, Debug)]
pub struct RfPacket {
    pub sender: u16,
    pub receiver: u16,
    pub payload: Vec<u8>,
}

impl RfPacket {
    /// The encoded frame.
    pub open spec fn bytes(&self) -> Seq<u8> {
        le16(self.sender) + le16(self.receiver) + self.payload@
    }

    /// Reads the sender and receiver fields of a frame.
    pub fn parse(bytes: &Vec<u8>) -> (r: Option<RfPacket>)
        ensures
            r is Some <==> bytes@.len() >= 4,
            r matches Some(p) ==> p.bytes() == bytes@,
    {
        if bytes.len() < 4 {
            return None;
        }
        let sender = bytes[0] as u16 + 256 * (bytes[1] as u16);
        let receiver = bytes[2] as u16 + 256 * (bytes[3] as u16);
        let mut payload: Vec<u8> = Vec::new();
        append_from(&mut payload, bytes, 4);
        let p = RfPacket { sender, receiver, payload };
        proof {
            lemma_le16(bytes@[0], bytes@[1]);
            lemma_le16(bytes@[2], bytes@[3]);
            assert(p.bytes() =~= bytes@);
        }
        Some(p)
    }

    pub fn to_bytes(&self) -> (r: Vec<u8>)
        ensures
            r@ == self.bytes(),
    {
        let mut r: Vec<u8> = Vec::new();
        r.push((self.sender % 256) as u8);
        r.push((self.sender / 256) as u8);
        r.push((self.receiver % 256) as u8);
        r.push((self.receiver / 256) as u8);
        append_from(&mut r, &self.payload, 0);
        assert(self.payload@.skip(0) =~= self.payload@);
        assert(r@ =~= self.bytes());
        r
    }
}

/// The packet that the device in slot `id` submits for the frame read
/// from its client: whatever the client wrote in the sender field, the
/// sender is `id`; the receiver and payload are kept.
pub fn stamp_sender(frame: &Vec<u8>, id: u16) -> (r: Result<RfPacket, RfError>)
    ensures
        r is Ok <==> frame@.len() >= 4,
        r matches Ok(p) ==> p.sender == id && p.bytes() == le16(id) + frame@.skip(2),
        r is Err ==> r == Err::<RfPacket, RfError>(RfError::PacketTooShort),
{
    if frame.len() < 4 {
        return Err(RfError::PacketTooShort);
    }
    let receiver = frame[2] as u16 + 256 * (frame[3] as u16);
    let mut payload: Vec<u8> = Vec::new();
    append_from(&mut payload, frame, 4);
    let p = RfPacket { sender: id, receiver, payload };
    proof {
        lemma_le16(frame@[2], frame@[3]);
        assert(p.bytes() =~= le16(id) + frame@.skip(2));
    }
    Ok(p)
}

} // verus!
