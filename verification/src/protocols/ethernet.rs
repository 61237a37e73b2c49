//! The Ethernet frame decoder: a fixed 14-byte header (destination MAC,
//! source MAC, EtherType) followed by the payload.

use vstd::prelude::*;
use crate::address::{mac_chars, mac_to_string, MAC};
use crate::frame::ByteFrame;
use crate::protocols::{be16, read_be16, read_mac, DecodeError};

verus! {

/// The number of header bytes an Ethernet frame must at least carry.
pub const HEADER_LENGTH: usize = 14;

/// The largest payload the ingest loop reads in one frame.
pub const MTU: usize = 1500;

/// The classification of an Ethernet payload by its EtherType.
#[derive(Debug, PartialEq, Eq, Structural, Clone, Copy)]
pub enum PacketType {
    ARP,
    Unknown,
}

/// The classification rule: EtherType `0x0806` carries ARP; every other
/// value is an unknown (but well-formed) payload.
pub open spec fn spec_packet_type(ethertype: u16) -> PacketType {
    if ethertype == 0x0806 {
        PacketType::ARP
    } else {
        PacketType::Unknown
    }
}

/// A decoded Ethernet frame: the header fields copied out of the first 14
/// bytes, and the payload borrowed from the rest of the buffer.
pub struct Ethernet<'a> {
    dmac: MAC,
    smac: MAC,
    ethertype: u16,
    contents: &'a [u8],
}

impl<'a> Ethernet<'a> {
    /// The destination hardware address: bytes 0-5 of the header.
    pub closed spec fn spec_dest_mac(self) -> Seq<u8> {
        self.dmac@
    }

    /// The source hardware address: bytes 6-11 of the header.
    pub closed spec fn spec_source_mac(self) -> Seq<u8> {
        self.smac@
    }

    /// The EtherType: bytes 12-13 of the header, big-endian.
    pub closed spec fn spec_ethertype(self) -> u16 {
        self.ethertype
    }

    /// The payload: every byte after the header.
    pub closed spec fn spec_contents(self) -> Seq<u8> {
        self.contents@
    }

    /// Decodes a buffer as an Ethernet frame. A buffer shorter than the
    /// 14-byte header is rejected as malformed; otherwise the header fields
    /// are read at their fixed offsets and the payload is the remainder.
    pub fn from_buffer(buffer: &'a [u8]) -> (r: Result<Self, DecodeError>)
        ensures
            buffer@.len() < 14 ==> (r matches Err(e) && e == DecodeError::Malformed),
            buffer@.len() >= 14 ==> (r matches Ok(f) && {
                &&& f.spec_dest_mac() == buffer@.subrange(0, 6)
                &&& f.spec_source_mac() == buffer@.subrange(6, 12)
                &&& f.spec_ethertype() == be16(buffer@[12], buffer@[13])
                &&& f.spec_contents() == buffer@.subrange(14, buffer@.len() as int)
                &&& f.spec_contents().len() == buffer@.len() - 14
            }),
    {
        let frame = ByteFrame::new(buffer);
        if frame.length() < HEADER_LENGTH {
            Err(DecodeError::Malformed)
        } else {
            let dmac = read_mac(&frame, 0);
            let smac = read_mac(&frame, 6);
            let ethertype = read_be16(&frame, 12);
            match frame.slice(HEADER_LENGTH, frame.length()) {
                Ok(payload) => Ok(Ethernet { dmac, smac, ethertype, contents: payload.bytes() }),
                Err(_) => Err(DecodeError::Malformed),
            }
        }
    }

    /// Classifies the payload by the EtherType field.
    pub fn payload_type(&self) -> (r: PacketType)
        ensures
            r == spec_packet_type(self.spec_ethertype()),
    {
        match self.ethertype {
            0x0806 => PacketType::ARP,
            _ => PacketType::Unknown,
        }
    }

    /// The source hardware address, in its canonical printable form.
    pub fn source_mac(&self) -> (r: String)
        ensures
            r@ == mac_chars(self.spec_source_mac()),
    {
        mac_to_string(&self.smac)
    }

    /// The destination hardware address, in its canonical printable form.
    pub fn dest_mac(&self) -> (r: String)
        ensures
            r@ == mac_chars(self.spec_dest_mac()),
    {
        mac_to_string(&self.dmac)
    }

    /// The source hardware address bytes.
    pub fn source_mac_bytes(&self) -> (r: MAC)
        ensures
            r@ == self.spec_source_mac(),
    {
        self.smac
    }

    /// The destination hardware address bytes.
    pub fn dest_mac_bytes(&self) -> (r: MAC)
        ensures
            r@ == self.spec_dest_mac(),
    {
        self.dmac
    }

    /// The payload bytes.
    pub fn contents(&self) -> (r: &'a [u8])
        ensures
            r@ == self.spec_contents(),
    {
        self.contents
    }
}

} // verus!
