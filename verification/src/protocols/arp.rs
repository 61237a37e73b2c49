//! The ARP decoder: a generic 8-byte header (hardware type, protocol type,
//! address sizes, opcode) followed by a protocol-specific body, and the
//! fixed 20-byte IPv4 body.

use vstd::prelude::*;
use crate::address::{IPv4, MAC};
use crate::frame::ByteFrame;
use crate::protocols::{be16, read_be16, read_ipv4, read_mac, DecodeError};

verus! {

/// The number of bytes of the generic ARP header.
pub const HEADER_LENGTH: usize = 8;

/// The exact length of the IPv4-specific ARP body.
pub const IPV4_BODY_LENGTH: usize = 20;

/// The link-layer family named by the ARP hardware-type field. Wire values
/// other than Ethernet stay representable, so an unrecognized family is a
/// routing outcome, not a decode failure.
#[derive(Debug, PartialEq, Eq, Structural, Clone, Copy)]
pub enum HWType {
    Ethernet,
    Unknown(u16),
}

/// The protocol family named by the ARP protocol-type field.
#[derive(Debug, PartialEq, Eq, Structural, Clone, Copy)]
pub enum ProType {
    IPv4,
    Unknown(u16),
}

/// The ARP operation named by the opcode field.
#[derive(Debug, PartialEq, Eq, Structural, Clone, Copy)]
pub enum Opcode {
    Request,
    Reply,
    Unknown(u16),
}

/// The hardware-type classification rule: wire value `0x0001` is Ethernet.
pub open spec fn spec_hwtype(raw: u16) -> HWType {
    if raw == 0x0001 {
        HWType::Ethernet
    } else {
        HWType::Unknown(raw)
    }
}

/// The protocol-type classification rule: wire value `0x0800` is IPv4.
pub open spec fn spec_protype(raw: u16) -> ProType {
    if raw == 0x0800 {
        ProType::IPv4
    } else {
        ProType::Unknown(raw)
    }
}

/// The opcode classification rule: `1` is a request, `2` a reply.
pub open spec fn spec_opcode(raw: u16) -> Opcode {
    if raw == 1 {
        Opcode::Request
    } else if raw == 2 {
        Opcode::Reply
    } else {
        Opcode::Unknown(raw)
    }
}

/// The wire value an opcode is written back as.
pub open spec fn spec_opcode_encode(op: Opcode) -> u16 {
    match op {
        Opcode::Request => 1,
        Opcode::Reply => 2,
        Opcode::Unknown(raw) => raw,
    }
}

impl Opcode {
    /// The wire value of this opcode.
    pub fn encode(&self) -> (r: u16)
        ensures
            r == spec_opcode_encode(*self),
    {
        match *self {
            Opcode::Request => 1,
            Opcode::Reply => 2,
            Opcode::Unknown(raw) => raw,
        }
    }
}

/// Classifying a wire value and writing the classification back yields the
/// value itself: decoding loses no information.
pub proof fn lemma_opcode_encode_round_trip(raw: u16)
    ensures
        spec_opcode_encode(spec_opcode(raw)) == raw,
{
}

/// A decoded ARP message: the generic header fields, and the
/// protocol-specific body borrowed from the rest of the buffer. The address
/// sizes are carried as read; they are not validated against the fixed
/// lengths the IPv4 body assumes.
pub struct ARP<'a> {
    hwtype: u16,
    protype: u16,
    hwsize: u8,
    prosize: u8,
    opcode: u16,
    contents: &'a [u8],
}

impl<'a> ARP<'a> {
    /// The raw hardware-type field: bytes 0-1, big-endian.
    pub closed spec fn spec_hwtype_raw(self) -> u16 {
        self.hwtype
    }

    /// The raw protocol-type field: bytes 2-3, big-endian.
    pub closed spec fn spec_protype_raw(self) -> u16 {
        self.protype
    }

    /// The hardware-address size field: byte 4.
    pub closed spec fn spec_hwsize(self) -> u8 {
        self.hwsize
    }

    /// The protocol-address size field: byte 5.
    pub closed spec fn spec_prosize(self) -> u8 {
        self.prosize
    }

    /// The raw opcode field: bytes 6-7, big-endian.
    pub closed spec fn spec_opcode_raw(self) -> u16 {
        self.opcode
    }

    /// The protocol-specific body: every byte after the 8-byte header.
    pub closed spec fn spec_contents(self) -> Seq<u8> {
        self.contents@
    }

    /// Decodes a buffer as an ARP message. A buffer shorter than the 8-byte
    /// header is rejected as malformed; otherwise the header fields are read
    /// at their fixed offsets and the body is the remainder.
    pub fn from_buffer(buffer: &'a [u8]) -> (r: Result<Self, DecodeError>)
        ensures
            buffer@.len() < 8 ==> (r matches Err(e) && e == DecodeError::Malformed),
            buffer@.len() >= 8 ==> (r matches Ok(m) && {
                &&& m.spec_hwtype_raw() == be16(buffer@[0], buffer@[1])
                &&& m.spec_protype_raw() == be16(buffer@[2], buffer@[3])
                &&& m.spec_hwsize() == buffer@[4]
                &&& m.spec_prosize() == buffer@[5]
                &&& m.spec_opcode_raw() == be16(buffer@[6], buffer@[7])
                &&& m.spec_contents() == buffer@.subrange(8, buffer@.len() as int)
                &&& m.spec_contents().len() == buffer@.len() - 8
            }),
    {
        let frame = ByteFrame::new(buffer);
        if frame.length() < HEADER_LENGTH {
            Err(DecodeError::Malformed)
        } else {
            let hwtype = read_be16(&frame, 0);
            let protype = read_be16(&frame, 2);
            let hwsize = frame.byte_at(4);
            let prosize = frame.byte_at(5);
            let opcode = read_be16(&frame, 6);
            match frame.slice(HEADER_LENGTH, frame.length()) {
                Ok(body) => Ok(
                    ARP { hwtype, protype, hwsize, prosize, opcode, contents: body.bytes() },
                ),
                Err(_) => Err(DecodeError::Malformed),
            }
        }
    }

    /// The link-layer family classified from the hardware-type field.
    pub fn hwtype(&self) -> (r: HWType)
        ensures
            r == spec_hwtype(self.spec_hwtype_raw()),
    {
        match self.hwtype {
            0x0001 => HWType::Ethernet,
            raw => HWType::Unknown(raw),
        }
    }

    /// The protocol family classified from the protocol-type field.
    pub fn protype(&self) -> (r: ProType)
        ensures
            r == spec_protype(self.spec_protype_raw()),
    {
        match self.protype {
            0x0800 => ProType::IPv4,
            raw => ProType::Unknown(raw),
        }
    }

    /// The operation classified from the opcode field.
    pub fn opcode(&self) -> (r: Opcode)
        ensures
            r == spec_opcode(self.spec_opcode_raw()),
    {
        match self.opcode {
            1 => Opcode::Request,
            2 => Opcode::Reply,
            raw => Opcode::Unknown(raw),
        }
    }

    /// The hardware-address size field, as read off the wire.
    pub fn hwsize(&self) -> (r: u8)
        ensures
            r == self.spec_hwsize(),
    {
        self.hwsize
    }

    /// The protocol-address size field, as read off the wire.
    pub fn prosize(&self) -> (r: u8)
        ensures
            r == self.spec_prosize(),
    {
        self.prosize
    }

    /// The protocol-specific body bytes.
    pub fn contents(&self) -> (r: &'a [u8])
        ensures
            r@ == self.spec_contents(),
    {
        self.contents
    }
}

/// A decoded ARP/IPv4 body: the four addresses copied out of the fixed
/// 20-byte layout.
pub struct ArpIPv4 {
    smac: MAC,
    sip: IPv4,
    dmac: MAC,
    dip: IPv4,
}

impl ArpIPv4 {
    /// The sender hardware address: bytes 0-5.
    pub closed spec fn spec_source_mac(self) -> Seq<u8> {
        self.smac@
    }

    /// The sender protocol address: bytes 6-9.
    pub closed spec fn spec_source_ip(self) -> Seq<u8> {
        self.sip@
    }

    /// The target hardware address: bytes 10-15.
    pub closed spec fn spec_destination_mac(self) -> Seq<u8> {
        self.dmac@
    }

    /// The target protocol address: bytes 16-19.
    pub closed spec fn spec_destination_ip(self) -> Seq<u8> {
        self.dip@
    }

    /// Decodes an ARP body as the IPv4-specific layout. The body must be
    /// exactly 20 bytes; any other length is rejected as malformed.
    pub fn from_buffer(buffer: &[u8]) -> (r: Result<Self, DecodeError>)
        ensures
            buffer@.len() != 20 ==> (r matches Err(e) && e == DecodeError::Malformed),
            buffer@.len() == 20 ==> (r matches Ok(b) && {
                &&& b.spec_source_mac() == buffer@.subrange(0, 6)
                &&& b.spec_source_ip() == buffer@.subrange(6, 10)
                &&& b.spec_destination_mac() == buffer@.subrange(10, 16)
                &&& b.spec_destination_ip() == buffer@.subrange(16, 20)
            }),
    {
        let frame = ByteFrame::new(buffer);
        if frame.length() != IPV4_BODY_LENGTH {
            Err(DecodeError::Malformed)
        } else {
            let smac = read_mac(&frame, 0);
            let sip = read_ipv4(&frame, 6);
            let dmac = read_mac(&frame, 10);
            let dip = read_ipv4(&frame, 16);
            Ok(ArpIPv4 { smac, sip, dmac, dip })
        }
    }

    /// The sender hardware address.
    pub fn source_mac(&self) -> (r: &MAC)
        ensures
            r@ == self.spec_source_mac(),
    {
        &self.smac
    }

    /// The target hardware address.
    pub fn destination_mac(&self) -> (r: &MAC)
        ensures
            r@ == self.spec_destination_mac(),
    {
        &self.dmac
    }

    /// The sender protocol address.
    pub fn source_ip(&self) -> (r: &IPv4)
        ensures
            r@ == self.spec_source_ip(),
    {
        &self.sip
    }

    /// The target protocol address.
    pub fn destination_ip(&self) -> (r: &IPv4)
        ensures
            r@ == self.spec_destination_ip(),
    {
        &self.dip
    }
}

} // verus!
