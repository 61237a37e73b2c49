//! The per-frame dispatch rule: decode a raw frame as Ethernet, classify
//! the payload, decode ARP and its IPv4 body, and update the
//! address-resolution cache. Decode failures are contained to the frame —
//! the cache is left untouched — and every drop is reported as a typed
//! outcome rather than an error.

use vstd::prelude::*;
use crate::address::{ipv4_eq, IPv4, MAC};
use crate::protocols::arp::{ArpIPv4, HWType, Opcode, ProType, ARP};
use crate::protocols::be16;
use crate::protocols::ethernet::{Ethernet, PacketType};
use crate::table::{lemma_observe_idempotent, AddressResolutionTable, MergeOutcome};

verus! {

/// The protocol-type wire value ARP uses for IPv4, the key space of the
/// cache entries the dispatcher writes.
pub const IPV4_PROTOCOL_TYPE: u16 = 0x0800;

/// What dispatching one raw frame did. Outcomes that carry addresses hand
/// the caller what the frame named, so reporting needs no second decode.
#[derive(Debug, PartialEq, Eq, Clone, Copy)]
pub enum DispatchOutcome {
    /// The buffer is shorter than an Ethernet header.
    MalformedEthernet,
    /// A well-formed frame whose EtherType is not ARP.
    EthernetUnknown { source: MAC, dest: MAC },
    /// An ARP payload shorter than the ARP header.
    ArpMalformed { source: MAC, dest: MAC },
    /// An ARP message whose hardware type is not Ethernet.
    ArpUnhandled { source: MAC, dest: MAC },
    /// An ARP message whose protocol family is not IPv4.
    ArpIgnored { source: MAC, dest: MAC },
    /// An ARP/IPv4 body that is not exactly 20 bytes.
    ArpBodyMalformed { source: MAC, dest: MAC },
    /// A fully decoded ARP/IPv4 message: the sender pairing was merged into
    /// the cache; `reply_due` reports that the message is a request for this
    /// node's address, the extension point for reply construction.
    ArpObserved {
        source: MAC,
        dest: MAC,
        merge: MergeOutcome,
        reply_due: bool,
        sender_mac: MAC,
        sender_ip: IPv4,
        target_ip: IPv4,
    },
}

/// The payload of an Ethernet frame: everything after the 14-byte header.
pub open spec fn eth_payload(b: Seq<u8>) -> Seq<u8> {
    b.subrange(14, b.len() as int)
}

/// The EtherType field of an Ethernet frame.
pub open spec fn eth_ethertype(b: Seq<u8>) -> u16 {
    be16(b[12], b[13])
}

/// Whether a buffer is a well-formed Ethernet frame carrying ARP.
pub open spec fn is_arp_frame(b: Seq<u8>) -> bool {
    b.len() >= 14 && eth_ethertype(b) == 0x0806
}

/// The body of an ARP message: everything after the 8-byte header.
pub open spec fn arp_body(p: Seq<u8>) -> Seq<u8> {
    p.subrange(8, p.len() as int)
}

/// Whether the dispatch of a buffer reaches the cache update: an ARP frame,
/// an ARP header naming Ethernet and IPv4, and an exactly 20-byte body.
pub open spec fn observes_sender(b: Seq<u8>) -> bool {
    &&& is_arp_frame(b)
    &&& eth_payload(b).len() >= 8
    &&& be16(eth_payload(b)[0], eth_payload(b)[1]) == 0x0001
    &&& be16(eth_payload(b)[2], eth_payload(b)[3]) == 0x0800
    &&& arp_body(eth_payload(b)).len() == 20
}

/// The sender hardware address such a frame reports.
pub open spec fn observed_sender_mac(b: Seq<u8>) -> Seq<u8> {
    arp_body(eth_payload(b)).subrange(0, 6)
}

/// The sender protocol address such a frame reports.
pub open spec fn observed_sender_ip(b: Seq<u8>) -> Seq<u8> {
    arp_body(eth_payload(b)).subrange(6, 10)
}

/// The target protocol address such a frame asks about.
pub open spec fn observed_target_ip(b: Seq<u8>) -> Seq<u8> {
    arp_body(eth_payload(b)).subrange(16, 20)
}

/// Dispatches one raw frame: decodes it, and — exactly when the frame is a
/// well-formed ARP/IPv4 message over Ethernet — merges the sender pairing
/// into the cache. Every other frame leaves the cache untouched and is
/// reported dropped with the reason. A reply is due exactly when the
/// decoded message is a request whose target is `node_ip`.
pub fn dispatch_frame(
    table: &mut AddressResolutionTable,
    node_ip: &IPv4,
    buffer: &[u8],
) -> (r: DispatchOutcome)
    ensures
        !observes_sender(buffer@) ==> final(table)@ == old(table)@,
        buffer@.len() < 14 ==> r is MalformedEthernet,
        buffer@.len() >= 14 ==> (match r {
            DispatchOutcome::MalformedEthernet => false,
            DispatchOutcome::EthernetUnknown { source, dest } => !is_arp_frame(buffer@)
                && source@ == buffer@.subrange(6, 12) && dest@ == buffer@.subrange(0, 6),
            DispatchOutcome::ArpMalformed { .. } => is_arp_frame(buffer@) && eth_payload(
                buffer@,
            ).len() < 8,
            DispatchOutcome::ArpUnhandled { .. } => is_arp_frame(buffer@) && eth_payload(
                buffer@,
            ).len() >= 8 && be16(eth_payload(buffer@)[0], eth_payload(buffer@)[1]) != 0x0001,
            DispatchOutcome::ArpIgnored { .. } => is_arp_frame(buffer@) && eth_payload(
                buffer@,
            ).len() >= 8 && be16(eth_payload(buffer@)[0], eth_payload(buffer@)[1]) == 0x0001
                && be16(eth_payload(buffer@)[2], eth_payload(buffer@)[3]) != 0x0800,
            DispatchOutcome::ArpBodyMalformed { .. } => is_arp_frame(buffer@) && eth_payload(
                buffer@,
            ).len() >= 8 && be16(eth_payload(buffer@)[0], eth_payload(buffer@)[1]) == 0x0001
                && be16(eth_payload(buffer@)[2], eth_payload(buffer@)[3]) == 0x0800 && arp_body(
                eth_payload(buffer@),
            ).len() != 20,
            DispatchOutcome::ArpObserved {
                source,
                dest,
                merge,
                reply_due,
                sender_mac,
                sender_ip,
                target_ip,
            } => {
                &&& observes_sender(buffer@)
                &&& source@ == buffer@.subrange(6, 12)
                &&& dest@ == buffer@.subrange(0, 6)
                &&& sender_mac@ == observed_sender_mac(buffer@)
                &&& sender_ip@ == observed_sender_ip(buffer@)
                &&& target_ip@ == observed_target_ip(buffer@)
                &&& merge == (if old(table)@.dom().contains(
                    (IPV4_PROTOCOL_TYPE, observed_sender_ip(buffer@)),
                ) {
                    MergeOutcome::Updated
                } else {
                    MergeOutcome::Inserted
                })
                &&& reply_due == (target_ip@ == node_ip@ && be16(
                    eth_payload(buffer@)[6],
                    eth_payload(buffer@)[7],
                ) == 1)
            },
        }),
        observes_sender(buffer@) ==> final(table)@ == old(table)@.insert(
            (IPV4_PROTOCOL_TYPE, observed_sender_ip(buffer@)),
            observed_sender_mac(buffer@),
        ),
{
    let pkt = match Ethernet::from_buffer(buffer) {
        Ok(pkt) => pkt,
        Err(_) => {
            return DispatchOutcome::MalformedEthernet;
        },
    };
    let source = pkt.source_mac_bytes();
    let dest = pkt.dest_mac_bytes();
    match pkt.payload_type() {
        PacketType::Unknown => DispatchOutcome::EthernetUnknown { source, dest },
        PacketType::ARP => {
            let msg = match ARP::from_buffer(pkt.contents()) {
                Ok(msg) => msg,
                Err(_) => {
                    return DispatchOutcome::ArpMalformed { source, dest };
                },
            };
            match msg.hwtype() {
                HWType::Unknown(_) => {
                    return DispatchOutcome::ArpUnhandled { source, dest };
                },
                HWType::Ethernet => {},
            }
            match msg.protype() {
                ProType::Unknown(_) => {
                    return DispatchOutcome::ArpIgnored { source, dest };
                },
                ProType::IPv4 => {},
            }
            let body = match ArpIPv4::from_buffer(msg.contents()) {
                Ok(body) => body,
                Err(_) => {
                    return DispatchOutcome::ArpBodyMalformed { source, dest };
                },
            };
            let sender_mac = *body.source_mac();
            let sender_ip = *body.source_ip();
            let target_ip = *body.destination_ip();
            let merge = table.observe(IPV4_PROTOCOL_TYPE, &sender_ip, &sender_mac);
            let to_this_node = ipv4_eq(&target_ip, node_ip);
            if to_this_node && merge == MergeOutcome::Inserted {
                // The reference merge algorithm inserts the pairing again
                // when the message targets this node and the merge flag was
                // false; the insert is idempotent with the merge above.
                let _merged_again = table.observe(IPV4_PROTOCOL_TYPE, &sender_ip, &sender_mac);
                proof {
                    lemma_observe_idempotent(
                        old(table)@,
                        (IPV4_PROTOCOL_TYPE, sender_ip@),
                        sender_mac@,
                    );
                }
            }
            let reply_due = to_this_node && msg.opcode() == Opcode::Request;
            DispatchOutcome::ArpObserved {
                source,
                dest,
                merge,
                reply_due,
                sender_mac,
                sender_ip,
                target_ip,
            }
        },
    }
}

} // verus!
