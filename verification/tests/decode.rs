use nerd_stack::frame::{ByteFrame, RangeError};
use nerd_stack::protocols::arp::{ArpIPv4, HWType, Opcode, ProType, ARP};
use nerd_stack::protocols::ethernet::{Ethernet, PacketType};
use nerd_stack::protocols::DecodeError;

fn sample_frame(ethertype: [u8; 2], payload_len: usize) -> Vec<u8> {
    let mut buf: Vec<u8> = vec![
        0xff, 0xff, 0xff, 0xff, 0xff, 0xff, // destination
        0x02, 0x11, 0x22, 0x33, 0x44, 0x55, // source
        ethertype[0], ethertype[1],
    ];
    for i in 0..payload_len {
        buf.push(i as u8);
    }
    buf
}

#[test]
fn byte_frame_slicing() {
    let data = [1u8, 2, 3, 4, 5];
    let frame = ByteFrame::new(&data);
    assert_eq!(frame.length(), 5);
    assert_eq!(frame.byte_at(0), 1);
    assert_eq!(frame.byte_at(4), 5);
    let sub = frame.slice(1, 4).unwrap();
    assert_eq!(sub.bytes(), &[2, 3, 4]);
    assert_eq!(frame.slice(2, 2).unwrap().length(), 0);
    assert!(matches!(frame.slice(0, 6), Err(RangeError::OutOfRange)));
    assert!(matches!(frame.slice(3, 2), Err(RangeError::OutOfRange)));
}

#[test]
fn ethernet_too_short_is_malformed() {
    for len in 0..14usize {
        let buf = vec![0u8; len];
        assert!(matches!(Ethernet::from_buffer(&buf), Err(DecodeError::Malformed)));
    }
}

#[test]
fn ethernet_payload_is_rest_of_buffer() {
    for extra in [0usize, 1, 7, 100] {
        let buf = sample_frame([0x08, 0x06], extra);
        let pkt = Ethernet::from_buffer(&buf).unwrap();
        assert_eq!(pkt.contents().len(), buf.len() - 14);
        assert_eq!(pkt.contents(), &buf[14..]);
    }
}

#[test]
fn ethernet_fields_decoded() {
    let buf = sample_frame([0x08, 0x06], 4);
    let pkt = Ethernet::from_buffer(&buf).unwrap();
    assert_eq!(pkt.dest_mac_bytes(), [0xff; 6]);
    assert_eq!(pkt.source_mac_bytes(), [0x02, 0x11, 0x22, 0x33, 0x44, 0x55]);
    assert_eq!(pkt.source_mac(), "2:11:22:33:44:55");
    assert_eq!(pkt.dest_mac(), "ff:ff:ff:ff:ff:ff");
}

#[test]
fn ethertype_classification() {
    // EtherType 0x0806 is ARP; 0x0800 is not (it is IPv4, unknown here).
    let arp_buf = sample_frame([0x08, 0x06], 0);
    let arp = Ethernet::from_buffer(&arp_buf).unwrap();
    assert!(matches!(arp.payload_type(), PacketType::ARP));
    let unknown_buf = sample_frame([0x08, 0x00], 0);
    let unknown = Ethernet::from_buffer(&unknown_buf).unwrap();
    assert!(matches!(unknown.payload_type(), PacketType::Unknown));
}

#[test]
fn arp_too_short_is_malformed() {
    for len in 0..8usize {
        let buf = vec![0u8; len];
        assert!(matches!(ARP::from_buffer(&buf), Err(DecodeError::Malformed)));
    }
}

#[test]
fn arp_exactly_header_has_empty_body() {
    let buf = [0x00, 0x01, 0x08, 0x00, 0x06, 0x04, 0x00, 0x01];
    let msg = ARP::from_buffer(&buf).unwrap();
    assert!(msg.contents().is_empty());
}

#[test]
fn arp_header_fields_decoded() {
    // hardware type Ethernet, protocol type IPv4, sizes 6/4, opcode request
    let buf = [0x00, 0x01, 0x08, 0x00, 0x06, 0x04, 0x00, 0x01];
    let msg = ARP::from_buffer(&buf).unwrap();
    assert_eq!(msg.hwtype(), HWType::Ethernet);
    assert_eq!(msg.protype(), ProType::IPv4);
    assert_eq!(msg.opcode(), Opcode::Request);
    assert_eq!(msg.hwsize(), 6);
    assert_eq!(msg.prosize(), 4);
}

#[test]
fn arp_unrecognized_fields_stay_representable() {
    let buf = [0x00, 0x06, 0x86, 0xdd, 0x06, 0x10, 0x00, 0x03, 0xaa];
    let msg = ARP::from_buffer(&buf).unwrap();
    assert_eq!(msg.hwtype(), HWType::Unknown(0x0006));
    assert_eq!(msg.protype(), ProType::Unknown(0x86dd));
    assert_eq!(msg.opcode(), Opcode::Unknown(3));
    assert_eq!(msg.contents(), &[0xaa]);
}

#[test]
fn arp_reply_opcode_decoded() {
    let buf = [0x00, 0x01, 0x08, 0x00, 0x06, 0x04, 0x00, 0x02];
    let msg = ARP::from_buffer(&buf).unwrap();
    assert_eq!(msg.opcode(), Opcode::Reply);
}

#[test]
fn opcode_encode_inverts_classification() {
    assert_eq!(Opcode::Request.encode(), 1);
    assert_eq!(Opcode::Reply.encode(), 2);
    assert_eq!(Opcode::Unknown(0x77).encode(), 0x77);
}

#[test]
fn arp_ipv4_body_exact_length_only() {
    for len in [0usize, 10, 19, 21, 40] {
        let buf = vec![0u8; len];
        assert!(matches!(ArpIPv4::from_buffer(&buf), Err(DecodeError::Malformed)));
    }
    let buf = vec![0u8; 20];
    assert!(ArpIPv4::from_buffer(&buf).is_ok());
}

#[test]
fn arp_ipv4_body_fields_decoded() {
    let buf = [
        0xaa, 0xbb, 0xcc, 0xdd, 0xee, 0xff, // sender MAC
        10, 0, 0, 5, // sender IP
        0x00, 0x00, 0x00, 0x00, 0x00, 0x00, // target MAC
        10, 0, 0, 1, // target IP
    ];
    let body = ArpIPv4::from_buffer(&buf).unwrap();
    assert_eq!(body.source_mac(), &[0xaa, 0xbb, 0xcc, 0xdd, 0xee, 0xff]);
    assert_eq!(body.source_ip(), &[10, 0, 0, 5]);
    assert_eq!(body.destination_mac(), &[0u8; 6]);
    assert_eq!(body.destination_ip(), &[10, 0, 0, 1]);
}
