use nerd_stack::dispatch::{dispatch_frame, DispatchOutcome, IPV4_PROTOCOL_TYPE};
use nerd_stack::table::{AddressResolutionTable, MergeOutcome};

const SENDER_MAC: [u8; 6] = [0xaa, 0xbb, 0xcc, 0xdd, 0xee, 0xff];
const OTHER_MAC: [u8; 6] = [0x11, 0x22, 0x33, 0x44, 0x55, 0x66];
const SENDER_IP: [u8; 4] = [10, 0, 0, 5];
const NODE_IP: [u8; 4] = [10, 0, 0, 1];

/// An Ethernet frame carrying an ARP request for `target_ip`, sent by
/// `sender_mac`/`sender_ip`.
fn arp_request_frame(sender_mac: [u8; 6], sender_ip: [u8; 4], target_ip: [u8; 4]) -> Vec<u8> {
    let mut buf: Vec<u8> = Vec::new();
    buf.extend_from_slice(&[0xff; 6]); // destination: broadcast
    buf.extend_from_slice(&OTHER_MAC); // source
    buf.extend_from_slice(&[0x08, 0x06]); // EtherType: ARP
    buf.extend_from_slice(&[0x00, 0x01, 0x08, 0x00, 0x06, 0x04, 0x00, 0x01]); // ARP header
    buf.extend_from_slice(&sender_mac);
    buf.extend_from_slice(&sender_ip);
    buf.extend_from_slice(&[0x00; 6]); // target MAC: unknown
    buf.extend_from_slice(&target_ip);
    buf
}

#[test]
fn observe_inserts_then_updates() {
    let mut table = AddressResolutionTable::new();
    assert_eq!(table.lookup(IPV4_PROTOCOL_TYPE, &SENDER_IP), None);
    assert_eq!(
        table.observe(IPV4_PROTOCOL_TYPE, &SENDER_IP, &SENDER_MAC),
        MergeOutcome::Inserted
    );
    assert_eq!(table.lookup(IPV4_PROTOCOL_TYPE, &SENDER_IP), Some(SENDER_MAC));
    assert_eq!(
        table.observe(IPV4_PROTOCOL_TYPE, &SENDER_IP, &OTHER_MAC),
        MergeOutcome::Updated
    );
    assert_eq!(table.lookup(IPV4_PROTOCOL_TYPE, &SENDER_IP), Some(OTHER_MAC));
}

#[test]
fn observe_is_idempotent() {
    let mut table = AddressResolutionTable::new();
    assert_eq!(
        table.observe(IPV4_PROTOCOL_TYPE, &SENDER_IP, &SENDER_MAC),
        MergeOutcome::Inserted
    );
    // a second identical observation reports an update and changes nothing
    assert_eq!(
        table.observe(IPV4_PROTOCOL_TYPE, &SENDER_IP, &SENDER_MAC),
        MergeOutcome::Updated
    );
    assert_eq!(table.lookup(IPV4_PROTOCOL_TYPE, &SENDER_IP), Some(SENDER_MAC));
}

#[test]
fn keys_differ_by_protocol_type_and_address() {
    let mut table = AddressResolutionTable::new();
    table.observe(IPV4_PROTOCOL_TYPE, &SENDER_IP, &SENDER_MAC);
    table.observe(0x86dd, &SENDER_IP, &OTHER_MAC);
    let other_ip = [10, 0, 0, 9];
    table.observe(IPV4_PROTOCOL_TYPE, &other_ip, &OTHER_MAC);
    assert_eq!(table.lookup(IPV4_PROTOCOL_TYPE, &SENDER_IP), Some(SENDER_MAC));
    assert_eq!(table.lookup(0x86dd, &SENDER_IP), Some(OTHER_MAC));
    assert_eq!(table.lookup(IPV4_PROTOCOL_TYPE, &other_ip), Some(OTHER_MAC));
    assert!(!table.contains(0x86dd, &other_ip));
}

#[test]
fn arp_request_for_this_node_is_observed() {
    // no prior entry: the sender pairing is inserted and a reply is due
    let mut table = AddressResolutionTable::new();
    let frame = arp_request_frame(SENDER_MAC, SENDER_IP, NODE_IP);
    let outcome = dispatch_frame(&mut table, &NODE_IP, &frame);
    match outcome {
        DispatchOutcome::ArpObserved { merge, reply_due, sender_mac, sender_ip, target_ip, .. } => {
            assert_eq!(merge, MergeOutcome::Inserted);
            assert!(reply_due);
            assert_eq!(sender_mac, SENDER_MAC);
            assert_eq!(sender_ip, SENDER_IP);
            assert_eq!(target_ip, NODE_IP);
        }
        other => panic!("unexpected outcome: {:?}", other),
    }
    assert_eq!(table.lookup(IPV4_PROTOCOL_TYPE, &SENDER_IP), Some(SENDER_MAC));
}

#[test]
fn repeated_request_with_new_mac_updates_entry() {
    let mut table = AddressResolutionTable::new();
    let first = arp_request_frame(SENDER_MAC, SENDER_IP, NODE_IP);
    dispatch_frame(&mut table, &NODE_IP, &first);
    let second = arp_request_frame(OTHER_MAC, SENDER_IP, NODE_IP);
    let outcome = dispatch_frame(&mut table, &NODE_IP, &second);
    match outcome {
        DispatchOutcome::ArpObserved { merge, .. } => assert_eq!(merge, MergeOutcome::Updated),
        other => panic!("unexpected outcome: {:?}", other),
    }
    // the table reflects the new MAC only
    assert_eq!(table.lookup(IPV4_PROTOCOL_TYPE, &SENDER_IP), Some(OTHER_MAC));
}

#[test]
fn request_for_another_node_updates_cache_without_reply() {
    let mut table = AddressResolutionTable::new();
    let frame = arp_request_frame(SENDER_MAC, SENDER_IP, [10, 0, 0, 77]);
    let outcome = dispatch_frame(&mut table, &NODE_IP, &frame);
    match outcome {
        DispatchOutcome::ArpObserved { merge, reply_due, .. } => {
            assert_eq!(merge, MergeOutcome::Inserted);
            assert!(!reply_due);
        }
        other => panic!("unexpected outcome: {:?}", other),
    }
    assert_eq!(table.lookup(IPV4_PROTOCOL_TYPE, &SENDER_IP), Some(SENDER_MAC));
}

#[test]
fn short_buffer_is_dropped_and_table_untouched() {
    let mut table = AddressResolutionTable::new();
    table.observe(IPV4_PROTOCOL_TYPE, &SENDER_IP, &SENDER_MAC);
    let buf = vec![0u8; 10];
    let outcome = dispatch_frame(&mut table, &NODE_IP, &buf);
    assert!(matches!(outcome, DispatchOutcome::MalformedEthernet));
    assert_eq!(table.lookup(IPV4_PROTOCOL_TYPE, &SENDER_IP), Some(SENDER_MAC));
}

#[test]
fn truncated_arp_payload_is_dropped_and_table_untouched() {
    let mut table = AddressResolutionTable::new();
    let mut frame = arp_request_frame(SENDER_MAC, SENDER_IP, NODE_IP);
    frame.truncate(14 + 6); // ARP payload shorter than its header
    let outcome = dispatch_frame(&mut table, &NODE_IP, &frame);
    assert!(matches!(outcome, DispatchOutcome::ArpMalformed { .. }));
    assert_eq!(table.lookup(IPV4_PROTOCOL_TYPE, &SENDER_IP), None);
}

#[test]
fn truncated_arp_body_is_dropped_and_table_untouched() {
    let mut table = AddressResolutionTable::new();
    let mut frame = arp_request_frame(SENDER_MAC, SENDER_IP, NODE_IP);
    frame.truncate(frame.len() - 1); // IPv4 body no longer exactly 20 bytes
    let outcome = dispatch_frame(&mut table, &NODE_IP, &frame);
    assert!(matches!(outcome, DispatchOutcome::ArpBodyMalformed { .. }));
    assert_eq!(table.lookup(IPV4_PROTOCOL_TYPE, &SENDER_IP), None);
}

#[test]
fn non_arp_frame_is_reported_unknown() {
    let mut table = AddressResolutionTable::new();
    let mut frame = arp_request_frame(SENDER_MAC, SENDER_IP, NODE_IP);
    frame[13] = 0x00; // EtherType 0x0800: not ARP
    let outcome = dispatch_frame(&mut table, &NODE_IP, &frame);
    assert!(matches!(outcome, DispatchOutcome::EthernetUnknown { .. }));
    assert_eq!(table.lookup(IPV4_PROTOCOL_TYPE, &SENDER_IP), None);
}

#[test]
fn non_ethernet_hardware_type_is_unhandled() {
    let mut table = AddressResolutionTable::new();
    let mut frame = arp_request_frame(SENDER_MAC, SENDER_IP, NODE_IP);
    frame[15] = 0x06; // hardware type 0x0006: not Ethernet
    let outcome = dispatch_frame(&mut table, &NODE_IP, &frame);
    assert!(matches!(outcome, DispatchOutcome::ArpUnhandled { .. }));
    assert_eq!(table.lookup(IPV4_PROTOCOL_TYPE, &SENDER_IP), None);
}

#[test]
fn non_ipv4_protocol_type_is_ignored() {
    let mut table = AddressResolutionTable::new();
    let mut frame = arp_request_frame(SENDER_MAC, SENDER_IP, NODE_IP);
    frame[16] = 0x86;
    frame[17] = 0xdd; // protocol type 0x86dd: not IPv4
    let outcome = dispatch_frame(&mut table, &NODE_IP, &frame);
    assert!(matches!(outcome, DispatchOutcome::ArpIgnored { .. }));
    assert_eq!(table.lookup(IPV4_PROTOCOL_TYPE, &SENDER_IP), None);
}

#[test]
fn reply_opcode_is_observed_without_reply_due() {
    let mut table = AddressResolutionTable::new();
    let mut frame = arp_request_frame(SENDER_MAC, SENDER_IP, NODE_IP);
    frame[21] = 0x02; // opcode: reply
    let outcome = dispatch_frame(&mut table, &NODE_IP, &frame);
    match outcome {
        DispatchOutcome::ArpObserved { reply_due, .. } => assert!(!reply_due),
        other => panic!("unexpected outcome: {:?}", other),
    }
    assert_eq!(table.lookup(IPV4_PROTOCOL_TYPE, &SENDER_IP), Some(SENDER_MAC));
}
