//! A small link-layer ingest pipeline: Ethernet frame decoding, ARP message
//! decoding, and an address-resolution cache with a merge-on-observe rule.
//!
//! Every decoder works over a bounds-checked byte view, so malformed or
//! truncated buffers are rejected with a typed error instead of being read
//! out of bounds.

pub mod address;
pub mod dispatch;
pub mod frame;
pub mod protocols;
pub mod table;
