//! Network headers that the request generator pre-computes once and puts on
//! every outgoing packet.

use vstd::prelude::*;

verus! {

/// EtherType of an IPv4 payload.
pub const ETHERTYPE_IPV4: u16 = 0x0800;

/// IP protocol number of UDP.
pub const IP_PROTOCOL_UDP: u8 = 0x11;

/// Time-to-live put on every request.
pub const REQUEST_TTL: u8 = 128;

/// Length in bytes of an IPv4 header without options.
pub const IPV4_HEADER_LEN: u16 = 20;

/// Length in bytes of a UDP header.
pub const UDP_HEADER_LEN: u16 = 8;

/// An Ethernet header: destination and source MAC address, EtherType.
#[derive(Clone, Copy, Debug, PartialEq, Eq)]
pub struct MacHeader {
    pub dst: [u8; 6],
    pub src: [u8; 6],
    pub etype: u16,
}

/// The fields of an IPv4 header that requests set.
#[derive(Clone, Copy, Debug, PartialEq, Eq)]
pub struct IpHeader {
    pub src: u32,
    pub dst: u32,
    pub ttl: u8,
    pub version: u8,
    pub ihl: u8,
    pub length: u16,
    pub protocol: u8,
}

/// A UDP header.
#[derive(Clone, Copy, Debug, PartialEq, Eq)]
pub struct UdpHeader {
    pub src_port: u16,
    pub dst_port: u16,
    pub length: u16,
    pub checksum: u16,
}

} // verus!
