use vstd::prelude::*;

verus! {

/// The "don't fragment" flag of an IPv4 header's fragment field.
pub const IP_DF: u16 = 0x4000;

pub const IP_HDR_MIN_LEN: usize = 20;
pub const ICMP_HDR_MIN_LEN: usize = 8;
pub const ICMP_PAYLOAD_LEN: usize = 56;
pub const ICMP_TIMESTAMP_LEN: usize = 16;
pub const ICMP_PATTERN_LEN: usize = 40;

// Common ICMP types (IPv4)
pub const ICMP_ECHO_REPLY: u8 = 0;
pub const ICMP_DEST_UNREACH: u8 = 3;
pub const ICMP_SOURCE_QUENCH: u8 = 4;
pub const ICMP_REDIRECT: u8 = 5;
pub const ICMP_ECHO_REQUEST: u8 = 8;
pub const ICMP_ROUTER_ADVERT: u8 = 9;
pub const ICMP_ROUTER_SOLICIT: u8 = 10;
pub const ICMP_TIME_EXCEEDED: u8 = 11;
pub const ICMP_PARAMETERPROB: u8 = 12;
pub const ICMP_TIMESTAMP_REQUEST: u8 = 13;
pub const ICMP_TIMESTAMP_REPLY: u8 = 14;
pub const ICMP_INFO_REQUEST: u8 = 15;
pub const ICMP_INFO_REPLY: u8 = 16;
pub const ICMP_ADDRESS: u8 = 17;
pub const ICMP_ADDRESSREPLY: u8 = 18;

// Codes for ICMP_DEST_UNREACH
pub const ICMP_NET_UNREACH: u8 = 0;
pub const ICMP_HOST_UNREACH: u8 = 1;
pub const ICMP_PROT_UNREACH: u8 = 2;
pub const ICMP_PORT_UNREACH: u8 = 3;
pub const ICMP_FRAG_NEEDED: u8 = 4;
pub const ICMP_SR_FAILED: u8 = 5;
pub const ICMP_NET_UNKNOWN: u8 = 6;
pub const ICMP_HOST_UNKNOWN: u8 = 7;
pub const ICMP_HOST_ISOLATED: u8 = 8;
pub const ICMP_NET_ANO: u8 = 9;
pub const ICMP_HOST_ANO: u8 = 10;
pub const ICMP_NET_UNR_TOS: u8 = 11;
pub const ICMP_HOST_UNR_TOS: u8 = 12;
pub const ICMP_PKT_FILTERED: u8 = 13;
pub const ICMP_PREC_VIOLATION: u8 = 14;
pub const ICMP_PREC_CUTOFF: u8 = 15;

/// The protocol number of ICMP in an IPv4 header.
pub const IPPROTO_ICMP: u8 = 1;

} // verus!
