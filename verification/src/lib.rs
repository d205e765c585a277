//! Building, reading and checking the headers of ARP, Ethernet, IPv4 and ICMP
//! packets, with the Internet checksum that IPv4 and ICMP carry.

pub mod l2;
pub mod l3;
pub mod nic;
pub mod util;
