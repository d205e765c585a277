pub mod arping;
pub mod if_arp;
pub mod if_ether;
