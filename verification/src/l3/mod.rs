pub mod checksum;
pub mod constant;
pub mod icmp;
pub mod ip;
pub mod ping;
