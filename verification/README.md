# network_ex

Packet logic of two small raw-socket tools, `arping` and `ping`, verified
with Verus.

- `src/l3/checksum.rs`: the Internet checksum and its laws (a header with
  its checksum filled in sums to zero; changing one word changes the
  checksum by the opposite amount), and the checks of IPv4 and ICMP
  checksums.
- `src/l3/ip.rs`, `src/l3/icmp.rs`, `src/l2/if_ether.rs`, `src/l2/if_arp.rs`:
  the headers, read from and written to their wire bytes.
- `src/l3/ping.rs`: building an ICMP echo request and checking a received
  echo reply.
- `src/l2/arping.rs`: building an ARP request frame and recognising a reply.
- `src/util/addr.rs`: reading and writing IPv4 and hardware addresses as
  text.
- `src/nic/interface.rs`: a network interface and its builder.
- `app/`: the sockets, the clock, the interface lookup and the printing,
  with `main` for `arping`.
