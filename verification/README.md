# udpnet

A verified core for a small datagram protocol with channels.

- `src/protocol.rs`: message kinds and their wire codes, the parser for
  wire messages (`Host::parse_message`, specified by `parse_spec`), peers,
  and `Host::process_datagram`, which decides what an arriving datagram
  calls for.
- `src/packet.rs`: packets read in place (a fixed header, then a channel
  count and sequence numbers) and the handshake messages they hold.
- `src/wire.rs`: integer reads through `byteorder`.
- `src/address.rs`: socket addresses as plain values.
- `app/`: sockets, the receive loop, and the error type with an I/O variant.
