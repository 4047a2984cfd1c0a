# ustunet

A TCP library for a TUN network interface. It accepts connections to every
address that is routed to the interface, without binding to any of them: a
segment that opens a connection, to whichever address and port and in a packet of
IPv4 or IPv6, makes a new `TcpStream`, which knows both its ends.

The logic is written and proved in Verus.

- `src/wire.rs`, `src/bytes.rs`: addresses, headers and segments, and their bytes.
- `src/dispatch/`: the steps of the interface, the packets it writes, the queue
  of deadlines, and the channels by which streams reach it.
- `src/sockets/`: the known connections, and how a segment is led to its own.
- `src/stream/`: both sides of a connection, that of the user and that of the
  network, over the sockets of smoltcp.
- `src/time.rs`, `src/util.rs`: the clock, and waiting for the first of several
  operations.
- `app/`: what runs the library on Tokio: the loop over the device, and streams
  that are `AsyncRead` and `AsyncWrite`. The three methods by which smoltcp moves
  a socket along are not part of its public interface. An implementation of
  `SegmentEngine` supplies them.
- `tests/`: runs the library on concrete values.

What is taken from smoltcp, Tokio, tokio-util and the standard library without
proof stands in functions marked `external_body` and in `assume_specification`
items. Each says what is claimed of the function it stands for.

The queue of deadlines sets timers, so it has to be used within a Tokio runtime
whose time driver is enabled.
