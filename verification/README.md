# udp

UDP sockets on a network stack whose sockets live in one `smoltcp` socket set, and a pool of such
sockets that are opened by address, connected or unconnected.

- `src/` is the library, verified with Verus.
  - `addr.rs`: addresses and endpoints.
  - `socket.rs`: the boundary to `smoltcp`. It models what a UDP socket holds (`UdpState`), and
    states what the calls into `smoltcp` do to it. Nothing proves these statements; they are what
    the rest is proved from.
  - `stack.rs`: what the sockets of a stack share, and the dynamic ports.
  - `udp_socket.rs`: the sockets.
  - `pool.rs`, `nal.rs`: the pool.
  - `laws.rs`: what holds from one operation to the next.
- `app/` puts the library behind asynchronous sockets and the traits of `embedded-nal-async`.
- `tests/` runs the library over a loopback device.

The library never waits and never wakes the task that runs the stack. An operation that cannot
finish returns `Poll::Pending`, with the task registered at its socket; an operation that changes a
socket sets `SocketStack::wake`, and whoever owns the stack wakes its runner.
