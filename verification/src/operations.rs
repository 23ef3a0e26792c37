//! What each operation does for its caller: in octets, ports, payloads and places, said of the
//! arguments and the results of the calls themselves.

use crate::addr::{IpAddress, IpEndpoint, IpListenEndpoint};
use crate::laws::lemma_overlay_all_len;
use crate::nal::{
    connected_recv_outcome, endpoint_of, ends_wait, overlay_all, to_endpoint, to_nal_addr, Error,
    SocketAddr, UdpNalStack, UdpNalStackState, UdpSocket2,
};
use crate::pool::Pool;
use crate::socket::{context_waker, waker_task, Datagram, UdpState};
use crate::stack::SocketStack;
use crate::udp_socket::{
    current_task, BindError, Poll, RecvError, SendError, UdpSocket,
};
use core::task::Context;
use smoltcp::iface::SocketHandle;
use smoltcp::socket::udp::PacketMetadata;
use vstd::prelude::*;

verus! {

/// Whether two addresses are of the same family and agree in every octet.
pub open spec fn same_octets(a: IpAddress, b: IpAddress) -> bool {
    match (a, b) {
        (IpAddress::Ipv4(x), IpAddress::Ipv4(y)) => forall|i: int| 0 <= i < 4 ==> x@[i] == y@[i],
        (IpAddress::Ipv6(x), IpAddress::Ipv6(y)) => forall|i: int| 0 <= i < 16 ==> x@[i] == y@[i],
        _ => false,
    }
}

/// Whether a socket address and an endpoint are of the same family and agree in every octet and
/// in the port.
pub open spec fn same_place(addr: SocketAddr, endpoint: IpEndpoint) -> bool {
    match (addr, endpoint.addr) {
        (SocketAddr::V4(v4), IpAddress::Ipv4(octets)) => {
            &&& forall|i: int| 0 <= i < 4 ==> v4.ip@[i] == octets@[i]
            &&& v4.port == endpoint.port
        },
        (SocketAddr::V6(v6), IpAddress::Ipv6(octets)) => {
            &&& forall|i: int| 0 <= i < 16 ==> v6.ip@[i] == octets@[i]
            &&& v6.port == endpoint.port
        },
        _ => false,
    }
}

/// The port of a socket address.
pub open spec fn port_of(addr: SocketAddr) -> u16 {
    match addr {
        SocketAddr::V4(v4) => v4.port,
        SocketAddr::V6(v6) => v6.port,
    }
}

/// Whether datagrams can be addressed to an endpoint: its port is not zero, and neither is the
/// first octet of its IPv4 address, or every octet of its IPv6 address.
pub open spec fn reachable(remote: IpEndpoint) -> bool {
    &&& remote.port != 0
    &&& match remote.addr {
        IpAddress::Ipv4(octets) => octets@[0] != 0,
        IpAddress::Ipv6(octets) => exists|i: int| 0 <= i < 16 && octets@[i] != 0,
    }
}

/// Whether two stacks have the same sockets, in the same state, but for the one under `handle`.
pub open spec fn same_elsewhere(pre: SocketStack, post: SocketStack, handle: SocketHandle) -> bool {
    &&& forall|other: SocketHandle|
        other != handle ==> (post.udp_sockets().contains_key(other)
            <==> #[trigger] pre.udp_sockets().contains_key(other))
    &&& forall|other: SocketHandle|
        other != handle && #[trigger] pre.udp_sockets().contains_key(other)
            ==> post.udp_sockets()[other] == pre.udp_sockets()[other]
    &&& post.others() == pre.others()
    &&& post.slots() == pre.slots()
}

/// Two addresses are equal exactly if they are of the same family and agree in every octet.
pub proof fn law_equal_addresses(a: IpAddress, b: IpAddress, equal: bool)
    requires
        call_ensures(<IpAddress as PartialEq>::eq, (&a, &b), equal),
    ensures
        equal <==> same_octets(a, b),
{
    match (a, b) {
        (IpAddress::Ipv4(x), IpAddress::Ipv4(y)) => {
            if same_octets(a, b) {
                assert(x =~= y);
            }
        },
        (IpAddress::Ipv6(x), IpAddress::Ipv6(y)) => {
            if same_octets(a, b) {
                assert(x =~= y);
            }
        },
        _ => {},
    }
}

/// Two endpoints are equal exactly if their addresses and their ports are.
pub proof fn law_equal_endpoints(a: IpEndpoint, b: IpEndpoint, equal: bool)
    requires
        call_ensures(<IpEndpoint as PartialEq>::eq, (&a, &b), equal),
    ensures
        equal <==> same_octets(a.addr, b.addr) && a.port == b.port,
{
    lemma_same_octets(a.addr, b.addr);
}

/// Two endpoints to listen on are equal exactly if both have an address, and the same one, or
/// neither has, and their ports are equal.
pub proof fn law_equal_listen_endpoints(a: IpListenEndpoint, b: IpListenEndpoint, equal: bool)
    requires
        call_ensures(<IpListenEndpoint as PartialEq>::eq, (&a, &b), equal),
    ensures
        equal <==> a.port == b.port && match (a.addr, b.addr) {
            (Some(x), Some(y)) => same_octets(x, y),
            (None, None) => true,
            _ => false,
        },
{
    if a.addr is Some && b.addr is Some {
        lemma_same_octets(a.addr.unwrap(), b.addr.unwrap());
    }
}

/// Addresses with the same octets are the same.
proof fn lemma_same_octets(a: IpAddress, b: IpAddress)
    ensures
        same_octets(a, b) <==> a == b,
{
    match (a, b) {
        (IpAddress::Ipv4(x), IpAddress::Ipv4(y)) => {
            if same_octets(a, b) {
                assert(x =~= y);
            }
        },
        (IpAddress::Ipv6(x), IpAddress::Ipv6(y)) => {
            if same_octets(a, b) {
                assert(x =~= y);
            }
        },
        _ => {},
    }
}

/// An endpoint made of a pair has its address and its port, and so has one to listen on; a bare
/// port listens on every address.
pub proof fn law_endpoints_are_made_of_their_parts(
    addr: IpAddress,
    port: u16,
    endpoint: IpEndpoint,
    listen: IpListenEndpoint,
    listen_at: IpListenEndpoint,
    anywhere: IpListenEndpoint,
)
    requires
        call_ensures(<IpEndpoint as From<(IpAddress, u16)>>::from, ((addr, port),), endpoint),
        call_ensures(<IpListenEndpoint as From<(IpAddress, u16)>>::from, ((addr, port),), listen),
        call_ensures(<IpListenEndpoint as From<IpEndpoint>>::from, (endpoint,), listen_at),
        call_ensures(<IpListenEndpoint as From<u16>>::from, (port,), anywhere),
    ensures
        same_octets(endpoint.addr, addr) && endpoint.port == port,
        listen.addr matches Some(a) && same_octets(a, addr) && listen.port == port,
        listen_at.addr matches Some(a) && same_octets(a, addr) && listen_at.port == port,
        anywhere.addr is None && anywhere.port == port,
{
}

/// An error of a socket is kept in the error of the pool: binding, sending and receiving are told
/// apart, and so is what went wrong.
pub proof fn law_errors_are_kept(
    bind: BindError,
    send: SendError,
    recv: RecvError,
    bind_error: Error,
    send_error: Error,
    recv_error: Error,
)
    requires
        call_ensures(<Error as From<BindError>>::from, (bind,), bind_error),
        call_ensures(<Error as From<SendError>>::from, (send,), send_error),
        call_ensures(<Error as From<RecvError>>::from, (recv,), recv_error),
    ensures
        bind_error matches Error::Bind(e) && e == bind,
        send_error matches Error::Send(e) && e == send,
        recv_error matches Error::Recv(e) && e == recv,
{
}

/// The endpoint of a socket address is of the same family, and has its port and each of its
/// octets in its place.
pub proof fn law_endpoint_has_the_octets(addr: SocketAddr, endpoint: IpEndpoint)
    requires
        call_ensures(to_endpoint, (&addr,), endpoint),
    ensures
        same_place(addr, endpoint),
{
}

/// The socket address of an endpoint is of the same family, and has its port and each of its
/// octets in its place, without flow information and scope.
pub proof fn law_addr_has_the_octets(endpoint: IpEndpoint, addr: SocketAddr)
    requires
        call_ensures(to_nal_addr, (&endpoint,), addr),
    ensures
        same_place(addr, endpoint),
        addr matches SocketAddr::V6(v6) ==> v6.flowinfo == 0 && v6.scope_id == 0,
{
}

/// A new stack has no socket, room for any number of them, and the given port to hand out next.
pub proof fn law_new_stack(next_local_port: u16, stack: SocketStack)
    requires
        call_ensures(SocketStack::new, (next_local_port,), stack),
    ensures
        forall|handle: SocketHandle| !#[trigger] stack.udp_sockets().contains_key(handle),
        forall|handle: SocketHandle| !#[trigger] stack.others().contains(handle),
        stack.slots() is None,
        stack.next_local_port == next_local_port,
        !stack.wake,
{
}

/// Two ports that are handed out one after the other follow each other: the second is the first
/// plus one, or the first of the dynamic range where the first was the last port there is. So
/// they differ. Nothing else about the stack changes.
pub proof fn law_ports_follow_each_other(
    stack: &mut SocketStack,
    first: u16,
    later: &mut SocketStack,
    second: u16,
)
    requires
        call_ensures(SocketStack::get_local_port, (stack,), first),
        call_ensures(SocketStack::get_local_port, (later,), second),
        *old(later) == *final(stack),
    ensures
        first == old(stack).next_local_port,
        first < 65535 ==> second == first + 1,
        first == 65535 ==> second == 1025,
        first != second,
        final(stack).sockets == old(stack).sockets,
        final(stack).wake == old(stack).wake,
{
}

/// A request to wake the task that runs the stack is answered once: whoever asks learns of it and
/// withdraws it, and whoever asks next learns of none.
pub proof fn law_wake_is_taken_once(
    stack: &mut SocketStack,
    first: bool,
    later: &mut SocketStack,
    second: bool,
)
    requires
        call_ensures(SocketStack::take_wake, (stack,), first),
        call_ensures(SocketStack::take_wake, (later,), second),
        *old(later) == *final(stack),
    ensures
        first == old(stack).wake,
        !second,
        final(stack).sockets == old(stack).sockets,
        final(stack).next_local_port == old(stack).next_local_port,
{
}

/// Every slot of a new pool is free.
pub proof fn law_new_pool_is_free<const N: usize>(pool: Pool<N>)
    requires
        call_ensures(Pool::<N>::new, (), pool),
    ensures
        forall|i: int| 0 <= i < N ==> !pool.used@[i],
{
}

/// A pool hands out a slot exactly if one is free: the free slot with the lowest number, which is
/// in use from then on. No other slot changes.
pub proof fn law_allocate_hands_out_a_free_slot<const N: usize>(
    pool: &mut Pool<N>,
    slot: Option<usize>,
)
    requires
        call_ensures(Pool::<N>::allocate, (pool,), slot),
    ensures
        slot is Some <==> exists|i: int| 0 <= i < N && !old(pool).used@[i],
        slot matches Some(n) ==> {
            &&& n < N
            &&& !old(pool).used@[n as int]
            &&& forall|i: int| 0 <= i < n ==> old(pool).used@[i]
            &&& final(pool).used@[n as int]
        },
        forall|i: int|
            0 <= i < N && slot != Some(i as usize) ==> final(pool).used@[i] == old(pool).used@[i],
{
}

/// Freeing a slot frees that slot, and no other one changes.
pub proof fn law_free_frees_that_slot<const N: usize>(pool: &mut Pool<N>, n: usize)
    requires
        n < N,
        call_ensures(Pool::<N>::free, (pool, n), ()),
    ensures
        !final(pool).used@[n as int],
        forall|i: int| 0 <= i < N && i != n ==> final(pool).used@[i] == old(pool).used@[i],
{
}

/// No slot is handed out twice without being freed in between.
pub proof fn law_slots_are_not_shared<const N: usize>(
    pool: &mut Pool<N>,
    first: usize,
    later: &mut Pool<N>,
    second: usize,
)
    requires
        call_ensures(Pool::<N>::allocate, (pool,), Some(first)),
        call_ensures(Pool::<N>::allocate, (later,), Some(second)),
        *old(later) == *final(pool),
    ensures
        first != second,
{
}

/// A new socket is closed and holds nothing; its buffers are those that were given for each
/// direction, and the whole of them is free. It takes a handle that no socket had, and no other
/// socket changes.
pub proof fn law_new_socket_has_the_given_buffers(
    stack: &mut SocketStack,
    rx_meta: Vec<PacketMetadata>,
    rx_buffer: Vec<u8>,
    tx_meta: Vec<PacketMetadata>,
    tx_buffer: Vec<u8>,
    socket: UdpSocket,
)
    requires
        call_ensures(UdpSocket::new, (stack, rx_meta, rx_buffer, tx_meta, tx_buffer), socket),
    ensures
        ({
            let state = final(stack).udp_sockets()[socket.handle()];
            &&& state.rx_packets == rx_meta@.len()
            &&& state.rx_bytes == rx_buffer@.len()
            &&& state.tx_packets == tx_meta@.len()
            &&& state.tx_bytes == tx_buffer@.len()
            &&& state.endpoint.addr is None && state.endpoint.port == 0
            &&& state.rx.len() == 0 && state.tx.len() == 0
            &&& state.tx_free == tx_meta@.len()
            &&& state.tx_tail == tx_buffer@.len() && state.tx_front == 0
            &&& state.hop_limit is None
            &&& state.recv_waiter is None && state.send_waiter is None
        }),
        final(stack).udp_sockets().contains_key(socket.handle()),
        !old(stack).udp_sockets().contains_key(socket.handle()),
        !old(stack).others().contains(socket.handle()),
        same_elsewhere(*old(stack), *final(stack), socket.handle()),
        final(stack).next_local_port == old(stack).next_local_port,
        final(stack).wake == old(stack).wake,
{
}

/// The capacities of a new socket are the sizes of the buffers that it was made with, each for
/// its direction.
pub proof fn law_new_socket_tells_its_capacities(
    stack: &mut SocketStack,
    rx_meta: Vec<PacketMetadata>,
    rx_buffer: Vec<u8>,
    tx_meta: Vec<PacketMetadata>,
    tx_buffer: Vec<u8>,
    socket: UdpSocket,
    later: SocketStack,
    packet_recv: usize,
    packet_send: usize,
    payload_recv: usize,
    payload_send: usize,
)
    requires
        call_ensures(UdpSocket::new, (stack, rx_meta, rx_buffer, tx_meta, tx_buffer), socket),
        later == *final(stack),
        call_ensures(UdpSocket::packet_recv_capacity, (&socket, &later), packet_recv),
        call_ensures(UdpSocket::packet_send_capacity, (&socket, &later), packet_send),
        call_ensures(UdpSocket::payload_recv_capacity, (&socket, &later), payload_recv),
        call_ensures(UdpSocket::payload_send_capacity, (&socket, &later), payload_send),
    ensures
        packet_recv == rx_meta@.len(),
        packet_send == tx_meta@.len(),
        payload_recv == rx_buffer@.len(),
        payload_send == tx_buffer@.len(),
{
}

/// What a socket tells of itself: its local endpoint, whether that has a port, whether an entry
/// of the transmit buffer is free, whether a datagram was received and not read, and how much its
/// buffers hold. Asking changes nothing.
pub proof fn law_socket_tells_what_it_holds(
    socket: UdpSocket,
    stack: SocketStack,
    endpoint: IpListenEndpoint,
    open: bool,
    sends: bool,
    asked: &mut SocketStack,
    receives: bool,
    packet_recv: usize,
    packet_send: usize,
    payload_recv: usize,
    payload_send: usize,
)
    requires
        call_ensures(UdpSocket::endpoint, (&socket, &stack), endpoint),
        call_ensures(UdpSocket::is_open, (&socket, &stack), open),
        call_ensures(UdpSocket::may_send, (&socket, &stack), sends),
        *old(asked) == stack,
        call_ensures(UdpSocket::may_recv, (&socket, asked), receives),
        call_ensures(UdpSocket::packet_recv_capacity, (&socket, &stack), packet_recv),
        call_ensures(UdpSocket::packet_send_capacity, (&socket, &stack), packet_send),
        call_ensures(UdpSocket::payload_recv_capacity, (&socket, &stack), payload_recv),
        call_ensures(UdpSocket::payload_send_capacity, (&socket, &stack), payload_send),
    ensures
        ({
            let state = stack.udp_sockets()[socket.handle()];
            &&& endpoint.port == state.endpoint.port
            &&& endpoint.addr is Some <==> state.endpoint.addr is Some
            &&& endpoint.addr is Some ==> same_octets(
                endpoint.addr.unwrap(),
                state.endpoint.addr.unwrap(),
            )
            &&& open <==> state.endpoint.port != 0
            &&& open <==> endpoint.port != 0
            &&& sends <==> state.tx_free > 0
            &&& receives <==> state.rx.len() > 0
            &&& packet_recv == state.rx_packets && payload_recv == state.rx_bytes
            &&& packet_send == state.tx_packets && payload_send == state.tx_bytes
        }),
        final(asked).udp_sockets() == stack.udp_sockets(),
        final(asked).others() == stack.others(),
        final(asked).slots() == stack.slots(),
        final(asked).next_local_port == stack.next_local_port,
        final(asked).wake == stack.wake,
{
}

/// A closed socket is bound to the address that was asked for, and to the port that was asked
/// for, or, where that was zero, to the port that the stack had to hand out next. Binding fails
/// where that is zero too, or where the socket is open already, and then changes nothing about
/// the socket. Nothing but the local endpoint changes about a socket that is bound, except that
/// nobody waits for it any more.
pub proof fn law_bind_takes_the_endpoint(
    socket: &mut UdpSocket,
    stack: &mut SocketStack,
    endpoint: IpListenEndpoint,
    result: Result<(), BindError>,
)
    requires
        call_ensures(UdpSocket::bind, (socket, stack, endpoint), result),
    ensures
        ({
            let pre = old(stack).udp_sockets()[old(socket).handle()];
            let post = final(stack).udp_sockets()[old(socket).handle()];
            let no_port = endpoint.port == 0 && old(stack).next_local_port == 0;
            &&& result == Err::<(), BindError>(BindError::NoRoute) <==> no_port
            &&& result == Err::<(), BindError>(BindError::InvalidState) <==> !no_port
                && pre.endpoint.port != 0
            &&& result is Ok <==> !no_port && pre.endpoint.port == 0
            &&& result is Err ==> post == pre
            &&& result is Ok ==> {
                &&& endpoint.port != 0 ==> post.endpoint.port == endpoint.port
                &&& endpoint.port == 0 ==> post.endpoint.port == old(stack).next_local_port
                &&& post.endpoint.addr is Some <==> endpoint.addr is Some
                &&& endpoint.addr is Some ==> same_octets(
                    post.endpoint.addr.unwrap(),
                    endpoint.addr.unwrap(),
                )
                &&& post.rx == pre.rx && post.tx == pre.tx
                &&& post.tx_free == pre.tx_free && post.tx_tail == pre.tx_tail
                &&& post.tx_front == pre.tx_front
                &&& post.rx_packets == pre.rx_packets && post.rx_bytes == pre.rx_bytes
                &&& post.tx_packets == pre.tx_packets && post.tx_bytes == pre.tx_bytes
                &&& post.hop_limit == pre.hop_limit
                &&& post.recv_waiter is None && post.send_waiter is None
            }
        }),
        *final(socket) == *old(socket),
        same_elsewhere(*old(stack), *final(stack), old(socket).handle()),
        final(stack).udp_sockets().contains_key(old(socket).handle()),
        endpoint.port != 0 ==> final(stack).next_local_port == old(stack).next_local_port,
        endpoint.port == 0 && old(stack).next_local_port < 65535 ==> final(stack).next_local_port
            == old(stack).next_local_port + 1,
        endpoint.port == 0 && old(stack).next_local_port == 65535 ==> final(stack).next_local_port
            == 1025,
        final(stack).wake,
{
}

/// Two sockets that are bound one after the other without asking for a port get the two ports
/// that the stack hands out next, which differ.
pub proof fn law_dynamic_binds_differ(
    first: &mut UdpSocket,
    stack: &mut SocketStack,
    first_endpoint: IpListenEndpoint,
    second: &mut UdpSocket,
    later: &mut SocketStack,
    second_endpoint: IpListenEndpoint,
)
    requires
        call_ensures(UdpSocket::bind, (first, stack, first_endpoint), Ok(())),
        call_ensures(UdpSocket::bind, (second, later, second_endpoint), Ok(())),
        *old(later) == *final(stack),
        first_endpoint.port == 0,
        second_endpoint.port == 0,
        old(first).handle() != old(second).handle(),
        old(stack).udp_sockets().contains_key(old(first).handle()),
    ensures
        ({
            let first_port = final(later).udp_sockets()[old(first).handle()].endpoint.port;
            let second_port = final(later).udp_sockets()[old(second).handle()].endpoint.port;
            &&& first_port == old(stack).next_local_port
            &&& first_port < 65535 ==> second_port == first_port + 1
            &&& first_port != second_port
        }),
{
}

/// A socket that was bound tells that it is open, and the endpoint that it was bound to.
pub proof fn law_bound_socket_tells_its_endpoint(
    socket: &mut UdpSocket,
    stack: &mut SocketStack,
    asked: IpListenEndpoint,
    bound: UdpSocket,
    later: SocketStack,
    endpoint: IpListenEndpoint,
    open: bool,
)
    requires
        call_ensures(UdpSocket::bind, (socket, stack, asked), Ok(())),
        bound == *final(socket),
        later == *final(stack),
        call_ensures(UdpSocket::endpoint, (&bound, &later), endpoint),
        call_ensures(UdpSocket::is_open, (&bound, &later), open),
    ensures
        open,
        asked.port != 0 ==> endpoint.port == asked.port,
        asked.port == 0 ==> endpoint.port == old(stack).next_local_port,
        asked.addr is Some <==> endpoint.addr is Some,
        asked.addr is Some ==> same_octets(endpoint.addr.unwrap(), asked.addr.unwrap()),
{
}

/// A read waits exactly if nothing was received, and then the task that polls is the one to be
/// woken. Otherwise it takes the oldest datagram out, and the others stay in their order: where
/// that is longer than the buffer, the read fails and leaves the buffer alone; where it is not,
/// its length and its sender are returned, and its octets are the first of the buffer, of which
/// the rest stays as it was. Nothing else about the socket changes.
pub proof fn law_recv_hands_out_the_oldest(
    socket: UdpSocket,
    stack: &mut SocketStack,
    buf: &mut [u8],
    cx: &mut Context<'_>,
    result: Poll<Result<(usize, IpEndpoint), RecvError>>,
)
    requires
        call_ensures(UdpSocket::poll_recv_from, (&socket, stack, buf, cx), result),
    ensures
        ({
            let pre = old(stack).udp_sockets()[socket.handle()];
            let post = final(stack).udp_sockets()[socket.handle()];
            &&& result is Pending <==> pre.rx.len() == 0
            &&& result is Pending ==> post.rx.len() == 0 && post.recv_waiter == Some(
                waker_task(context_waker(*old(cx))),
            ) && final(buf)@ == old(buf)@
            &&& result is Ready ==> {
                let oldest = pre.rx[0];
                &&& post.rx.len() == pre.rx.len() - 1
                &&& forall|i: int| 0 <= i < post.rx.len() ==> #[trigger] post.rx[i] == pre.rx[i + 1]
                &&& post.recv_waiter == pre.recv_waiter
                &&& result == Poll::<Result<(usize, IpEndpoint), RecvError>>::Ready(
                    Err(RecvError::Truncated),
                ) <==> oldest.payload.len() > old(buf)@.len()
                &&& result matches Poll::Ready(Err(_)) ==> final(buf)@ == old(buf)@
                &&& result matches Poll::Ready(Ok((len, sender))) ==> {
                    &&& len == oldest.payload.len()
                    &&& same_octets(sender.addr, oldest.endpoint.addr)
                    &&& sender.port == oldest.endpoint.port
                    &&& forall|i: int| 0 <= i < len ==> final(buf)@[i] == oldest.payload[i]
                    &&& forall|i: int|
                        len <= i < old(buf)@.len() ==> final(buf)@[i] == old(buf)@[i]
                }
            }
            &&& final(buf)@.len() == old(buf)@.len()
            &&& post == (UdpState { rx: post.rx, recv_waiter: post.recv_waiter, ..pre })
        }),
        same_elsewhere(*old(stack), *final(stack), socket.handle()),
        final(stack).next_local_port == old(stack).next_local_port,
        final(stack).wake,
        *final(cx) == *old(cx),
{
}

/// A datagram is queued behind those that wait already, with its octets and for its remote
/// endpoint as given, exactly if the socket is bound, the remote endpoint is reachable, and the
/// transmit buffer has an entry free and room for the payload in one piece: behind the last
/// datagram, or at its beginning, which takes an entry more. Where there is no room the task that
/// polls is the one to be woken, and a last entry is lost if the payload would have fit at the
/// beginning. Where the socket is not bound or the remote endpoint is not reachable, nothing
/// changes about the socket.
pub proof fn law_send_queues_the_datagram(
    socket: UdpSocket,
    stack: &mut SocketStack,
    data: &[u8],
    remote: IpEndpoint,
    cx: &mut Context<'_>,
    result: Poll<Result<(), SendError>>,
)
    requires
        call_ensures(UdpSocket::poll_send_to, (&socket, stack, data, remote, cx), result),
    ensures
        ({
            let pre = old(stack).udp_sockets()[socket.handle()];
            let post = final(stack).udp_sockets()[socket.handle()];
            let task = waker_task(context_waker(*old(cx)));
            let behind = pre.tx_free >= 1 && data@.len() <= pre.tx_tail;
            let ahead = !(data@.len() <= pre.tx_tail) && pre.tx_free >= 2 && data@.len()
                <= pre.tx_front;
            let bound = pre.endpoint.port != 0;
            &&& result == Poll::<Result<(), SendError>>::Ready(Err(SendError::SocketNotBound))
                <==> !bound
            &&& result == Poll::<Result<(), SendError>>::Ready(Err(SendError::NoRoute)) <==> bound
                && !reachable(remote)
            &&& result == Poll::<Result<(), SendError>>::Ready(Ok(())) <==> bound && reachable(
                remote,
            ) && (behind || ahead)
            &&& result is Pending <==> bound && reachable(remote) && !behind && !ahead
            &&& result matches Poll::Ready(Err(_)) ==> post == pre
            &&& result is Pending ==> post.send_waiter == Some(task) && post.tx == pre.tx
            &&& result is Pending ==> if pre.tx_free == 1 && pre.tx_tail < data@.len()
                <= pre.tx_front {
                post.tx_free == 0 && post.tx_tail == pre.tx_front && post.tx_front == 0
            } else {
                post.tx_free == pre.tx_free && post.tx_tail == pre.tx_tail && post.tx_front
                    == pre.tx_front
            }
            &&& result == Poll::<Result<(), SendError>>::Ready(Ok(())) ==> {
                &&& post.tx.len() == pre.tx.len() + 1
                &&& forall|i: int| 0 <= i < pre.tx.len() ==> #[trigger] post.tx[i] == pre.tx[i]
                &&& same_octets(post.tx.last().endpoint.addr, remote.addr)
                &&& post.tx.last().endpoint.port == remote.port
                &&& post.tx.last().payload.len() == data@.len()
                &&& forall|i: int|
                    0 <= i < data@.len() ==> post.tx.last().payload[i] == data@[i]
                &&& post.send_waiter == pre.send_waiter
                &&& behind ==> post.tx_free == pre.tx_free - 1 && post.tx_tail + post.tx_front
                    == pre.tx_tail + pre.tx_front - data@.len()
                &&& behind && data@.len() < pre.tx_tail ==> post.tx_front == pre.tx_front
                &&& behind && data@.len() == pre.tx_tail ==> post.tx_front == 0
                &&& ahead ==> post.tx_free == pre.tx_free - 2 && post.tx_tail == pre.tx_front
                    - data@.len() && post.tx_front == 0
            }
            &&& post == (UdpState {
                tx: post.tx,
                tx_free: post.tx_free,
                tx_tail: post.tx_tail,
                tx_front: post.tx_front,
                send_waiter: post.send_waiter,
                ..pre
            })
        }),
        same_elsewhere(*old(stack), *final(stack), socket.handle()),
        final(stack).next_local_port == old(stack).next_local_port,
        final(stack).wake,
        *final(cx) == *old(cx),
{
    lemma_reachable(remote);
}

/// An endpoint is reachable exactly if its address is specified and its port is not zero.
proof fn lemma_reachable(remote: IpEndpoint)
    ensures
        reachable(remote) <==> remote.port != 0 && !remote.addr.unspecified(),
{
    if let IpAddress::Ipv6(octets) = remote.addr {
        if !remote.addr.unspecified() {
            let i = choose|i: int| 0 <= i < 16 && octets@[i] != 0;
            assert(0 <= i < 16 && octets@[i] != 0);
        }
    }
}

/// Closing a socket forgets its local endpoint, what it received and what it had to send, and
/// nobody waits for it any more. Its hop limit and the sizes of its buffers stay, and the whole
/// of them is free.
pub proof fn law_close_empties_the_socket(socket: &mut UdpSocket, stack: &mut SocketStack)
    requires
        call_ensures(UdpSocket::close, (socket, stack), ()),
    ensures
        ({
            let pre = old(stack).udp_sockets()[old(socket).handle()];
            let post = final(stack).udp_sockets()[old(socket).handle()];
            &&& post.endpoint.addr is None && post.endpoint.port == 0
            &&& post.rx.len() == 0 && post.tx.len() == 0
            &&& post.rx_packets == pre.rx_packets && post.rx_bytes == pre.rx_bytes
            &&& post.tx_packets == pre.tx_packets && post.tx_bytes == pre.tx_bytes
            &&& post.tx_free == pre.tx_packets
            &&& post.tx_tail == pre.tx_bytes && post.tx_front == 0
            &&& post.hop_limit == pre.hop_limit
            &&& post.recv_waiter is None && post.send_waiter is None
        }),
        *final(socket) == *old(socket),
        same_elsewhere(*old(stack), *final(stack), old(socket).handle()),
        final(stack).udp_sockets().contains_key(old(socket).handle()),
        final(stack).next_local_port == old(stack).next_local_port,
        final(stack).wake,
{
}

/// Setting the hop limit sets it to what is given, and changes nothing else.
pub proof fn law_hop_limit_is_set(
    socket: &mut UdpSocket,
    stack: &mut SocketStack,
    hop_limit: Option<u8>,
)
    requires
        call_ensures(UdpSocket::set_hop_limit, (socket, stack, hop_limit), ()),
    ensures
        ({
            let pre = old(stack).udp_sockets()[old(socket).handle()];
            let post = final(stack).udp_sockets()[old(socket).handle()];
            &&& post.hop_limit == hop_limit
            &&& post == (UdpState { hop_limit: post.hop_limit, ..pre })
        }),
        *final(socket) == *old(socket),
        same_elsewhere(*old(stack), *final(stack), old(socket).handle()),
        final(stack).udp_sockets().contains_key(old(socket).handle()),
        final(stack).next_local_port == old(stack).next_local_port,
        final(stack).wake,
{
}

/// A socket that was given up is gone from its stack, and no other one is.
pub proof fn law_dropped_socket_is_gone(socket: UdpSocket, stack: &mut SocketStack)
    requires
        call_ensures(UdpSocket::drop, (socket, stack), ()),
    ensures
        !final(stack).udp_sockets().contains_key(socket.handle()),
        same_elsewhere(*old(stack), *final(stack), socket.handle()),
        final(stack).next_local_port == old(stack).next_local_port,
        final(stack).wake == old(stack).wake,
{
}

/// Every place of a new pool of sockets is free.
pub proof fn law_new_state_is_free<const N: usize, const TX_SZ: usize, const RX_SZ: usize>(
    state: UdpNalStackState<N, TX_SZ, RX_SZ>,
)
    requires
        call_ensures(UdpNalStackState::<N, TX_SZ, RX_SZ>::new, (), state),
    ensures
        forall|i: int| 0 <= i < N ==> !state.pool.used@[i],
{
}

/// A pool on a stack works on that stack and with those places: it starts with what they are, and
/// what becomes of them through it becomes of them.
pub proof fn law_pool_works_on_its_stack<
    'd,
    const N: usize,
    const TX_SZ: usize,
    const RX_SZ: usize,
>(
    stack: &'d mut SocketStack,
    state: &'d mut UdpNalStackState<N, TX_SZ, RX_SZ>,
    nal: UdpNalStack<'d, N, TX_SZ, RX_SZ>,
)
    requires
        call_ensures(UdpNalStack::<'d, N, TX_SZ, RX_SZ>::new, (stack, state), nal),
    ensures
        *old(nal.stack) == *old(stack),
        *old(nal.state) == *old(state),
        *final(nal.stack) == *final(stack),
        *final(nal.state) == *final(state),
{
}

/// Whether a socket can be opened on the local address: a place of the pool is free, and there is
/// a port, from the address or from the stack.
pub open spec fn can_open<const N: usize, const TX_SZ: usize, const RX_SZ: usize>(
    stack: SocketStack,
    state: UdpNalStackState<N, TX_SZ, RX_SZ>,
    local: SocketAddr,
) -> bool {
    &&& exists|i: int| 0 <= i < N && !state.pool.used@[i]
    &&& port_of(local) != 0 || stack.next_local_port != 0
}

/// Whether a socket was opened on the local address: it is new to the stack and bound there, or
/// to the port that the stack had to hand out next where the address has none; it holds sixteen
/// datagrams in each direction, with as many bytes as the pool gives each direction, and nothing
/// is in it; and it has a place of the pool that was free. No other socket and no other place
/// changed.
pub open spec fn opened<const N: usize, const TX_SZ: usize, const RX_SZ: usize>(
    stack: SocketStack,
    state: UdpNalStackState<N, TX_SZ, RX_SZ>,
    local: SocketAddr,
    post_stack: SocketStack,
    post_state: UdpNalStackState<N, TX_SZ, RX_SZ>,
    socket: UdpSocket2<N, TX_SZ, RX_SZ>,
) -> bool {
    let handle = socket.socket().handle();
    let held = post_stack.udp_sockets()[handle];
    &&& !stack.udp_sockets().contains_key(handle)
    &&& !stack.others().contains(handle)
    &&& post_stack.udp_sockets().contains_key(handle)
    &&& same_elsewhere(stack, post_stack, handle)
    &&& held.tx_bytes == TX_SZ && held.tx_tail == TX_SZ && held.tx_front == 0
    &&& held.rx_bytes == RX_SZ
    &&& held.tx_packets == 16 && held.tx_free == 16 && held.rx_packets == 16
    &&& held.rx.len() == 0 && held.tx.len() == 0
    &&& held.hop_limit is None && held.recv_waiter is None && held.send_waiter is None
    &&& held.endpoint.addr matches Some(addr) && same_place(
        local,
        IpEndpoint { addr, port: port_of(local) },
    )
    &&& held.endpoint.port == if port_of(local) != 0 {
        port_of(local)
    } else {
        stack.next_local_port
    }
    &&& held.endpoint.port != 0
    &&& 0 <= socket.slot() < N
    &&& !state.pool.used@[socket.slot()]
    &&& post_state.pool.used@[socket.slot()]
    &&& forall|i: int|
        0 <= i < N && i != socket.slot() ==> post_state.pool.used@[i] == state.pool.used@[i]
    &&& port_of(local) != 0 ==> post_stack.next_local_port == stack.next_local_port
    &&& port_of(local) == 0 && stack.next_local_port < 65535 ==> post_stack.next_local_port
        == stack.next_local_port + 1
    &&& port_of(local) == 0 && stack.next_local_port == 65535 ==> post_stack.next_local_port == 1025
    &&& post_stack.wake
}

/// Whether no socket was opened, for the reason given: no place of the pool was free, or there
/// was no port. Every socket and every place is as it was; a port of zero is used up.
pub open spec fn not_opened<const N: usize, const TX_SZ: usize, const RX_SZ: usize>(
    stack: SocketStack,
    state: UdpNalStackState<N, TX_SZ, RX_SZ>,
    local: SocketAddr,
    post_stack: SocketStack,
    post_state: UdpNalStackState<N, TX_SZ, RX_SZ>,
    error: Error,
) -> bool {
    let full = forall|i: int| 0 <= i < N ==> state.pool.used@[i];
    &&& error == Error::Bind(BindError::InvalidState) <==> full
    &&& error == Error::Bind(BindError::NoRoute) <==> !full && port_of(local) == 0
        && stack.next_local_port == 0
    &&& full || error == Error::Bind(BindError::NoRoute)
    &&& post_stack.udp_sockets() == stack.udp_sockets()
    &&& post_stack.others() == stack.others()
    &&& post_stack.slots() == stack.slots()
    &&& forall|i: int| 0 <= i < N ==> post_state.pool.used@[i] == state.pool.used@[i]
    &&& full ==> post_stack == stack
    &&& !full ==> post_stack.next_local_port == 1 && post_stack.wake
}

/// Connecting opens a socket on the local address, which is returned as it was given, with the
/// remote address as the only place to talk to; or it fails for want of a place or of a port.
pub proof fn law_connect_from_opens_a_socket<
    const N: usize,
    const TX_SZ: usize,
    const RX_SZ: usize,
>(
    nal: &mut UdpNalStack<'_, N, TX_SZ, RX_SZ>,
    local: SocketAddr,
    remote: SocketAddr,
    result: Result<(SocketAddr, UdpSocket2<N, TX_SZ, RX_SZ>), Error>,
)
    requires
        call_ensures(
            UdpNalStack::<'_, N, TX_SZ, RX_SZ>::connect_from,
            (nal, local, remote),
            result,
        ),
    ensures
        result matches Ok((addr, socket)) ==> {
            &&& opened(
                *old(nal).stack,
                *old(nal).state,
                local,
                *final(nal).stack,
                *final(nal).state,
                socket,
            )
            &&& addr == local
            &&& socket.remote() matches Some(endpoint) && same_place(remote, endpoint)
        },
        result matches Err(e) ==> not_opened(
            *old(nal).stack,
            *old(nal).state,
            local,
            *final(nal).stack,
            *final(nal).state,
            e,
        ),
        result is Ok <==> can_open(*old(nal).stack, *old(nal).state, local),
{
}

/// Binding to a single address opens a socket on the local address, which is returned as it was
/// given, without a remote of its own; or it fails for want of a place or of a port.
pub proof fn law_bind_single_opens_a_socket<
    const N: usize,
    const TX_SZ: usize,
    const RX_SZ: usize,
>(
    nal: &mut UdpNalStack<'_, N, TX_SZ, RX_SZ>,
    local: SocketAddr,
    result: Result<(SocketAddr, UdpSocket2<N, TX_SZ, RX_SZ>), Error>,
)
    requires
        call_ensures(UdpNalStack::<'_, N, TX_SZ, RX_SZ>::bind_single, (nal, local), result),
    ensures
        result matches Ok((addr, socket)) ==> {
            &&& opened(
                *old(nal).stack,
                *old(nal).state,
                local,
                *final(nal).stack,
                *final(nal).state,
                socket,
            )
            &&& addr == local
            &&& socket.remote() is None
        },
        result matches Err(e) ==> not_opened(
            *old(nal).stack,
            *old(nal).state,
            local,
            *final(nal).stack,
            *final(nal).state,
            e,
        ),
        result is Ok <==> can_open(*old(nal).stack, *old(nal).state, local),
{
}

/// Binding opens a socket on the local address, without a remote of its own; or it fails for want
/// of a place or of a port.
pub proof fn law_bind_multiple_opens_a_socket<
    const N: usize,
    const TX_SZ: usize,
    const RX_SZ: usize,
>(
    nal: &mut UdpNalStack<'_, N, TX_SZ, RX_SZ>,
    local: SocketAddr,
    result: Result<UdpSocket2<N, TX_SZ, RX_SZ>, Error>,
)
    requires
        call_ensures(UdpNalStack::<'_, N, TX_SZ, RX_SZ>::bind_multiple, (nal, local), result),
    ensures
        result matches Ok(socket) ==> {
            &&& opened(
                *old(nal).stack,
                *old(nal).state,
                local,
                *final(nal).stack,
                *final(nal).state,
                socket,
            )
            &&& socket.remote() is None
        },
        result matches Err(e) ==> not_opened(
            *old(nal).stack,
            *old(nal).state,
            local,
            *final(nal).stack,
            *final(nal).state,
            e,
        ),
        result is Ok <==> can_open(*old(nal).stack, *old(nal).state, local),
{
}

/// A socket of the pool that was given up is gone from its stack, and its place is free. No other
/// socket and no other place changes.
pub proof fn law_dropped_place_is_free<const N: usize, const TX_SZ: usize, const RX_SZ: usize>(
    socket: UdpSocket2<N, TX_SZ, RX_SZ>,
    stack: &mut SocketStack,
    state: &mut UdpNalStackState<N, TX_SZ, RX_SZ>,
)
    requires
        0 <= socket.slot() < N,
        call_ensures(UdpSocket2::<N, TX_SZ, RX_SZ>::drop, (socket, stack, state), ()),
    ensures
        !final(stack).udp_sockets().contains_key(socket.socket().handle()),
        same_elsewhere(*old(stack), *final(stack), socket.socket().handle()),
        final(stack).next_local_port == old(stack).next_local_port,
        final(stack).wake,
        !final(state).pool.used@[socket.slot()],
        forall|i: int|
            0 <= i < N && i != socket.slot() ==> final(state).pool.used@[i]
                == old(state).pool.used@[i],
{
}

/// A socket of the pool that was just opened takes any datagram for a reachable address whose
/// payload has up to as many bytes as the pool gives the sending side, and none that is longer.
pub proof fn law_opened_socket_takes_a_full_datagram<
    const N: usize,
    const TX_SZ: usize,
    const RX_SZ: usize,
>(
    nal: &mut UdpNalStack<'_, N, TX_SZ, RX_SZ>,
    local: SocketAddr,
    socket: UdpSocket2<N, TX_SZ, RX_SZ>,
    stack: &mut SocketStack,
    source: SocketAddr,
    remote: SocketAddr,
    place: IpEndpoint,
    data: &[u8],
    cx: &mut Context<'_>,
    result: Poll<Result<(), Error>>,
)
    requires
        call_ensures(UdpNalStack::<'_, N, TX_SZ, RX_SZ>::bind_multiple, (nal, local), Ok(socket)),
        *old(stack) == *final(nal).stack,
        same_place(remote, place),
        reachable(place),
        call_ensures(
            UdpSocket2::<N, TX_SZ, RX_SZ>::poll_unconnected_send,
            (&socket, stack, source, remote, data, cx),
            result,
        ),
    ensures
        result == Poll::<Result<(), Error>>::Ready(Ok(())) <==> data@.len() <= TX_SZ,
        result is Pending <==> data@.len() > TX_SZ,
{
    lemma_same_place(remote, place);
    lemma_reachable(place);
}

/// The place of a socket address is its endpoint.
proof fn lemma_same_place(addr: SocketAddr, place: IpEndpoint)
    requires
        same_place(addr, place),
    ensures
        endpoint_of(addr) == place,
{
    lemma_same_octets(endpoint_of(addr).addr, place.addr);
}

/// A byte of a buffer after payloads were copied to its front is that of the last payload that
/// reaches it, or is as it was where none does.
proof fn lemma_overlay_all_at(buf: Seq<u8>, datagrams: Seq<Datagram>, i: int, last: int)
    requires
        forall|j: int|
            0 <= j < datagrams.len() ==> (#[trigger] datagrams[j]).payload.len() <= buf.len(),
        0 <= i < buf.len(),
        -1 <= last < datagrams.len(),
        forall|j: int| last < j < datagrams.len() ==> (#[trigger] datagrams[j]).payload.len() <= i,
        last >= 0 ==> datagrams[last].payload.len() > i,
    ensures
        overlay_all(buf, datagrams).len() == buf.len(),
        overlay_all(buf, datagrams)[i] == if last >= 0 {
            datagrams[last].payload[i]
        } else {
            buf[i]
        },
    decreases datagrams.len(),
{
    if datagrams.len() > 0 {
        let fewer = datagrams.drop_last();
        let newest = datagrams.last();
        assert(newest == datagrams[datagrams.len() - 1]);
        assert forall|j: int| 0 <= j < fewer.len() implies (#[trigger] fewer[j]).payload.len()
            <= buf.len() by {
            assert(fewer[j] == datagrams[j]);
        }
        lemma_overlay_all_len(buf, fewer);
        if last < datagrams.len() - 1 {
            assert forall|j: int| last < j < fewer.len() implies (#[trigger] fewer[j]).payload.len()
                <= i by {
                assert(fewer[j] == datagrams[j]);
            }
            lemma_overlay_all_at(buf, fewer, i, last);
        }
    }
}

/// What comes of a read from a connected socket, whose `count` datagrams are passed over.
proof fn lemma_connected_read(
    pre: UdpState,
    remote: Option<IpEndpoint>,
    buf: Seq<u8>,
    task: int,
    post: UdpState,
    filled: Seq<u8>,
    result: Poll<Result<usize, Error>>,
    count: int,
    k: int,
)
    requires
        connected_recv_outcome(pre, remote, buf, task, post, filled, result, count),
        0 <= k < pre.rx.len(),
        forall|j: int|
            0 <= j < k ==> (#[trigger] pre.rx[j]).payload.len() <= buf.len() && Some(
                pre.rx[j].endpoint,
            ) != remote,
    ensures
        count >= k,
        pre.rx[k].payload.len() > buf.len() || Some(pre.rx[k].endpoint) == remote ==> count == k,
{
    if count < k {
        assert(ends_wait(pre.rx[count], remote, buf.len()));
    }
    if count > k {
        assert(!ends_wait(pre.rx[k], remote, buf.len()));
    }
}

/// A read from a connected socket hands out the first datagram that comes from the remote, with
/// its length and with its octets at the front of the buffer, unless a datagram before it, or it
/// itself, is longer than the buffer: the first of those is what makes the read fail, and nothing
/// else does. What comes before either of them is dropped, and what comes behind stays in its
/// order. Where there is neither, everything is dropped, and the read waits with the task that
/// polls as the one to be woken.
pub proof fn law_connected_read_finds_the_remote<
    const N: usize,
    const TX_SZ: usize,
    const RX_SZ: usize,
>(
    socket: UdpSocket2<N, TX_SZ, RX_SZ>,
    stack: &mut SocketStack,
    buf: &mut [u8],
    cx: &mut Context<'_>,
    result: Poll<Result<usize, Error>>,
)
    requires
        call_ensures(
            UdpSocket2::<N, TX_SZ, RX_SZ>::poll_connected_receive_into,
            (&socket, stack, buf, cx),
            result,
        ),
    ensures
        ({
            let pre = old(stack).udp_sockets()[socket.socket().handle()];
            let post = final(stack).udp_sockets()[socket.socket().handle()];
            let size = old(buf)@.len();
            let truncated = Poll::<Result<usize, Error>>::Ready(
                Err(Error::Recv(RecvError::Truncated)),
            );
            &&& forall|k: int|
                0 <= k < pre.rx.len() && Some((#[trigger] pre.rx[k]).endpoint) == socket.remote()
                    && pre.rx[k].payload.len() <= size && (forall|j: int|
                    0 <= j < k ==> (#[trigger] pre.rx[j]).payload.len() <= size && Some(
                        pre.rx[j].endpoint,
                    ) != socket.remote()) ==> {
                    &&& result matches Poll::Ready(Ok(len)) && len == pre.rx[k].payload.len()
                    &&& forall|i: int|
                        0 <= i < pre.rx[k].payload.len() ==> final(buf)@[i]
                            == pre.rx[k].payload[i]
                    &&& post.rx.len() == pre.rx.len() - k - 1
                    &&& forall|i: int|
                        0 <= i < post.rx.len() ==> #[trigger] post.rx[i] == pre.rx[k + 1 + i]
                }
            &&& forall|k: int|
                0 <= k < pre.rx.len() && (#[trigger] pre.rx[k]).payload.len() > size && (forall|
                    j: int,
                |
                    0 <= j < k ==> (#[trigger] pre.rx[j]).payload.len() <= size && Some(
                        pre.rx[j].endpoint,
                    ) != socket.remote()) ==> {
                    &&& result == truncated
                    &&& post.rx.len() == pre.rx.len() - k - 1
                    &&& forall|i: int|
                        0 <= i < post.rx.len() ==> #[trigger] post.rx[i] == pre.rx[k + 1 + i]
                }
            &&& (forall|j: int|
                0 <= j < pre.rx.len() ==> (#[trigger] pre.rx[j]).payload.len() <= size && Some(
                    pre.rx[j].endpoint,
                ) != socket.remote()) ==> {
                &&& result is Pending
                &&& post.rx.len() == 0
                &&& post.recv_waiter == Some(waker_task(context_waker(*old(cx))))
            }
            &&& result is Ready ==> post.recv_waiter == pre.recv_waiter
            &&& result matches Poll::Ready(Err(_)) ==> result == truncated && exists|k: int|
                0 <= k < pre.rx.len() && (#[trigger] pre.rx[k]).payload.len() > size
            &&& result matches Poll::Ready(Ok(len)) ==> exists|k: int|
                0 <= k < pre.rx.len() && Some((#[trigger] pre.rx[k]).endpoint) == socket.remote()
                    && pre.rx[k].payload.len() == len
            &&& final(buf)@.len() == size
            &&& post == (UdpState { rx: post.rx, recv_waiter: post.recv_waiter, ..pre })
        }),
        same_elsewhere(*old(stack), *final(stack), socket.socket().handle()),
        final(stack).next_local_port == old(stack).next_local_port,
        final(stack).wake,
        *final(cx) == *old(cx),
{
    let pre = old(stack).udp_sockets()[socket.socket().handle()];
    let post = final(stack).udp_sockets()[socket.socket().handle()];
    let task = current_task(*old(cx));
    let remote = socket.remote();
    let size = old(buf)@.len();
    let count = choose|count: int| #[trigger]
        connected_recv_outcome(pre, remote, old(buf)@, task, post, final(buf)@, result, count);
    let passed = pre.rx.take(count);
    assert forall|j: int| 0 <= j < passed.len() implies (#[trigger] passed[j]).payload.len()
        <= size by {
        assert(!ends_wait(pre.rx[j], remote, size));
    }
    lemma_overlay_all_len(old(buf)@, passed);
    if count < pre.rx.len() {
        assert(ends_wait(pre.rx[count], remote, size));
        assert forall|i: int| 0 <= i < post.rx.len() implies #[trigger] post.rx[i] == pre.rx[count
            + 1 + i] by {}
    }
    assert forall|k: int|
        0 <= k < pre.rx.len() && (Some((#[trigger] pre.rx[k]).endpoint) == remote
            || pre.rx[k].payload.len() > size) && (forall|j: int|
            0 <= j < k ==> (#[trigger] pre.rx[j]).payload.len() <= size && Some(
                pre.rx[j].endpoint,
            ) != remote) implies count == k by {
        lemma_connected_read(
            pre,
            remote,
            old(buf)@,
            task,
            post,
            final(buf)@,
            result,
            count,
            k,
        );
    }
}

/// What a read from a connected socket leaves in the buffer behind what it hands out: a byte that
/// no payload reached that was dropped or handed out is as it was.
pub proof fn law_connected_read_keeps_the_rest<
    const N: usize,
    const TX_SZ: usize,
    const RX_SZ: usize,
>(
    socket: UdpSocket2<N, TX_SZ, RX_SZ>,
    stack: &mut SocketStack,
    buf: &mut [u8],
    cx: &mut Context<'_>,
    result: Poll<Result<usize, Error>>,
    i: int,
)
    requires
        call_ensures(
            UdpSocket2::<N, TX_SZ, RX_SZ>::poll_connected_receive_into,
            (&socket, stack, buf, cx),
            result,
        ),
        0 <= i < old(buf)@.len(),
    ensures
        ({
            let pre = old(stack).udp_sockets()[socket.socket().handle()];
            let post = final(stack).udp_sockets()[socket.socket().handle()];
            let gone = pre.rx.len() - post.rx.len();
            let size = old(buf)@.len();
            &&& 0 <= gone <= pre.rx.len()
            &&& (forall|j: int|
                0 <= j < gone && (#[trigger] pre.rx[j]).payload.len() <= size
                    ==> pre.rx[j].payload.len() <= i) ==> final(buf)@[i] == old(buf)@[i]
            &&& forall|j: int|
                0 <= j < gone && i < (#[trigger] pre.rx[j]).payload.len() <= size && (forall|
                    m: int,
                |
                    j < m < gone && (#[trigger] pre.rx[m]).payload.len() <= size
                        ==> pre.rx[m].payload.len() <= i) ==> final(buf)@[i]
                    == pre.rx[j].payload[i]
        }),
{
    let pre = old(stack).udp_sockets()[socket.socket().handle()];
    let post = final(stack).udp_sockets()[socket.socket().handle()];
    let task = current_task(*old(cx));
    let remote = socket.remote();
    let buffer = old(buf)@;
    let size = buffer.len();
    let gone = pre.rx.len() - post.rx.len();
    let count = choose|count: int| #[trigger]
        connected_recv_outcome(pre, remote, buffer, task, post, final(buf)@, result, count);
    let passed = pre.rx.take(count);
    assert forall|j: int| 0 <= j < passed.len() implies (#[trigger] passed[j]).payload.len()
        <= size by {
        assert(!ends_wait(pre.rx[j], remote, size));
    }
    lemma_overlay_all_len(buffer, passed);
    let copied = if count < pre.rx.len() && pre.rx[count].payload.len() <= size {
        pre.rx.take(count + 1)
    } else {
        passed
    };
    if count < pre.rx.len() && pre.rx[count].payload.len() <= size {
        assert(copied.drop_last() =~= passed);
    }
    assert(final(buf)@ == overlay_all(buffer, copied));
    assert forall|j: int| 0 <= j < copied.len() implies (#[trigger] copied[j]).payload.len()
        <= size by {
        if j < count {
            assert(copied[j] == passed[j]);
        }
    }
    assert forall|j: int|
        0 <= j < gone && (#[trigger] pre.rx[j]).payload.len() <= size implies j < copied.len()
        && copied[j] == pre.rx[j] by {}
    if forall|j: int|
        0 <= j < gone && (#[trigger] pre.rx[j]).payload.len() <= size ==> pre.rx[j].payload.len()
            <= i {
        assert forall|j: int| 0 <= j < copied.len() implies (#[trigger] copied[j]).payload.len()
            <= i by {
            assert(copied[j] == pre.rx[j]);
        }
        lemma_overlay_all_at(buffer, copied, i, -1);
    }
    assert forall|j: int|
        0 <= j < gone && i < (#[trigger] pre.rx[j]).payload.len() <= size && (forall|m: int|
            j < m < gone && (#[trigger] pre.rx[m]).payload.len() <= size
                ==> pre.rx[m].payload.len() <= i) implies final(buf)@[i] == pre.rx[j].payload[i] by {
        assert forall|m: int| j < m < copied.len() implies (#[trigger] copied[m]).payload.len()
            <= i by {
            assert(copied[m] == pre.rx[m]);
        }
        lemma_overlay_all_at(buffer, copied, i, j);
    }
}

/// A socket that was opened for a remote address sends to that address: what it queues goes to
/// the octets and the port of that address, with the octets of the payload, behind what waits
/// already.
pub proof fn law_connected_sends_to_its_remote<
    const N: usize,
    const TX_SZ: usize,
    const RX_SZ: usize,
>(
    nal: &mut UdpNalStack<'_, N, TX_SZ, RX_SZ>,
    local: SocketAddr,
    remote: SocketAddr,
    addr: SocketAddr,
    socket: UdpSocket2<N, TX_SZ, RX_SZ>,
    place: IpEndpoint,
    stack: &mut SocketStack,
    data: &[u8],
    cx: &mut Context<'_>,
    result: Poll<Result<(), Error>>,
)
    requires
        call_ensures(
            UdpNalStack::<'_, N, TX_SZ, RX_SZ>::connect_from,
            (nal, local, remote),
            Ok((addr, socket)),
        ),
        same_place(remote, place),
        call_ensures(
            UdpSocket2::<N, TX_SZ, RX_SZ>::poll_connected_send,
            (&socket, stack, data, cx),
            result,
        ),
    ensures
        pool_sent(*old(stack), *final(stack), socket, data@, place, *old(cx), result),
        *final(cx) == *old(cx),
{
    lemma_same_place(remote, place);
    lemma_reachable(place);
}

/// A socket of the pool sends to the address that is given, whatever local address is given: what
/// it queues goes to the octets and the port of that address, with the octets of the payload,
/// behind what waits already.
pub proof fn law_unconnected_sends_to_the_address<
    const N: usize,
    const TX_SZ: usize,
    const RX_SZ: usize,
>(
    socket: UdpSocket2<N, TX_SZ, RX_SZ>,
    stack: &mut SocketStack,
    source: SocketAddr,
    remote: SocketAddr,
    place: IpEndpoint,
    data: &[u8],
    cx: &mut Context<'_>,
    result: Poll<Result<(), Error>>,
)
    requires
        same_place(remote, place),
        call_ensures(
            UdpSocket2::<N, TX_SZ, RX_SZ>::poll_unconnected_send,
            (&socket, stack, source, remote, data, cx),
            result,
        ),
    ensures
        pool_sent(*old(stack), *final(stack), socket, data@, place, *old(cx), result),
        *final(cx) == *old(cx),
{
    lemma_same_place(remote, place);
    lemma_reachable(place);
}

/// What a socket of the pool does with a datagram for `place`. It fails where the socket is not
/// bound, and where the place is not reachable; it queues the datagram where there is an entry
/// and room in one piece; and it has the task wait otherwise.
pub open spec fn pool_sent<const N: usize, const TX_SZ: usize, const RX_SZ: usize>(
    stack: SocketStack,
    post_stack: SocketStack,
    socket: UdpSocket2<N, TX_SZ, RX_SZ>,
    data: Seq<u8>,
    place: IpEndpoint,
    cx: Context<'_>,
    result: Poll<Result<(), Error>>,
) -> bool {
    let pre = stack.udp_sockets()[socket.socket().handle()];
    let post = post_stack.udp_sockets()[socket.socket().handle()];
    let taken = Poll::<Result<(), Error>>::Ready(Ok(()));
    let not_bound = Poll::<Result<(), Error>>::Ready(Err(Error::Send(SendError::SocketNotBound)));
    let no_route = Poll::<Result<(), Error>>::Ready(Err(Error::Send(SendError::NoRoute)));
    let bound = pre.endpoint.port != 0;
    let room = (pre.tx_free >= 1 && data.len() <= pre.tx_tail) || (pre.tx_free >= 2 && data.len()
        <= pre.tx_front);
    &&& result == not_bound <==> !bound
    &&& result == no_route <==> bound && !reachable(place)
    &&& result == taken <==> bound && reachable(place) && room
    &&& result is Pending <==> bound && reachable(place) && !room
    &&& result == taken ==> {
        &&& post.tx.len() == pre.tx.len() + 1
        &&& forall|i: int| 0 <= i < pre.tx.len() ==> #[trigger] post.tx[i] == pre.tx[i]
        &&& same_octets(post.tx.last().endpoint.addr, place.addr)
        &&& post.tx.last().endpoint.port == place.port
        &&& post.tx.last().payload == data
        &&& post.send_waiter == pre.send_waiter
    }
    &&& result is Pending ==> post.tx == pre.tx && post.send_waiter == Some(
        waker_task(context_waker(cx)),
    )
    &&& result != taken && result is Ready ==> post == pre
    &&& post == (UdpState {
        tx: post.tx,
        tx_free: post.tx_free,
        tx_tail: post.tx_tail,
        tx_front: post.tx_front,
        send_waiter: post.send_waiter,
        ..pre
    })
    &&& same_elsewhere(stack, post_stack, socket.socket().handle())
    &&& post_stack.next_local_port == stack.next_local_port
    &&& post_stack.wake
}

/// A socket that was opened for a remote address hands out datagrams from that address alone: one
/// that was received from its octets and its port.
pub proof fn law_connected_hears_its_remote<
    const N: usize,
    const TX_SZ: usize,
    const RX_SZ: usize,
>(
    nal: &mut UdpNalStack<'_, N, TX_SZ, RX_SZ>,
    local: SocketAddr,
    remote: SocketAddr,
    addr: SocketAddr,
    socket: UdpSocket2<N, TX_SZ, RX_SZ>,
    stack: &mut SocketStack,
    buf: &mut [u8],
    cx: &mut Context<'_>,
    result: Poll<Result<usize, Error>>,
)
    requires
        call_ensures(
            UdpNalStack::<'_, N, TX_SZ, RX_SZ>::connect_from,
            (nal, local, remote),
            Ok((addr, socket)),
        ),
        call_ensures(
            UdpSocket2::<N, TX_SZ, RX_SZ>::poll_connected_receive_into,
            (&socket, stack, buf, cx),
            result,
        ),
    ensures
        ({
            let rx = old(stack).udp_sockets()[socket.socket().handle()].rx;
            &&& result matches Poll::Ready(Ok(len)) ==> exists|k: int|
                0 <= k < rx.len() && same_place(remote, (#[trigger] rx[k]).endpoint)
                    && rx[k].payload.len() == len && (forall|i: int|
                    0 <= i < len ==> final(buf)@[i] == rx[k].payload[i])
            &&& result is Pending ==> forall|k: int|
                0 <= k < rx.len() ==> !same_place(remote, (#[trigger] rx[k]).endpoint)
        }),
{
    let pre = old(stack).udp_sockets()[socket.socket().handle()];
    let post = final(stack).udp_sockets()[socket.socket().handle()];
    let task = current_task(*old(cx));
    let size = old(buf)@.len();
    let count = choose|count: int| #[trigger]
        connected_recv_outcome(
            pre,
            socket.remote(),
            old(buf)@,
            task,
            post,
            final(buf)@,
            result,
            count,
        );
    if result matches Poll::Ready(Ok(len)) {
        assert(ends_wait(pre.rx[count], socket.remote(), size));
        assert(same_place(remote, pre.rx[count].endpoint));
    }
    if result is Pending {
        assert forall|k: int| 0 <= k < pre.rx.len() implies !same_place(
            remote,
            (#[trigger] pre.rx[k]).endpoint,
        ) by {
            assert(!ends_wait(pre.rx[k], socket.remote(), size));
            if same_place(remote, pre.rx[k].endpoint) {
                lemma_same_place(remote, pre.rx[k].endpoint);
            }
        }
    }
}

/// A read from an unconnected socket waits exactly if nothing was received, and fails exactly if
/// the oldest datagram is longer than the buffer. Otherwise it returns the length of the oldest
/// datagram, the address and the port that the socket is bound to, and those of the sender, each
/// in its octets, with the payload at the front of the buffer. The datagram is taken out, and the
/// others stay in their order.
pub proof fn law_unconnected_read_tells_both_ends<
    const N: usize,
    const TX_SZ: usize,
    const RX_SZ: usize,
>(
    socket: UdpSocket2<N, TX_SZ, RX_SZ>,
    stack: &mut SocketStack,
    buf: &mut [u8],
    cx: &mut Context<'_>,
    result: Poll<Result<(usize, SocketAddr, SocketAddr), Error>>,
)
    requires
        call_ensures(
            UdpSocket2::<N, TX_SZ, RX_SZ>::poll_unconnected_receive_into,
            (&socket, stack, buf, cx),
            result,
        ),
    ensures
        ({
            let pre = old(stack).udp_sockets()[socket.socket().handle()];
            let post = final(stack).udp_sockets()[socket.socket().handle()];
            &&& result is Pending <==> pre.rx.len() == 0
            &&& result is Pending ==> post.rx.len() == 0 && post.recv_waiter == Some(
                waker_task(context_waker(*old(cx))),
            ) && final(buf)@ == old(buf)@
            &&& result is Ready ==> {
                let oldest = pre.rx[0];
                &&& post.rx.len() == pre.rx.len() - 1
                &&& forall|i: int| 0 <= i < post.rx.len() ==> #[trigger] post.rx[i] == pre.rx[i + 1]
                &&& post.recv_waiter == pre.recv_waiter
                &&& result == Poll::<Result<(usize, SocketAddr, SocketAddr), Error>>::Ready(
                    Err(Error::Recv(RecvError::Truncated)),
                ) <==> oldest.payload.len() > old(buf)@.len()
                &&& result matches Poll::Ready(Err(e)) ==> e == Error::Recv(RecvError::Truncated)
                    && final(buf)@ == old(buf)@
                &&& result matches Poll::Ready(Ok((len, local, remote))) ==> {
                    &&& len == oldest.payload.len()
                    &&& same_place(remote, oldest.endpoint)
                    &&& pre.endpoint.addr is Some ==> same_place(
                        local,
                        IpEndpoint { addr: pre.endpoint.addr.unwrap(), port: pre.endpoint.port },
                    )
                    &&& forall|i: int| 0 <= i < len ==> final(buf)@[i] == oldest.payload[i]
                    &&& forall|i: int|
                        len <= i < old(buf)@.len() ==> final(buf)@[i] == old(buf)@[i]
                }
            }
            &&& final(buf)@.len() == old(buf)@.len()
            &&& post == (UdpState { rx: post.rx, recv_waiter: post.recv_waiter, ..pre })
        }),
        same_elsewhere(*old(stack), *final(stack), socket.socket().handle()),
        final(stack).next_local_port == old(stack).next_local_port,
        final(stack).wake,
        *final(cx) == *old(cx),
{
}

/// Whoever answers a datagram with the address that came with it answers its sender: what is sent
/// to the address that a read returned is queued for the endpoint that the datagram came from.
pub proof fn law_answers_go_to_the_sender<
    const N: usize,
    const TX_SZ: usize,
    const RX_SZ: usize,
>(
    socket: UdpSocket2<N, TX_SZ, RX_SZ>,
    stack: &mut SocketStack,
    buf: &mut [u8],
    cx: &mut Context<'_>,
    len: usize,
    local: SocketAddr,
    remote: SocketAddr,
    later: &mut SocketStack,
    answer: &[u8],
    later_cx: &mut Context<'_>,
)
    requires
        call_ensures(
            UdpSocket2::<N, TX_SZ, RX_SZ>::poll_unconnected_receive_into,
            (&socket, stack, buf, cx),
            Poll::Ready(Ok((len, local, remote))),
        ),
        call_ensures(
            UdpSocket2::<N, TX_SZ, RX_SZ>::poll_unconnected_send,
            (&socket, later, local, remote, answer, later_cx),
            Poll::Ready(Ok(())),
        ),
    ensures
        ({
            let received = old(stack).udp_sockets()[socket.socket().handle()].rx[0];
            let sent = final(later).udp_sockets()[socket.socket().handle()].tx.last();
            &&& same_octets(sent.endpoint.addr, received.endpoint.addr)
            &&& sent.endpoint.port == received.endpoint.port
            &&& sent.payload == answer@
        }),
{
}

/// Both views of a socket are that socket.
pub proof fn law_split_gives_the_socket_twice<
    const N: usize,
    const TX_SZ: usize,
    const RX_SZ: usize,
>(
    socket: &mut UdpSocket2<N, TX_SZ, RX_SZ>,
    views: Result<(&UdpSocket2<N, TX_SZ, RX_SZ>, &UdpSocket2<N, TX_SZ, RX_SZ>), Error>,
)
    requires
        call_ensures(UdpSocket2::<N, TX_SZ, RX_SZ>::split, (socket,), views),
    ensures
        views matches Ok((receive, send)) && *receive == *old(socket) && *send == *old(socket),
        *final(socket) == *old(socket),
{
}

/// Every operation can be asked of every socket that belongs to the stack, whatever state it is in
/// and whatever is given; only a hop limit of zero cannot be set.
pub proof fn law_operations_are_open_to_every_socket(
    socket: UdpSocket,
    changed: &mut UdpSocket,
    stack: SocketStack,
    later: &mut SocketStack,
    endpoint: IpListenEndpoint,
    remote: IpEndpoint,
    data: &[u8],
    buf: &mut [u8],
    cx: &mut Context<'_>,
    hop_limit: Option<u8>,
)
    requires
        stack.udp_sockets().contains_key(socket.handle()),
        *old(later) == stack,
        *old(changed) == socket,
        hop_limit != Some(0u8),
    ensures
        call_requires(UdpSocket::bind, (changed, later, endpoint)),
        call_requires(UdpSocket::poll_recv_from, (&socket, later, buf, cx)),
        call_requires(UdpSocket::poll_send_to, (&socket, later, data, remote, cx)),
        call_requires(UdpSocket::endpoint, (&socket, &stack)),
        call_requires(UdpSocket::is_open, (&socket, &stack)),
        call_requires(UdpSocket::close, (changed, later)),
        call_requires(UdpSocket::may_send, (&socket, &stack)),
        call_requires(UdpSocket::may_recv, (&socket, later)),
        call_requires(UdpSocket::set_hop_limit, (changed, later, hop_limit)),
        call_requires(UdpSocket::drop, (socket, later)),
{
}

/// Every operation can be asked of every socket of the pool that is live: sending and receiving
/// whatever is given, and sending and receiving with a remote of its own where it has one.
pub proof fn law_operations_are_open_to_every_pool_socket<
    const N: usize,
    const TX_SZ: usize,
    const RX_SZ: usize,
>(
    socket: UdpSocket2<N, TX_SZ, RX_SZ>,
    stack: &mut SocketStack,
    state: &mut UdpNalStackState<N, TX_SZ, RX_SZ>,
    local: SocketAddr,
    remote: SocketAddr,
    data: &[u8],
    buf: &mut [u8],
    cx: &mut Context<'_>,
)
    requires
        old(stack).udp_sockets().contains_key(socket.socket().handle()),
        old(stack).udp_sockets()[socket.socket().handle()].endpoint.addr is Some,
        0 <= socket.slot() < N,
        old(state).pool.used@[socket.slot()],
    ensures
        socket.remote() is Some ==> call_requires(
            UdpSocket2::<N, TX_SZ, RX_SZ>::poll_connected_receive_into,
            (&socket, stack, buf, cx),
        ),
        socket.remote() is Some ==> call_requires(
            UdpSocket2::<N, TX_SZ, RX_SZ>::poll_connected_send,
            (&socket, stack, data, cx),
        ),
        call_requires(
            UdpSocket2::<N, TX_SZ, RX_SZ>::poll_unconnected_receive_into,
            (&socket, stack, buf, cx),
        ),
        call_requires(
            UdpSocket2::<N, TX_SZ, RX_SZ>::poll_unconnected_send,
            (&socket, stack, local, remote, data, cx),
        ),
        call_requires(UdpSocket2::<N, TX_SZ, RX_SZ>::drop, (socket, stack, state)),
{
}

} // verus!
