//! A pool of UDP sockets that are opened by address, connected or unconnected.

use crate::addr::{IpAddress, IpEndpoint, IpListenEndpoint};
use crate::pool::{all_used, first_free, Pool};
use crate::socket::{packet_metadata_empty, Datagram, UdpState};
use crate::stack::{port_after, SocketStack};
use crate::udp_socket::{
    current_task, endpoint_to_bind, lemma_alone_changed_twice, overlay, recv_outcome,
    send_outcome, BindError, Poll, RecvError, SendError, UdpSocket,
};
use core::task::Context;
use smoltcp::socket::udp::PacketMetadata;
use vstd::prelude::*;

verus! {

/// Error of a socket of the pool.
#[derive(PartialEq, Eq, Structural, Clone, Copy, Debug)]
pub enum Error {
    /// The socket could not be opened.
    Bind(BindError),
    /// The datagram could not be sent.
    Send(SendError),
    /// The datagram could not be received.
    Recv(RecvError),
}

impl From<BindError> for Error {
    fn from(e: BindError) -> (error: Self) {
        Error::Bind(e)
    }
}

impl vstd::std_specs::convert::FromSpecImpl<BindError> for Error {
    open spec fn obeys_from_spec() -> bool {
        true
    }

    open spec fn from_spec(e: BindError) -> Self {
        Error::Bind(e)
    }
}

impl From<SendError> for Error {
    fn from(e: SendError) -> (error: Self) {
        Error::Send(e)
    }
}

impl vstd::std_specs::convert::FromSpecImpl<SendError> for Error {
    open spec fn obeys_from_spec() -> bool {
        true
    }

    open spec fn from_spec(e: SendError) -> Self {
        Error::Send(e)
    }
}

impl From<RecvError> for Error {
    fn from(e: RecvError) -> (error: Self) {
        Error::Recv(e)
    }
}

impl vstd::std_specs::convert::FromSpecImpl<RecvError> for Error {
    open spec fn obeys_from_spec() -> bool {
        true
    }

    open spec fn from_spec(e: RecvError) -> Self {
        Error::Recv(e)
    }
}

/// An IPv4 socket address.
#[derive(PartialEq, Eq, Clone, Copy, Debug)]
pub struct SocketAddrV4 {
    pub ip: [u8; 4],
    pub port: u16,
}

/// An IPv6 socket address.
#[derive(PartialEq, Eq, Clone, Copy, Debug)]
pub struct SocketAddrV6 {
    pub ip: [u8; 16],
    pub port: u16,
    pub flowinfo: u32,
    pub scope_id: u32,
}

/// A socket address.
#[derive(PartialEq, Eq, Clone, Copy, Debug)]
pub enum SocketAddr {
    V4(SocketAddrV4),
    V6(SocketAddrV6),
}

/// The endpoint of a socket address.
pub open spec fn endpoint_of(addr: SocketAddr) -> IpEndpoint {
    match addr {
        SocketAddr::V4(v4) => IpEndpoint { addr: IpAddress::Ipv4(v4.ip), port: v4.port },
        SocketAddr::V6(v6) => IpEndpoint { addr: IpAddress::Ipv6(v6.ip), port: v6.port },
    }
}

/// The socket address of an endpoint, without flow information and scope.
pub open spec fn addr_of(endpoint: IpEndpoint) -> SocketAddr {
    match endpoint.addr {
        IpAddress::Ipv4(ip) => SocketAddr::V4(SocketAddrV4 { ip, port: endpoint.port }),
        IpAddress::Ipv6(ip) => SocketAddr::V6(
            SocketAddrV6 { ip, port: endpoint.port, flowinfo: 0, scope_id: 0 },
        ),
    }
}

/// The endpoint of a socket address.
pub fn to_endpoint(addr: &SocketAddr) -> (endpoint: IpEndpoint)
    ensures
        endpoint == endpoint_of(*addr),
{
    match *addr {
        SocketAddr::V4(v4) => IpEndpoint { addr: IpAddress::Ipv4(v4.ip), port: v4.port },
        SocketAddr::V6(v6) => IpEndpoint { addr: IpAddress::Ipv6(v6.ip), port: v6.port },
    }
}

/// The socket address of an endpoint, without flow information and scope.
pub fn to_nal_addr(endpoint: &IpEndpoint) -> (addr: SocketAddr)
    ensures
        addr == addr_of(*endpoint),
{
    match endpoint.addr {
        IpAddress::Ipv4(ip) => SocketAddr::V4(SocketAddrV4 { ip, port: endpoint.port }),
        IpAddress::Ipv6(ip) => SocketAddr::V6(
            SocketAddrV6 { ip, port: endpoint.port, flowinfo: 0, scope_id: 0 },
        ),
    }
}

/// The number of datagrams that each buffer of a socket of the pool holds.
pub const PACKETS: usize = 16;

/// Storage for the metadata of a buffer of a socket of the pool.
fn packet_storage() -> (meta: Vec<PacketMetadata>)
    ensures
        meta@.len() == PACKETS,
{
    let mut meta: Vec<PacketMetadata> = Vec::new();
    while meta.len() < PACKETS
        invariant
            meta@.len() <= PACKETS,
        decreases PACKETS - meta@.len(),
    {
        meta.push(packet_metadata_empty());
    }
    meta
}

/// State for [`UdpNalStack`].
pub struct UdpNalStackState<const N: usize, const TX_SZ: usize, const RX_SZ: usize> {
    pub pool: Pool<N>,
}

impl<const N: usize, const TX_SZ: usize, const RX_SZ: usize> UdpNalStackState<N, TX_SZ, RX_SZ> {
    /// Which places of the pool are in use.
    pub open spec fn used(self) -> Seq<bool> {
        self.pool.used@
    }

    /// Create a new `UdpNalStackState`.
    pub fn new() -> (state: Self)
        ensures
            state.used().len() == N,
            forall|i: int| 0 <= i < N ==> !state.used()[i],
    {
        UdpNalStackState { pool: Pool::new() }
    }
}

/// An opened UDP socket of a [`UdpNalStack`].
pub struct UdpSocket2<const N: usize, const TX_SZ: usize, const RX_SZ: usize> {
    socket: UdpSocket,
    remote: Option<IpEndpoint>,
    slot: usize,
}

/// A buffer after the payloads of the datagrams were copied to its front, one after the other.
pub open spec fn overlay_all(buf: Seq<u8>, datagrams: Seq<Datagram>) -> Seq<u8>
    decreases datagrams.len(),
{
    if datagrams.len() == 0 {
        buf
    } else {
        overlay(overlay_all(buf, datagrams.drop_last()), datagrams.last().payload)
    }
}

/// Whether a datagram ends the wait for one from `remote`: it comes from there, or it does not
/// fit into the buffer, wherever it comes from.
pub open spec fn ends_wait(datagram: Datagram, remote: Option<IpEndpoint>, buf_len: nat) -> bool {
    datagram.payload.len() > buf_len || Some(datagram.endpoint) == remote
}

/// Whether the first `count` datagrams are passed over in the wait for one from `remote`, and
/// no more.
pub open spec fn passed_over(
    rx: Seq<Datagram>,
    remote: Option<IpEndpoint>,
    buf_len: nat,
    count: int,
) -> bool {
    &&& 0 <= count <= rx.len()
    &&& forall|i: int| 0 <= i < count ==> !ends_wait(#[trigger] rx[i], remote, buf_len)
    &&& count < rx.len() ==> ends_wait(rx[count], remote, buf_len)
}

/// What [`UdpSocket2::poll_connected_receive_into`] does: it passes over the datagrams that
/// come from elsewhere, which are lost, and takes the first one that ends the wait.
pub open spec fn connected_recv_outcome(
    pre: UdpState,
    remote: Option<IpEndpoint>,
    buf: Seq<u8>,
    task: int,
    post: UdpState,
    filled: Seq<u8>,
    result: Poll<Result<usize, Error>>,
    count: int,
) -> bool {
    let passed = overlay_all(buf, pre.rx.take(count));
    &&& pre.valid()
    &&& post.valid()
    &&& passed_over(pre.rx, remote, buf.len(), count)
    &&& if count == pre.rx.len() {
        &&& result is Pending
        &&& post == (UdpState { rx: Seq::empty(), recv_waiter: Some(task), ..pre })
        &&& filled == passed
    } else {
        let taken = pre.rx[count];
        &&& post == (UdpState { rx: pre.rx.skip(count + 1), ..pre })
        &&& if taken.payload.len() > buf.len() {
            &&& result == Poll::<Result<usize, Error>>::Ready(
                Err(Error::Recv(RecvError::Truncated)),
            )
            &&& filled == passed
        } else {
            &&& result matches Poll::Ready(Ok(len)) && len == taken.payload.len()
            &&& filled == overlay(passed, taken.payload)
        }
    }
}

/// What an unconnected socket with the local endpoint `local` makes of what was received.
pub open spec fn with_addrs(
    local: IpListenEndpoint,
    received: Poll<Result<(usize, IpEndpoint), RecvError>>,
) -> Poll<Result<(usize, SocketAddr, SocketAddr), Error>> {
    match received {
        Poll::Pending => Poll::Pending,
        Poll::Ready(Err(e)) => Poll::Ready(Err(Error::Recv(e))),
        Poll::Ready(Ok((len, remote))) => Poll::Ready(
            Ok(
                (
                    len,
                    addr_of(IpEndpoint { addr: local.addr.unwrap(), port: local.port }),
                    addr_of(remote),
                ),
            ),
        ),
    }
}

/// What a socket of the pool makes of what sending returned.
pub open spec fn as_nal_sent(sent: Poll<Result<(), SendError>>) -> Poll<Result<(), Error>> {
    match sent {
        Poll::Pending => Poll::Pending,
        Poll::Ready(Err(e)) => Poll::Ready(Err(Error::Send(e))),
        Poll::Ready(Ok(())) => Poll::Ready(Ok(())),
    }
}

impl<const N: usize, const TX_SZ: usize, const RX_SZ: usize> UdpSocket2<N, TX_SZ, RX_SZ> {
    /// The socket in the stack.
    pub closed spec fn socket(self) -> UdpSocket {
        self.socket
    }

    /// The only endpoint to talk to, where there is one.
    pub closed spec fn remote(self) -> Option<IpEndpoint> {
        self.remote
    }

    /// The place of the socket in the pool.
    pub closed spec fn slot(self) -> int {
        self.slot as int
    }

    /// What the socket holds.
    pub open spec fn state(self, stack: SocketStack) -> UdpState {
        self.socket().state(stack)
    }

    /// The socket belongs to the stack, and its place in the pool is in use.
    pub open spec fn is_live(
        self,
        stack: SocketStack,
        state: UdpNalStackState<N, TX_SZ, RX_SZ>,
    ) -> bool {
        &&& self.socket().in_stack(stack)
        &&& 0 <= self.slot() < N
        &&& state.used()[self.slot()]
    }

    /// Takes the first free place of the pool for a new, closed socket. There is none where
    /// every place is in use.
    fn new(
        stack: &mut SocketStack,
        remote: Option<IpEndpoint>,
        state: &mut UdpNalStackState<N, TX_SZ, RX_SZ>,
    ) -> (result: Result<Self, Error>)
        requires
            !all_used(old(state).used()) ==> old(stack).has_room(),
        ensures
            made_outcome(*old(stack), *old(state), remote, *final(stack), *final(state), result),
    {
        let slot: usize = match state.pool.allocate() {
            Some(n) => n,
            None => {
                return Err(Error::from(BindError::InvalidState));
            },
        };
        let socket = UdpSocket::new(
            stack,
            packet_storage(),
            vec![0u8; RX_SZ],
            packet_storage(),
            vec![0u8; TX_SZ],
        );
        Ok(UdpSocket2 { socket, remote, slot })
    }

    /// Give the socket up: it is closed, its place in the pool becomes free, and its stack
    /// forgets it.
    pub fn drop(
        self,
        stack: &mut SocketStack,
        state: &mut UdpNalStackState<N, TX_SZ, RX_SZ>,
    )
        requires
            self.is_live(*old(stack), *old(state)),
        ensures
            drop_outcome(*old(stack), *old(state), self, *final(stack), *final(state)),
    {
        let mut socket = self.socket;
        socket.close(stack);
        state.pool.free(self.slot);
        socket.drop(stack);
        assert(stack.udp_sockets() =~= old(stack).udp_sockets().remove(self.socket().handle()));
    }

    /// Receive a datagram from the remote endpoint that the socket is connected to.
    ///
    /// Datagrams from elsewhere are dropped. Returns the number of bytes received.
    ///
    /// A socket that is not connected can wait, and finds out about truncation, but it must not
    /// come to a datagram that fits into the buffer.
    pub fn poll_connected_receive_into(
        &self,
        stack: &mut SocketStack,
        buffer: &mut [u8],
        cx: &mut Context<'_>,
    ) -> (result: Poll<Result<usize, Error>>)
        requires
            self.socket().in_stack(*old(stack)),
            ({
                let pre = self.state(*old(stack));
                pre.rx.len() > 0 && pre.rx[0].payload.len() <= old(buffer)@.len()
                    ==> self.remote() is Some
            }),
        ensures
            exists|count: int| #[trigger]
                connected_recv_outcome(
                    self.state(*old(stack)),
                    self.remote(),
                    old(buffer)@,
                    current_task(*old(cx)),
                    self.state(*final(stack)),
                    final(buffer)@,
                    result,
                    count,
                ),
            self.socket().alone_changed(*old(stack), *final(stack)),
            *final(cx) == *old(cx),
    {
        let ghost pre = self.state(*old(stack));
        let ghost task = current_task(*old(cx));
        let ghost mut count: int = 0;
        loop
            invariant
                self.socket().in_stack(*stack),
                self.remote() is None ==> count == 0 && !(pre.rx.len() > 0 && pre.rx[0].payload.len()
                    <= old(buffer)@.len()),
                pre == self.state(*old(stack)),
                task == current_task(*old(cx)),
                0 <= count <= pre.rx.len(),
                forall|i: int|
                    0 <= i < count ==> !ends_wait(
                        #[trigger] pre.rx[i],
                        self.remote(),
                        old(buffer)@.len(),
                    ),
                self.state(*stack) == (UdpState { rx: pre.rx.skip(count), ..pre }),
                buffer@ == overlay_all(old(buffer)@, pre.rx.take(count)),
                buffer@.len() == old(buffer)@.len(),
                count == 0 ==> *stack == *old(stack),
                count > 0 ==> self.socket().alone_changed(*old(stack), *stack),
                count > 0 ==> pre.valid(),
                *cx == *old(cx),
            decreases pre.rx.len() - count,
        {
            let ghost before = *stack;
            let received = self.socket.poll_recv_from(stack, buffer, cx);
            proof {
                if count > 0 {
                    lemma_alone_changed_twice(self.socket(), *old(stack), before, *stack);
                }
                assert(pre.rx.skip(count).len() == 0 ==> pre.rx.skip(count) =~= Seq::empty());
                assert(pre.rx.skip(count).len() > 0 ==> pre.rx.skip(count).drop_first()
                    =~= pre.rx.skip(count + 1));
                assert(count < pre.rx.len() ==> pre.rx.take(count + 1).drop_last() =~= pre.rx.take(
                    count,
                ));
            }
            let result: Poll<Result<usize, Error>> = match received {
                Poll::Pending => Poll::Pending,
                Poll::Ready(Err(e)) => Poll::Ready(Err(Error::from(e))),
                Poll::Ready(Ok((len, remote))) => {
                    if self.remote.unwrap() == remote {
                        Poll::Ready(Ok(len))
                    } else {
                        proof {
                            count = count + 1;
                        }
                        continue;
                    }
                },
            };
            assert(connected_recv_outcome(
                pre,
                self.remote(),
                old(buffer)@,
                task,
                self.state(*stack),
                buffer@,
                result,
                count,
            ));
            assert(final(buffer)@ == buffer@);
            return result;
        }
    }

    /// Send a datagram to the remote endpoint that the socket is connected to.
    pub fn poll_connected_send(
        &self,
        stack: &mut SocketStack,
        data: &[u8],
        cx: &mut Context<'_>,
    ) -> (result: Poll<Result<(), Error>>)
        requires
            self.socket().in_stack(*old(stack)),
            self.remote() is Some,
        ensures
            exists|sent: Poll<Result<(), SendError>>| #[trigger]
                send_outcome(
                    self.state(*old(stack)),
                    data@,
                    self.remote().unwrap(),
                    current_task(*old(cx)),
                    self.state(*final(stack)),
                    sent,
                ) && result == as_nal_sent(sent),
            self.socket().alone_changed(*old(stack), *final(stack)),
            *final(cx) == *old(cx),
    {
        let sent = self.socket.poll_send_to(stack, data, self.remote.unwrap(), cx);
        nal_sent(sent)
    }

    /// Receive a datagram.
    ///
    /// Returns the number of bytes received, the local address and the remote address.
    pub fn poll_unconnected_receive_into(
        &self,
        stack: &mut SocketStack,
        buffer: &mut [u8],
        cx: &mut Context<'_>,
    ) -> (result: Poll<Result<(usize, SocketAddr, SocketAddr), Error>>)
        requires
            self.socket().in_stack(*old(stack)),
            ({
                let pre = self.state(*old(stack));
                pre.rx.len() > 0 && pre.rx[0].payload.len() <= old(buffer)@.len()
                    ==> pre.endpoint.addr is Some
            }),
        ensures
            exists|received: Poll<Result<(usize, IpEndpoint), RecvError>>| #[trigger]
                recv_outcome(
                    self.state(*old(stack)),
                    old(buffer)@,
                    current_task(*old(cx)),
                    self.state(*final(stack)),
                    final(buffer)@,
                    received,
                ) && result == with_addrs(self.state(*old(stack)).endpoint, received),
            self.socket().alone_changed(*old(stack), *final(stack)),
            *final(cx) == *old(cx),
    {
        match self.socket.poll_recv_from(stack, buffer, cx) {
            Poll::Pending => Poll::Pending,
            Poll::Ready(Err(e)) => Poll::Ready(Err(Error::from(e))),
            Poll::Ready(Ok((len, remote))) => {
                let endpoint = self.socket.endpoint(stack);
                let local = IpEndpoint { addr: endpoint.addr.unwrap(), port: endpoint.port };
                Poll::Ready(Ok((len, to_nal_addr(&local), to_nal_addr(&remote))))
            },
        }
    }

    /// Send a datagram to a remote address. The local address is that of the socket, whatever
    /// `_local` is.
    pub fn poll_unconnected_send(
        &self,
        stack: &mut SocketStack,
        _local: SocketAddr,
        remote: SocketAddr,
        data: &[u8],
        cx: &mut Context<'_>,
    ) -> (result: Poll<Result<(), Error>>)
        requires
            self.socket().in_stack(*old(stack)),
        ensures
            exists|sent: Poll<Result<(), SendError>>| #[trigger]
                send_outcome(
                    self.state(*old(stack)),
                    data@,
                    endpoint_of(remote),
                    current_task(*old(cx)),
                    self.state(*final(stack)),
                    sent,
                ) && result == as_nal_sent(sent),
            self.socket().alone_changed(*old(stack), *final(stack)),
            *final(cx) == *old(cx),
    {
        let remote = to_endpoint(&remote);
        let sent = self.socket.poll_send_to(stack, data, remote, cx);
        nal_sent(sent)
    }

    /// Two views of the socket, one to receive with and one to send with.
    pub fn split(&mut self) -> (views: Result<(&Self, &Self), Error>)
        ensures
            views matches Ok((receive, send)) && *receive == *old(self) && *send == *old(self),
            *final(self) == *old(self),
    {
        Ok((&*self, &*self))
    }
}

/// What a socket of the pool makes of what sending returned.
fn nal_sent(sent: Poll<Result<(), SendError>>) -> (result: Poll<Result<(), Error>>)
    ensures
        result == as_nal_sent(sent),
{
    match sent {
        Poll::Pending => Poll::Pending,
        Poll::Ready(Err(e)) => Poll::Ready(Err(Error::from(e))),
        Poll::Ready(Ok(())) => Poll::Ready(Ok(())),
    }
}

/// What making a socket of the pool does: it takes the first free place for a new, closed socket.
/// Without a free place nothing changes.
pub open spec fn made_outcome<const N: usize, const TX_SZ: usize, const RX_SZ: usize>(
    stack: SocketStack,
    state: UdpNalStackState<N, TX_SZ, RX_SZ>,
    remote: Option<IpEndpoint>,
    post_stack: SocketStack,
    post_state: UdpNalStackState<N, TX_SZ, RX_SZ>,
    result: Result<UdpSocket2<N, TX_SZ, RX_SZ>, Error>,
) -> bool {
    match result {
        Err(e) => {
            &&& all_used(state.used())
            &&& e == Error::Bind(BindError::InvalidState)
            &&& post_stack == stack
            &&& post_state.used() == state.used()
        },
        Ok(socket) => {
            &&& first_free(state.used(), socket.slot())
            &&& post_state.used() == state.used().update(socket.slot(), true)
            &&& socket.remote() == remote
            &&& !socket.socket().in_stack(stack)
            &&& !stack.others().contains(socket.socket().handle())
            &&& post_stack.udp_sockets() == stack.udp_sockets().insert(
                socket.socket().handle(),
                UdpState::fresh(PACKETS as nat, RX_SZ as nat, PACKETS as nat, TX_SZ as nat),
            )
            &&& post_stack.others() == stack.others()
            &&& post_stack.slots() == stack.slots()
            &&& post_stack.next_local_port == stack.next_local_port
            &&& post_stack.wake == stack.wake
        },
    }
}

/// What giving up a socket of the pool does: its place becomes free, and its stack forgets it.
pub open spec fn drop_outcome<const N: usize, const TX_SZ: usize, const RX_SZ: usize>(
    stack: SocketStack,
    state: UdpNalStackState<N, TX_SZ, RX_SZ>,
    socket: UdpSocket2<N, TX_SZ, RX_SZ>,
    post_stack: SocketStack,
    post_state: UdpNalStackState<N, TX_SZ, RX_SZ>,
) -> bool {
    &&& post_stack.changed_to(stack, stack.udp_sockets().remove(socket.socket().handle()))
    &&& post_state.used() == state.used().update(socket.slot(), false)
}

/// What opening a socket on the local address `local` does. Without a free place in the pool
/// nothing changes. Where the socket cannot be bound, it is given up again, and only the dynamic
/// port that was tried is used up.
pub open spec fn open_outcome<const N: usize, const TX_SZ: usize, const RX_SZ: usize>(
    stack: SocketStack,
    state: UdpNalStackState<N, TX_SZ, RX_SZ>,
    local: SocketAddr,
    remote: Option<IpEndpoint>,
    post_stack: SocketStack,
    post_state: UdpNalStackState<N, TX_SZ, RX_SZ>,
    result: Result<UdpSocket2<N, TX_SZ, RX_SZ>, Error>,
) -> bool {
    let asked = IpListenEndpoint { addr: Some(endpoint_of(local).addr), port: endpoint_of(local).port };
    let chosen = endpoint_to_bind(asked, stack.next_local_port);
    if all_used(state.used()) {
        &&& result == Err::<UdpSocket2<N, TX_SZ, RX_SZ>, Error>(
            Error::Bind(BindError::InvalidState),
        )
        &&& post_stack == stack
        &&& post_state.used() == state.used()
    } else {
        &&& post_stack.others() == stack.others()
        &&& post_stack.slots() == stack.slots()
        &&& post_stack.next_local_port == if asked.port == 0 {
            port_after(stack.next_local_port)
        } else {
            stack.next_local_port
        }
        &&& post_stack.wake
        &&& if chosen.port == 0 {
            &&& result == Err::<UdpSocket2<N, TX_SZ, RX_SZ>, Error>(Error::Bind(BindError::NoRoute))
            &&& post_stack.udp_sockets() == stack.udp_sockets()
            &&& post_state.used() == state.used()
        } else {
            &&& result is Ok
            &&& result->Ok_0.remote() == remote
            &&& first_free(state.used(), result->Ok_0.slot())
            &&& post_state.used() == state.used().update(result->Ok_0.slot(), true)
            &&& !result->Ok_0.socket().in_stack(stack)
            &&& !stack.others().contains(result->Ok_0.socket().handle())
            &&& post_stack.udp_sockets() == stack.udp_sockets().insert(
                result->Ok_0.socket().handle(),
                UdpState {
                    endpoint: chosen,
                    ..UdpState::fresh(PACKETS as nat, RX_SZ as nat, PACKETS as nat, TX_SZ as nat)
                },
            )
        }
    }
}

/// A pool of UDP sockets on a stack.
///
/// The pool is capable of managing up to `N` concurrent connections with tx and rx buffers
/// according to `TX_SZ` and `RX_SZ`.
pub struct UdpNalStack<'d, const N: usize, const TX_SZ: usize, const RX_SZ: usize> {
    pub stack: &'d mut SocketStack,
    pub state: &'d mut UdpNalStackState<N, TX_SZ, RX_SZ>,
}

impl<'d, const N: usize, const TX_SZ: usize, const RX_SZ: usize> UdpNalStack<'d, N, TX_SZ, RX_SZ> {
    /// Create a new `UdpNalStack`.
    pub fn new(
        stack: &'d mut SocketStack,
        state: &'d mut UdpNalStackState<N, TX_SZ, RX_SZ>,
    ) -> (nal: Self)
        ensures
            *nal.stack == *old(stack),
            *nal.state == *old(state),
            *final(nal.stack) == *final(stack),
            *final(nal.state) == *final(state),
    {
        UdpNalStack { stack, state }
    }

    /// Opens a socket on the local address.
    fn open(&mut self, local: &SocketAddr, remote: Option<IpEndpoint>) -> (result: Result<
        UdpSocket2<N, TX_SZ, RX_SZ>,
        Error,
    >)
        requires
            !all_used(old(self).state.used()) ==> old(self).stack.has_room(),
        ensures
            open_outcome(
                *old(self).stack,
                *old(self).state,
                *local,
                remote,
                *final(self).stack,
                *final(self).state,
                result,
            ),
            *final(final(self).stack) == *final(old(self).stack),
            *final(final(self).state) == *final(old(self).state),
    {
        let mut socket = match UdpSocket2::new(self.stack, remote, self.state) {
            Ok(socket) => socket,
            Err(e) => {
                return Err(e);
            },
        };
        match socket.socket.bind(self.stack, IpListenEndpoint::from(to_endpoint(local))) {
            Ok(()) => {
                proof {
                    let handle = socket.socket().handle();
                    assert(self.stack.udp_sockets() =~= old(self).stack.udp_sockets().insert(
                        handle,
                        self.stack.udp_sockets()[handle],
                    ));
                }
                Ok(socket)
            },
            Err(e) => {
                socket.drop(self.stack, self.state);
                assert(self.stack.udp_sockets() =~= old(self).stack.udp_sockets());
                assert(self.state.used() =~= old(self).state.used());
                Err(Error::from(e))
            },
        }
    }

    /// Open a socket on the local address that talks to the remote address alone. Returns the
    /// local address as it was given.
    pub fn connect_from(&mut self, local: SocketAddr, remote: SocketAddr) -> (result: Result<
        (SocketAddr, UdpSocket2<N, TX_SZ, RX_SZ>),
        Error,
    >)
        requires
            !all_used(old(self).state.used()) ==> old(self).stack.has_room(),
        ensures
            open_outcome(
                *old(self).stack,
                *old(self).state,
                local,
                Some(endpoint_of(remote)),
                *final(self).stack,
                *final(self).state,
                (match result {
                    Ok((_, socket)) => Ok(socket),
                    Err(e) => Err(e),
                }),
            ),
            result matches Ok((addr, _)) ==> addr == local,
            *final(final(self).stack) == *final(old(self).stack),
            *final(final(self).state) == *final(old(self).state),
    {
        match self.open(&local, Some(to_endpoint(&remote))) {
            Ok(socket) => Ok((local, socket)),
            Err(e) => Err(e),
        }
    }

    /// Open a socket on the local address that talks to any remote address. Returns the local
    /// address as it was given.
    pub fn bind_single(&mut self, local: SocketAddr) -> (result: Result<
        (SocketAddr, UdpSocket2<N, TX_SZ, RX_SZ>),
        Error,
    >)
        requires
            !all_used(old(self).state.used()) ==> old(self).stack.has_room(),
        ensures
            open_outcome(
                *old(self).stack,
                *old(self).state,
                local,
                None,
                *final(self).stack,
                *final(self).state,
                (match result {
                    Ok((_, socket)) => Ok(socket),
                    Err(e) => Err(e),
                }),
            ),
            result matches Ok((addr, _)) ==> addr == local,
            *final(final(self).stack) == *final(old(self).stack),
            *final(final(self).state) == *final(old(self).state),
    {
        match self.open(&local, None) {
            Ok(socket) => Ok((local, socket)),
            Err(e) => Err(e),
        }
    }

    /// Open a socket on the local address that talks to any remote address.
    pub fn bind_multiple(&mut self, local: SocketAddr) -> (result: Result<
        UdpSocket2<N, TX_SZ, RX_SZ>,
        Error,
    >)
        requires
            !all_used(old(self).state.used()) ==> old(self).stack.has_room(),
        ensures
            open_outcome(
                *old(self).stack,
                *old(self).state,
                local,
                None,
                *final(self).stack,
                *final(self).state,
                result,
            ),
            *final(final(self).stack) == *final(old(self).stack),
            *final(final(self).state) == *final(old(self).state),
    {
        self.open(&local, None)
    }
}

} // verus!
