//! UDP sockets.

use crate::addr::{IpEndpoint, IpListenEndpoint};
use crate::socket::{
    context_waker, lemma_queued_is_valid, socket_set_add, socket_set_get, socket_set_get_mut,
    socket_set_remove, udp_bind, udp_endpoint, udp_has_datagram, udp_recv_slice, udp_send_slice, udp_socket_new,
    udp_state, waker_task, Datagram, SocketBindError, SocketRecvError, SocketSendError, UdpState,
};
use crate::stack::{port_after, SocketStack};
use core::task::Context;
use smoltcp::iface::SocketHandle;
use smoltcp::socket::udp;
pub use smoltcp::socket::udp::PacketMetadata;
use vstd::prelude::*;

verus! {

/// Error returned by [`UdpSocket::bind`].
#[derive(PartialEq, Eq, Structural, Clone, Copy, Debug)]
pub enum BindError {
    /// The socket was already open.
    InvalidState,
    /// No route to host.
    NoRoute,
}

/// Error returned by [`UdpSocket::poll_send_to`].
#[derive(PartialEq, Eq, Structural, Clone, Copy, Debug)]
pub enum SendError {
    /// No route to host.
    NoRoute,
    /// Socket not bound to an outgoing port.
    SocketNotBound,
}

/// Error returned by [`UdpSocket::poll_recv_from`].
#[derive(PartialEq, Eq, Structural, Clone, Copy, Debug)]
pub enum RecvError {
    /// Provided buffer was smaller than the received packet.
    Truncated,
}

/// Whether an operation has come to its result, or waits for the socket to change.
#[derive(PartialEq, Eq, Debug)]
pub enum Poll<T> {
    /// The operation has come to this result.
    Ready(T),
    /// The operation waits.
    Pending,
}

/// The task that is being polled.
pub open spec fn current_task(cx: Context<'_>) -> int {
    waker_task(context_waker(cx))
}

/// The endpoint that a socket is bound to where `endpoint` was asked for: port zero asks for a
/// dynamic port.
pub open spec fn endpoint_to_bind(
    endpoint: IpListenEndpoint,
    dynamic_port: u16,
) -> IpListenEndpoint {
    if endpoint.port == 0 {
        IpListenEndpoint { port: dynamic_port, ..endpoint }
    } else {
        endpoint
    }
}

/// What binding a socket to `endpoint` returns.
pub open spec fn bind_result(pre: UdpState, endpoint: IpListenEndpoint) -> Result<(), BindError> {
    if endpoint.port == 0 {
        Err(BindError::NoRoute)
    } else if pre.is_open() {
        Err(BindError::InvalidState)
    } else {
        Ok(())
    }
}

/// The socket after it was asked to bind to `endpoint`. Whoever waited for it is woken once it
/// is bound.
pub open spec fn after_bind(pre: UdpState, endpoint: IpListenEndpoint) -> UdpState {
    if bind_result(pre, endpoint) is Ok {
        UdpState { endpoint, recv_waiter: None, send_waiter: None, ..pre }
    } else {
        pre
    }
}

/// What [`UdpSocket::bind`] does to the stack when `endpoint` is asked for. A dynamic port is
/// used up whether or not the socket could be bound.
pub open spec fn bind_outcome(
    pre: SocketStack,
    handle: SocketHandle,
    endpoint: IpListenEndpoint,
    post: SocketStack,
    result: Result<(), BindError>,
) -> bool {
    let state = pre.udp_sockets()[handle];
    let chosen = endpoint_to_bind(endpoint, pre.next_local_port);
    &&& result == bind_result(state, chosen)
    &&& post.udp_sockets() == pre.udp_sockets().insert(handle, after_bind(state, chosen))
    &&& post.others() == pre.others()
    &&& post.slots() == pre.slots()
    &&& post.next_local_port == if endpoint.port == 0 {
        port_after(pre.next_local_port)
    } else {
        pre.next_local_port
    }
    &&& post.wake
}

/// A buffer after a payload was copied to its front.
pub open spec fn overlay(buf: Seq<u8>, payload: Seq<u8>) -> Seq<u8> {
    payload + buf.skip(payload.len() as int)
}

/// What [`UdpSocket::poll_recv_from`] does: without a datagram it has the task wait, and
/// otherwise it takes the oldest one. A datagram that is longer than the buffer is lost.
pub open spec fn recv_outcome(
    pre: UdpState,
    buf: Seq<u8>,
    task: int,
    post: UdpState,
    filled: Seq<u8>,
    result: Poll<Result<(usize, IpEndpoint), RecvError>>,
) -> bool {
    &&& pre.valid()
    &&& post.valid()
    &&& if pre.rx.len() == 0 {
        &&& result is Pending
        &&& post == (UdpState { recv_waiter: Some(task), ..pre })
        &&& filled == buf
    } else {
        &&& post == (UdpState { rx: pre.rx.drop_first(), ..pre })
        &&& if pre.rx[0].payload.len() > buf.len() {
            &&& result == Poll::<Result<(usize, IpEndpoint), RecvError>>::Ready(
                Err(RecvError::Truncated),
            )
            &&& filled == buf
        } else {
            &&& result matches Poll::Ready(Ok((len, endpoint))) && len == pre.rx[0].payload.len()
                && endpoint == pre.rx[0].endpoint
            &&& filled == overlay(buf, pre.rx[0].payload)
        }
    }
}

/// What [`UdpSocket::poll_send_to`] does: it fails where the datagram cannot leave the socket,
/// puts it at the end of the transmit buffer where there is room for it, and has the task wait
/// otherwise.
pub open spec fn send_outcome(
    pre: UdpState,
    data: Seq<u8>,
    remote: IpEndpoint,
    task: int,
    post: UdpState,
    result: Poll<Result<(), SendError>>,
) -> bool {
    &&& pre.valid()
    &&& post.valid()
    &&& if !pre.is_open() {
        &&& result == Poll::<Result<(), SendError>>::Ready(Err(SendError::SocketNotBound))
        &&& post == pre
    } else if !pre.addressable(remote) {
        &&& result == Poll::<Result<(), SendError>>::Ready(Err(SendError::NoRoute))
        &&& post == pre
    } else if pre.fits(data.len()) {
        &&& result == Poll::<Result<(), SendError>>::Ready(Ok(()))
        &&& post == pre.queued((Datagram { endpoint: remote, payload: data }))
    } else {
        &&& result is Pending
        &&& post == (UdpState { send_waiter: Some(task), ..pre.refused(data.len()) })
    }
}

/// The socket after it was closed: only its hop limit and the sizes of its buffers stay.
/// Whoever waited for it is woken.
pub open spec fn after_close(pre: UdpState) -> UdpState {
    UdpState {
        hop_limit: pre.hop_limit,
        ..UdpState::fresh(pre.rx_packets, pre.rx_bytes, pre.tx_packets, pre.tx_bytes)
    }
}

/// A UDP socket of a [`SocketStack`], on which every operation is given that stack.
pub struct UdpSocket {
    handle: SocketHandle,
}

impl UdpSocket {
    /// The handle of the socket in its stack.
    pub closed spec fn handle(self) -> SocketHandle {
        self.handle
    }

    /// The socket belongs to the stack.
    pub open spec fn in_stack(self, stack: SocketStack) -> bool {
        stack.udp_sockets().contains_key(self.handle())
    }

    /// What the socket holds.
    pub open spec fn state(self, stack: SocketStack) -> UdpState {
        stack.udp_sockets()[self.handle()]
    }

    /// The stack differs from `pre` in that the task that runs it is to be woken, and else in
    /// this socket alone.
    pub open spec fn alone_changed(self, pre: SocketStack, post: SocketStack) -> bool {
        post.changed_to(pre, pre.udp_sockets().insert(self.handle(), self.state(post)))
    }

    /// Create a new UDP socket using the provided stack and buffers.
    pub fn new(
        stack: &mut SocketStack,
        rx_meta: Vec<PacketMetadata>,
        rx_buffer: Vec<u8>,
        tx_meta: Vec<PacketMetadata>,
        tx_buffer: Vec<u8>,
    ) -> (socket: Self)
        requires
            old(stack).has_room(),
        ensures
            !socket.in_stack(*old(stack)),
            !old(stack).others().contains(socket.handle()),
            final(stack).udp_sockets() == old(stack).udp_sockets().insert(
                socket.handle(),
                UdpState::fresh(
                    rx_meta@.len(),
                    rx_buffer@.len(),
                    tx_meta@.len(),
                    tx_buffer@.len(),
                ),
            ),
            final(stack).others() == old(stack).others(),
            final(stack).slots() == old(stack).slots(),
            final(stack).next_local_port == old(stack).next_local_port,
            final(stack).wake == old(stack).wake,
    {
        let socket = udp_socket_new(rx_meta, rx_buffer, tx_meta, tx_buffer);
        let handle = socket_set_add(&mut stack.sockets, socket);
        UdpSocket { handle }
    }

    /// Bind the socket to a local endpoint.
    ///
    /// Where the endpoint has no port, a dynamic port is allocated.
    pub fn bind(
        &mut self,
        stack: &mut SocketStack,
        endpoint: IpListenEndpoint,
    ) -> (result: Result<(), BindError>)
        requires
            old(self).in_stack(*old(stack)),
        ensures
            *final(self) == *old(self),
            bind_outcome(*old(stack), old(self).handle(), endpoint, *final(stack), result),
    {
        let mut endpoint = endpoint;
        if endpoint.port == 0 {
            // If user didn't specify port allocate a dynamic port.
            endpoint.port = stack.get_local_port();
        }
        let socket = self.with_mut(stack);
        match udp_bind(socket, endpoint) {
            Ok(()) => Ok(()),
            Err(SocketBindError::InvalidState) => Err(BindError::InvalidState),
            Err(SocketBindError::Unaddressable) => Err(BindError::NoRoute),
        }
    }

    /// The socket itself.
    fn with<'s>(&self, stack: &'s SocketStack) -> (socket: &'s udp::Socket<'static>)
        requires
            self.in_stack(*stack),
        ensures
            udp_state(*socket) == self.state(*stack),
            udp_state(*socket).valid(),
    {
        socket_set_get(&stack.sockets, self.handle)
    }

    /// The socket itself, to be changed. The task that runs the stack is to be woken for it.
    fn with_mut<'s>(&self, stack: &'s mut SocketStack) -> (socket: &'s mut udp::Socket<'static>)
        requires
            self.in_stack(*old(stack)),
        ensures
            udp_state(*socket) == self.state(*old(stack)),
            udp_state(*socket).valid(),
            final(stack).changed_to(
                *old(stack),
                old(stack).udp_sockets().insert(self.handle(), udp_state(*final(socket))),
            ),
    {
        stack.wake = true;
        socket_set_get_mut(&mut stack.sockets, self.handle)
    }

    /// Receive a datagram.
    ///
    /// When no datagram is available, this method will return `Poll::Pending` and
    /// register the current task to be notified when a datagram is received.
    ///
    /// When a datagram is received, this method will return `Poll::Ready` with the
    /// number of bytes received and the remote endpoint.
    pub fn poll_recv_from(
        &self,
        stack: &mut SocketStack,
        buf: &mut [u8],
        cx: &mut Context<'_>,
    ) -> (result: Poll<Result<(usize, IpEndpoint), RecvError>>)
        requires
            self.in_stack(*old(stack)),
        ensures
            recv_outcome(
                self.state(*old(stack)),
                old(buf)@,
                current_task(*old(cx)),
                self.state(*final(stack)),
                final(buf)@,
                result,
            ),
            self.alone_changed(*old(stack), *final(stack)),
            *final(cx) == *old(cx),
    {
        let socket = self.with_mut(stack);
        match udp_recv_slice(socket, buf) {
            Ok((len, endpoint)) => Poll::Ready(Ok((len, endpoint))),
            Err(SocketRecvError::Truncated) => Poll::Ready(Err(RecvError::Truncated)),
            // No data ready
            Err(SocketRecvError::Exhausted) => {
                socket.register_recv_waker(cx.waker());
                Poll::Pending
            },
        }
    }

    /// Send a datagram to the specified remote endpoint.
    ///
    /// When the datagram has been sent, this method will return `Poll::Ready(Ok())`.
    ///
    /// When the socket's send buffer is full, this method will return `Poll::Pending`
    /// and register the current task to be notified when the buffer has space available.
    ///
    /// When the remote endpoint is not reachable, this method will return
    /// `Poll::Ready(Err(SendError::NoRoute))`.
    pub fn poll_send_to(
        &self,
        stack: &mut SocketStack,
        buf: &[u8],
        remote_endpoint: IpEndpoint,
        cx: &mut Context<'_>,
    ) -> (result: Poll<Result<(), SendError>>)
        requires
            self.in_stack(*old(stack)),
        ensures
            send_outcome(
                self.state(*old(stack)),
                buf@,
                remote_endpoint,
                current_task(*old(cx)),
                self.state(*final(stack)),
                result,
            ),
            self.alone_changed(*old(stack), *final(stack)),
            *final(cx) == *old(cx),
    {
        let socket = self.with_mut(stack);
        match udp_send_slice(socket, buf, remote_endpoint) {
            // Entire datagram has been sent
            Ok(()) => {
                proof {
                    lemma_queued_is_valid(
                        self.state(*old(stack)),
                        Datagram { endpoint: remote_endpoint, payload: buf@ },
                    );
                }
                Poll::Ready(Ok(()))
            },
            Err(SocketSendError::BufferFull) => {
                socket.register_send_waker(cx.waker());
                Poll::Pending
            },
            Err(SocketSendError::Unaddressable) => {
                // If no sender/outgoing port is specified, there is not really "no route"
                if udp_endpoint(socket).port == 0 {
                    Poll::Ready(Err(SendError::SocketNotBound))
                } else {
                    Poll::Ready(Err(SendError::NoRoute))
                }
            },
        }
    }

    /// Returns the local endpoint of the socket.
    pub fn endpoint(&self, stack: &SocketStack) -> (endpoint: IpListenEndpoint)
        requires
            self.in_stack(*stack),
        ensures
            endpoint == self.state(*stack).endpoint,
    {
        udp_endpoint(self.with(stack))
    }

    /// Returns whether the socket is open.
    pub fn is_open(&self, stack: &SocketStack) -> (open: bool)
        requires
            self.in_stack(*stack),
        ensures
            open == self.state(*stack).is_open(),
    {
        self.with(stack).is_open()
    }

    /// Close the socket.
    pub fn close(&mut self, stack: &mut SocketStack)
        requires
            old(self).in_stack(*old(stack)),
        ensures
            *final(self) == *old(self),
            final(stack).changed_to(
                *old(stack),
                old(stack).udp_sockets().insert(
                    old(self).handle(),
                    after_close(old(self).state(*old(stack))),
                ),
            ),
    {
        self.with_mut(stack).close();
    }

    /// Returns whether the socket is ready to send data, i.e. it has enough buffer space to hold
    /// a packet.
    pub fn may_send(&self, stack: &SocketStack) -> (ready: bool)
        requires
            self.in_stack(*stack),
        ensures
            ready == self.state(*stack).fits(0),
    {
        self.with(stack).can_send()
    }

    /// Returns whether the socket is ready to receive data, i.e. it has received a packet that's
    /// now in the buffer.
    pub fn may_recv(&self, stack: &mut SocketStack) -> (ready: bool)
        requires
            self.in_stack(*old(stack)),
        ensures
            ready == (self.state(*old(stack)).rx.len() > 0),
            final(stack).udp_sockets() == old(stack).udp_sockets(),
            final(stack).others() == old(stack).others(),
            final(stack).slots() == old(stack).slots(),
            final(stack).next_local_port == old(stack).next_local_port,
            final(stack).wake == old(stack).wake,
    {
        let ready = udp_has_datagram(socket_set_get_mut(&mut stack.sockets, self.handle));
        assert(stack.udp_sockets() =~= old(stack).udp_sockets());
        ready
    }

    /// Return the maximum number packets the socket can receive.
    pub fn packet_recv_capacity(&self, stack: &SocketStack) -> (capacity: usize)
        requires
            self.in_stack(*stack),
        ensures
            capacity == self.state(*stack).rx_packets,
    {
        self.with(stack).packet_recv_capacity()
    }

    /// Return the maximum number packets the socket can send.
    pub fn packet_send_capacity(&self, stack: &SocketStack) -> (capacity: usize)
        requires
            self.in_stack(*stack),
        ensures
            capacity == self.state(*stack).tx_packets,
    {
        self.with(stack).packet_send_capacity()
    }

    /// Return the maximum number of bytes inside the recv buffer.
    pub fn payload_recv_capacity(&self, stack: &SocketStack) -> (capacity: usize)
        requires
            self.in_stack(*stack),
        ensures
            capacity == self.state(*stack).rx_bytes,
    {
        self.with(stack).payload_recv_capacity()
    }

    /// Return the maximum number of bytes inside the transmit buffer.
    pub fn payload_send_capacity(&self, stack: &SocketStack) -> (capacity: usize)
        requires
            self.in_stack(*stack),
        ensures
            capacity == self.state(*stack).tx_bytes,
    {
        self.with(stack).payload_send_capacity()
    }

    /// Set the hop limit field in the IP header of sent packets.
    pub fn set_hop_limit(&mut self, stack: &mut SocketStack, hop_limit: Option<u8>)
        requires
            old(self).in_stack(*old(stack)),
            hop_limit != Some(0u8),
        ensures
            *final(self) == *old(self),
            final(stack).changed_to(
                *old(stack),
                old(stack).udp_sockets().insert(
                    old(self).handle(),
                    (UdpState { hop_limit, ..old(self).state(*old(stack)) }),
                ),
            ),
    {
        self.with_mut(stack).set_hop_limit(hop_limit);
    }

    /// Give the socket up: its stack forgets it.
    pub fn drop(self, stack: &mut SocketStack)
        requires
            self.in_stack(*old(stack)),
        ensures
            final(stack).udp_sockets() == old(stack).udp_sockets().remove(self.handle()),
            final(stack).others() == old(stack).others(),
            final(stack).slots() == old(stack).slots(),
            final(stack).next_local_port == old(stack).next_local_port,
            final(stack).wake == old(stack).wake,
    {
        socket_set_remove(&mut stack.sockets, self.handle);
    }
}

/// Two changes to one socket are one change to it.
pub proof fn lemma_alone_changed_twice(
    socket: UdpSocket,
    first: SocketStack,
    second: SocketStack,
    third: SocketStack,
)
    requires
        socket.alone_changed(first, second),
        socket.alone_changed(second, third),
    ensures
        socket.alone_changed(first, third),
{
    assert(third.udp_sockets() =~= first.udp_sockets().insert(
        socket.handle(),
        socket.state(third),
    ));
}

} // verus!
