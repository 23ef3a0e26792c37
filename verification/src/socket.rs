//! The boundary to the sockets and socket sets of `smoltcp`, and the model of them on which
//! every contract of this library is stated.

use crate::addr::{IpAddress, IpEndpoint, IpListenEndpoint};
use core::task::{Context, Waker};
use smoltcp::iface::{SocketHandle, SocketSet};
use smoltcp::socket::udp;
use smoltcp::socket::udp::PacketMetadata;
use smoltcp::wire;
use vstd::prelude::*;

verus! {

/// A datagram in a socket's buffer: the remote endpoint that it came from or goes to, and its
/// payload.
#[verifier::ext_equal]
pub struct Datagram {
    pub endpoint: IpEndpoint,
    pub payload: Seq<u8>,
}

/// What a UDP socket holds.
#[verifier::ext_equal]
pub struct UdpState {
    /// The local endpoint; its port is zero while the socket is closed.
    pub endpoint: IpListenEndpoint,
    /// The datagrams received and not yet read, oldest first.
    pub rx: Seq<Datagram>,
    /// The number of datagrams that the receive buffer was made for.
    pub rx_packets: nat,
    /// The number of payload bytes that the receive buffer was made for.
    pub rx_bytes: nat,
    /// The datagrams accepted for sending and not yet sent, oldest first.
    pub tx: Seq<Datagram>,
    /// The number of entries of the transmit buffer that are free. Besides datagrams a buffer
    /// may hold entries of padding, so this can be less than what the datagrams leave.
    pub tx_free: nat,
    /// The number of free bytes behind the last datagram, up to the end of the transmit buffer
    /// or to the oldest datagram: where the next payload goes if it fits there.
    pub tx_tail: nat,
    /// The number of free bytes at the beginning of the transmit buffer, where these are not
    /// behind the last datagram: where the next payload goes if it fits there alone.
    pub tx_front: nat,
    /// The number of datagrams that the transmit buffer was made for.
    pub tx_packets: nat,
    /// The number of payload bytes that the transmit buffer was made for.
    pub tx_bytes: nat,
    /// The hop limit of outgoing packets, where one was set.
    pub hop_limit: Option<u8>,
    /// The task to be woken when the socket may have become readable.
    pub recv_waiter: Option<int>,
    /// The task to be woken when the socket may have become writable.
    pub send_waiter: Option<int>,
}

/// The local endpoint of a closed socket.
pub open spec fn no_endpoint() -> IpListenEndpoint {
    IpListenEndpoint { addr: None, port: 0 }
}

/// The number of payload bytes of the datagrams together.
pub open spec fn total(datagrams: Seq<Datagram>) -> nat
    decreases datagrams.len(),
{
    if datagrams.len() == 0 {
        0
    } else {
        total(datagrams.drop_last()) + datagrams.last().payload.len()
    }
}

impl UdpState {
    /// A closed socket with empty buffers.
    pub open spec fn fresh(rx_packets: nat, rx_bytes: nat, tx_packets: nat, tx_bytes: nat) -> Self {
        UdpState {
            endpoint: no_endpoint(),
            rx: Seq::empty(),
            rx_packets,
            rx_bytes,
            tx: Seq::empty(),
            tx_free: tx_packets,
            tx_tail: tx_bytes,
            tx_front: 0,
            tx_packets,
            tx_bytes,
            hop_limit: None,
            recv_waiter: None,
            send_waiter: None,
        }
    }

    /// What holds of every socket: the buffers keep within what they were made for, and a hop
    /// limit is not zero.
    pub open spec fn valid(self) -> bool {
        &&& self.rx.len() <= self.rx_packets
        &&& forall|i: int| 0 <= i < self.rx.len() ==> #[trigger] self.rx[i].payload.len() <= self.rx_bytes
        &&& self.tx.len() + self.tx_free <= self.tx_packets
        &&& forall|i: int| 0 <= i < self.tx.len() ==> #[trigger] self.tx[i].payload.len() <= self.tx_bytes
        &&& total(self.tx) + self.tx_tail + self.tx_front <= self.tx_bytes
        &&& self.hop_limit != Some(0u8)
    }

    /// Whether the socket is bound to a port.
    pub open spec fn is_open(self) -> bool {
        self.endpoint.port != 0
    }

    /// Whether a datagram to `remote` can leave this socket: it has a port to leave from, and
    /// both the remote address and the remote port are specified.
    pub open spec fn addressable(self, remote: IpEndpoint) -> bool {
        self.is_open() && !remote.addr.unspecified() && remote.port != 0
    }

    /// Whether a payload of `len` bytes goes to the beginning of the transmit buffer. An entry of
    /// padding then takes up the bytes behind the last datagram.
    pub open spec fn wraps(self, len: nat) -> bool {
        self.tx_tail < len <= self.tx_front
    }

    /// Whether the transmit buffer takes a payload of `len` bytes now.
    pub open spec fn fits(self, len: nat) -> bool {
        if self.wraps(len) {
            self.tx_free >= 2
        } else {
            self.tx_free >= 1 && len <= self.tx_tail
        }
    }

    /// The socket after an entry of padding took up the bytes behind the last datagram.
    pub open spec fn padded(self) -> Self {
        UdpState {
            tx_free: (self.tx_free - 1) as nat,
            tx_tail: self.tx_front,
            tx_front: 0,
            ..self
        }
    }

    /// The socket after a datagram was put behind the last one. What comes behind a datagram that
    /// takes up all bytes there is the beginning of the transmit buffer.
    pub open spec fn appended(self, datagram: Datagram) -> Self {
        let len = datagram.payload.len();
        let fills = len == self.tx_tail;
        UdpState {
            tx: self.tx.push(datagram),
            tx_free: (self.tx_free - 1) as nat,
            tx_tail: if fills {
                self.tx_front
            } else {
                (self.tx_tail - len) as nat
            },
            tx_front: if fills {
                0
            } else {
                self.tx_front
            },
            ..self
        }
    }

    /// The socket after its transmit buffer took a datagram.
    pub open spec fn queued(self, datagram: Datagram) -> Self {
        if self.wraps(datagram.payload.len()) {
            self.padded().appended(datagram)
        } else {
            self.appended(datagram)
        }
    }

    /// The socket after its transmit buffer refused a payload of `len` bytes. The last free entry
    /// is lost to padding where the payload needed that entry for itself.
    pub open spec fn refused(self, len: nat) -> Self {
        if self.wraps(len) && self.tx_free == 1 {
            self.padded()
        } else {
            self
        }
    }

    /// Whether the transmit buffer has lost no room to its layout: every entry and every byte
    /// that no datagram takes up is free for the next one.
    pub open spec fn compact(self) -> bool {
        &&& self.tx.len() + self.tx_free == self.tx_packets
        &&& total(self.tx) + self.tx_tail == self.tx_bytes
        &&& self.tx_front == 0
    }

    /// The buffers were made for the same numbers of datagrams and bytes.
    pub open spec fn same_capacities(self, other: Self) -> bool {
        &&& self.rx_packets == other.rx_packets
        &&& self.rx_bytes == other.rx_bytes
        &&& self.tx_packets == other.tx_packets
        &&& self.tx_bytes == other.tx_bytes
    }
}

/// One more datagram has its own bytes more.
pub proof fn lemma_total_push(datagrams: Seq<Datagram>, datagram: Datagram)
    ensures
        total(datagrams.push(datagram)) == total(datagrams) + datagram.payload.len(),
{
    assert(datagrams.push(datagram).drop_last() =~= datagrams);
}

/// Queueing a datagram that fits keeps a socket valid.
pub proof fn lemma_queued_is_valid(pre: UdpState, datagram: Datagram)
    requires
        pre.valid(),
        pre.fits(datagram.payload.len()),
    ensures
        pre.queued(datagram).valid(),
{
    lemma_total_push(pre.tx, datagram);
}

/// A UDP socket of `smoltcp`.
#[verifier::external_type_specification]
#[verifier::external_body]
pub struct ExUdpSocket<'a>(smoltcp::socket::udp::Socket<'a>);

/// The metadata that `smoltcp` keeps with a UDP packet.
#[verifier::external_type_specification]
#[verifier::external_body]
pub struct ExUdpMetadata(smoltcp::socket::udp::UdpMetadata);

/// One entry of storage for the packets of a buffer of `smoltcp`.
#[verifier::external_type_specification]
#[verifier::external_body]
#[verifier::reject_recursive_types(H)]
pub struct ExPacketMetadata<H>(smoltcp::storage::PacketMetadata<H>);

/// A set of sockets of `smoltcp`.
#[verifier::external_type_specification]
#[verifier::external_body]
pub struct ExSocketSet<'a>(smoltcp::iface::SocketSet<'a>);

/// The place of a socket in its set.
#[verifier::external_type_specification]
#[verifier::external_body]
pub struct ExSocketHandle(smoltcp::iface::SocketHandle);

/// A handle that wakes a task.
#[verifier::external_type_specification]
#[verifier::external_body]
pub struct ExWaker(core::task::Waker);

/// The context in which a task is polled.
#[verifier::external_type_specification]
#[verifier::external_body]
pub struct ExContext<'a>(core::task::Context<'a>);

/// The waker of the task that is being polled.
pub uninterp spec fn context_waker(cx: Context<'_>) -> Waker;

/// The task that a waker wakes.
pub uninterp spec fn waker_task(waker: Waker) -> int;

/// What a UDP socket holds.
pub uninterp spec fn udp_state(socket: udp::Socket<'_>) -> UdpState;

/// The UDP sockets of a set.
pub uninterp spec fn set_udp(set: SocketSet<'_>) -> Map<SocketHandle, UdpState>;

/// The handles of the sockets of a set that are not UDP sockets.
pub uninterp spec fn set_others(set: SocketSet<'_>) -> Set<SocketHandle>;

/// The number of sockets that a set has storage for, or `None` where its storage grows.
pub uninterp spec fn set_slots(set: SocketSet<'_>) -> Option<nat>;

/// Why `smoltcp` refuses to bind a socket.
pub enum SocketBindError {
    InvalidState,
    Unaddressable,
}

/// Why `smoltcp` refuses to queue a datagram.
pub enum SocketSendError {
    Unaddressable,
    BufferFull,
}

/// Why `smoltcp` hands out no datagram.
pub enum SocketRecvError {
    Exhausted,
    Truncated,
}

/// `Context::waker` gives the waker of the task that is being polled.
pub assume_specification<'a>[ Context::<'a>::waker ](cx: &Context<'a>) -> (waker: &'a Waker)
    ensures
        *waker == context_waker(*cx),
;

/// `udp::Socket::new`, over two buffers that `PacketBuffer::new` makes of owned storage, makes a
/// closed socket without a hop limit and without anybody waiting for it. Its buffers are empty,
/// and hold as many datagrams as there are entries of metadata and as many bytes as there are
/// bytes of storage. What the storage held before does not matter.
#[verifier::external_body]
pub(crate) fn udp_socket_new(
    rx_meta: Vec<PacketMetadata>,
    rx_buffer: Vec<u8>,
    tx_meta: Vec<PacketMetadata>,
    tx_buffer: Vec<u8>,
) -> (socket: udp::Socket<'static>)
    ensures
        udp_state(socket) == UdpState::fresh(
            rx_meta@.len(),
            rx_buffer@.len(),
            tx_meta@.len(),
            tx_buffer@.len(),
        ),
{
    udp::Socket::new(
        udp::PacketBuffer::new(rx_meta, rx_buffer),
        udp::PacketBuffer::new(tx_meta, tx_buffer),
    )
}

/// `PacketMetadata::EMPTY` is an unused entry of storage. Nothing depends on what is in it.
#[verifier::external_body]
pub(crate) fn packet_metadata_empty() -> PacketMetadata {
    PacketMetadata::EMPTY
}

/// `udp::Socket::bind` refuses port zero, then refuses a socket that is open, and otherwise
/// takes the endpoint and wakes whoever waits for the socket. A refusal changes nothing.
#[verifier::external_body]
pub(crate) fn udp_bind(
    socket: &mut udp::Socket<'static>,
    endpoint: IpListenEndpoint,
) -> (result: Result<(), SocketBindError>)
    ensures
        match result {
            Err(SocketBindError::Unaddressable) => endpoint.port == 0,
            Err(SocketBindError::InvalidState) => endpoint.port != 0 && udp_state(
                *old(socket),
            ).is_open(),
            Ok(()) => endpoint.port != 0 && !udp_state(*old(socket)).is_open(),
        },
        udp_state(*final(socket)) == (match result {
            Ok(()) => (UdpState {
                endpoint,
                recv_waiter: None,
                send_waiter: None,
                ..udp_state(*old(socket))
            }),
            Err(_) => udp_state(*old(socket)),
        }),
{
    let addr = match endpoint.addr {
        None => None,
        Some(IpAddress::Ipv4(ip)) => Some(wire::IpAddress::Ipv4(wire::Ipv4Address(ip))),
        Some(IpAddress::Ipv6(ip)) => Some(wire::IpAddress::Ipv6(wire::Ipv6Address(ip))),
    };
    match socket.bind(wire::IpListenEndpoint { addr, port: endpoint.port }) {
        Ok(()) => Ok(()),
        Err(udp::BindError::InvalidState) => Err(SocketBindError::InvalidState),
        Err(udp::BindError::Unaddressable) => Err(SocketBindError::Unaddressable),
    }
}

/// `udp::Socket::recv_slice` takes the oldest received datagram out of the receive buffer. A
/// datagram that is longer than `data` is dropped, and `data` is left as it was; any other is
/// copied to the front of `data`, and the rest of `data` is left as it was.
#[verifier::external_body]
pub(crate) fn udp_recv_slice(
    socket: &mut udp::Socket<'static>,
    data: &mut [u8],
) -> (result: Result<(usize, IpEndpoint), SocketRecvError>)
    ensures
        ({
            let pre = udp_state(*old(socket));
            let post = udp_state(*final(socket));
            if pre.rx.len() == 0 {
                &&& result matches Err(SocketRecvError::Exhausted)
                &&& post == pre
                &&& final(data)@ == old(data)@
            } else {
                &&& post == (UdpState { rx: pre.rx.drop_first(), ..pre })
                &&& if pre.rx[0].payload.len() > old(data)@.len() {
                    &&& result matches Err(SocketRecvError::Truncated)
                    &&& final(data)@ == old(data)@
                } else {
                    &&& result matches Ok((len, endpoint)) && len == pre.rx[0].payload.len()
                        && endpoint == pre.rx[0].endpoint
                    &&& final(data)@ == pre.rx[0].payload + old(data)@.skip(
                        pre.rx[0].payload.len() as int,
                    )
                }
            }
        }),
{
    match socket.recv_slice(data) {
        Ok((len, meta)) => {
            let addr = match meta.endpoint.addr {
                wire::IpAddress::Ipv4(ip) => IpAddress::Ipv4(ip.0),
                wire::IpAddress::Ipv6(ip) => IpAddress::Ipv6(ip.0),
            };
            Ok((len, IpEndpoint { addr, port: meta.endpoint.port }))
        },
        Err(udp::RecvError::Exhausted) => Err(SocketRecvError::Exhausted),
        Err(udp::RecvError::Truncated) => Err(SocketRecvError::Truncated),
    }
}

/// `udp::Socket::send_slice` refuses a datagram that is not addressable, and changes nothing
/// then. Otherwise it queues the datagram where the transmit buffer has an entry for it, and the
/// bytes that it needs in one piece: behind the last datagram, or else at the beginning of the
/// buffer, which costs an entry of padding more. Where there is no room, the datagrams in the
/// buffer stay as they are, but a last free entry goes to the padding. A buffer without a byte in
/// use counts as free from its beginning to its end.
#[verifier::external_body]
pub(crate) fn udp_send_slice(
    socket: &mut udp::Socket<'static>,
    data: &[u8],
    remote: IpEndpoint,
) -> (result: Result<(), SocketSendError>)
    ensures
        ({
            let pre = udp_state(*old(socket));
            let post = udp_state(*final(socket));
            match result {
                Err(SocketSendError::Unaddressable) => {
                    &&& !pre.addressable(remote)
                    &&& post == pre
                },
                Err(SocketSendError::BufferFull) => {
                    &&& pre.addressable(remote)
                    &&& !pre.fits(data@.len())
                    &&& post == pre.refused(data@.len())
                },
                Ok(()) => {
                    &&& pre.addressable(remote)
                    &&& pre.fits(data@.len())
                    &&& post == pre.queued((Datagram { endpoint: remote, payload: data@ }))
                },
            }
        }),
{
    let addr = match remote.addr {
        IpAddress::Ipv4(ip) => wire::IpAddress::Ipv4(wire::Ipv4Address(ip)),
        IpAddress::Ipv6(ip) => wire::IpAddress::Ipv6(wire::Ipv6Address(ip)),
    };
    match socket.send_slice(data, wire::IpEndpoint { addr, port: remote.port }) {
        Ok(()) => Ok(()),
        Err(udp::SendError::Unaddressable) => Err(SocketSendError::Unaddressable),
        Err(udp::SendError::BufferFull) => Err(SocketSendError::BufferFull),
    }
}

/// `udp::Socket::peek` succeeds exactly if a datagram is in the receive buffer. It leaves every
/// datagram where it is; all that it may change is that padding in front of them is dropped.
#[verifier::external_body]
pub(crate) fn udp_has_datagram(socket: &mut udp::Socket<'static>) -> (has: bool)
    ensures
        has == (udp_state(*old(socket)).rx.len() > 0),
        udp_state(*final(socket)) == udp_state(*old(socket)),
{
    socket.peek().is_ok()
}

/// `udp::Socket::endpoint` gives the local endpoint.
#[verifier::external_body]
pub(crate) fn udp_endpoint(socket: &udp::Socket<'static>) -> (endpoint: IpListenEndpoint)
    ensures
        endpoint == udp_state(*socket).endpoint,
{
    let endpoint = socket.endpoint();
    let addr = match endpoint.addr {
        None => None,
        Some(wire::IpAddress::Ipv4(ip)) => Some(IpAddress::Ipv4(ip.0)),
        Some(wire::IpAddress::Ipv6(ip)) => Some(IpAddress::Ipv6(ip.0)),
    };
    IpListenEndpoint { addr, port: endpoint.port }
}

/// `udp::Socket::is_open` tells whether the local port is not zero.
pub assume_specification<'a>[ udp::Socket::<'a>::is_open ](socket: &udp::Socket<'a>) -> (open: bool)
    ensures
        open == udp_state(*socket).is_open(),
;

/// `udp::Socket::close` forgets the local endpoint, empties both buffers and wakes whoever
/// waits for the socket. The hop limit stays.
pub assume_specification<'a>[ udp::Socket::<'a>::close ](socket: &mut udp::Socket<'a>)
    ensures
        ({
            let pre = udp_state(*old(socket));
            udp_state(*final(socket)) == (UdpState {
                hop_limit: pre.hop_limit,
                ..UdpState::fresh(pre.rx_packets, pre.rx_bytes, pre.tx_packets, pre.tx_bytes)
            })
        }),
;

/// `udp::Socket::can_send` tells whether the transmit buffer has an entry free.
pub assume_specification<'a>[ udp::Socket::<'a>::can_send ](socket: &udp::Socket<'a>) -> (can: bool)
    ensures
        can == (udp_state(*socket).tx_free > 0),
;

/// `udp::Socket::packet_recv_capacity` gives the number of datagrams that the receive buffer
/// was made for.
pub assume_specification<'a>[ udp::Socket::<'a>::packet_recv_capacity ](
    socket: &udp::Socket<'a>,
) -> (capacity: usize)
    ensures
        capacity == udp_state(*socket).rx_packets,
;

/// `udp::Socket::packet_send_capacity` gives the number of datagrams that the transmit buffer
/// was made for.
pub assume_specification<'a>[ udp::Socket::<'a>::packet_send_capacity ](
    socket: &udp::Socket<'a>,
) -> (capacity: usize)
    ensures
        capacity == udp_state(*socket).tx_packets,
;

/// `udp::Socket::payload_recv_capacity` gives the number of bytes that the receive buffer was
/// made for.
pub assume_specification<'a>[ udp::Socket::<'a>::payload_recv_capacity ](
    socket: &udp::Socket<'a>,
) -> (capacity: usize)
    ensures
        capacity == udp_state(*socket).rx_bytes,
;

/// `udp::Socket::payload_send_capacity` gives the number of bytes that the transmit buffer was
/// made for.
pub assume_specification<'a>[ udp::Socket::<'a>::payload_send_capacity ](
    socket: &udp::Socket<'a>,
) -> (capacity: usize)
    ensures
        capacity == udp_state(*socket).tx_bytes,
;

/// `udp::Socket::set_hop_limit` sets the hop limit, and panics on a limit of zero.
pub assume_specification<'a>[ udp::Socket::<'a>::set_hop_limit ](
    socket: &mut udp::Socket<'a>,
    hop_limit: Option<u8>,
)
    requires
        hop_limit != Some(0u8),
    ensures
        udp_state(*final(socket)) == (UdpState { hop_limit, ..udp_state(*old(socket)) }),
;

/// `udp::Socket::register_recv_waker` makes the task of `waker` the one that is woken when the
/// socket may have become readable, in place of any other.
pub assume_specification<'a>[ udp::Socket::<'a>::register_recv_waker ](
    socket: &mut udp::Socket<'a>,
    waker: &Waker,
)
    ensures
        udp_state(*final(socket)) == (UdpState {
            recv_waiter: Some(waker_task(*waker)),
            ..udp_state(*old(socket))
        }),
;

/// `udp::Socket::register_send_waker` makes the task of `waker` the one that is woken when the
/// socket may have become writable, in place of any other.
pub assume_specification<'a>[ udp::Socket::<'a>::register_send_waker ](
    socket: &mut udp::Socket<'a>,
    waker: &Waker,
)
    ensures
        udp_state(*final(socket)) == (UdpState {
            send_waiter: Some(waker_task(*waker)),
            ..udp_state(*old(socket))
        }),
;

/// `SocketSet::new` over an owned, empty vector makes a set without sockets whose storage
/// grows.
#[verifier::external_body]
pub(crate) fn socket_set_new() -> (set: SocketSet<'static>)
    ensures
        set_udp(set).dom() == Set::<SocketHandle>::empty(),
        set_others(set) == Set::<SocketHandle>::empty(),
        set_slots(set) is None,
{
    SocketSet::new(Vec::new())
}

/// Whether a set has storage for one more socket.
pub open spec fn set_has_room(set: SocketSet<'_>) -> bool {
    set_slots(set) matches Some(slots) ==> set_udp(set).dom().len() + set_others(set).len() < slots
}

/// `SocketSet::add` puts a socket into the set under a handle that no socket of the set has. It
/// panics where the storage is fixed and full.
#[verifier::external_body]
pub(crate) fn socket_set_add(
    set: &mut SocketSet<'static>,
    socket: udp::Socket<'static>,
) -> (handle: SocketHandle)
    requires
        set_has_room(*old(set)),
    ensures
        !set_udp(*old(set)).contains_key(handle),
        !set_others(*old(set)).contains(handle),
        set_udp(*final(set)) == set_udp(*old(set)).insert(handle, udp_state(socket)),
        set_others(*final(set)) == set_others(*old(set)),
        set_slots(*final(set)) == set_slots(*old(set)),
{
    set.add(socket)
}

/// `SocketSet::get` gives the socket under a handle, which is valid as every UDP socket is. It
/// panics where there is none, or where it is not a UDP socket.
#[verifier::external_body]
pub(crate) fn socket_set_get<'s>(
    set: &'s SocketSet<'static>,
    handle: SocketHandle,
) -> (socket: &'s udp::Socket<'static>)
    requires
        set_udp(*set).contains_key(handle),
    ensures
        udp_state(*socket) == set_udp(*set)[handle],
        udp_state(*socket).valid(),
{
    set.get(handle)
}

/// `SocketSet::get_mut` gives the socket under a handle, which is valid as every UDP socket is,
/// to be changed in place; the other sockets of the set stay as they are. It panics where
/// `SocketSet::get` does.
#[verifier::external_body]
pub(crate) fn socket_set_get_mut<'s>(
    set: &'s mut SocketSet<'static>,
    handle: SocketHandle,
) -> (socket: &'s mut udp::Socket<'static>)
    requires
        set_udp(*old(set)).contains_key(handle),
    ensures
        udp_state(*socket) == set_udp(*old(set))[handle],
        udp_state(*socket).valid(),
        set_udp(*final(set)) == set_udp(*old(set)).insert(handle, udp_state(*final(socket))),
        set_others(*final(set)) == set_others(*old(set)),
        set_slots(*final(set)) == set_slots(*old(set)),
{
    set.get_mut(handle)
}

/// `SocketSet::remove` takes the socket under a handle out of the set. It panics where there is
/// none.
#[verifier::external_body]
pub(crate) fn socket_set_remove(set: &mut SocketSet<'static>, handle: SocketHandle)
    requires
        set_udp(*old(set)).contains_key(handle),
    ensures
        set_udp(*final(set)) == set_udp(*old(set)).remove(handle),
        set_others(*final(set)) == set_others(*old(set)),
        set_slots(*final(set)) == set_slots(*old(set)),
{
    set.remove(handle);
}

} // verus!
