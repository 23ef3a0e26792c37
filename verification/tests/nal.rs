use smoltcp::iface::{Config, Interface};
use smoltcp::phy::{Loopback, Medium};
use smoltcp::time::Instant;
use smoltcp::wire::{HardwareAddress, IpCidr};
use std::sync::Arc;
use std::task::{Context, Wake, Waker};
use udp::addr::{IpAddress, IpEndpoint};
use udp::nal::{
    to_endpoint, to_nal_addr, Error, SocketAddr, SocketAddrV4, SocketAddrV6, UdpNalStack,
    UdpNalStackState, UdpSocket2,
};
use udp::stack::SocketStack;
use udp::udp_socket::{BindError, Poll, RecvError, SendError};

struct Nobody;

impl Wake for Nobody {
    fn wake(self: Arc<Self>) {}
}

fn nobody() -> Waker {
    Waker::from(Arc::new(Nobody))
}

fn v4(a: u8, b: u8, c: u8, d: u8, port: u16) -> SocketAddr {
    SocketAddr::V4(SocketAddrV4 { ip: [a, b, c, d], port })
}

fn v6(last: u8, port: u16) -> SocketAddr {
    let mut ip = [0; 16];
    ip[15] = last;
    SocketAddr::V6(SocketAddrV6 { ip, port, flowinfo: 0, scope_id: 0 })
}

type PoolSocket = UdpSocket2<3, 64, 32>;

/// A stack on a loopback interface with the address `127.0.0.1`, and a pool of
/// three sockets on it.
struct Net {
    stack: SocketStack,
    state: UdpNalStackState<3, 64, 32>,
    device: Loopback,
    iface: Interface,
}

impl Net {
    fn new() -> Net {
        let mut device = Loopback::new(Medium::Ip);
        let mut iface = Interface::new(
            Config::new(HardwareAddress::Ip),
            &mut device,
            Instant::from_millis(0),
        );
        iface.update_ip_addrs(|addrs| {
            addrs
                .push(IpCidr::new(smoltcp::wire::IpAddress::v4(127, 0, 0, 1), 8))
                .unwrap();
        });
        Net { stack: SocketStack::new(1025), state: UdpNalStackState::new(), device, iface }
    }

    fn nal(&mut self) -> UdpNalStack<'_, 3, 64, 32> {
        UdpNalStack::new(&mut self.stack, &mut self.state)
    }

    fn run(&mut self) {
        self.iface.poll(Instant::from_millis(1), &mut self.device, &mut self.stack.sockets);
    }

    fn bound(&mut self, port: u16) -> PoolSocket {
        match self.nal().bind_multiple(v4(127, 0, 0, 1, port)) {
            Ok(socket) => socket,
            Err(e) => panic!("{:?}", e),
        }
    }

    fn connected(&mut self, port: u16, remote: u16) -> PoolSocket {
        match self.nal().connect_from(v4(127, 0, 0, 1, port), v4(127, 0, 0, 1, remote)) {
            Ok((_, socket)) => socket,
            Err(e) => panic!("{:?}", e),
        }
    }

    fn send(&mut self, socket: &PoolSocket, remote: SocketAddr, data: &[u8]) -> Poll<Result<(), Error>> {
        let waker = nobody();
        let mut cx = Context::from_waker(&waker);
        socket.poll_unconnected_send(&mut self.stack, v4(9, 9, 9, 9, 9), remote, data, &mut cx)
    }

    fn recv(&mut self, socket: &PoolSocket, buf: &mut [u8]) -> Poll<Result<usize, Error>> {
        let waker = nobody();
        let mut cx = Context::from_waker(&waker);
        socket.poll_connected_receive_into(&mut self.stack, buf, &mut cx)
    }
}

fn error<T>(result: Result<T, Error>) -> Option<Error> {
    result.err()
}

#[test]
fn addresses_become_endpoints() {
    assert_eq!(
        to_endpoint(&v4(192, 168, 1, 2, 80)),
        IpEndpoint { addr: IpAddress::Ipv4([192, 168, 1, 2]), port: 80 }
    );
    let mut ip = [0; 16];
    ip[0] = 0xfe;
    ip[15] = 7;
    assert_eq!(
        to_endpoint(&SocketAddr::V6(SocketAddrV6 { ip, port: 53, flowinfo: 1, scope_id: 2 })),
        IpEndpoint { addr: IpAddress::Ipv6(ip), port: 53 }
    );
}

#[test]
fn endpoints_become_addresses() {
    assert_eq!(
        to_nal_addr(&IpEndpoint { addr: IpAddress::Ipv4([10, 0, 0, 1]), port: 1 }),
        v4(10, 0, 0, 1, 1)
    );
    let mut ip = [0; 16];
    ip[15] = 1;
    assert_eq!(to_nal_addr(&IpEndpoint { addr: IpAddress::Ipv6(ip), port: 2 }), v6(1, 2));
}

#[test]
fn addresses_go_there_and_back() {
    for addr in [v4(1, 2, 3, 4, 5), v6(6, 7)] {
        assert_eq!(to_nal_addr(&to_endpoint(&addr)), addr);
    }
    let scoped = SocketAddr::V6(SocketAddrV6 { ip: [1; 16], port: 1, flowinfo: 0, scope_id: 3 });
    assert!(to_nal_addr(&to_endpoint(&scoped)) != scoped);
}

#[test]
fn errors_keep_their_kind() {
    assert_eq!(Error::from(BindError::NoRoute), Error::Bind(BindError::NoRoute));
    assert_eq!(Error::from(SendError::SocketNotBound), Error::Send(SendError::SocketNotBound));
    assert_eq!(Error::from(RecvError::Truncated), Error::Recv(RecvError::Truncated));
}

#[test]
fn a_new_state_has_every_place_free() {
    let state: UdpNalStackState<4, 1, 1> = UdpNalStackState::new();
    assert_eq!(state.pool.used, [false; 4]);
}

#[test]
fn the_pool_opens_up_to_n_sockets() {
    let mut net = Net::new();
    let first = net.bound(1);
    let second = net.bound(2);
    let _third = net.bound(3);
    assert_eq!(net.state.pool.used, [true; 3]);
    let full = Some(Error::Bind(BindError::InvalidState));
    let local = v4(127, 0, 0, 1, 4);
    assert_eq!(error(net.nal().bind_multiple(local)), full);
    assert_eq!(error(net.nal().bind_single(local)), full);
    assert_eq!(error(net.nal().connect_from(local, local)), full);
    assert_eq!(net.stack.sockets.iter().count(), 3);
    second.drop(&mut net.stack, &mut net.state);
    assert_eq!(net.state.pool.used, [true, false, true]);
    assert_eq!(net.stack.sockets.iter().count(), 2);
    let again = net.bound(4);
    assert_eq!(net.state.pool.used, [true; 3]);
    again.drop(&mut net.stack, &mut net.state);
    first.drop(&mut net.stack, &mut net.state);
    assert_eq!(net.state.pool.used, [false, false, true]);
}

#[test]
fn a_socket_that_cannot_be_bound_is_given_up() {
    let mut net = Net::new();
    net.stack.next_local_port = 0;
    assert_eq!(
        error(net.nal().bind_single(v4(127, 0, 0, 1, 0))),
        Some(Error::Bind(BindError::NoRoute))
    );
    assert_eq!(net.state.pool.used, [false; 3]);
    assert_eq!(net.stack.sockets.iter().count(), 0);
    assert_eq!(net.stack.next_local_port, 1);
    assert!(net.stack.take_wake());
}

#[test]
fn opening_returns_the_local_address_as_given() {
    let mut net = Net::new();
    let local = v4(127, 0, 0, 1, 0);
    let (addr, _single) = net.nal().bind_single(local).ok().unwrap();
    assert_eq!(addr, local);
    let (addr, _connected) = net.nal().connect_from(v6(1, 0), v6(1, 9)).ok().unwrap();
    assert_eq!(addr, v6(1, 0));
    assert_eq!(net.stack.next_local_port, 1027);
}

#[test]
fn the_buffers_have_the_sizes_of_the_pool() {
    let mut net = Net::new();
    let _socket = net.bound(1);
    for (_, socket) in net.stack.sockets.iter() {
        match socket {
            smoltcp::socket::Socket::Udp(socket) => {
                assert_eq!(socket.payload_send_capacity(), 64);
                assert_eq!(socket.payload_recv_capacity(), 32);
                assert_eq!(socket.packet_send_capacity(), 16);
                assert_eq!(socket.packet_recv_capacity(), 16);
            }
        }
    }
}

#[test]
fn an_unconnected_socket_tells_both_addresses() {
    let mut net = Net::new();
    let sender = net.bound(1000);
    let receiver = net.bound(2000);
    assert_eq!(net.send(&sender, v4(127, 0, 0, 1, 2000), b"hello"), Poll::Ready(Ok(())));
    net.run();
    let waker = nobody();
    let mut cx = Context::from_waker(&waker);
    let mut buf = [0; 5];
    assert_eq!(
        receiver.poll_unconnected_receive_into(&mut net.stack, &mut buf, &mut cx),
        Poll::Ready(Ok((5, v4(127, 0, 0, 1, 2000), v4(127, 0, 0, 1, 1000))))
    );
    assert_eq!(&buf, b"hello");
    assert_eq!(
        receiver.poll_unconnected_receive_into(&mut net.stack, &mut buf, &mut cx),
        Poll::Pending
    );
}

#[test]
fn an_unconnected_socket_reports_truncation() {
    let mut net = Net::new();
    let sender = net.bound(1000);
    let receiver = net.bound(2000);
    assert_eq!(net.send(&sender, v4(127, 0, 0, 1, 2000), b"hello"), Poll::Ready(Ok(())));
    net.run();
    let waker = nobody();
    let mut cx = Context::from_waker(&waker);
    assert_eq!(
        receiver.poll_unconnected_receive_into(&mut net.stack, &mut [0; 4], &mut cx),
        Poll::Ready(Err(Error::Recv(RecvError::Truncated)))
    );
}

#[test]
fn a_connected_socket_hears_its_remote_alone() {
    let mut net = Net::new();
    let stranger = net.bound(1);
    let peer = net.bound(2);
    let socket = net.connected(3, 2);
    let here = v4(127, 0, 0, 1, 3);
    assert_eq!(net.send(&stranger, here, b"stranger"), Poll::Ready(Ok(())));
    net.run();
    assert_eq!(net.send(&peer, here, b"peer"), Poll::Ready(Ok(())));
    net.run();
    assert_eq!(net.send(&stranger, here, b"again"), Poll::Ready(Ok(())));
    net.run();
    let mut buf = [0; 10];
    assert_eq!(net.recv(&socket, &mut buf), Poll::Ready(Ok(4)));
    // What was passed over has left its traces behind the payload.
    assert_eq!(&buf, b"peernger\0\0");
    assert_eq!(net.recv(&socket, &mut buf), Poll::Pending);
    assert_eq!(&buf, b"againger\0\0");
    assert_eq!(net.recv(&socket, &mut buf), Poll::Pending);
}

#[test]
fn a_connected_socket_reports_truncation_whoever_sent() {
    let mut net = Net::new();
    let stranger = net.bound(1);
    let socket = net.connected(3, 2);
    assert_eq!(net.send(&stranger, v4(127, 0, 0, 1, 3), b"stranger"), Poll::Ready(Ok(())));
    net.run();
    assert_eq!(
        net.recv(&socket, &mut [0; 4]),
        Poll::Ready(Err(Error::Recv(RecvError::Truncated)))
    );
    assert_eq!(net.recv(&socket, &mut [0; 4]), Poll::Pending);
}

#[test]
fn a_socket_without_a_remote_can_wait() {
    let mut net = Net::new();
    let sender = net.bound(1);
    let socket = net.bound(3);
    let mut buf = [7; 4];
    assert_eq!(net.recv(&socket, &mut buf), Poll::Pending);
    assert_eq!(net.send(&sender, v4(127, 0, 0, 1, 3), b"hello"), Poll::Ready(Ok(())));
    net.run();
    assert_eq!(
        net.recv(&socket, &mut buf),
        Poll::Ready(Err(Error::Recv(RecvError::Truncated)))
    );
    assert_eq!(buf, [7; 4]);
    assert_eq!(net.recv(&socket, &mut buf), Poll::Pending);
}

#[test]
fn places_in_use_follow_the_live_sockets() {
    let mut net = Net::new();
    let mut live: Vec<PoolSocket> = Vec::new();
    for round in 0..10 {
        while live.len() < 3 {
            live.push(net.bound(100 + round));
            assert_eq!(net.state.pool.used.iter().filter(|used| **used).count(), live.len());
        }
        assert_eq!(
            error(net.nal().bind_multiple(v4(127, 0, 0, 1, 5))),
            Some(Error::Bind(BindError::InvalidState))
        );
        for _ in 0..=round % 3 {
            let gone = live.remove(0);
            gone.drop(&mut net.stack, &mut net.state);
            assert_eq!(net.state.pool.used.iter().filter(|used| **used).count(), live.len());
        }
    }
}

#[test]
fn a_connected_socket_sends_to_its_remote() {
    let mut net = Net::new();
    let peer = net.bound(2);
    let socket = net.connected(3, 2);
    let waker = nobody();
    let mut cx = Context::from_waker(&waker);
    assert_eq!(
        socket.poll_connected_send(&mut net.stack, b"out", &mut cx),
        Poll::Ready(Ok(()))
    );
    net.run();
    let mut buf = [0; 3];
    assert_eq!(
        peer.poll_unconnected_receive_into(&mut net.stack, &mut buf, &mut cx),
        Poll::Ready(Ok((3, v4(127, 0, 0, 1, 2), v4(127, 0, 0, 1, 3))))
    );
    assert_eq!(&buf, b"out");
}

#[test]
fn sending_reports_no_route_and_waits_for_room() {
    let mut net = Net::new();
    let socket = net.bound(1);
    assert_eq!(
        net.send(&socket, v4(0, 0, 0, 0, 7), b"x"),
        Poll::Ready(Err(Error::Send(SendError::NoRoute)))
    );
    assert_eq!(net.send(&socket, v4(127, 0, 0, 1, 7), &[0; 65]), Poll::Pending);
    assert_eq!(net.send(&socket, v4(127, 0, 0, 1, 7), &[0; 64]), Poll::Ready(Ok(())));
    let lost = net.connected(2, 0);
    let waker = nobody();
    let mut cx = Context::from_waker(&waker);
    assert_eq!(
        lost.poll_connected_send(&mut net.stack, b"x", &mut cx),
        Poll::Ready(Err(Error::Send(SendError::NoRoute)))
    );
}

#[test]
fn splitting_gives_two_views_of_one_socket() {
    let mut net = Net::new();
    let mut socket = net.connected(1, 1);
    let (receive, send) = socket.split().unwrap();
    let waker = nobody();
    let mut cx = Context::from_waker(&waker);
    assert_eq!(send.poll_connected_send(&mut net.stack, b"me", &mut cx), Poll::Ready(Ok(())));
    net.run();
    let mut buf = [0; 2];
    assert_eq!(net.recv(receive, &mut buf), Poll::Ready(Ok(2)));
    assert_eq!(&buf, b"me");
}
