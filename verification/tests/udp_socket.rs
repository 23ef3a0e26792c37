use smoltcp::iface::{Config, Interface, SocketSet, SocketStorage};
use smoltcp::phy::{Loopback, Medium};
use smoltcp::socket::Socket;
use smoltcp::time::Instant;
use smoltcp::wire::{HardwareAddress, IpCidr};
use std::sync::atomic::{AtomicUsize, Ordering};
use std::sync::Arc;
use std::task::{Context, Wake, Waker};
use udp::addr::{IpAddress, IpEndpoint, IpListenEndpoint};
use udp::stack::SocketStack;
use udp::udp_socket::{BindError, PacketMetadata, Poll, RecvError, SendError, UdpSocket};

struct Count(AtomicUsize);

impl Wake for Count {
    fn wake(self: Arc<Self>) {
        self.0.fetch_add(1, Ordering::SeqCst);
    }
}

fn counter() -> (Arc<Count>, Waker) {
    let count = Arc::new(Count(AtomicUsize::new(0)));
    (count.clone(), Waker::from(count))
}

fn wakes(count: &Arc<Count>) -> usize {
    count.0.load(Ordering::SeqCst)
}

const LOCAL: IpAddress = IpAddress::Ipv4([127, 0, 0, 1]);
const LOCAL6: IpAddress = IpAddress::Ipv6([0xfd, 0, 0, 0, 0, 0, 0, 0, 0, 0, 0, 0, 0, 0, 0, 1]);

fn at(addr: IpAddress, port: u16) -> IpEndpoint {
    IpEndpoint { addr, port }
}

/// A stack on a loopback interface with the addresses `127.0.0.1` and `fd00::1`.
struct Net {
    stack: SocketStack,
    device: Loopback,
    iface: Interface,
}

impl Net {
    fn new() -> Net {
        let mut device = Loopback::new(Medium::Ip);
        let mut iface = Interface::new(
            Config::new(HardwareAddress::Ip),
            &mut device,
            Instant::from_millis(0),
        );
        iface.update_ip_addrs(|addrs| {
            addrs
                .push(IpCidr::new(smoltcp::wire::IpAddress::v4(127, 0, 0, 1), 8))
                .unwrap();
            addrs
                .push(IpCidr::new(
                    smoltcp::wire::IpAddress::v6(0xfd00, 0, 0, 0, 0, 0, 0, 1),
                    64,
                ))
                .unwrap();
        });
        Net { stack: SocketStack::new(1025), device, iface }
    }

    fn run(&mut self) {
        self.iface.poll(Instant::from_millis(1), &mut self.device, &mut self.stack.sockets);
    }

    fn socket(&mut self, packets: usize, bytes: usize) -> UdpSocket {
        UdpSocket::new(
            &mut self.stack,
            vec![PacketMetadata::EMPTY; packets],
            vec![0; bytes],
            vec![PacketMetadata::EMPTY; packets],
            vec![0; bytes],
        )
    }

    fn bound(&mut self, packets: usize, bytes: usize, port: u16) -> UdpSocket {
        let mut socket = self.socket(packets, bytes);
        assert_eq!(socket.bind(&mut self.stack, IpListenEndpoint::from(port)), Ok(()));
        socket
    }

    fn send(&mut self, socket: &UdpSocket, data: &[u8], to: IpEndpoint) -> Poll<Result<(), SendError>> {
        let (_, waker) = counter();
        socket.poll_send_to(&mut self.stack, data, to, &mut Context::from_waker(&waker))
    }

    fn recv(
        &mut self,
        socket: &UdpSocket,
        buf: &mut [u8],
    ) -> Poll<Result<(usize, IpEndpoint), RecvError>> {
        let (_, waker) = counter();
        socket.poll_recv_from(&mut self.stack, buf, &mut Context::from_waker(&waker))
    }
}

#[test]
fn new_socket_is_closed_with_the_given_capacities() {
    let mut net = Net::new();
    let socket = UdpSocket::new(
        &mut net.stack,
        vec![PacketMetadata::EMPTY; 3],
        vec![7; 50],
        vec![PacketMetadata::EMPTY; 5],
        vec![9; 80],
    );
    assert_eq!(socket.packet_recv_capacity(&net.stack), 3);
    assert_eq!(socket.payload_recv_capacity(&net.stack), 50);
    assert_eq!(socket.packet_send_capacity(&net.stack), 5);
    assert_eq!(socket.payload_send_capacity(&net.stack), 80);
    assert!(!socket.is_open(&net.stack));
    assert!(socket.may_send(&net.stack));
    assert!(!socket.may_recv(&mut net.stack));
    assert_eq!(socket.endpoint(&net.stack), IpListenEndpoint { addr: None, port: 0 });
    assert!(!net.stack.wake);
}

#[test]
fn a_socket_without_entries_takes_nothing() {
    let mut net = Net::new();
    let mut socket = UdpSocket::new(&mut net.stack, vec![], vec![0; 8], vec![], vec![0; 8]);
    assert!(!socket.may_send(&net.stack));
    assert_eq!(socket.bind(&mut net.stack, IpListenEndpoint::from(9)), Ok(()));
    assert_eq!(net.send(&socket, b"", at(LOCAL, 9)), Poll::Pending);
}

#[test]
fn bind_takes_the_endpoint() {
    let mut net = Net::new();
    let mut any = net.socket(1, 8);
    assert_eq!(any.bind(&mut net.stack, IpListenEndpoint::from(53)), Ok(()));
    assert_eq!(any.endpoint(&net.stack), IpListenEndpoint { addr: None, port: 53 });
    let mut v4 = net.socket(1, 8);
    assert_eq!(v4.bind(&mut net.stack, IpListenEndpoint::from((LOCAL, 54))), Ok(()));
    assert_eq!(v4.endpoint(&net.stack), IpListenEndpoint { addr: Some(LOCAL), port: 54 });
    let mut v6 = net.socket(1, 8);
    assert_eq!(v6.bind(&mut net.stack, IpListenEndpoint::from(at(LOCAL6, 55))), Ok(()));
    assert_eq!(v6.endpoint(&net.stack), IpListenEndpoint { addr: Some(LOCAL6), port: 55 });
    assert!(v6.is_open(&net.stack));
    assert!(net.stack.wake);
    assert_eq!(net.stack.next_local_port, 1025);
}

#[test]
fn bind_without_a_port_allocates_one() {
    let mut net = Net::new();
    let mut first = net.socket(1, 8);
    let mut second = net.socket(1, 8);
    assert_eq!(first.bind(&mut net.stack, IpListenEndpoint::from(0)), Ok(()));
    assert_eq!(second.bind(&mut net.stack, IpListenEndpoint::from((LOCAL, 0))), Ok(()));
    assert_eq!(first.endpoint(&net.stack), IpListenEndpoint { addr: None, port: 1025 });
    assert_eq!(second.endpoint(&net.stack), IpListenEndpoint { addr: Some(LOCAL), port: 1026 });
    assert_eq!(net.stack.next_local_port, 1027);
}

#[test]
fn bind_refuses_an_open_socket() {
    let mut net = Net::new();
    let mut socket = net.bound(1, 8, 53);
    assert_eq!(
        socket.bind(&mut net.stack, IpListenEndpoint::from(54)),
        Err(BindError::InvalidState)
    );
    assert_eq!(socket.endpoint(&net.stack), IpListenEndpoint { addr: None, port: 53 });
    // A dynamic port is used up all the same.
    assert_eq!(
        socket.bind(&mut net.stack, IpListenEndpoint::from(0)),
        Err(BindError::InvalidState)
    );
    assert_eq!(net.stack.next_local_port, 1026);
}

#[test]
fn bind_refuses_port_zero() {
    let mut net = Net::new();
    net.stack.next_local_port = 0;
    let mut socket = net.socket(1, 8);
    assert_eq!(socket.bind(&mut net.stack, IpListenEndpoint::from(0)), Err(BindError::NoRoute));
    assert!(!socket.is_open(&net.stack));
}

#[test]
fn close_then_bind_again() {
    let mut net = Net::new();
    let mut socket = net.bound(2, 16, 53);
    assert_eq!(net.send(&socket, b"abc", at(LOCAL, 53)), Poll::Ready(Ok(())));
    net.run();
    assert!(socket.may_recv(&mut net.stack));
    socket.close(&mut net.stack);
    assert!(!socket.is_open(&net.stack));
    assert!(!socket.may_recv(&mut net.stack));
    assert_eq!(socket.endpoint(&net.stack), IpListenEndpoint { addr: None, port: 0 });
    assert_eq!(socket.bind(&mut net.stack, IpListenEndpoint::from(54)), Ok(()));
    assert_eq!(socket.endpoint(&net.stack), IpListenEndpoint { addr: None, port: 54 });
    assert_eq!(net.recv(&socket, &mut [0; 16]), Poll::Pending);
}

#[test]
fn a_datagram_arrives_with_its_sender() {
    let mut net = Net::new();
    let sender = net.bound(2, 16, 1000);
    let receiver = net.bound(2, 16, 2000);
    assert_eq!(net.send(&sender, b"hello", at(LOCAL, 2000)), Poll::Ready(Ok(())));
    net.run();
    assert!(receiver.may_recv(&mut net.stack));
    let mut buf = [0xff; 8];
    assert_eq!(net.recv(&receiver, &mut buf), Poll::Ready(Ok((5, at(LOCAL, 1000)))));
    assert_eq!(&buf, b"hello\xff\xff\xff");
    assert!(!receiver.may_recv(&mut net.stack));
    assert_eq!(net.recv(&receiver, &mut buf), Poll::Pending);
}

#[test]
fn a_datagram_arrives_over_ipv6() {
    let mut net = Net::new();
    let sender = net.bound(2, 16, 1000);
    let receiver = net.bound(2, 16, 2000);
    assert_eq!(net.send(&sender, b"six", at(LOCAL6, 2000)), Poll::Ready(Ok(())));
    net.run();
    let mut buf = [0; 3];
    assert_eq!(net.recv(&receiver, &mut buf), Poll::Ready(Ok((3, at(LOCAL6, 1000)))));
    assert_eq!(&buf, b"six");
}

#[test]
fn datagrams_arrive_in_order() {
    let mut net = Net::new();
    let sender = net.bound(4, 64, 1000);
    let receiver = net.bound(4, 64, 2000);
    assert_eq!(net.send(&sender, b"one", at(LOCAL, 2000)), Poll::Ready(Ok(())));
    assert_eq!(net.send(&sender, b"two", at(LOCAL, 2000)), Poll::Ready(Ok(())));
    assert_eq!(net.send(&sender, b"", at(LOCAL, 2000)), Poll::Ready(Ok(())));
    net.run();
    let mut buf = [0; 3];
    assert_eq!(net.recv(&receiver, &mut buf), Poll::Ready(Ok((3, at(LOCAL, 1000)))));
    assert_eq!(&buf, b"one");
    assert_eq!(net.recv(&receiver, &mut buf), Poll::Ready(Ok((3, at(LOCAL, 1000)))));
    assert_eq!(&buf, b"two");
    assert_eq!(net.recv(&receiver, &mut buf), Poll::Ready(Ok((0, at(LOCAL, 1000)))));
    assert_eq!(&buf, b"two");
    assert_eq!(net.recv(&receiver, &mut buf), Poll::Pending);
}

#[test]
fn a_datagram_longer_than_the_buffer_is_lost() {
    let mut net = Net::new();
    let sender = net.bound(4, 64, 1000);
    let receiver = net.bound(4, 64, 2000);
    assert_eq!(net.send(&sender, b"too long", at(LOCAL, 2000)), Poll::Ready(Ok(())));
    assert_eq!(net.send(&sender, b"fits", at(LOCAL, 2000)), Poll::Ready(Ok(())));
    net.run();
    let mut buf = [0xee; 4];
    assert_eq!(net.recv(&receiver, &mut buf), Poll::Ready(Err(RecvError::Truncated)));
    assert_eq!(buf, [0xee; 4]);
    assert_eq!(net.recv(&receiver, &mut buf), Poll::Ready(Ok((4, at(LOCAL, 1000)))));
    assert_eq!(&buf, b"fits");
}

#[test]
fn a_buffer_of_full_size_is_never_too_short() {
    let mut net = Net::new();
    let sender = net.bound(4, 64, 1000);
    let receiver = net.bound(4, 64, 2000);
    assert_eq!(net.send(&sender, &[1; 64], at(LOCAL, 2000)), Poll::Ready(Ok(())));
    net.run();
    let mut buf = vec![0; receiver.payload_recv_capacity(&net.stack)];
    assert_eq!(net.recv(&receiver, &mut buf), Poll::Ready(Ok((64, at(LOCAL, 1000)))));
    assert_eq!(buf, vec![1; 64]);
}

#[test]
fn datagrams_survive_the_end_of_the_buffer() {
    let mut net = Net::new();
    let sender = net.bound(4, 64, 1000);
    let receiver = net.bound(4, 16, 2000);
    assert_eq!(net.send(&sender, b"aaaaaaaa", at(LOCAL, 2000)), Poll::Ready(Ok(())));
    assert_eq!(net.send(&sender, b"bbbb", at(LOCAL, 2000)), Poll::Ready(Ok(())));
    net.run();
    let mut buf = [0; 16];
    assert_eq!(net.recv(&receiver, &mut buf), Poll::Ready(Ok((8, at(LOCAL, 1000)))));
    assert_eq!(net.send(&sender, b"cccccc", at(LOCAL, 2000)), Poll::Ready(Ok(())));
    net.run();
    assert_eq!(net.recv(&receiver, &mut buf), Poll::Ready(Ok((4, at(LOCAL, 1000)))));
    assert_eq!(&buf[..4], b"bbbb");
    assert_eq!(net.recv(&receiver, &mut buf), Poll::Ready(Ok((6, at(LOCAL, 1000)))));
    assert_eq!(&buf[..6], b"cccccc");
}

#[test]
fn padding_alone_is_no_datagram() {
    let mut net = Net::new();
    let sender = net.bound(4, 64, 1000);
    let receiver = net.bound(2, 16, 2000);
    assert_eq!(net.send(&sender, b"aaaaaaaa", at(LOCAL, 2000)), Poll::Ready(Ok(())));
    assert_eq!(net.send(&sender, b"bbbb", at(LOCAL, 2000)), Poll::Ready(Ok(())));
    net.run();
    let mut buf = [0; 16];
    assert_eq!(net.recv(&receiver, &mut buf), Poll::Ready(Ok((8, at(LOCAL, 1000)))));
    // The last entry goes to padding, so the datagram itself is dropped.
    assert_eq!(net.send(&sender, b"cccccc", at(LOCAL, 2000)), Poll::Ready(Ok(())));
    net.run();
    assert_eq!(net.recv(&receiver, &mut buf), Poll::Ready(Ok((4, at(LOCAL, 1000)))));
    assert!(!receiver.may_recv(&mut net.stack));
    assert_eq!(net.recv(&receiver, &mut buf), Poll::Pending);
    assert!(!receiver.may_recv(&mut net.stack));
}

#[test]
fn padding_in_front_hides_no_datagram() {
    let mut net = Net::new();
    let sender = net.bound(4, 64, 1000);
    let receiver = net.bound(4, 16, 2000);
    assert_eq!(net.send(&sender, b"aaaaaaaa", at(LOCAL, 2000)), Poll::Ready(Ok(())));
    assert_eq!(net.send(&sender, b"bbbb", at(LOCAL, 2000)), Poll::Ready(Ok(())));
    net.run();
    let mut buf = [0; 16];
    assert_eq!(net.recv(&receiver, &mut buf), Poll::Ready(Ok((8, at(LOCAL, 1000)))));
    assert_eq!(net.send(&sender, b"cccccc", at(LOCAL, 2000)), Poll::Ready(Ok(())));
    net.run();
    assert_eq!(net.recv(&receiver, &mut buf), Poll::Ready(Ok((4, at(LOCAL, 1000)))));
    // What is left is padding and the datagram behind it.
    assert!(receiver.may_recv(&mut net.stack));
    assert!(receiver.may_recv(&mut net.stack));
    assert_eq!(net.recv(&receiver, &mut buf), Poll::Ready(Ok((6, at(LOCAL, 1000)))));
    assert_eq!(&buf[..6], b"cccccc");
    assert!(!receiver.may_recv(&mut net.stack));
}

#[test]
fn asking_for_a_datagram_changes_nothing() {
    let mut net = Net::new();
    let receiver = net.bound(2, 16, 2000);
    net.stack.take_wake();
    assert!(!receiver.may_recv(&mut net.stack));
    assert!(!net.stack.wake);
    assert_eq!(net.send(&receiver, b"", at(LOCAL, 2000)), Poll::Ready(Ok(())));
    net.run();
    net.stack.take_wake();
    assert!(receiver.may_recv(&mut net.stack));
    assert!(!net.stack.wake);
    assert_eq!(net.recv(&receiver, &mut []), Poll::Ready(Ok((0, at(LOCAL, 2000)))));
}

#[test]
fn an_unbound_socket_cannot_send() {
    let mut net = Net::new();
    let socket = net.socket(1, 8);
    let not_bound = Poll::Ready(Err(SendError::SocketNotBound));
    assert_eq!(net.send(&socket, b"x", at(LOCAL, 9)), not_bound);
    assert_eq!(net.send(&socket, b"x", at(LOCAL, 0)), not_bound);
    assert_eq!(net.send(&socket, b"longer than the buffer", at(LOCAL, 9)), not_bound);
}

#[test]
fn an_unspecified_remote_has_no_route() {
    let mut net = Net::new();
    let socket = net.bound(1, 8, 53);
    let no_route = Poll::Ready(Err(SendError::NoRoute));
    assert_eq!(net.send(&socket, b"x", at(LOCAL, 0)), no_route);
    assert_eq!(net.send(&socket, b"x", at(IpAddress::Ipv4([0, 0, 0, 0]), 9)), no_route);
    assert_eq!(net.send(&socket, b"x", at(IpAddress::Ipv4([0, 1, 2, 3]), 9)), no_route);
    assert_eq!(net.send(&socket, b"x", at(IpAddress::Ipv6([0; 16]), 9)), no_route);
    assert!(socket.may_send(&net.stack));
    let mut almost = [0; 16];
    almost[15] = 2;
    assert_eq!(net.send(&socket, b"x", at(IpAddress::Ipv6(almost), 9)), Poll::Ready(Ok(())));
}

#[test]
fn a_full_buffer_has_the_sender_wait() {
    let mut net = Net::new();
    let socket = net.bound(2, 16, 53);
    assert_eq!(net.send(&socket, &[0; 17], at(LOCAL, 9)), Poll::Pending);
    assert_eq!(net.send(&socket, &[1; 10], at(LOCAL, 9)), Poll::Ready(Ok(())));
    assert_eq!(net.send(&socket, &[2; 10], at(LOCAL, 9)), Poll::Pending);
    assert_eq!(net.send(&socket, &[2; 10], at(LOCAL, 9)), Poll::Pending);
    assert!(socket.may_send(&net.stack));
    assert_eq!(net.send(&socket, &[3; 6], at(LOCAL, 9)), Poll::Ready(Ok(())));
    assert!(!socket.may_send(&net.stack));
    assert_eq!(net.send(&socket, b"", at(LOCAL, 9)), Poll::Pending);
    net.run();
    assert!(socket.may_send(&net.stack));
    assert_eq!(net.send(&socket, &[2; 10], at(LOCAL, 9)), Poll::Ready(Ok(())));
}

#[test]
fn two_datagrams_share_the_buffer() {
    let mut net = Net::new();
    let mut socket = net.bound(2, 16, 53);
    for (first, second) in [(0, 16), (10, 6), (16, 0), (3, 13)] {
        assert_eq!(net.send(&socket, &vec![1; first], at(LOCAL, 9)), Poll::Ready(Ok(())));
        assert_eq!(net.send(&socket, &vec![2; second + 1], at(LOCAL, 9)), Poll::Pending);
        assert_eq!(net.send(&socket, &vec![2; second], at(LOCAL, 9)), Poll::Ready(Ok(())));
        socket.close(&mut net.stack);
        assert_eq!(socket.bind(&mut net.stack, IpListenEndpoint::from(53)), Ok(()));
    }
}

#[test]
fn datagrams_that_fit_together_are_all_taken() {
    let mut net = Net::new();
    let mut socket = net.bound(4, 16, 53);
    for lens in [[1, 1, 1, 1], [0, 0, 16, 0], [5, 5, 5, 1], [16, 0, 0, 0]] {
        for len in lens {
            // Refusals in between take no room away.
            assert_eq!(net.send(&socket, &[0; 17], at(LOCAL, 9)), Poll::Pending);
            assert_eq!(net.send(&socket, &vec![1; len], at(LOCAL, 9)), Poll::Ready(Ok(())));
        }
        assert_eq!(net.send(&socket, b"", at(LOCAL, 9)), Poll::Pending);
        socket.close(&mut net.stack);
        assert_eq!(socket.bind(&mut net.stack, IpListenEndpoint::from(53)), Ok(()));
    }
    for len in [7, 7] {
        assert_eq!(net.send(&socket, &vec![1; len], at(LOCAL, 9)), Poll::Ready(Ok(())));
    }
    assert_eq!(net.send(&socket, &[1; 3], at(LOCAL, 9)), Poll::Pending);
    assert_eq!(net.send(&socket, &[1; 2], at(LOCAL, 9)), Poll::Ready(Ok(())));
}

#[test]
fn the_waiting_reader_is_woken() {
    let mut net = Net::new();
    let sender = net.bound(2, 16, 1000);
    let receiver = net.bound(2, 16, 2000);
    let (count, waker) = counter();
    let mut cx = Context::from_waker(&waker);
    assert_eq!(receiver.poll_recv_from(&mut net.stack, &mut [0; 4], &mut cx), Poll::Pending);
    assert_eq!(wakes(&count), 0);
    assert_eq!(net.send(&sender, b"x", at(LOCAL, 2000)), Poll::Ready(Ok(())));
    net.run();
    assert_eq!(wakes(&count), 1);
    assert!(receiver.poll_recv_from(&mut net.stack, &mut [0; 4], &mut cx) != Poll::Pending);
    assert_eq!(net.send(&sender, b"x", at(LOCAL, 2000)), Poll::Ready(Ok(())));
    net.run();
    assert_eq!(wakes(&count), 1);
}

#[test]
fn only_the_last_waiting_reader_is_woken() {
    let mut net = Net::new();
    let mut socket = net.bound(2, 16, 2000);
    let (first, first_waker) = counter();
    let (second, second_waker) = counter();
    let mut cx = Context::from_waker(&first_waker);
    assert_eq!(socket.poll_recv_from(&mut net.stack, &mut [0; 4], &mut cx), Poll::Pending);
    let mut cx = Context::from_waker(&second_waker);
    assert_eq!(socket.poll_recv_from(&mut net.stack, &mut [0; 4], &mut cx), Poll::Pending);
    socket.close(&mut net.stack);
    assert_eq!(wakes(&first), 0);
    assert_eq!(wakes(&second), 1);
}

#[test]
fn the_waiting_sender_is_woken() {
    let mut net = Net::new();
    let socket = net.bound(1, 16, 1000);
    assert_eq!(net.send(&socket, b"x", at(LOCAL, 9)), Poll::Ready(Ok(())));
    let (count, waker) = counter();
    let mut cx = Context::from_waker(&waker);
    assert_eq!(
        socket.poll_send_to(&mut net.stack, b"y", at(LOCAL, 9), &mut cx),
        Poll::Pending
    );
    assert_eq!(wakes(&count), 0);
    net.run();
    assert_eq!(wakes(&count), 1);
    assert_eq!(
        socket.poll_send_to(&mut net.stack, b"y", at(LOCAL, 9), &mut cx),
        Poll::Ready(Ok(()))
    );
}

#[test]
fn every_change_asks_for_the_stack_to_run() {
    let mut net = Net::new();
    let mut socket = net.socket(1, 8);
    assert!(!net.stack.take_wake());
    assert_eq!(socket.bind(&mut net.stack, IpListenEndpoint::from(53)), Ok(()));
    assert!(net.stack.take_wake());
    assert!(!net.stack.take_wake());
    assert_eq!(net.recv(&socket, &mut [0; 4]), Poll::Pending);
    assert!(net.stack.take_wake());
    assert_eq!(net.send(&socket, b"x", at(LOCAL, 0)), Poll::Ready(Err(SendError::NoRoute)));
    assert!(net.stack.take_wake());
    socket.set_hop_limit(&mut net.stack, None);
    assert!(net.stack.take_wake());
    socket.close(&mut net.stack);
    assert!(net.stack.take_wake());
    socket.is_open(&net.stack);
    assert!(!net.stack.take_wake());
    socket.drop(&mut net.stack);
    assert!(!net.stack.take_wake());
}

fn hop_limits(net: &Net) -> Vec<Option<u8>> {
    net.stack
        .sockets
        .iter()
        .map(|(_, socket)| match socket {
            Socket::Udp(socket) => socket.hop_limit(),
        })
        .collect()
}

#[test]
fn the_hop_limit_outlives_a_close() {
    let mut net = Net::new();
    let _other = net.socket(1, 8);
    let mut socket = net.socket(1, 8);
    assert_eq!(hop_limits(&net), vec![None, None]);
    socket.set_hop_limit(&mut net.stack, Some(12));
    assert_eq!(hop_limits(&net), vec![None, Some(12)]);
    socket.close(&mut net.stack);
    assert_eq!(hop_limits(&net), vec![None, Some(12)]);
    socket.set_hop_limit(&mut net.stack, None);
    assert_eq!(hop_limits(&net), vec![None, None]);
}

#[test]
fn sockets_are_independent() {
    let mut net = Net::new();
    let first = net.bound(1, 8, 53);
    let mut second = net.bound(1, 8, 54);
    second.close(&mut net.stack);
    assert!(first.is_open(&net.stack));
    second.drop(&mut net.stack);
    assert_eq!(first.endpoint(&net.stack), IpListenEndpoint { addr: None, port: 53 });
    assert_eq!(net.stack.sockets.iter().count(), 1);
    let third = net.bound(1, 8, 55);
    assert_eq!(first.endpoint(&net.stack), IpListenEndpoint { addr: None, port: 53 });
    assert_eq!(third.endpoint(&net.stack), IpListenEndpoint { addr: None, port: 55 });
    first.drop(&mut net.stack);
    third.drop(&mut net.stack);
    assert_eq!(net.stack.sockets.iter().count(), 0);
}

#[test]
fn a_stack_with_fixed_storage_reuses_it() {
    let storage: &'static mut [SocketStorage<'static>] =
        Box::leak(Box::new([SocketStorage::EMPTY; 1]));
    let mut stack = SocketStack {
        sockets: SocketSet::new(storage),
        wake: false,
        next_local_port: 2000,
    };
    for port in [53, 54] {
        let mut socket = UdpSocket::new(
            &mut stack,
            vec![PacketMetadata::EMPTY; 1],
            vec![0; 4],
            vec![PacketMetadata::EMPTY; 1],
            vec![0; 4],
        );
        assert_eq!(socket.bind(&mut stack, IpListenEndpoint::from(port)), Ok(()));
        assert_eq!(socket.endpoint(&stack).port, port);
        socket.drop(&mut stack);
        assert_eq!(stack.sockets.iter().count(), 0);
    }
}
