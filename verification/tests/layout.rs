use smoltcp::iface::{Config, Interface};
use smoltcp::phy::{Device, DeviceCapabilities, Medium, RxToken, TxToken};
use smoltcp::time::Instant;
use smoltcp::wire::{HardwareAddress, IpCidr};
use std::sync::Arc;
use std::task::{Context, Wake, Waker};
use udp::addr::{IpAddress, IpEndpoint, IpListenEndpoint};
use udp::stack::SocketStack;
use udp::udp_socket::{PacketMetadata, Poll, SendError, UdpSocket};

/// A device that receives nothing, and transmits as many packets as it is allowed to.
struct Trickle {
    allowed: usize,
}

struct Nothing;

impl RxToken for Nothing {
    fn consume<R, F>(self, _f: F) -> R
    where
        F: FnOnce(&mut [u8]) -> R,
    {
        unreachable!()
    }
}

struct Gone;

impl TxToken for Gone {
    fn consume<R, F>(self, len: usize, f: F) -> R
    where
        F: FnOnce(&mut [u8]) -> R,
    {
        f(&mut vec![0; len])
    }
}

impl Device for Trickle {
    type RxToken<'a> = Nothing;
    type TxToken<'a> = Gone;

    fn receive(&mut self, _timestamp: Instant) -> Option<(Nothing, Gone)> {
        None
    }

    fn transmit(&mut self, _timestamp: Instant) -> Option<Gone> {
        if self.allowed == 0 {
            return None;
        }
        self.allowed -= 1;
        Some(Gone)
    }

    fn capabilities(&self) -> DeviceCapabilities {
        let mut capabilities = DeviceCapabilities::default();
        capabilities.medium = Medium::Ip;
        capabilities.max_transmission_unit = 1500;
        capabilities
    }
}

struct Nobody;

impl Wake for Nobody {
    fn wake(self: Arc<Self>) {}
}

/// A bound socket on a stack whose device sends one packet at a time.
struct Net {
    stack: SocketStack,
    device: Trickle,
    iface: Interface,
    socket: UdpSocket,
}

impl Net {
    fn new(packets: usize, bytes: usize) -> Net {
        let mut device = Trickle { allowed: 0 };
        let now = Instant::from_millis(0);
        let mut iface = Interface::new(Config::new(HardwareAddress::Ip), &mut device, now);
        iface.update_ip_addrs(|addrs| {
            addrs.push(IpCidr::new(smoltcp::wire::IpAddress::v4(10, 0, 0, 1), 8)).unwrap();
        });
        let mut stack = SocketStack::new(1025);
        let mut socket = UdpSocket::new(
            &mut stack,
            vec![],
            vec![],
            vec![PacketMetadata::EMPTY; packets],
            vec![0; bytes],
        );
        assert_eq!(socket.bind(&mut stack, IpListenEndpoint::from(1000)), Ok(()));
        Net { stack, device, iface, socket }
    }

    fn send(&mut self, len: usize) -> bool {
        let waker = Waker::from(Arc::new(Nobody));
        let to = IpEndpoint { addr: IpAddress::Ipv4([10, 0, 0, 2]), port: 9 };
        let mut cx = Context::from_waker(&waker);
        let sent = self.socket.poll_send_to(&mut self.stack, &vec![1; len], to, &mut cx);
        let taken: Poll<Result<(), SendError>> = Poll::Ready(Ok(()));
        assert!(sent == taken || sent == Poll::Pending);
        sent == taken
    }

    fn one_leaves(&mut self) {
        self.device.allowed = 1;
        self.iface.poll(Instant::from_millis(1), &mut self.device, &mut self.stack.sockets);
        assert_eq!(self.device.allowed, 0);
    }

    fn may_send(&self) -> bool {
        self.socket.may_send(&self.stack)
    }

    /// The buffer with four bytes behind the last datagram and eight in front of it.
    fn with_a_gap(packets: usize) -> Net {
        let mut net = Net::new(packets, 16);
        assert!(net.send(8));
        assert!(net.send(4));
        net.one_leaves();
        net
    }
}

#[test]
fn a_datagram_at_the_beginning_costs_an_entry_of_padding() {
    let mut net = Net::with_a_gap(4);
    assert!(!net.send(9));
    assert!(net.send(6));
    assert!(!net.send(3));
    assert!(net.may_send());
    assert!(net.send(2));
    assert!(!net.may_send());
    assert!(!net.send(0));
}

#[test]
fn a_datagram_at_the_beginning_can_take_the_last_two_entries() {
    let mut net = Net::with_a_gap(3);
    assert!(net.send(8));
    assert!(!net.may_send());
}

#[test]
fn the_last_entry_is_lost_to_padding() {
    let mut net = Net::with_a_gap(3);
    assert!(net.send(0));
    assert!(!net.send(9));
    assert!(net.may_send());
    assert!(!net.send(5));
    assert!(!net.may_send());
    assert!(!net.send(0));
}

#[test]
fn behind_a_full_end_comes_the_beginning() {
    let mut net = Net::with_a_gap(5);
    assert!(net.send(4));
    assert!(net.send(3));
    assert!(!net.send(6));
    assert!(net.send(5));
    assert!(net.may_send());
    assert!(!net.send(1));
    assert!(net.send(0));
    assert!(!net.may_send());
}

#[test]
fn a_datagram_that_does_not_fill_the_end_leaves_the_beginning_apart() {
    let mut net = Net::with_a_gap(6);
    assert!(net.send(3));
    assert!(!net.send(9));
    assert!(net.send(1));
    assert!(net.send(8));
    assert!(!net.send(1));
    assert!(net.may_send());
}

#[test]
fn an_emptied_buffer_is_free_from_end_to_end() {
    let mut net = Net::with_a_gap(2);
    net.one_leaves();
    assert!(net.send(16));
    assert!(net.may_send());
    assert!(!net.send(1));
    assert!(net.send(0));
    assert!(!net.may_send());
}
