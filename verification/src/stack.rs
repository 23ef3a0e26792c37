//! The part of a network stack that its sockets share: the socket set, the allocation of
//! dynamic ports, and the signal to the task that runs the stack.

use crate::socket::{
    set_has_room, set_others, set_slots, set_udp, socket_set_new, UdpState,
};
use smoltcp::iface::{SocketHandle, SocketSet};
use vstd::prelude::*;

verus! {

/// The smallest port that is handed out dynamically.
pub const LOCAL_PORT_MIN: u16 = 1025;

/// The largest port that is handed out dynamically.
pub const LOCAL_PORT_MAX: u16 = 65535;

/// What the sockets of a stack share.
pub struct SocketStack {
    /// The sockets.
    pub sockets: SocketSet<'static>,
    /// Whether the task that runs the stack is to be woken, since a socket has changed.
    pub wake: bool,
    /// The next port to hand out dynamically.
    pub next_local_port: u16,
}

/// The port that is handed out after `port`.
pub open spec fn port_after(port: u16) -> u16 {
    if port >= LOCAL_PORT_MAX {
        LOCAL_PORT_MIN
    } else {
        (port + 1) as u16
    }
}

impl SocketStack {
    /// The UDP sockets of the stack.
    pub open spec fn udp_sockets(self) -> Map<SocketHandle, UdpState> {
        set_udp(self.sockets)
    }

    /// The handles of the sockets of the stack that are not UDP sockets.
    pub open spec fn others(self) -> Set<SocketHandle> {
        set_others(self.sockets)
    }

    /// The number of sockets that the stack has storage for, or `None` where its storage grows.
    pub open spec fn slots(self) -> Option<nat> {
        set_slots(self.sockets)
    }

    /// Whether the stack has storage for one more socket.
    pub open spec fn has_room(self) -> bool {
        set_has_room(self.sockets)
    }

    /// Whether every port that will be handed out lies in the dynamic range.
    pub open spec fn ports_valid(self) -> bool {
        LOCAL_PORT_MIN <= self.next_local_port
    }

    /// The stack differs from `pre` in its UDP sockets alone, which are now `sockets`, and in that
    /// the task that runs it is to be woken.
    pub open spec fn changed_to(self, pre: Self, sockets: Map<SocketHandle, UdpState>) -> bool {
        &&& self.udp_sockets() == sockets
        &&& self.others() == pre.others()
        &&& self.slots() == pre.slots()
        &&& self.next_local_port == pre.next_local_port
        &&& self.wake
    }

    /// A stack without sockets, whose storage grows, and which hands out dynamic ports from
    /// `next_local_port` on.
    pub fn new(next_local_port: u16) -> (stack: Self)
        ensures
            stack.udp_sockets() == Map::<SocketHandle, UdpState>::empty(),
            stack.others() == Set::<SocketHandle>::empty(),
            stack.slots() is None,
            stack.next_local_port == next_local_port,
            !stack.wake,
    {
        SocketStack { sockets: socket_set_new(), wake: false, next_local_port }
    }

    /// Hands out the next dynamic port.
    pub fn get_local_port(&mut self) -> (port: u16)
        ensures
            port == old(self).next_local_port,
            final(self).next_local_port == port_after(port),
            final(self).sockets == old(self).sockets,
            final(self).wake == old(self).wake,
    {
        let port: u16 = self.next_local_port;
        self.next_local_port = if port >= LOCAL_PORT_MAX {
            LOCAL_PORT_MIN
        } else {
            port + 1
        };
        port
    }

    /// Whether the task that runs the stack is to be woken; asking withdraws the request.
    pub fn take_wake(&mut self) -> (wake: bool)
        ensures
            wake == old(self).wake,
            !final(self).wake,
            final(self).sockets == old(self).sockets,
            final(self).next_local_port == old(self).next_local_port,
    {
        let wake = self.wake;
        self.wake = false;
        wake
    }
}

/// Dynamic ports stay in the dynamic range: the port that is handed out is in it, and so is
/// every one after it.
pub proof fn law_dynamic_port_in_range(port: u16)
    requires
        LOCAL_PORT_MIN <= port,
    ensures
        LOCAL_PORT_MIN <= port_after(port) <= LOCAL_PORT_MAX,
        port_after(port) != port,
{
}

/// The port that is handed out after `count` others, starting with `port`.
pub open spec fn port_after_many(port: u16, count: nat) -> u16
    decreases count,
{
    if count == 0 {
        port
    } else {
        port_after(port_after_many(port, (count - 1) as nat))
    }
}

/// No dynamic port is handed out a second time before every other one has been handed out.
pub proof fn law_dynamic_ports_rotate(port: u16, count: nat)
    requires
        LOCAL_PORT_MIN <= port,
        0 < count < LOCAL_PORT_MAX - LOCAL_PORT_MIN + 1,
    ensures
        port_after_many(port, count) != port,
        port_after_many(port, (LOCAL_PORT_MAX - LOCAL_PORT_MIN + 1) as nat) == port,
{
    lemma_port_after_many(port, count);
    lemma_port_after_many(port, (LOCAL_PORT_MAX - LOCAL_PORT_MIN + 1) as nat);
}

/// Going through the dynamic ports is counting modulo their number.
proof fn lemma_port_after_many(port: u16, count: nat)
    requires
        LOCAL_PORT_MIN <= port,
        count <= LOCAL_PORT_MAX - LOCAL_PORT_MIN + 1,
    ensures
        port_after_many(port, count) == if port + count <= LOCAL_PORT_MAX {
            port + count
        } else {
            port + count - (LOCAL_PORT_MAX - LOCAL_PORT_MIN + 1)
        },
    decreases count,
{
    if count > 0 {
        lemma_port_after_many(port, (count - 1) as nat);
    }
}

} // verus!
