//! What holds of the library as a whole, over every state and from one operation to the next.

use crate::addr::{IpEndpoint, IpListenEndpoint};
use crate::nal::{
    addr_of, connected_recv_outcome, drop_outcome, endpoint_of, ends_wait, made_outcome,
    open_outcome, overlay_all, passed_over, Error, SocketAddr, UdpNalStackState, UdpSocket2,
};
use crate::pool::{
    all_used, first_free, law_allocate_counts, law_free_counts, law_new_pool_counts_none,
    law_pool_serves_as_many_as_slots, used_count,
};
use crate::socket::{lemma_total_push, total, Datagram, UdpState};
use crate::stack::{SocketStack, LOCAL_PORT_MAX, LOCAL_PORT_MIN};
use crate::udp_socket::{
    after_bind, after_close, bind_outcome, bind_result, overlay, recv_outcome, send_outcome,
    BindError, Poll, RecvError, SendError, UdpSocket,
};
use smoltcp::iface::SocketHandle;
use vstd::prelude::*;

verus! {

/// Binding, closing and setting the hop limit keep a socket valid, and no operation changes how
/// many datagrams and bytes the buffers were made for.
pub proof fn law_capacities_are_fixed(
    pre: UdpState,
    endpoint: IpListenEndpoint,
    hop_limit: Option<u8>,
)
    requires
        pre.valid(),
        hop_limit != Some(0u8),
    ensures
        after_bind(pre, endpoint).valid(),
        after_bind(pre, endpoint).same_capacities(pre),
        after_close(pre).valid(),
        after_close(pre).same_capacities(pre),
        (UdpState { hop_limit, ..pre }).valid(),
        (UdpState { hop_limit, ..pre }).same_capacities(pre),
{
}

/// Receiving changes neither the local endpoint, nor what waits to be sent, nor the hop limit,
/// nor the capacities of the buffers.
pub proof fn law_recv_keeps_the_sending_side(
    pre: UdpState,
    buf: Seq<u8>,
    task: int,
    post: UdpState,
    filled: Seq<u8>,
    result: Poll<Result<(usize, IpEndpoint), RecvError>>,
)
    requires
        recv_outcome(pre, buf, task, post, filled, result),
    ensures
        post.endpoint == pre.endpoint,
        post.tx == pre.tx,
        post.tx_free == pre.tx_free,
        post.tx_tail == pre.tx_tail,
        post.tx_front == pre.tx_front,
        post.send_waiter == pre.send_waiter,
        post.hop_limit == pre.hop_limit,
        post.same_capacities(pre),
        filled.len() == buf.len(),
{
}

/// Sending changes neither the local endpoint, nor what was received, nor the hop limit, nor
/// the capacities of the buffers; and no datagram that waits to be sent is lost or moved.
pub proof fn law_send_keeps_the_receiving_side(
    pre: UdpState,
    data: Seq<u8>,
    remote: IpEndpoint,
    task: int,
    post: UdpState,
    result: Poll<Result<(), SendError>>,
)
    requires
        send_outcome(pre, data, remote, task, post, result),
    ensures
        post.endpoint == pre.endpoint,
        post.rx == pre.rx,
        post.recv_waiter == pre.recv_waiter,
        post.hop_limit == pre.hop_limit,
        post.same_capacities(pre),
        pre.tx.is_prefix_of(post.tx),
{
}

/// Datagrams come out in the order in which they came in, each of them once: as long as every
/// buffer is large enough, the reads of a socket that receives nothing meanwhile return the
/// received datagrams one after the other, and find nothing once all have been read.
pub proof fn law_received_in_order(
    states: Seq<UdpState>,
    bufs: Seq<Seq<u8>>,
    tasks: Seq<int>,
    filled: Seq<Seq<u8>>,
    results: Seq<Poll<Result<(usize, IpEndpoint), RecvError>>>,
    n: int,
)
    requires
        states.len() == results.len() + 1,
        0 <= n < results.len(),
        forall|i: int|
            0 <= i < results.len() ==> #[trigger] recv_outcome(
                states[i],
                bufs[i],
                tasks[i],
                states[i + 1],
                filled[i],
                results[i],
            ),
        forall|i: int|
            0 <= i < results.len() && i < states[0].rx.len() ==> states[0].rx[i].payload.len() <= (
            #[trigger] bufs[i]).len(),
    ensures
        if n < states[0].rx.len() {
            let datagram = states[0].rx[n];
            &&& results[n] matches Poll::Ready(Ok((len, endpoint))) && len == datagram.payload.len()
                && endpoint == datagram.endpoint
            &&& filled[n].take(datagram.payload.len() as int) == datagram.payload
            &&& filled[n].skip(datagram.payload.len() as int) == bufs[n].skip(
                datagram.payload.len() as int,
            )
        } else {
            results[n] is Pending
        },
{
    lemma_read_off(states, bufs, tasks, filled, results, n);
    assert(recv_outcome(states[n], bufs[n], tasks[n], states[n + 1], filled[n], results[n]));
    if n < states[0].rx.len() {
        let payload = states[0].rx[n].payload;
        assert(bufs[n].len() >= payload.len());
        assert(states[n].rx[0] == states[0].rx[n]);
        assert(filled[n] == overlay(bufs[n], payload));
        assert(filled[n].take(payload.len() as int) =~= payload);
        assert(filled[n].skip(payload.len() as int) =~= bufs[n].skip(payload.len() as int));
    }
}

/// After `n` reads the first `n` datagrams are gone, and the others are still there.
proof fn lemma_read_off(
    states: Seq<UdpState>,
    bufs: Seq<Seq<u8>>,
    tasks: Seq<int>,
    filled: Seq<Seq<u8>>,
    results: Seq<Poll<Result<(usize, IpEndpoint), RecvError>>>,
    n: int,
)
    requires
        states.len() == results.len() + 1,
        0 <= n <= results.len(),
        forall|i: int|
            0 <= i < results.len() ==> #[trigger] recv_outcome(
                states[i],
                bufs[i],
                tasks[i],
                states[i + 1],
                filled[i],
                results[i],
            ),
    ensures
        states[n].rx == if n <= states[0].rx.len() {
            states[0].rx.skip(n)
        } else {
            Seq::empty()
        },
    decreases n,
{
    if n == 0 {
        assert(states[0].rx.skip(0) =~= states[0].rx);
    } else {
        lemma_read_off(states, bufs, tasks, filled, results, n - 1);
        assert(recv_outcome(
            states[n - 1],
            bufs[n - 1],
            tasks[n - 1],
            states[n - 1 + 1],
            filled[n - 1],
            results[n - 1],
        ));
        assert(states[n].rx =~= if n <= states[0].rx.len() {
            states[0].rx.skip(n)
        } else {
            Seq::empty()
        });
    }
}

/// Datagrams wait to be sent in the order in which they were accepted, each of them once, with
/// its payload and its remote endpoint as they were given: after sends that all succeeded they
/// stand at the end of what waited before.
pub proof fn law_sent_in_order(
    states: Seq<UdpState>,
    datagrams: Seq<Datagram>,
    tasks: Seq<int>,
)
    requires
        states.len() == datagrams.len() + 1,
        forall|i: int|
            0 <= i < datagrams.len() ==> #[trigger] send_outcome(
                states[i],
                datagrams[i].payload,
                datagrams[i].endpoint,
                tasks[i],
                states[i + 1],
                Poll::Ready(Ok(())),
            ),
    ensures
        states.last().tx == states[0].tx + datagrams,
    decreases datagrams.len(),
{
    if datagrams.len() == 0 {
        assert(states[0].tx + datagrams =~= states[0].tx);
    } else {
        let n = datagrams.len() - 1;
        let fewer = datagrams.drop_last();
        assert forall|i: int| 0 <= i < fewer.len() implies #[trigger] send_outcome(
            states.drop_last()[i],
            fewer[i].payload,
            fewer[i].endpoint,
            tasks[i],
            states.drop_last()[i + 1],
            Poll::Ready(Ok(())),
        ) by {
            assert(send_outcome(
                states[i],
                datagrams[i].payload,
                datagrams[i].endpoint,
                tasks[i],
                states[i + 1],
                Poll::Ready(Ok(())),
            ));
        }
        law_sent_in_order(states.drop_last(), fewer, tasks);
        assert(send_outcome(
            states[n],
            datagrams[n].payload,
            datagrams[n].endpoint,
            tasks[n],
            states[n + 1],
            Poll::Ready(Ok(())),
        ));
        assert(states[n].tx == states[0].tx + fewer);
        assert(states[0].tx + datagrams =~= (states[0].tx + fewer).push(datagrams[n]));
    }
}

/// A socket that is not bound sends nothing, and says so whatever is to be sent to whom; one
/// that is bound never says so.
pub proof fn law_only_a_bound_socket_sends(
    pre: UdpState,
    data: Seq<u8>,
    remote: IpEndpoint,
    task: int,
    post: UdpState,
    result: Poll<Result<(), SendError>>,
)
    requires
        send_outcome(pre, data, remote, task, post, result),
    ensures
        !pre.is_open() <==> result == Poll::<Result<(), SendError>>::Ready(
            Err(SendError::SocketNotBound),
        ),
        !pre.is_open() ==> post == pre,
{
}

/// A socket is bound at most once: a second attempt is refused and changes nothing, until the
/// socket is closed. Then it can be bound again, to any endpoint with a port.
pub proof fn law_bound_until_closed(
    pre: UdpState,
    first: IpListenEndpoint,
    second: IpListenEndpoint,
)
    requires
        bind_result(pre, first) is Ok,
        second.port != 0,
    ensures
        after_bind(pre, first).is_open(),
        bind_result(after_bind(pre, first), second) == Err::<(), BindError>(
            BindError::InvalidState,
        ),
        after_bind(after_bind(pre, first), second) == after_bind(pre, first),
        !after_close(after_bind(pre, first)).is_open(),
        bind_result(after_close(after_bind(pre, first)), second) is Ok,
        after_bind(after_close(after_bind(pre, first)), second).endpoint == second,
{
}

/// Closing forgets: nothing received and nothing waiting to be sent outlives it, the whole of
/// both buffers is free again, and closing a second time changes nothing.
pub proof fn law_close_forgets(pre: UdpState)
    ensures
        after_close(pre).rx.len() == 0,
        after_close(pre).tx.len() == 0,
        after_close(pre).compact(),
        after_close(pre).recv_waiter is None,
        after_close(pre).send_waiter is None,
        after_close(after_close(pre)) == after_close(pre),
{
}

/// Where ports are handed out from the dynamic range, a closed socket is always bound: to the
/// endpoint that was asked for, or, where that has no port, to its address and a port of the
/// dynamic range. Ports are handed out from the dynamic range afterwards, too.
pub proof fn law_bind_finds_a_port(
    pre: SocketStack,
    handle: SocketHandle,
    endpoint: IpListenEndpoint,
    post: SocketStack,
    result: Result<(), BindError>,
)
    requires
        bind_outcome(pre, handle, endpoint, post, result),
        pre.ports_valid(),
    ensures
        result is Ok <==> !pre.udp_sockets()[handle].is_open(),
        result is Err ==> result == Err::<(), BindError>(BindError::InvalidState),
        post.ports_valid(),
        result is Ok ==> {
            let bound = post.udp_sockets()[handle].endpoint;
            &&& bound.addr == endpoint.addr
            &&& endpoint.port != 0 ==> bound.port == endpoint.port
            &&& endpoint.port == 0 ==> LOCAL_PORT_MIN <= bound.port <= LOCAL_PORT_MAX
        },
{
}

/// A buffer as large as the receive buffer never loses a datagram to truncation.
pub proof fn law_large_buffer_never_truncates(
    pre: UdpState,
    buf: Seq<u8>,
    task: int,
    post: UdpState,
    filled: Seq<u8>,
    result: Poll<Result<(usize, IpEndpoint), RecvError>>,
)
    requires
        recv_outcome(pre, buf, task, post, filled, result),
        buf.len() >= pre.rx_bytes,
    ensures
        !(result matches Poll::Ready(Err(_))),
{
}

/// Whoever is told to wait has the current task registered, and that task alone.
pub proof fn law_pending_registers_the_task(
    pre: UdpState,
    buf: Seq<u8>,
    task: int,
    after_recv: UdpState,
    filled: Seq<u8>,
    received: Poll<Result<(usize, IpEndpoint), RecvError>>,
    data: Seq<u8>,
    remote: IpEndpoint,
    after_send: UdpState,
    sent: Poll<Result<(), SendError>>,
)
    requires
        recv_outcome(pre, buf, task, after_recv, filled, received),
        send_outcome(pre, data, remote, task, after_send, sent),
    ensures
        received is Pending ==> after_recv.recv_waiter == Some(task),
        received is Ready ==> after_recv.recv_waiter == pre.recv_waiter,
        sent is Pending ==> after_send.send_waiter == Some(task),
        sent is Ready ==> after_send.send_waiter == pre.send_waiter,
{
}

/// A datagram that had to wait for room has to wait as long as nothing leaves the transmit
/// buffer, and so does any datagram that is not shorter.
pub proof fn law_full_until_something_leaves(
    pre: UdpState,
    data: Seq<u8>,
    remote: IpEndpoint,
    task: int,
    mid: UdpState,
    longer: Seq<u8>,
    other: IpEndpoint,
    other_task: int,
    post: UdpState,
    result: Poll<Result<(), SendError>>,
)
    requires
        send_outcome(pre, data, remote, task, mid, Poll::Pending),
        send_outcome(mid, longer, other, other_task, post, result),
        longer.len() >= data.len(),
        pre.addressable(other),
    ensures
        result is Pending,
        post.tx == pre.tx,
{
}

/// Sending is determined: what a socket holds, the datagram and the current task decide what is
/// returned and what the socket holds afterwards, down to the room that is left for the next
/// datagram.
pub proof fn law_send_is_determined(
    pre: UdpState,
    data: Seq<u8>,
    remote: IpEndpoint,
    task: int,
    first: UdpState,
    first_result: Poll<Result<(), SendError>>,
    second: UdpState,
    second_result: Poll<Result<(), SendError>>,
)
    requires
        send_outcome(pre, data, remote, task, first, first_result),
        send_outcome(pre, data, remote, task, second, second_result),
    ensures
        first == second,
        first_result == second_result,
{
}

/// Sending makes no room, and a shorter payload fits wherever a longer one does.
pub proof fn law_sending_makes_no_room(
    pre: UdpState,
    data: Seq<u8>,
    remote: IpEndpoint,
    task: int,
    post: UdpState,
    result: Poll<Result<(), SendError>>,
    len: nat,
    shorter: nat,
)
    requires
        send_outcome(pre, data, remote, task, post, result),
        shorter <= len,
    ensures
        post.fits(len) ==> pre.fits(len),
        pre.fits(len) ==> pre.fits(shorter),
{
}

/// A socket stays ready to send after a datagram was taken exactly if an entry is left: the
/// datagram took one, and another one went to padding where the datagram was put at the
/// beginning of the transmit buffer.
pub proof fn law_may_send_again(
    pre: UdpState,
    data: Seq<u8>,
    remote: IpEndpoint,
    task: int,
    post: UdpState,
)
    requires
        send_outcome(pre, data, remote, task, post, Poll::Ready(Ok(()))),
    ensures
        post.fits(0) <==> pre.tx_free > if pre.wraps(data.len()) {
            2int
        } else {
            1
        },
{
}

/// Sending loses no room: over any run of sends into a transmit buffer that has lost none, and as
/// long as nothing leaves it, an addressable datagram is taken exactly if an entry is free and it
/// fits with those that wait already, and waits otherwise.
pub proof fn law_takes_what_fits(
    states: Seq<UdpState>,
    datagrams: Seq<Datagram>,
    tasks: Seq<int>,
    results: Seq<Poll<Result<(), SendError>>>,
    n: int,
)
    requires
        states.len() == results.len() + 1,
        0 <= n < results.len(),
        states[0].compact(),
        states[0].addressable(datagrams[n].endpoint),
        forall|i: int|
            0 <= i < results.len() ==> #[trigger] send_outcome(
                states[i],
                datagrams[i].payload,
                datagrams[i].endpoint,
                tasks[i],
                states[i + 1],
                results[i],
            ),
    ensures
        results[n] == Poll::<Result<(), SendError>>::Ready(Ok(())) <==> states[n].tx.len()
            < states[0].tx_packets && total(states[n].tx) + datagrams[n].payload.len()
            <= states[0].tx_bytes,
        results[n] is Pending <==> results[n] != Poll::<Result<(), SendError>>::Ready(Ok(())),
{
    lemma_stays_compact(states, datagrams, tasks, results, n);
    assert(send_outcome(
        states[n],
        datagrams[n].payload,
        datagrams[n].endpoint,
        tasks[n],
        states[n + 1],
        results[n],
    ));
}

/// Sending keeps a buffer that has lost no room so, and keeps its sizes and the local endpoint.
proof fn lemma_stays_compact(
    states: Seq<UdpState>,
    datagrams: Seq<Datagram>,
    tasks: Seq<int>,
    results: Seq<Poll<Result<(), SendError>>>,
    n: int,
)
    requires
        states.len() == results.len() + 1,
        0 <= n <= results.len(),
        states[0].compact(),
        forall|i: int|
            0 <= i < results.len() ==> #[trigger] send_outcome(
                states[i],
                datagrams[i].payload,
                datagrams[i].endpoint,
                tasks[i],
                states[i + 1],
                results[i],
            ),
    ensures
        states[n].compact(),
        states[n].same_capacities(states[0]),
        states[n].endpoint == states[0].endpoint,
    decreases n,
{
    if n > 0 {
        lemma_stays_compact(states, datagrams, tasks, results, n - 1);
        assert(send_outcome(
            states[n - 1],
            datagrams[n - 1].payload,
            datagrams[n - 1].endpoint,
            tasks[n - 1],
            states[n - 1 + 1],
            results[n - 1],
        ));
        lemma_total_push(states[n - 1].tx, datagrams[n - 1]);
    }
}

/// A new socket has the whole of its transmit buffer free, and so has it once it is bound.
pub proof fn law_new_buffer_is_free(
    rx_packets: nat,
    rx_bytes: nat,
    tx_packets: nat,
    tx_bytes: nat,
    endpoint: IpListenEndpoint,
)
    ensures
        ({
            let fresh = UdpState::fresh(rx_packets, rx_bytes, tx_packets, tx_bytes);
            &&& fresh.valid() && fresh.compact() && fresh.tx.len() == 0
            &&& after_bind(fresh, endpoint).compact() && after_bind(fresh, endpoint).tx.len() == 0
        }),
{
}

/// Datagrams that fit together into an empty transmit buffer are all taken by it, one after the
/// other.
pub proof fn law_datagrams_that_fit_are_taken(
    states: Seq<UdpState>,
    datagrams: Seq<Datagram>,
    tasks: Seq<int>,
    results: Seq<Poll<Result<(), SendError>>>,
    n: int,
)
    requires
        states.len() == results.len() + 1,
        datagrams.len() == results.len(),
        0 <= n <= results.len(),
        states[0].tx.len() == 0,
        states[0].compact(),
        datagrams.len() <= states[0].tx_packets,
        total(datagrams) <= states[0].tx_bytes,
        forall|i: int|
            0 <= i < datagrams.len() ==> states[0].addressable((#[trigger] datagrams[i]).endpoint),
        forall|i: int|
            0 <= i < results.len() ==> #[trigger] send_outcome(
                states[i],
                datagrams[i].payload,
                datagrams[i].endpoint,
                tasks[i],
                states[i + 1],
                results[i],
            ),
    ensures
        n < results.len() ==> results[n] == Poll::<Result<(), SendError>>::Ready(Ok(())),
        states[n].tx == datagrams.take(n),
    decreases n,
{
    if n == 0 {
        assert(states[0].tx =~= datagrams.take(0));
    } else {
        law_datagrams_that_fit_are_taken(states, datagrams, tasks, results, n - 1);
        assert(send_outcome(
            states[n - 1],
            datagrams[n - 1].payload,
            datagrams[n - 1].endpoint,
            tasks[n - 1],
            states[n - 1 + 1],
            results[n - 1],
        ));
        assert(datagrams.take(n) =~= datagrams.take(n - 1).push(datagrams[n - 1]));
    }
    if n < results.len() {
        law_takes_what_fits(states, datagrams, tasks, results, n);
        lemma_total_take(datagrams, n + 1);
        assert(datagrams.take(n + 1).drop_last() =~= datagrams.take(n));
    }
}

/// Fewer datagrams have no more bytes.
proof fn lemma_total_take(datagrams: Seq<Datagram>, n: int)
    requires
        0 <= n <= datagrams.len(),
    ensures
        total(datagrams.take(n)) <= total(datagrams),
    decreases datagrams.len() - n,
{
    if n == datagrams.len() {
        assert(datagrams.take(n) =~= datagrams);
    } else {
        lemma_total_take(datagrams, n + 1);
        assert(datagrams.take(n + 1).drop_last() =~= datagrams.take(n));
    }
}

/// A socket that is not ready to send has an addressable datagram wait, whatever its length; one
/// that is ready takes at least an empty datagram. A datagram longer than the transmit buffer
/// is never taken.
pub proof fn law_may_send(
    pre: UdpState,
    data: Seq<u8>,
    remote: IpEndpoint,
    task: int,
    post: UdpState,
    result: Poll<Result<(), SendError>>,
)
    requires
        send_outcome(pre, data, remote, task, post, result),
        pre.addressable(remote),
    ensures
        !pre.fits(0) ==> result is Pending,
        pre.fits(0) && data.len() == 0 ==> result is Ready,
        data.len() > pre.tx_bytes ==> result is Pending,
        pre.tx.len() == pre.tx_packets ==> result is Pending,
{
}

/// The reader of a socket waits exactly if no datagram is in the receive buffer, which is what
/// [`UdpSocket::may_recv`] tells.
pub proof fn law_may_recv(
    pre: UdpState,
    buf: Seq<u8>,
    task: int,
    post: UdpState,
    filled: Seq<u8>,
    result: Poll<Result<(usize, IpEndpoint), RecvError>>,
)
    requires
        recv_outcome(pre, buf, task, post, filled, result),
    ensures
        result is Ready <==> pre.rx.len() > 0,
        result is Pending ==> post.rx.len() == 0,
{
}

/// What is done to one socket touches no other socket of the stack.
pub proof fn law_sockets_are_independent(
    socket: UdpSocket,
    other: UdpSocket,
    pre: SocketStack,
    post: SocketStack,
)
    requires
        socket.alone_changed(pre, post),
        other.in_stack(pre),
        other.handle() != socket.handle(),
    ensures
        other.in_stack(post),
        other.state(post) == other.state(pre),
{
}

/// Binding a socket touches no other socket of the stack.
pub proof fn law_bind_touches_no_other_socket(
    pre: SocketStack,
    handle: SocketHandle,
    endpoint: IpListenEndpoint,
    post: SocketStack,
    result: Result<(), BindError>,
    other: UdpSocket,
)
    requires
        bind_outcome(pre, handle, endpoint, post, result),
        other.in_stack(pre),
        other.handle() != handle,
    ensures
        other.in_stack(post),
        other.state(post) == other.state(pre),
{
}

/// Giving up a socket that was just made leaves the stack with the sockets it had before.
pub proof fn law_drop_undoes_new(
    sockets: Map<SocketHandle, UdpState>,
    handle: SocketHandle,
    state: UdpState,
)
    requires
        !sockets.contains_key(handle),
    ensures
        sockets.insert(handle, state).remove(handle) == sockets,
{
    assert(sockets.insert(handle, state).remove(handle) =~= sockets);
}

/// An endpoint is the endpoint of its socket address.
pub proof fn law_endpoint_round_trip(endpoint: IpEndpoint)
    ensures
        endpoint_of(addr_of(endpoint)) == endpoint,
{
}

/// A socket address is the socket address of its endpoint, unless it carries flow information
/// or a scope, which an endpoint does not hold.
pub proof fn law_addr_round_trip(addr: SocketAddr)
    ensures
        addr_of(endpoint_of(addr)) == addr <==> match addr {
            SocketAddr::V4(_) => true,
            SocketAddr::V6(v6) => v6.flowinfo == 0 && v6.scope_id == 0,
        },
{
}

/// Copying payloads that fit to the front of a buffer keeps its length.
pub proof fn lemma_overlay_all_len(buf: Seq<u8>, datagrams: Seq<Datagram>)
    requires
        forall|i: int|
            0 <= i < datagrams.len() ==> (#[trigger] datagrams[i]).payload.len() <= buf.len(),
    ensures
        overlay_all(buf, datagrams).len() == buf.len(),
    decreases datagrams.len(),
{
    if datagrams.len() > 0 {
        let fewer = datagrams.drop_last();
        assert forall|i: int| 0 <= i < fewer.len() implies (#[trigger] fewer[i]).payload.len()
            <= buf.len() by {
            assert(fewer[i] == datagrams[i]);
        }
        lemma_overlay_all_len(buf, fewer);
        assert(datagrams.last() == datagrams[datagrams.len() - 1]);
    }
}

/// A connected socket hands out a datagram only if it comes from the endpoint that the socket is
/// connected to, with its payload at the front of the buffer. It hands out the first such
/// datagram, unless one before it does not fit into the buffer. The sending side stays as it
/// is.
pub proof fn law_connected_receives_from_remote_alone(
    pre: UdpState,
    remote: Option<IpEndpoint>,
    buf: Seq<u8>,
    task: int,
    post: UdpState,
    filled: Seq<u8>,
    result: Poll<Result<usize, Error>>,
    count: int,
)
    requires
        connected_recv_outcome(pre, remote, buf, task, post, filled, result, count),
    ensures
        result matches Poll::Ready(Ok(len)) ==> {
            &&& 0 <= count < pre.rx.len()
            &&& Some(pre.rx[count].endpoint) == remote
            &&& pre.rx[count].payload.len() == len
            &&& filled.take(len as int) == pre.rx[count].payload
            &&& forall|i: int| 0 <= i < count ==> Some((#[trigger] pre.rx[i]).endpoint) != remote
        },
        result is Pending ==> forall|i: int|
            0 <= i < pre.rx.len() ==> Some((#[trigger] pre.rx[i]).endpoint) != remote,
        filled.len() == buf.len(),
        post.endpoint == pre.endpoint,
        post.tx == pre.tx,
        post.same_capacities(pre),
{
    let passed = pre.rx.take(count);
    assert forall|i: int| 0 <= i < passed.len() implies (#[trigger] passed[i]).payload.len()
        <= buf.len() by {
        assert(!ends_wait(pre.rx[i], remote, buf.len()));
    }
    lemma_overlay_all_len(buf, passed);
    if result matches Poll::Ready(Ok(len)) {
        let payload = pre.rx[count].payload;
        assert(ends_wait(pre.rx[count], remote, buf.len()));
        assert(overlay(overlay_all(buf, passed), payload).take(payload.len() as int) =~= payload);
        assert forall|i: int| 0 <= i < count implies Some((#[trigger] pre.rx[i]).endpoint)
            != remote by {
            assert(!ends_wait(pre.rx[i], remote, buf.len()));
        }
    }
    if result is Pending {
        assert forall|i: int| 0 <= i < pre.rx.len() implies Some((#[trigger] pre.rx[i]).endpoint)
            != remote by {
            assert(!ends_wait(pre.rx[i], remote, buf.len()));
        }
    }
}

/// How many datagrams a connected socket passes over is determined by what was received.
pub proof fn law_passed_over_is_unique(
    rx: Seq<Datagram>,
    remote: Option<IpEndpoint>,
    buf_len: nat,
    count: int,
    other: int,
)
    requires
        passed_over(rx, remote, buf_len, count),
        passed_over(rx, remote, buf_len, other),
    ensures
        count == other,
{
    if count < other {
        assert(!ends_wait(rx[count], remote, buf_len));
    }
    if other < count {
        assert(!ends_wait(rx[other], remote, buf_len));
    }
}

/// A pool of `N` places has up to `N` sockets open at a time: where ports are handed out from
/// the dynamic range, a socket is opened exactly if fewer than `N` places are in use, and one
/// more place is in use then.
pub proof fn law_pool_opens_up_to_n<const N: usize, const TX_SZ: usize, const RX_SZ: usize>(
    stack: SocketStack,
    state: UdpNalStackState<N, TX_SZ, RX_SZ>,
    local: SocketAddr,
    remote: Option<IpEndpoint>,
    post_stack: SocketStack,
    post_state: UdpNalStackState<N, TX_SZ, RX_SZ>,
    result: Result<UdpSocket2<N, TX_SZ, RX_SZ>, Error>,
)
    requires
        open_outcome(stack, state, local, remote, post_stack, post_state, result),
        stack.ports_valid(),
    ensures
        used_count(state.used()) <= N,
        result is Ok <==> used_count(state.used()) < N,
        result matches Err(e) ==> e == Error::Bind(BindError::InvalidState),
        used_count(post_state.used()) == used_count(state.used()) + if result is Ok {
            1int
        } else {
            0
        },
        post_stack.ports_valid(),
{
    law_pool_serves_as_many_as_slots(state.used());
    if result is Ok {
        law_allocate_counts(state.used(), result->Ok_0.slot());
    }
}

/// A socket of the pool that was just opened is live, bound to the local address that was asked
/// for, and to the port that was asked for where there was one.
pub proof fn law_opened_socket_is_live<
    const N: usize,
    const TX_SZ: usize,
    const RX_SZ: usize,
>(
    stack: SocketStack,
    state: UdpNalStackState<N, TX_SZ, RX_SZ>,
    local: SocketAddr,
    remote: Option<IpEndpoint>,
    post_stack: SocketStack,
    post_state: UdpNalStackState<N, TX_SZ, RX_SZ>,
    socket: UdpSocket2<N, TX_SZ, RX_SZ>,
)
    requires
        open_outcome(stack, state, local, remote, post_stack, post_state, Ok(socket)),
    ensures
        socket.is_live(post_stack, post_state),
        socket.remote() == remote,
        socket.state(post_stack).valid(),
        socket.state(post_stack).is_open(),
        socket.state(post_stack).endpoint.addr == Some(endpoint_of(local).addr),
        endpoint_of(local).port != 0 ==> socket.state(post_stack).endpoint.port == endpoint_of(
            local,
        ).port,
{
}

/// Opening a socket of the pool leaves every other one live and as it was, and takes a handle
/// and a place that none of them has.
pub proof fn law_open_keeps_others<const N: usize, const TX_SZ: usize, const RX_SZ: usize>(
    stack: SocketStack,
    state: UdpNalStackState<N, TX_SZ, RX_SZ>,
    local: SocketAddr,
    remote: Option<IpEndpoint>,
    post_stack: SocketStack,
    post_state: UdpNalStackState<N, TX_SZ, RX_SZ>,
    result: Result<UdpSocket2<N, TX_SZ, RX_SZ>, Error>,
    other: UdpSocket2<N, TX_SZ, RX_SZ>,
)
    requires
        open_outcome(stack, state, local, remote, post_stack, post_state, result),
        other.is_live(stack, state),
    ensures
        other.is_live(post_stack, post_state),
        other.state(post_stack) == other.state(stack),
        result matches Ok(socket) ==> {
            &&& socket.socket().handle() != other.socket().handle()
            &&& socket.slot() != other.slot()
        },
{
}

/// Giving up a socket of the pool that was just opened leaves the pool and the sockets of the
/// stack as they were before it was opened.
pub proof fn law_drop_undoes_open<const N: usize, const TX_SZ: usize, const RX_SZ: usize>(
    stack: SocketStack,
    state: UdpNalStackState<N, TX_SZ, RX_SZ>,
    local: SocketAddr,
    remote: Option<IpEndpoint>,
    post_stack: SocketStack,
    post_state: UdpNalStackState<N, TX_SZ, RX_SZ>,
    socket: UdpSocket2<N, TX_SZ, RX_SZ>,
)
    requires
        open_outcome(stack, state, local, remote, post_stack, post_state, Ok(socket)),
    ensures
        post_stack.udp_sockets().remove(socket.socket().handle()) == stack.udp_sockets(),
        post_state.used().update(socket.slot(), false) == state.used(),
{
    assert(post_stack.udp_sockets().remove(socket.socket().handle()) =~= stack.udp_sockets());
    assert(post_state.used().update(socket.slot(), false) =~= state.used());
}

/// Giving up a socket of the pool leaves every other one live and as it was, and its place can
/// be taken again.
pub proof fn law_drop_keeps_others<const N: usize, const TX_SZ: usize, const RX_SZ: usize>(
    stack: SocketStack,
    state: UdpNalStackState<N, TX_SZ, RX_SZ>,
    socket: UdpSocket2<N, TX_SZ, RX_SZ>,
    post_stack: SocketStack,
    post_state: UdpNalStackState<N, TX_SZ, RX_SZ>,
    other: UdpSocket2<N, TX_SZ, RX_SZ>,
)
    requires
        socket.is_live(stack, state),
        drop_outcome(stack, state, socket, post_stack, post_state),
        other.is_live(stack, state),
        other.socket().handle() != socket.socket().handle(),
        other.slot() != socket.slot(),
    ensures
        other.is_live(post_stack, post_state),
        other.state(post_stack) == other.state(stack),
        !all_used(post_state.used()),
{
    assert(!post_state.used()[socket.slot()]);
}

/// The live sockets after one was asked for: with it, where there is one.
pub open spec fn live_with<const N: usize, const TX_SZ: usize, const RX_SZ: usize>(
    live: Seq<UdpSocket2<N, TX_SZ, RX_SZ>>,
    result: Result<UdpSocket2<N, TX_SZ, RX_SZ>, Error>,
) -> Seq<UdpSocket2<N, TX_SZ, RX_SZ>> {
    match result {
        Ok(socket) => live.push(socket),
        Err(_) => live,
    }
}

/// One step in the life of a pool, of which `live` are the sockets that were made and not given
/// up: a socket is made or opened, one of the live ones is given up, or something else happens,
/// which leaves the places of the pool alone and no live socket without its stack.
pub open spec fn pool_step<const N: usize, const TX_SZ: usize, const RX_SZ: usize>(
    stack: SocketStack,
    state: UdpNalStackState<N, TX_SZ, RX_SZ>,
    live: Seq<UdpSocket2<N, TX_SZ, RX_SZ>>,
    post_stack: SocketStack,
    post_state: UdpNalStackState<N, TX_SZ, RX_SZ>,
    post_live: Seq<UdpSocket2<N, TX_SZ, RX_SZ>>,
) -> bool {
    ||| exists|remote: Option<IpEndpoint>, result: Result<UdpSocket2<N, TX_SZ, RX_SZ>, Error>|
        #[trigger]
        made_outcome(stack, state, remote, post_stack, post_state, result) && post_live
            == live_with(live, result)
    ||| exists|
        local: SocketAddr,
        remote: Option<IpEndpoint>,
        result: Result<UdpSocket2<N, TX_SZ, RX_SZ>, Error>,
    |
        #[trigger]
        open_outcome(stack, state, local, remote, post_stack, post_state, result) && post_live
            == live_with(live, result)
    ||| exists|k: int|
        0 <= k < live.len() && #[trigger] drop_outcome(
            stack,
            state,
            live[k],
            post_stack,
            post_state,
        ) && post_live == live.remove(k)
    ||| {
        &&& post_state.used() == state.used()
        &&& post_live == live
        &&& forall|k: int|
            0 <= k < live.len() ==> (#[trigger] live[k]).socket().in_stack(post_stack)
    }
}

/// Whether `live` are distinct live sockets of the pool, and as many as it has places in use.
pub open spec fn all_live<const N: usize, const TX_SZ: usize, const RX_SZ: usize>(
    stack: SocketStack,
    state: UdpNalStackState<N, TX_SZ, RX_SZ>,
    live: Seq<UdpSocket2<N, TX_SZ, RX_SZ>>,
) -> bool {
    &&& forall|k: int| 0 <= k < live.len() ==> (#[trigger] live[k]).is_live(stack, state)
    &&& forall|j: int, k: int|
        0 <= j < k < live.len() ==> (#[trigger] live[j]).slot() != (#[trigger] live[k]).slot()
            && live[j].socket().handle() != live[k].socket().handle()
    &&& live.len() == used_count(state.used())
}

/// A socket that takes a place that was free, and a handle that no socket had, is one more live
/// socket.
proof fn lemma_one_more_live<const N: usize, const TX_SZ: usize, const RX_SZ: usize>(
    stack: SocketStack,
    state: UdpNalStackState<N, TX_SZ, RX_SZ>,
    live: Seq<UdpSocket2<N, TX_SZ, RX_SZ>>,
    post_stack: SocketStack,
    post_state: UdpNalStackState<N, TX_SZ, RX_SZ>,
    socket: UdpSocket2<N, TX_SZ, RX_SZ>,
)
    requires
        all_live(stack, state, live),
        first_free(state.used(), socket.slot()),
        post_state.used() == state.used().update(socket.slot(), true),
        !socket.socket().in_stack(stack),
        exists|held: UdpState|
            post_stack.udp_sockets() == #[trigger] stack.udp_sockets().insert(
                socket.socket().handle(),
                held,
            ),
    ensures
        all_live(post_stack, post_state, live.push(socket)),
{
    law_allocate_counts(state.used(), socket.slot());
    let more = live.push(socket);
    assert forall|k: int| 0 <= k < more.len() implies (#[trigger] more[k]).is_live(
        post_stack,
        post_state,
    ) by {
        if k < live.len() {
            assert(live[k].is_live(stack, state));
        }
    }
    assert forall|j: int, k: int| 0 <= j < k < more.len() implies (#[trigger] more[j]).slot() != (
    #[trigger] more[k]).slot() && more[j].socket().handle() != more[k].socket().handle() by {
        assert(live[j].is_live(stack, state));
        if k < live.len() {
            assert(live[j].slot() != live[k].slot());
        }
    }
}

/// Every step in the life of a pool keeps the number of its live sockets equal to the number of
/// its places in use.
proof fn lemma_step_keeps_count<const N: usize, const TX_SZ: usize, const RX_SZ: usize>(
    stack: SocketStack,
    state: UdpNalStackState<N, TX_SZ, RX_SZ>,
    live: Seq<UdpSocket2<N, TX_SZ, RX_SZ>>,
    post_stack: SocketStack,
    post_state: UdpNalStackState<N, TX_SZ, RX_SZ>,
    post_live: Seq<UdpSocket2<N, TX_SZ, RX_SZ>>,
)
    requires
        all_live(stack, state, live),
        pool_step(stack, state, live, post_stack, post_state, post_live),
    ensures
        all_live(post_stack, post_state, post_live),
{
    if exists|remote: Option<IpEndpoint>, result: Result<UdpSocket2<N, TX_SZ, RX_SZ>, Error>|
        #[trigger]
        made_outcome(stack, state, remote, post_stack, post_state, result) && post_live
            == live_with(live, result) {
        let (remote, result) = choose|
            remote: Option<IpEndpoint>,
            result: Result<UdpSocket2<N, TX_SZ, RX_SZ>, Error>,
        |
            #[trigger]
            made_outcome(stack, state, remote, post_stack, post_state, result) && post_live
                == live_with(live, result);
        if let Ok(socket) = result {
            lemma_one_more_live(stack, state, live, post_stack, post_state, socket);
        } else {
            assert forall|k: int| 0 <= k < live.len() implies (#[trigger] live[k]).is_live(
                post_stack,
                post_state,
            ) by {
                assert(live[k].is_live(stack, state));
            }
        }
    } else if exists|
        local: SocketAddr,
        remote: Option<IpEndpoint>,
        result: Result<UdpSocket2<N, TX_SZ, RX_SZ>, Error>,
    |
        #[trigger]
        open_outcome(stack, state, local, remote, post_stack, post_state, result) && post_live
            == live_with(live, result) {
        let (local, remote, result) = choose|
            local: SocketAddr,
            remote: Option<IpEndpoint>,
            result: Result<UdpSocket2<N, TX_SZ, RX_SZ>, Error>,
        |
            #[trigger]
            open_outcome(stack, state, local, remote, post_stack, post_state, result) && post_live
                == live_with(live, result);
        if let Ok(socket) = result {
            lemma_one_more_live(stack, state, live, post_stack, post_state, socket);
        } else {
            assert forall|k: int| 0 <= k < live.len() implies (#[trigger] live[k]).is_live(
                post_stack,
                post_state,
            ) by {
                assert(live[k].is_live(stack, state));
            }
        }
    } else if exists|k: int|
        0 <= k < live.len() && #[trigger] drop_outcome(
            stack,
            state,
            live[k],
            post_stack,
            post_state,
        ) && post_live == live.remove(k) {
        let gone = choose|k: int|
            0 <= k < live.len() && #[trigger] drop_outcome(
                stack,
                state,
                live[k],
                post_stack,
                post_state,
            ) && post_live == live.remove(k);
        assert(live[gone].is_live(stack, state));
        law_free_counts(state.used(), live[gone].slot());
        assert forall|k: int| 0 <= k < post_live.len() implies (#[trigger] post_live[k]).is_live(
            post_stack,
            post_state,
        ) by {
            let before = if k < gone {
                k
            } else {
                k + 1
            };
            assert(post_live[k] == live[before]);
            assert(live[before].is_live(stack, state));
            assert(live[before].slot() != live[gone].slot());
        }
        assert forall|j: int, k: int| 0 <= j < k < post_live.len() implies (
        #[trigger] post_live[j]).slot() != (#[trigger] post_live[k]).slot()
            && post_live[j].socket().handle() != post_live[k].socket().handle() by {
            let j_before = if j < gone {
                j
            } else {
                j + 1
            };
            let k_before = if k < gone {
                k
            } else {
                k + 1
            };
            assert(live[j_before].slot() != live[k_before].slot());
        }
    } else {
        assert forall|k: int| 0 <= k < live.len() implies (#[trigger] live[k]).is_live(
            post_stack,
            post_state,
        ) by {
            assert(live[k].is_live(stack, state));
        }
    }
}

/// A pool has as many places in use as it has live sockets, which are never more than `N`: over
/// any run that starts with a new pool, however many sockets are made, opened and given up.
pub proof fn law_pool_counts_live_sockets<
    const N: usize,
    const TX_SZ: usize,
    const RX_SZ: usize,
>(
    stacks: Seq<SocketStack>,
    states: Seq<UdpNalStackState<N, TX_SZ, RX_SZ>>,
    live: Seq<Seq<UdpSocket2<N, TX_SZ, RX_SZ>>>,
    n: int,
)
    requires
        0 <= n < stacks.len(),
        stacks.len() == states.len() == live.len(),
        forall|i: int| 0 <= i < N ==> !states[0].used()[i],
        live[0].len() == 0,
        forall|i: int|
            0 <= i < stacks.len() - 1 ==> #[trigger] pool_step(
                stacks[i],
                states[i],
                live[i],
                stacks[i + 1],
                states[i + 1],
                live[i + 1],
            ),
    ensures
        all_live(stacks[n], states[n], live[n]),
        live[n].len() == used_count(states[n].used()),
        live[n].len() <= N,
    decreases n,
{
    if n == 0 {
        law_new_pool_counts_none(states[0].used());
    } else {
        law_pool_counts_live_sockets(stacks, states, live, n - 1);
        assert(pool_step(
            stacks[n - 1],
            states[n - 1],
            live[n - 1],
            stacks[n - 1 + 1],
            states[n - 1 + 1],
            live[n - 1 + 1],
        ));
        lemma_step_keeps_count(
            stacks[n - 1],
            states[n - 1],
            live[n - 1],
            stacks[n],
            states[n],
            live[n],
        );
    }
    law_pool_serves_as_many_as_slots(states[n].used());
}

/// A pool manages up to `N` sockets at a time: over any run that starts with a new pool, making
/// one more succeeds exactly if fewer than `N` are live. So a socket that is given up makes
/// room for another.
pub proof fn law_up_to_n_live_sockets<
    const N: usize,
    const TX_SZ: usize,
    const RX_SZ: usize,
>(
    stacks: Seq<SocketStack>,
    states: Seq<UdpNalStackState<N, TX_SZ, RX_SZ>>,
    live: Seq<Seq<UdpSocket2<N, TX_SZ, RX_SZ>>>,
    remote: Option<IpEndpoint>,
    post_stack: SocketStack,
    post_state: UdpNalStackState<N, TX_SZ, RX_SZ>,
    result: Result<UdpSocket2<N, TX_SZ, RX_SZ>, Error>,
)
    requires
        stacks.len() > 0,
        stacks.len() == states.len() == live.len(),
        forall|i: int| 0 <= i < N ==> !states[0].used()[i],
        live[0].len() == 0,
        forall|i: int|
            0 <= i < stacks.len() - 1 ==> #[trigger] pool_step(
                stacks[i],
                states[i],
                live[i],
                stacks[i + 1],
                states[i + 1],
                live[i + 1],
            ),
        made_outcome(stacks.last(), states.last(), remote, post_stack, post_state, result),
    ensures
        live.last().len() <= N,
        result is Ok <==> live.last().len() < N,
{
    law_pool_counts_live_sockets(stacks, states, live, stacks.len() - 1);
    law_pool_serves_as_many_as_slots(states.last().used());
}

/// What holds of making a socket holds of opening one: over any run that starts with a new pool,
/// opening is refused for want of a place exactly if `N` sockets are live, and it succeeds
/// exactly if fewer are, where a port is asked for or ports are handed out from the dynamic
/// range.
pub proof fn law_up_to_n_open_sockets<
    const N: usize,
    const TX_SZ: usize,
    const RX_SZ: usize,
>(
    stacks: Seq<SocketStack>,
    states: Seq<UdpNalStackState<N, TX_SZ, RX_SZ>>,
    live: Seq<Seq<UdpSocket2<N, TX_SZ, RX_SZ>>>,
    local: SocketAddr,
    remote: Option<IpEndpoint>,
    post_stack: SocketStack,
    post_state: UdpNalStackState<N, TX_SZ, RX_SZ>,
    result: Result<UdpSocket2<N, TX_SZ, RX_SZ>, Error>,
)
    requires
        stacks.len() > 0,
        stacks.len() == states.len() == live.len(),
        forall|i: int| 0 <= i < N ==> !states[0].used()[i],
        live[0].len() == 0,
        forall|i: int|
            0 <= i < stacks.len() - 1 ==> #[trigger] pool_step(
                stacks[i],
                states[i],
                live[i],
                stacks[i + 1],
                states[i + 1],
                live[i + 1],
            ),
        open_outcome(stacks.last(), states.last(), local, remote, post_stack, post_state, result),
    ensures
        live.last().len() <= N,
        result == Err::<UdpSocket2<N, TX_SZ, RX_SZ>, Error>(Error::Bind(BindError::InvalidState))
            <==> live.last().len() == N,
        endpoint_of(local).port != 0 || stacks.last().ports_valid() ==> (result is Ok
            <==> live.last().len() < N),
{
    law_pool_counts_live_sockets(stacks, states, live, stacks.len() - 1);
    law_pool_serves_as_many_as_slots(states.last().used());
}

} // verus!
