//! Which connections there are, and which one a segment is led to.
use crate::dispatch::packet::Emission;
use crate::dispatch::poll_queue::{DispatchQueue, PollAt, QueueUpdater};
use crate::dispatch::shutdown::{Close, CloseSender};
use crate::dispatch::SocketHandle;
use crate::sockets::table::AddrTable;
use crate::sockets::{open_socket, route, AddrPair, SocketAddr, SocketPool};
use crate::stream::internal::{Dispatched, HalfDropped, Processed, Reply, RwStatus};
use crate::stream::socket::socket_model;
use crate::stream::{Inner, TcpStream};
use crate::time::{instant_after, Clock};
use crate::util::convert_to_socket_address;
use crate::wire::{
    DeviceCapabilities, IpAddress, IpEndpoint, IpRepr, StackError, TcpControl, TcpRepr,
};
use smoltcp::socket::TcpSocket;
use std::task::Context;
use vstd::prelude::*;

verus! {

/// A socket can be made for every address of either family and every port but
/// zero. It waits there for whoever comes, with empty buffers of 32768 bytes, and
/// acknowledges without delay.
pub proof fn lemma_socket_for_any_address(
    local: SocketAddr,
    r: Result<TcpSocket<'static>, StackError>,
)
    requires
        call_ensures(open_socket, (local,), r),
    ensures
        ({
            let (addr, port) = match local {
                SocketAddr::V4(ip, port) => (IpAddress::Ipv4(ip), port),
                SocketAddr::V6(ip, port) => (IpAddress::Ipv6(ip), port),
            };
            &&& port == 0 ==> r is Err && r->Err_0 == StackError::Unaddressable
            &&& port != 0 ==> {
                let socket = socket_model(r->Ok_0);
                &&& r is Ok
                &&& socket.state is Listen
                &&& socket.local == (IpEndpoint { addr, port })
                &&& socket.remote.port == 0 && socket.remote.addr is Unspecified
                &&& socket.rx.len() == 0 && socket.tx.len() == 0
                &&& socket.rx_capacity == 32768 && socket.tx_capacity == 32768
                &&& socket.ack_delay == Some(0u64)
            }
        }),
{
}

/// A segment is led by its addresses and ports alone, from its source as the peer
/// to its destination as the local end, and never if it both opens a connection and
/// acknowledges something, or lacks an address.
pub proof fn lemma_route_goes_by_addresses(
    ip: IpRepr,
    segment: TcpRepr<'_>,
    r: Result<AddrPair, StackError>,
)
    requires
        call_ensures(route, (&ip, &segment), r),
    ensures
        ip.source() is Unspecified || ip.destination() is Unspecified ==> r == Err::<
            AddrPair,
            StackError,
        >(StackError::Unrecognized),
        !(ip.source() is Unspecified) && !(ip.destination() is Unspecified)
            && segment.control is Syn && segment.ack_number is Some ==> r == Err::<
            AddrPair,
            StackError,
        >(StackError::Dropped),
        !(ip.source() is Unspecified) && !(ip.destination() is Unspecified) && !(
        segment.control is Syn && segment.ack_number is Some) ==> {
            &&& r matches Ok(pair)
            &&& match ip.source() {
                IpAddress::Ipv4(a) => pair.peer == SocketAddr::V4(a, segment.src_port),
                IpAddress::Ipv6(a) => pair.peer == SocketAddr::V6(a, segment.src_port),
                IpAddress::Unspecified => false,
            }
            &&& match ip.destination() {
                IpAddress::Ipv4(a) => pair.local == SocketAddr::V4(a, segment.dst_port),
                IpAddress::Ipv6(a) => pair.local == SocketAddr::V6(a, segment.dst_port),
                IpAddress::Unspecified => false,
            }
        },
{
}

/// An address with a port is that address and that port.
pub proof fn lemma_converted_address_is_the_same(
    address: IpAddress,
    port: u16,
    r: Result<SocketAddr, StackError>,
)
    requires
        call_ensures(convert_to_socket_address, (address, port), r),
    ensures
        match address {
            IpAddress::Ipv4(a) => r == Ok::<SocketAddr, StackError>(SocketAddr::V4(a, port)),
            IpAddress::Ipv6(a) => r == Ok::<SocketAddr, StackError>(SocketAddr::V6(a, port)),
            IpAddress::Unspecified => r == Err::<SocketAddr, StackError>(StackError::Unrecognized),
        },
{
}

/// A connection is made exactly for a segment that opens one, that belongs to none
/// that is known and that goes to a port other than zero. It is new, used by both
/// halves, its socket waits at its local end, and its stream has its addresses and
/// the channels of the pool. Every other segment leaves all connections as they are,
/// and none is given up for a new one.
pub proof fn lemma_connection_is_made_for_an_opening<L, F: FnOnce(Inner) -> L>()
    ensures
        forall|
            pool: &mut SocketPool<L>,
            pair: &AddrPair,
            segment: &TcpRepr<'_>,
            share: F,
            r: Result<Option<TcpStream>, StackError>,
        | #[trigger]
            call_ensures(SocketPool::<L>::create_syn::<F>, (pool, pair, segment, share), r) ==> {
                let known = pool.connections();
                let port = match pair.local {
                    SocketAddr::V4(_, port) => port,
                    SocketAddr::V6(_, port) => port,
                };
                &&& known.contains_key(*pair) ==> r is Ok && r->Ok_0 is None
                    && final(pool).connections() == known
                &&& !known.contains_key(*pair) && segment.control != TcpControl::Syn ==> r is Err
                    && r->Err_0 == StackError::Dropped && final(pool).connections() == known
                &&& !known.contains_key(*pair) && segment.control == TcpControl::Syn && port == 0
                    ==> r is Err && r->Err_0 == StackError::Unaddressable
                    && final(pool).connections() == known
                &&& !known.contains_key(*pair) && segment.control == TcpControl::Syn && port != 0
                    ==> {
                    let made = final(pool).connections();
                    let stream = r->Ok_0->Some_0;
                    &&& r is Ok && r->Ok_0 is Some
                    &&& stream.addresses() == *pair
                    &&& stream.write_half().socket() == *pair
                    &&& stream.write_half().channel() == pool.update_channel()
                    &&& stream.write_half().updates().len() == 0
                    &&& stream.write_half().farewell() == (*pair, Close::Write)
                    &&& stream.write_half().farewell_channel() == pool.close_channel()
                    &&& stream.read_half().farewell() == (*pair, Close::Read)
                    &&& stream.read_half().farewell_channel() == pool.close_channel()
                    &&& !stream.read_half().at_eof()
                    &&& exists|inner: Inner, socket: L| #[trigger]
                        share.ensures((inner,), socket) && socket == made[*pair].socket
                            && socket_model(inner.tcp).state is Listen && socket_model(
                            inner.tcp,
                        ).local == pair.local.endpoint() && !inner.polling_active
                    &&& made.contains_key(*pair)
                    &&& made[*pair].inner.handle == *pair
                    &&& !made[*pair].inner.reader_dropped
                    &&& !made[*pair].inner.writer_dropped
                    &&& made.remove(*pair) =~= known
                }
                &&& final(pool).deadlines() == pool.deadlines()
                &&& final(pool).wf()
            },
{
}

/// A segment is led to the connection between its two ends, known or new, or to
/// none, and to a known one whatever it is for. A stream comes with a new one only.
/// Only a segment that could open a connection fails for want of a port.
pub proof fn lemma_segment_is_led_to_its_connection<L, F: FnOnce(Inner) -> L>()
    ensures
        forall|
            pool: &mut SocketPool<L>,
            ip: &IpRepr,
            segment: &TcpRepr<'_>,
            share: F,
            r: Result<(AddrPair, Option<TcpStream>), StackError>,
        | #[trigger]
            call_ensures(SocketPool::<L>::find_or_create::<F>, (pool, ip, segment, share), r) ==> {
                let known = pool.connections();
                let made = final(pool).connections();
                &&& r matches Ok((pair, stream)) ==> {
                    &&& pair.peer.endpoint() == (IpEndpoint {
                        addr: ip.source(),
                        port: segment.src_port,
                    })
                    &&& pair.local.endpoint() == (IpEndpoint {
                        addr: ip.destination(),
                        port: segment.dst_port,
                    })
                    &&& made.contains_key(pair)
                    &&& stream is None <==> known.contains_key(pair)
                    &&& stream is None ==> made == known
                    &&& stream is Some ==> {
                        &&& segment.control is Syn && segment.ack_number is None
                        &&& segment.dst_port != 0
                        &&& stream->Some_0.addresses() == pair
                        &&& made.remove(pair) =~= known
                        &&& !made[pair].inner.reader_dropped && !made[pair].inner.writer_dropped
                    }
                }
                &&& r is Err ==> made == known
                &&& !(ip.source() is Unspecified) && !(ip.destination() is Unspecified)
                    && segment.control is Syn && segment.ack_number is None && segment.dst_port != 0
                    ==> r is Ok
                &&& forall|own: AddrPair| #[trigger]
                    pool.connections().contains_key(own) && own.peer.endpoint() == (IpEndpoint {
                        addr: ip.source(),
                        port: segment.src_port,
                    }) && own.local.endpoint() == (IpEndpoint {
                        addr: ip.destination(),
                        port: segment.dst_port,
                    }) && !(segment.control is Syn && segment.ack_number is Some) ==> r is Ok
                        && r->Ok_0.0 == own
                &&& ip.source() is Unspecified || ip.destination() is Unspecified ==> r is Err
                    && r->Err_0 == StackError::Unrecognized
                &&& !(ip.source() is Unspecified) && !(ip.destination() is Unspecified) && r is Err
                    ==> r->Err_0 == if segment.control is Syn && segment.ack_number is None {
                    StackError::Unaddressable
                } else {
                    StackError::Dropped
                }
                &&& final(pool).deadlines() == pool.deadlines()
                &&& final(pool).wf()
            },
{
}

/// A segment between the two ends of a connected socket is handed to it, whatever
/// it is for, and a turn that the socket then asks for at once is given. A segment
/// that a socket does not take changes nothing and wakes nobody. No segment adds or removes a connection, or concerns the deadline
/// of another one.
pub proof fn lemma_segment_concerns_its_connection<
    L,
    F: FnOnce(&mut TcpSocket<'static>, i64, &IpRepr, &TcpRepr<'_>) -> Result<Reply, StackError>,
    G: FnOnce(&TcpSocket<'static>) -> PollAt,
>()
    ensures
        forall|
            pool: &mut SocketPool<L>,
            pair: &AddrPair,
            tcp: &mut TcpSocket<'static>,
            ip: &IpRepr,
            segment: &TcpRepr<'_>,
            step: F,
            poll_at: G,
            r: Processed,
        | #[trigger]
            call_ensures(
                SocketPool::<L>::process::<F, G>,
                (pool, pair, tcp, ip, segment, step, poll_at),
                r,
            ) ==> {
                let socket = socket_model(*tcp);
                &&& final(pool).connections() == pool.connections()
                &&& socket.state is Closed || segment.dst_port != socket.local.port || (
                socket.remote.specified() && (IpEndpoint {
                    addr: ip.source(),
                    port: segment.src_port,
                }) != socket.remote) ==> {
                    &&& r.reply is Err && r.reply->Err_0 == StackError::Dropped
                    &&& !r.wakes.reader && !r.wakes.writer
                    &&& *final(tcp) == *tcp
                    &&& final(pool).deadlines() == pool.deadlines()
                }
                &&& !(socket.state is Closed) && !(socket.state is Listen) && socket.local == (
                IpEndpoint { addr: ip.destination(), port: segment.dst_port }) && socket.remote == (
                IpEndpoint { addr: ip.source(), port: segment.src_port }) ==> {
                    let status = pool.connections()[*pair].inner;
                    let after = socket_model(*final(tcp));
                    &&& exists|t: &mut TcpSocket<'static>, at: i64|
                        *t == *tcp && *final(t) == *final(tcp) && #[trigger] step.ensures(
                            (t, at, ip, segment),
                            r.reply,
                        )
                    &&& exists|asked: PollAt| #[trigger]
                        poll_at.ensures((&*final(tcp),), asked) && (asked is Now
                            ==> final(pool).deadlines() == pool.deadlines().insert(
                            *pair,
                            pool.origin(),
                        ))
                    &&& !status.reader_dropped && after.rx.len() > 0 ==> r.wakes.reader
                    &&& status.reader_dropped ==> !r.wakes.reader
                    &&& status.writer_dropped ==> !r.wakes.writer
                }
                &&& forall|other: AddrPair|
                    other != *pair ==> #[trigger] final(pool).deadlines().contains_key(other)
                        == pool.deadlines().contains_key(other)
                &&& final(pool).wf()
            },
{
}

/// A turn to send is a step of the socket, for the device, and what it put into its
/// buffer is what comes out. It forgets no connection but its own, that one only if
/// nobody uses it, and then with its deadline. One that goes well and asks for the
/// next turn at once is followed by that.
pub proof fn lemma_only_unused_connections_are_forgotten<
    L,
    F: FnOnce(
        &mut TcpSocket<'static>,
        i64,
        &DeviceCapabilities,
        &mut Emission,
    ) -> Result<(), StackError>,
    G: FnOnce(&TcpSocket<'static>) -> PollAt,
>()
    ensures
        forall|
            pool: &mut SocketPool<L>,
            buf: &mut Vec<u8>,
            addr: &AddrPair,
            inner: &mut Inner,
            step: F,
            poll_at: G,
            r: Dispatched,
        | #[trigger]
            call_ensures(
                SocketPool::<L>::dispatch::<F, G>,
                (pool, buf, addr, inner, step, poll_at),
                r,
            ) ==> {
                let status = pool.connections()[*addr].inner;
                &&& r.drop ==> status.reader_dropped && status.writer_dropped
                    && final(pool).connections() == pool.connections().remove(*addr)
                    && final(pool).deadlines() == pool.deadlines().remove(*addr)
                &&& !r.drop ==> final(pool).connections() == pool.connections()
                &&& forall|other: AddrPair|
                    other != *addr ==> #[trigger] final(pool).deadlines().contains_key(other)
                        == pool.deadlines().contains_key(other)
                &&& status.reader_dropped && status.writer_dropped && !socket_model(
                    final(inner).tcp,
                ).remote.specified() ==> r.drop
                &&& exists|
                    t: &mut TcpSocket<'static>,
                    at: i64,
                    e: &mut Emission,
                    outcome: Result<(), StackError>,
                    asked: PollAt,
                |
                    {
                        &&& *t == inner.tcp && *final(t) == final(inner).tcp
                        &&& e.bytes().len() == 0 && final(e).bytes() == final(buf)@
                        &&& #[trigger] step.ensures((t, at, &pool.device(), e), outcome)
                        &&& #[trigger] poll_at.ensures((&final(inner).tcp,), asked)
                        &&& asked is Now && outcome is Ok && socket_model(
                            final(inner).tcp,
                        ).remote.specified() ==> !r.drop && final(inner).polling_active
                            && final(pool).deadlines() == pool.deadlines().insert(
                            *addr,
                            pool.origin(),
                        )
                    }
                &&& final(pool).wf()
            },
{
}

/// Dropping a half of a connection concerns that half of that connection. The
/// connection stays known until its last turn.
pub proof fn lemma_dropped_half_of_a_connection<L, G: FnOnce(&TcpSocket<'static>) -> PollAt>()
    ensures
        forall|
            pool: &mut SocketPool<L>,
            socket: &SocketHandle,
            rw: Close,
            tcp: &mut TcpSocket<'static>,
            poll_at: G,
            r: HalfDropped,
        | #[trigger]
            call_ensures(
                SocketPool::<L>::drop_tcp_half::<G>,
                (pool, socket, rw, tcp, poll_at),
                r,
            ) ==> {
                let before = pool.connections()[*socket];
                let after = final(pool).connections()[*socket];
                &&& final(pool).connections().contains_key(*socket)
                &&& final(pool).connections().remove(*socket) =~= pool.connections().remove(*socket)
                &&& after.socket == before.socket
                &&& after.inner.handle == before.inner.handle
                &&& after.inner.reader_dropped == (before.inner.reader_dropped || rw is Read)
                &&& after.inner.writer_dropped == (before.inner.writer_dropped || rw is Write)
                &&& r.drop == (after.inner.reader_dropped && after.inner.writer_dropped)
                &&& !after.inner.writer_dropped ==> r.scheduled && *final(tcp) == *tcp
                    && final(pool).deadlines() == pool.deadlines()
                &&& after.inner.writer_dropped ==> !(socket_model(
                    *final(tcp),
                ).state is Established) && !(socket_model(*final(tcp)).state is CloseWait)
                &&& r.drop && r.scheduled ==> final(pool).deadlines().contains_key(*socket)
                &&& after.inner.writer_dropped ==> exists|asked: PollAt| #[trigger]
                    poll_at.ensures((&*final(tcp),), asked) && (asked is Now
                        ==> final(pool).deadlines() == pool.deadlines().insert(
                        *socket,
                        pool.origin(),
                    ))
                &&& final(pool).wf()
            },
{
}

/// A known connection is found, with its socket and its halves. An unknown one is
/// not.
pub proof fn lemma_known_connections_are_found<L>(
    pool: SocketPool<L>,
    pair: AddrPair,
    socket: Option<&L>,
    status: Option<RwStatus>,
)
    requires
        call_ensures(SocketPool::<L>::socket, (&pool, &pair), socket),
        call_ensures(SocketPool::<L>::status, (&pool, &pair), status),
    ensures
        pool.connections().contains_key(pair) ==> socket == Some(&pool.connections()[pair].socket)
            && status == Some(pool.connections()[pair].inner),
        !pool.connections().contains_key(pair) ==> socket is None && status is None,
{
}

/// A new pool has no connections, and keeps the queue, the clock, the device and
/// the channels that it was given.
pub proof fn lemma_new_pool_is_empty<L>(
    send_poll: QueueUpdater,
    closes: CloseSender,
    capabilities: DeviceCapabilities,
    queue: DispatchQueue,
    clock: Clock,
    pool: SocketPool<L>,
    device: DeviceCapabilities,
)
    requires
        call_ensures(
            SocketPool::<L>::new,
            (send_poll, closes, capabilities, queue, clock),
            pool,
        ),
        call_ensures(SocketPool::<L>::capabilities, (&pool,), device),
    ensures
        pool.wf(),
        forall|pair: AddrPair| !#[trigger] pool.connections().contains_key(pair),
        pool.deadlines() == queue@,
        pool.origin() == queue.origin(),
        pool.started() == clock.start(),
        pool.update_channel() == send_poll.channel(),
        pool.close_channel() == closes.channel(),
        device == capabilities,
{
}

/// What was put into a table last is found there under its key, until it is taken
/// out. Every other entry is found as before.
pub proof fn lemma_table_gives_back<V>()
    ensures
        forall|
            table: &mut AddrTable<V>,
            key: AddrPair,
            value: V,
            former: Option<V>,
            other: AddrPair,
            found: Option<&V>,
        |
            #[trigger] call_ensures(AddrTable::<V>::insert, (table, key, value), former)
                && #[trigger] call_ensures(AddrTable::<V>::get, (&*final(table), &other), found)
                ==> {
                &&& other == key ==> found == Some(&value)
                &&& other != key ==> (found is Some <==> table@.contains_key(other)) && (
                found is Some ==> *found->Some_0 == table@[other])
                &&& former is Some <==> table@.contains_key(key)
            },
        forall|
            table: &mut AddrTable<V>,
            key: &AddrPair,
            former: Option<V>,
            other: AddrPair,
            found: Option<&V>,
        |
            #[trigger] call_ensures(AddrTable::<V>::remove, (table, key), former)
                && #[trigger] call_ensures(AddrTable::<V>::get, (&*final(table), &other), found)
                ==> {
                &&& other == *key ==> found is None
                &&& other != *key ==> (found is Some <==> table@.contains_key(other)) && (
                found is Some ==> *found->Some_0 == table@[other])
                &&& former is Some <==> table@.contains_key(*key)
                &&& former is Some ==> former->Some_0 == table@[*key]
            },
        forall|table: AddrTable<V>, key: AddrPair, found: Option<&V>|
            #[trigger] call_ensures(AddrTable::<V>::new, (), table)
                && #[trigger] call_ensures(AddrTable::<V>::get, (&table, &key), found)
                ==> found is None,
        forall|table: AddrTable<V>, key: AddrPair, found: Option<&V>, known: bool|
            #[trigger] call_ensures(AddrTable::<V>::contains_key, (&table, &key), known)
                && #[trigger] call_ensures(AddrTable::<V>::get, (&table, &key), found) ==> known
                == (found is Some),
{
}

/// An update of a deadline, and a deadline that comes, changes deadlines as the
/// queue does, and no connection.
pub proof fn lemma_deadlines_do_not_concern_connections<L>()
    ensures
        forall|pool: &mut SocketPool<L>, socket: SocketHandle, poll_at: PollAt, r: bool| #[trigger]
            call_ensures(SocketPool::<L>::update, (pool, socket, poll_at), r) ==> {
                &&& final(pool).connections() == pool.connections()
                &&& match poll_at {
                    PollAt::Now => r && final(pool).deadlines() == pool.deadlines().insert(
                        socket,
                        pool.origin(),
                    ),
                    PollAt::Time(millis) => millis >= 0 && r ==> final(pool).deadlines()
                        == pool.deadlines().insert(
                        socket,
                        instant_after(pool.origin(), (millis * 1_000_000) as nat),
                    ),
                    PollAt::Ingress => r && final(pool).deadlines() == pool.deadlines(),
                }
                &&& !r ==> final(pool).deadlines() == pool.deadlines()
                &&& final(pool).wf()
            },
        forall|pool: &mut SocketPool<L>, cx: &mut Context<'_>, r: Option<SocketHandle>| #[trigger]
            call_ensures(SocketPool::<L>::expired, (pool, cx), r) ==> {
                &&& final(pool).connections() == pool.connections()
                &&& match r {
                    Some(socket) => pool.deadlines().contains_key(socket)
                        && final(pool).deadlines() == pool.deadlines().remove(socket),
                    None => final(pool).deadlines() == pool.deadlines(),
                }
                &&& forall|waiting: AddrPair| #[trigger]
                    pool.deadlines().contains_key(waiting) && pool.deadlines()[waiting]
                        == pool.origin() ==> r is Some
                &&& final(pool).wf()
            },
{
}

} // verus!
