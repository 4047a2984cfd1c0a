//! Store TcpSockets and deliver packets by source and destination SocketAddr for processing.
use crate::dispatch::packet::{one_packet, Emission};
use crate::dispatch::poll_queue::{
    due_at_once, rescheduled, room_for, DispatchQueue, PollAt, QueueUpdater,
};
use crate::dispatch::shutdown::{Close, CloseSender};
use crate::dispatch::SocketHandle;
use crate::sockets::table::AddrTable;
use crate::stream::internal::{
    acceptable, Connection, Dispatched, HalfDropped, Processed, Reply, RwStatus, Wakes,
};
use crate::stream::socket::{
    is_open, listen, new_socket, set_ack_delay, socket_model, SocketModel,
};
use crate::stream::{Inner, TcpStream};
use crate::time::{timestamp_since, Clock};
use crate::util::{convert_to_socket_address, socket_address};
use crate::wire::{
    smol_address, stack_error, DeviceCapabilities, IpAddress, IpEndpoint, IpRepr, Segment,
    StackError, TcpControl, TcpRepr,
};
use smoltcp::socket::TcpSocket;
use std::task::Context;
use std::time::Instant;
use vstd::prelude::*;

pub mod table;

verus! {

/// The address of one end of a connection, as the number that its octets spell.
#[derive(Clone, Copy, Debug, PartialEq, Eq, Hash, Structural)]
pub enum SocketAddr {
    /// Four octets, the first one the most significant, and a port.
    V4(u32, u16),
    /// Sixteen octets, the first one the most significant, and a port.
    V6(u128, u16),
}

impl SocketAddr {
    /// The port.
    pub open spec fn port_number(self) -> u16 {
        match self {
            SocketAddr::V4(_, port) => port,
            SocketAddr::V6(_, port) => port,
        }
    }

    /// The same address in the terms of the stack.
    pub open spec fn endpoint(self) -> IpEndpoint {
        match self {
            SocketAddr::V4(ip, port) => IpEndpoint { addr: IpAddress::Ipv4(ip), port },
            SocketAddr::V6(ip, port) => IpEndpoint { addr: IpAddress::Ipv6(ip), port },
        }
    }
}

/// Client and server. Peer and local.
#[derive(Clone, Copy, Debug, PartialEq, Eq, Hash, Structural)]
pub struct AddrPair {
    pub peer: SocketAddr,
    pub local: SocketAddr,
}

/// The size of the receive buffer of a connection.
pub const RX_BUF_SIZE: usize = 32768;

/// The size of the transmit buffer of a connection.
pub const TX_BUF_SIZE: usize = RX_BUF_SIZE;

/// A socket with empty buffers.
fn create_tcp_socket() -> (r: TcpSocket<'static>)
    ensures
        socket_model(r) == SocketModel::fresh(RX_BUF_SIZE as nat, TX_BUF_SIZE as nat),
{
    new_socket(RX_BUF_SIZE, TX_BUF_SIZE)
}

/// A socket that waits for a connection to `local` and acknowledges at once.
pub open spec fn opened(local: SocketAddr) -> SocketModel {
    SocketModel::fresh(RX_BUF_SIZE as nat, TX_BUF_SIZE as nat).listening(
        local.endpoint(),
    ).with_ack_delay(Some(0))
}

/// Makes a socket that waits for a connection to `local`. There is none to the
/// port zero.
pub fn open_socket(local: SocketAddr) -> (r: Result<TcpSocket<'static>, StackError>)
    ensures
        r is Ok <==> local.port_number() != 0,
        r is Ok ==> socket_model(r->Ok_0) == opened(local),
        r is Err ==> r->Err_0 == StackError::Unaddressable,
{
    let mut socket = create_tcp_socket();
    if !is_open(&socket) {
        let (addr, port) = match local {
            SocketAddr::V4(ip, port) => (smol_address(IpAddress::Ipv4(ip)), port),
            SocketAddr::V6(ip, port) => (smol_address(IpAddress::Ipv6(ip)), port),
        };
        if let Err(error) = listen(&mut socket, &addr, port) {
            return Err(stack_error(error));
        }
    }
    set_ack_delay(&mut socket, Some(0));
    Ok(socket)
}

/// The connection that a segment belongs to. A segment that would both open a
/// connection and acknowledge something belongs to none.
pub open spec fn pair_of(ip: IpRepr, segment: Segment) -> Result<AddrPair, StackError> {
    match (
        socket_address(ip.source(), segment.src_port),
        socket_address(ip.destination(), segment.dst_port),
    ) {
        (Ok(peer), Ok(local)) => if segment.control is Syn && segment.ack_number is Some {
            Err(StackError::Dropped)
        } else {
            Ok(AddrPair { peer, local })
        },
        _ => Err(StackError::Unrecognized),
    }
}

/// Finds out which connection a segment belongs to.
pub fn route(ip_repr: &IpRepr, tcp_repr: &TcpRepr<'_>) -> (r: Result<AddrPair, StackError>)
    ensures
        r == pair_of(*ip_repr, tcp_repr@),
{
    let src = match convert_to_socket_address(ip_repr.src_addr(), tcp_repr.src_port) {
        Ok(src) => src,
        Err(error) => return Err(error),
    };
    let dst = match convert_to_socket_address(ip_repr.dst_addr(), tcp_repr.dst_port) {
        Ok(dst) => dst,
        Err(error) => return Err(error),
    };
    if tcp_repr.control == TcpControl::Syn && tcp_repr.ack_number.is_some() {
        return Err(StackError::Dropped);
    }
    Ok(AddrPair { peer: src, local: dst })
}

/// A segment that opens a connection, from any address to any address and any
/// port but zero, is taken by the socket that is made for it. The ends of the
/// connection are those that the packet names.
pub proof fn lemma_any_address_can_be_reached(ip: IpRepr, segment: Segment)
    requires
        !(ip.source() is Unspecified),
        !(ip.destination() is Unspecified),
        segment.control is Syn,
        segment.ack_number is None,
        segment.dst_port != 0,
    ensures
        pair_of(ip, segment) is Ok,
        ({
            let pair = pair_of(ip, segment)->Ok_0;
            &&& pair.peer.endpoint() == (IpEndpoint { addr: ip.source(), port: segment.src_port })
            &&& pair.local.endpoint() == (IpEndpoint {
                addr: ip.destination(),
                port: segment.dst_port,
            })
            &&& pair.local.port_number() != 0
            &&& acceptable(opened(pair.local), ip, segment)
        }),
{
}

/// Two segments belong to the same connection if and only if they come from the
/// same address and port and go to the same address and port.
pub proof fn lemma_addresses_tell_connections_apart(
    ip: IpRepr,
    segment: Segment,
    other_ip: IpRepr,
    other: Segment,
)
    requires
        pair_of(ip, segment) is Ok,
        pair_of(other_ip, other) is Ok,
    ensures
        pair_of(ip, segment) == pair_of(other_ip, other) <==> ip.source() == other_ip.source()
            && ip.destination() == other_ip.destination() && segment.src_port == other.src_port
            && segment.dst_port == other.dst_port,
{
}

/// A connected socket takes no segment but those of its own connection.
pub proof fn lemma_only_own_segments(
    socket: SocketModel,
    pair: AddrPair,
    ip: IpRepr,
    segment: Segment,
)
    requires
        socket.local == pair.local.endpoint(),
        socket.remote == pair.peer.endpoint(),
        socket.local.specified(),
        socket.remote.specified(),
        acceptable(socket, ip, segment),
    ensures
        pair_of(ip, segment) == Ok::<AddrPair, StackError>(pair) || (segment.control is Syn
            && segment.ack_number is Some),
{
}

/// A connected socket takes every segment of its own connection, whatever it is
/// for, whatever it acknowledges and whatever it carries.
pub proof fn lemma_own_segments_are_taken(
    socket: SocketModel,
    pair: AddrPair,
    ip: IpRepr,
    segment: Segment,
)
    requires
        !(socket.state is Closed),
        !(socket.state is Listen),
        socket.local == pair.local.endpoint(),
        socket.remote == pair.peer.endpoint(),
        pair_of(ip, segment) == Ok::<AddrPair, StackError>(pair),
    ensures
        acceptable(socket, ip, segment),
{
}

/// Whether a socket takes a segment depends on its addresses, its ports and
/// whether it acknowledges something. What it is for, what it carries and its
/// numbers make no difference.
pub proof fn lemma_addresses_decide(
    socket: SocketModel,
    ip: IpRepr,
    segment: Segment,
    other_ip: IpRepr,
    other: Segment,
)
    requires
        ip.source() == other_ip.source(),
        ip.destination() == other_ip.destination(),
        segment.src_port == other.src_port,
        segment.dst_port == other.dst_port,
        segment.ack_number is Some <==> other.ack_number is Some,
    ensures
        acceptable(socket, ip, segment) == acceptable(socket, other_ip, other),
{
}

/// The buffers of a socket and the state of its connection make no difference to
/// the segments that it takes, as long as it is connected.
pub proof fn lemma_segments_are_taken_to_the_end(
    socket: SocketModel,
    later: SocketModel,
    ip: IpRepr,
    segment: Segment,
)
    requires
        socket.local == later.local,
        socket.remote == later.remote,
        !(socket.state is Closed) && !(socket.state is Listen),
        !(later.state is Closed) && !(later.state is Listen),
    ensures
        acceptable(socket, ip, segment) == acceptable(later, ip, segment),
{
}

/// No socket takes a segment to another port, or from another port or address
/// than those of a peer that it has. A closed one takes none.
pub proof fn lemma_strangers_are_refused(socket: SocketModel, ip: IpRepr, segment: Segment)
    requires
        socket.state is Closed || segment.dst_port != socket.local.port || (
        !socket.local.addr.unspecified() && ip.destination() != socket.local.addr) || (
        socket.remote.port != 0 && segment.src_port != socket.remote.port) || (
        !socket.remote.addr.unspecified() && ip.source() != socket.remote.addr),
    ensures
        !acceptable(socket, ip, segment),
{
}

/// A socket that was made for an address takes a segment that comes there from
/// anywhere, but none that acknowledges what was never sent.
pub proof fn lemma_listener_takes_what_is_new(local: SocketAddr, ip: IpRepr, segment: Segment)
    requires
        local.endpoint() == (IpEndpoint { addr: ip.destination(), port: segment.dst_port }),
    ensures
        acceptable(opened(local), ip, segment) <==> segment.ack_number is None,
{
}

/// A socket that was made for an address waits there, for whoever comes, with
/// nothing to read or to send, room for 32768 bytes each way, and no delay
/// before it acknowledges.
pub proof fn lemma_opened_socket_waits(local: SocketAddr)
    ensures
        opened(local).state is Listen,
        opened(local).local == local.endpoint(),
        opened(local).remote.port == 0,
        opened(local).remote.addr is Unspecified,
        opened(local).rx.len() == 0,
        opened(local).tx.len() == 0,
        opened(local).rx_capacity == 32768,
        opened(local).tx_capacity == 32768,
        opened(local).ack_delay == Some(0u64),
        !opened(local).fin_received,
{
}

/// A segment between two addresses of either family belongs to the connection
/// between them, with its own ports: every segment but one that both opens a
/// connection and acknowledges something.
pub proof fn lemma_segments_find_their_connection(ip: IpRepr, segment: Segment)
    requires
        !(ip.source() is Unspecified),
        !(ip.destination() is Unspecified),
    ensures
        segment.control is Syn && segment.ack_number is Some ==> pair_of(ip, segment) == Err::<
            AddrPair,
            StackError,
        >(StackError::Dropped),
        !(segment.control is Syn && segment.ack_number is Some) ==> {
            &&& pair_of(ip, segment) matches Ok(pair)
            &&& pair.peer.endpoint().addr == ip.source()
            &&& pair.peer.endpoint().port == segment.src_port
            &&& pair.local.endpoint().addr == ip.destination()
            &&& pair.local.endpoint().port == segment.dst_port
        },
{
}

/// A segment without a source or a destination belongs to no connection.
pub proof fn lemma_unaddressed_segments_are_refused(ip: IpRepr, segment: Segment)
    requires
        ip.source() is Unspecified || ip.destination() is Unspecified,
    ensures
        pair_of(ip, segment) == Err::<AddrPair, StackError>(StackError::Unrecognized),
{
}

/// An address with its port is that address and that port, in its own family.
pub proof fn lemma_addresses_keep_their_octets(v4: u32, v6: u128, port: u16)
    ensures
        SocketAddr::V4(v4, port).endpoint().addr == IpAddress::Ipv4(v4),
        SocketAddr::V4(v4, port).endpoint().port == port,
        SocketAddr::V4(v4, port).port_number() == port,
        SocketAddr::V6(v6, port).endpoint().addr == IpAddress::Ipv6(v6),
        SocketAddr::V6(v6, port).endpoint().port == port,
        SocketAddr::V6(v6, port).port_number() == port,
        socket_address(IpAddress::Ipv4(v4), port) == Ok::<SocketAddr, StackError>(
            SocketAddr::V4(v4, port),
        ),
        socket_address(IpAddress::Ipv6(v6), port) == Ok::<SocketAddr, StackError>(
            SocketAddr::V6(v6, port),
        ),
        socket_address(IpAddress::Unspecified, port) == Err::<SocketAddr, StackError>(
            StackError::Unrecognized,
        ),
{
}

/// Which connection takes a segment, among these and a new one, and whether it
/// is the new one, or why none does.
pub open spec fn admission<L>(
    connections: Map<AddrPair, Connection<L>>,
    ip: IpRepr,
    segment: Segment,
) -> Result<(AddrPair, bool), StackError> {
    match pair_of(ip, segment) {
        Err(error) => Err(error),
        Ok(pair) => if connections.contains_key(pair) {
            Ok((pair, false))
        } else if !(segment.control is Syn) {
            Err(StackError::Dropped)
        } else if pair.local.port_number() == 0 {
            Err(StackError::Unaddressable)
        } else {
            Ok((pair, true))
        },
    }
}

/// A connection is made once: after a segment was taken, every segment between
/// the same two ends, the same one included, is taken by that connection, as
/// long as it is known.
pub proof fn lemma_connection_is_made_once<L>(
    before: Map<AddrPair, Connection<L>>,
    ip: IpRepr,
    segment: Segment,
    now: Map<AddrPair, Connection<L>>,
    later_ip: IpRepr,
    later: Segment,
)
    requires
        admission(before, ip, segment) is Ok,
        pair_of(later_ip, later) == pair_of(ip, segment),
        now.contains_key(admission(before, ip, segment)->Ok_0.0),
    ensures
        admission(now, later_ip, later) == Ok::<(AddrPair, bool), StackError>(
            (admission(before, ip, segment)->Ok_0.0, false),
        ),
{
}

/// A known connection takes every segment that belongs to it. For a segment that
/// belongs to none of those that are known, a connection is made if it opens one
/// and there is a port to open it to. Nothing else makes a connection.
pub proof fn lemma_only_opening_makes_a_connection<L>(
    connections: Map<AddrPair, Connection<L>>,
    ip: IpRepr,
    segment: Segment,
)
    requires
        !(ip.source() is Unspecified),
        !(ip.destination() is Unspecified),
        !(segment.control is Syn && segment.ack_number is Some),
    ensures
        ({
            let pair = pair_of(ip, segment)->Ok_0;
            let r = admission(connections, ip, segment);
            &&& connections.contains_key(pair) ==> r == Ok::<(AddrPair, bool), StackError>(
                (pair, false),
            )
            &&& !connections.contains_key(pair) && segment.control is Syn && segment.dst_port != 0
                ==> r == Ok::<(AddrPair, bool), StackError>((pair, true))
            &&& !connections.contains_key(pair) && segment.control is Syn && segment.dst_port == 0
                ==> r == Err::<(AddrPair, bool), StackError>(StackError::Unaddressable)
            &&& !connections.contains_key(pair) && !(segment.control is Syn) ==> r == Err::<
                (AddrPair, bool),
                StackError,
            >(StackError::Dropped)
        }),
{
}

/// A segment that belongs to no connection is taken by none, known or new.
pub proof fn lemma_refused_segments_make_no_connection<L>(
    connections: Map<AddrPair, Connection<L>>,
    ip: IpRepr,
    segment: Segment,
)
    requires
        ip.source() is Unspecified || ip.destination() is Unspecified || (segment.control is Syn
            && segment.ack_number is Some),
    ensures
        admission(connections, ip, segment) is Err,
        admission(connections, ip, segment)->Err_0 == pair_of(ip, segment)->Err_0,
{
}

/// An extensible set of sockets.
pub struct SocketPool<L> {
    queue: DispatchQueue,
    sockets: AddrTable<Connection<L>>,
    /// Queue a socket to be polled for egress after a period.
    send_poll: QueueUpdater,
    shutdown_builder: CloseSender,
    capabilities: DeviceCapabilities,
    clock: Clock,
}

impl<L> SocketPool<L> {
    /// The known connections.
    pub closed spec fn connections(self) -> Map<AddrPair, Connection<L>> {
        self.sockets@
    }

    /// When which connection is to be polled.
    pub closed spec fn deadlines(self) -> Map<AddrPair, Instant> {
        self.queue@
    }

    /// The start of the clock that deadlines are measured by.
    pub closed spec fn origin(self) -> Instant {
        self.queue.origin()
    }

    /// The start of the clock that timestamps are counted by.
    pub closed spec fn started(self) -> Instant {
        self.clock.start()
    }

    /// What is known of the device.
    pub closed spec fn device(self) -> DeviceCapabilities {
        self.capabilities
    }

    /// The channel by which streams ask for turns to send.
    pub closed spec fn update_channel(self) -> int {
        self.send_poll.channel()
    }

    /// The channel by which streams report that a half was dropped.
    pub closed spec fn close_channel(self) -> int {
        self.shutdown_builder.channel()
    }

    /// The timer was asked on behalf of the task of `cx`, and `r` is the
    /// connection that it gave out, if it gave out one.
    pub closed spec fn handed_out(self, cx: Context<'_>, r: Option<SocketHandle>) -> bool {
        self.queue.handed_out(cx, r)
    }

    /// Both have the same clocks, device and channels.
    pub open spec fn same_setup(self, other: SocketPool<L>) -> bool {
        &&& self.origin() == other.origin()
        &&& self.started() == other.started()
        &&& self.device() == other.device()
        &&& self.update_channel() == other.update_channel()
        &&& self.close_channel() == other.close_channel()
    }

    /// An update of a deadline can be carried out.
    pub open spec fn takes(self, socket: AddrPair, poll_at: PollAt) -> bool {
        room_for(self.deadlines(), socket, poll_at)
    }

    /// Each connection stands under its own addresses.
    pub closed spec fn wf(self) -> bool {
        &&& self.queue.wf()
        &&& self.sockets.wf()
        &&& forall|pair: AddrPair| #[trigger]
            self.sockets@.contains_key(pair) ==> self.sockets@[pair].inner.handle == pair
    }

    /// A connection is found under its own addresses and no others.
    pub proof fn lemma_connections_have_their_addresses(self, pair: AddrPair)
        requires
            self.wf(),
            self.connections().contains_key(pair),
        ensures
            self.connections()[pair].inner.handle == pair,
    {
    }

    /// Create a socket set using the provided storage.
    pub fn new(
        send_poll: QueueUpdater,
        shutdown_builder: CloseSender,
        capabilities: DeviceCapabilities,
        queue: DispatchQueue,
        clock: Clock,
    ) -> (r: SocketPool<L>)
        requires
            queue.wf(),
        ensures
            r.wf(),
            r.connections() == Map::<AddrPair, Connection<L>>::empty(),
            r.deadlines() == queue@,
            r.origin() == queue.origin(),
            r.started() == clock.start(),
            r.device() == capabilities,
            r.update_channel() == send_poll.channel(),
            r.close_channel() == shutdown_builder.channel(),
    {
        let sockets = AddrTable::new();
        SocketPool { sockets, send_poll, shutdown_builder, capabilities, clock, queue }
    }

    /// Makes a connection for a segment that opens one, unless there is one:
    /// `share` turns its socket into something that all its owners can hold.
    /// Any other segment needs a connection that is there.
    pub fn create_syn<F: FnOnce(Inner) -> L>(
        &mut self,
        pair: &AddrPair,
        tcp_repr: &TcpRepr<'_>,
        share: F,
    ) -> (r: Result<Option<TcpStream>, StackError>)
        requires
            old(self).wf(),
            forall|inner: Inner| share.requires((inner,)),
        ensures
            final(self).wf(),
            final(self).deadlines() == old(self).deadlines(),
            final(self).same_setup(*old(self)),
            r is Ok <==> old(self).connections().contains_key(*pair) || (tcp_repr.control is Syn
                && pair.local.port_number() != 0),
            r is Err ==> r->Err_0 == (if tcp_repr.control is Syn {
                StackError::Unaddressable
            } else {
                StackError::Dropped
            }),
            r is Ok && r->Ok_0 is Some <==> r is Ok && !old(self).connections().contains_key(*pair),
            !(r is Ok && r->Ok_0 is Some) ==> final(self).connections() == old(self).connections(),
            r is Ok && r->Ok_0 is Some ==> {
                let stream = r->Ok_0->Some_0;
                &&& stream.untouched(
                    *pair,
                    old(self).update_channel(),
                    old(self).close_channel(),
                )
                &&& stream.write_half().updates().len() == 0
                &&& exists|inner: Inner, socket: L| #[trigger]
                    share.ensures((inner,), socket) && socket_model(inner.tcp) == opened(pair.local)
                        && !inner.polling_active
                        && final(self).connections() == old(self).connections().insert(
                        *pair,
                        (Connection { socket, inner: RwStatus::in_use(*pair) }),
                    )
            },
    {
        if self.sockets.contains_key(pair) {
            return Ok(None);
        }
        if tcp_repr.control != TcpControl::Syn {
            return Err(StackError::Dropped);
        }
        let socket = match open_socket(pair.local) {
            Ok(socket) => socket,
            Err(error) => return Err(error),
        };
        let (tcp, inner) = TcpStream::new(
            socket,
            self.send_poll.clone(),
            *pair,
            &self.shutdown_builder,
        );
        let connection = Connection::new(share(inner), *pair);
        let _nothing = self.sockets.insert(*pair, connection);
        Ok(Some(tcp))
    }

    /// Find or create socket for the incoming packet. Returns the connection
    /// that the segment belongs to, and the stream of a new one.
    pub fn find_or_create<F: FnOnce(Inner) -> L>(
        &mut self,
        ip_repr: &IpRepr,
        tcp_repr: &TcpRepr<'_>,
        share: F,
    ) -> (r: Result<(AddrPair, Option<TcpStream>), StackError>)
        requires
            old(self).wf(),
            forall|inner: Inner| share.requires((inner,)),
        ensures
            final(self).wf(),
            final(self).deadlines() == old(self).deadlines(),
            final(self).same_setup(*old(self)),
            match admission(old(self).connections(), *ip_repr, tcp_repr@) {
                Err(error) => r is Err && r->Err_0 == error
                    && final(self).connections() == old(self).connections(),
                Ok((pair, false)) => r is Ok && r->Ok_0.0 == pair && r->Ok_0.1 is None
                    && final(self).connections() == old(self).connections(),
                Ok((pair, true)) => {
                    &&& r is Ok && r->Ok_0.0 == pair && r->Ok_0.1 is Some
                    &&& r->Ok_0.1->Some_0.untouched(
                        pair,
                        old(self).update_channel(),
                        old(self).close_channel(),
                    )
                    &&& r->Ok_0.1->Some_0.write_half().updates().len() == 0
                    &&& exists|inner: Inner, socket: L| #[trigger]
                        share.ensures((inner,), socket) && socket_model(inner.tcp) == opened(
                            pair.local,
                        ) && !inner.polling_active
                            && final(self).connections() == old(self).connections().insert(
                            pair,
                            (Connection { socket, inner: RwStatus::in_use(pair) }),
                        )
                },
            },
    {
        let pair = match route(ip_repr, tcp_repr) {
            Ok(pair) => pair,
            Err(error) => return Err(error),
        };
        match self.create_syn(&pair, tcp_repr, share) {
            Ok(stream) => Ok((pair, stream)),
            Err(error) => Err(error),
        }
    }

    /// Hands a segment to the connection that it belongs to, whose socket is
    /// `tcp`, as [`Connection::process`] does, at the time of the clock.
    pub fn process<
        F: FnOnce(&mut TcpSocket<'static>, i64, &IpRepr, &TcpRepr<'_>) -> Result<Reply, StackError>,
        G: FnOnce(&TcpSocket<'static>) -> PollAt,
    >(
        &mut self,
        pair: &AddrPair,
        tcp: &mut TcpSocket<'static>,
        ip_repr: &IpRepr,
        tcp_repr: &TcpRepr<'_>,
        step: F,
        poll_at: G,
    ) -> (r: Processed)
        requires
            old(self).wf(),
            old(self).connections().contains_key(*pair),
            forall|t: &mut TcpSocket<'static>, ts: i64| step.requires((t, ts, ip_repr, tcp_repr)),
            forall|t: &TcpSocket<'static>| poll_at.requires((t,)),
            forall|t: &TcpSocket<'static>, p: PollAt|
                acceptable(socket_model(*old(tcp)), *ip_repr, tcp_repr@) && poll_at.ensures(
                    (t,),
                    p,
                ) ==> old(self).takes(
                    *pair,
                    old(self).connections()[*pair].inner.poll_after_process(
                        p,
                        old(self).deadlines().contains_key(*pair),
                    ),
                ),
        ensures
            final(self).wf(),
            final(self).connections() == old(self).connections(),
            final(self).same_setup(*old(self)),
            !acceptable(socket_model(*old(tcp)), *ip_repr, tcp_repr@) ==> {
                &&& r.reply == Err::<Reply, StackError>(StackError::Dropped)
                &&& r.wakes == (Wakes { reader: false, writer: false })
                &&& r.scheduled
                &&& *final(tcp) == *old(tcp)
                &&& final(self).deadlines() == old(self).deadlines()
            },
            acceptable(socket_model(*old(tcp)), *ip_repr, tcp_repr@) ==> {
                let status = old(self).connections()[*pair].inner;
                &&& r.wakes == status.wakes_after_process(socket_model(*final(tcp)))
                &&& exists|t: &mut TcpSocket<'static>, ts: i64|
                    *t == *old(tcp) && *final(t) == *final(tcp) && timestamp_since(
                        old(self).started(),
                        ts,
                    ) && #[trigger] step.ensures((t, ts, ip_repr, tcp_repr), r.reply)
                &&& exists|p: PollAt| #[trigger]
                    poll_at.ensures((&*final(tcp),), p) && rescheduled(
                        old(self).deadlines(),
                        final(self).deadlines(),
                        old(self).origin(),
                        *pair,
                        status.poll_after_process(p, old(self).deadlines().contains_key(*pair)),
                        r.scheduled,
                    )
            },
    {
        let timestamp: i64 = self.timestamp();
        let connection = self.sockets.get(pair).unwrap();
        connection.process(timestamp, tcp, ip_repr, tcp_repr, step, poll_at, &mut self.queue)
    }

    /// Gives a connection, whose socket is `inner`, a turn to fill `buf`, as
    /// [`Connection::dispatch`] does, at the time of the clock. A connection that
    /// is over is forgotten, with its deadline.
    pub fn dispatch<
        F: FnOnce(
            &mut TcpSocket<'static>,
            i64,
            &DeviceCapabilities,
            &mut Emission,
        ) -> Result<(), StackError>,
        G: FnOnce(&TcpSocket<'static>) -> PollAt,
    >(
        &mut self,
        buf: &mut Vec<u8>,
        addr: &AddrPair,
        inner: &mut Inner,
        step: F,
        poll_at: G,
    ) -> (r: Dispatched)
        requires
            old(self).wf(),
            old(self).connections().contains_key(*addr),
            old(buf)@.len() == 0,
            forall|t: &mut TcpSocket<'static>, ts: i64, d: &DeviceCapabilities, e: &mut Emission|
                step.requires((t, ts, d, e)),
            forall|t: &TcpSocket<'static>| poll_at.requires((t,)),
            forall|t: &TcpSocket<'static>, o: Result<(), StackError>, p: PollAt|
                poll_at.ensures((t,), p) ==> #[trigger] old(self).connections()[*addr].inner.over(
                    socket_model(*t),
                    o,
                    p,
                ) || old(self).takes(*addr, p),
        ensures
            final(self).wf(),
            final(self).same_setup(*old(self)),
            r.wakes == old(self).connections()[*addr].inner.wakes_after_dispatch(
                socket_model(final(inner).tcp),
            ),
            exists|
                t: &mut TcpSocket<'static>,
                ts: i64,
                e: &mut Emission,
                o: Result<(), StackError>,
                p: PollAt,
            |
                {
                    &&& *t == old(inner).tcp
                    &&& *final(t) == final(inner).tcp
                    &&& e.bytes().len() == 0
                    &&& e.checksum() == old(self).device().checksum
                    &&& final(e).bytes() == final(buf)@
                    &&& final(buf)@.len() == 0 || one_packet(final(buf)@, final(e).checksum())
                    &&& timestamp_since(old(self).started(), ts)
                    &&& #[trigger] step.ensures((t, ts, &old(self).device(), e), o)
                    &&& #[trigger] poll_at.ensures((&final(inner).tcp,), p)
                    &&& r.drop == old(self).connections()[*addr].inner.over(
                        socket_model(final(inner).tcp),
                        o,
                        p,
                    )
                    &&& r.drop ==> {
                        &&& r.scheduled
                        &&& final(inner).polling_active == old(inner).polling_active
                        &&& final(self).connections() == old(self).connections().remove(*addr)
                        &&& final(self).deadlines() == old(self).deadlines().remove(*addr)
                    }
                    &&& !r.drop ==> {
                        &&& final(inner).polling_active == (p is Now)
                        &&& final(self).connections() == old(self).connections()
                        &&& rescheduled(
                            old(self).deadlines(),
                            final(self).deadlines(),
                            old(self).origin(),
                            *addr,
                            p,
                            r.scheduled,
                        )
                    }
                },
    {
        let timestamp: i64 = self.timestamp();
        let connection = self.sockets.get(addr).unwrap();
        let dispatched = connection.dispatch(
            buf,
            timestamp,
            &self.capabilities,
            inner,
            step,
            poll_at,
            &mut self.queue,
        );
        if dispatched.drop {
            let _connection = self.sockets.remove(addr);
            self.queue.remove(addr);
        }
        dispatched
    }

    /// Mark reader or writer as dropped, as [`Connection::drop_half`] does.
    pub fn drop_tcp_half<G: FnOnce(&TcpSocket<'static>) -> PollAt>(
        &mut self,
        socket: &SocketHandle,
        rw: Close,
        tcp: &mut TcpSocket<'static>,
        poll_at: G,
    ) -> (r: HalfDropped)
        requires
            old(self).wf(),
            old(self).connections().contains_key(*socket),
            forall|t: &TcpSocket<'static>| poll_at.requires((t,)),
            forall|t: &TcpSocket<'static>, p: PollAt|
                old(self).connections()[*socket].inner.without(rw).writer_dropped
                    && poll_at.ensures((t,), p) ==> old(self).takes(
                    *socket,
                    old(self).connections()[*socket].inner.without(rw).poll_after_close(p),
                ),
        ensures
            final(self).wf(),
            final(self).same_setup(*old(self)),
            ({
                let before = old(self).connections()[*socket];
                let status = before.inner.without(rw);
                &&& final(self).connections() == old(self).connections().insert(
                    *socket,
                    (Connection { socket: before.socket, inner: status }),
                )
                &&& r.drop == status.unused()
                &&& !status.writer_dropped ==> r.scheduled && *final(tcp) == *old(tcp)
                    && final(self).deadlines() == old(self).deadlines()
                &&& status.writer_dropped ==> {
                    &&& socket_model(*final(tcp)) == socket_model(*old(tcp)).after_close()
                    &&& exists|p: PollAt| #[trigger]
                        poll_at.ensures((&*final(tcp),), p) && rescheduled(
                            old(self).deadlines(),
                            final(self).deadlines(),
                            old(self).origin(),
                            *socket,
                            status.poll_after_close(p),
                            r.scheduled,
                        )
                }
            }),
    {
        let connection = self.sockets.get_mut(socket).unwrap();
        connection.drop_half(rw, tcp, poll_at, &mut self.queue)
    }

    /// The way to the socket of a connection.
    pub fn socket(&self, pair: &AddrPair) -> (r: Option<&L>)
        requires
            self.wf(),
        ensures
            r is Some <==> self.connections().contains_key(*pair),
            r is Some ==> *r->Some_0 == self.connections()[*pair].socket,
    {
        match self.sockets.get(pair) {
            Some(connection) => Some(&connection.socket),
            None => None,
        }
    }

    /// Which halves of a connection are in use.
    pub fn status(&self, pair: &AddrPair) -> (r: Option<RwStatus>)
        requires
            self.wf(),
        ensures
            r is Some <==> self.connections().contains_key(*pair),
            r is Some ==> r->Some_0 == self.connections()[*pair].inner,
    {
        match self.sockets.get(pair) {
            Some(connection) => Some(connection.inner),
            None => None,
        }
    }

    /// Whether an update of a deadline can be carried out.
    pub fn accepts(&self, socket: &SocketHandle, poll_at: PollAt) -> (r: bool)
        requires
            self.wf(),
        ensures
            r == self.takes(*socket, poll_at),
    {
        self.queue.accepts(socket, poll_at)
    }

    /// Carries out an update of a deadline, as [`DispatchQueue::send`] does.
    pub fn update(&mut self, socket: SocketHandle, poll_at: PollAt) -> (r: bool)
        requires
            old(self).wf(),
            old(self).takes(socket, poll_at),
        ensures
            final(self).wf(),
            final(self).connections() == old(self).connections(),
            final(self).same_setup(*old(self)),
            rescheduled(
                old(self).deadlines(),
                final(self).deadlines(),
                old(self).origin(),
                socket,
                poll_at,
                r,
            ),
    {
        self.queue.send(socket, poll_at)
    }

    /// Takes out a deadline that has come, as [`DispatchQueue::poll`] does.
    pub fn expired(&mut self, cx: &mut Context<'_>) -> (r: Option<SocketHandle>)
        requires
            old(self).wf(),
        ensures
            final(self).wf(),
            final(self).connections() == old(self).connections(),
            final(self).same_setup(*old(self)),
            r is Some ==> old(self).deadlines().contains_key(r->Some_0) && final(self).deadlines()
                == old(self).deadlines().remove(r->Some_0),
            r is None ==> final(self).deadlines() == old(self).deadlines(),
            due_at_once(old(self).deadlines(), old(self).origin()) ==> r is Some,
            old(self).handed_out(*old(cx), r),
    {
        self.queue.poll(cx)
    }

    /// Returns the number of milliseconds since the clock was made.
    pub fn timestamp(&self) -> (r: i64)
        ensures
            timestamp_since(self.started(), r),
    {
        self.clock.timestamp()
    }

    /// What is known of the device.
    pub fn capabilities(&self) -> (r: DeviceCapabilities)
        ensures
            r == self.device(),
    {
        self.capabilities
    }
}

} // verus!
