//! What a connection does with segments, turns to send and halves that are dropped.
use crate::dispatch::poll_queue::{DispatchQueue, PollAt};
use crate::dispatch::shutdown::Close;
use crate::dispatch::SocketHandle;
use crate::stream::internal::{
    check_acceptability, Connection, Dispatched, HalfDropped, RwStatus, Wakes,
};
use crate::stream::socket::{socket_model, TcpState};
use crate::stream::Inner;
use crate::time::instant_after;
use crate::wire::{IpEndpoint, IpRepr, StackError, TcpRepr};
use smoltcp::socket::TcpSocket;
use vstd::prelude::*;

verus! {

/// A connected socket takes the segments between its two ends, whatever they are
/// for and whatever they carry, and no others. Those are dropped.
pub proof fn lemma_connected_socket_takes_its_segments(
    tcp: TcpSocket<'static>,
    ip: IpRepr,
    segment: TcpRepr<'_>,
    r: Result<(), StackError>,
)
    requires
        call_ensures(check_acceptability, (&tcp, &ip, &segment), r),
        !(socket_model(tcp).state is Closed),
        !(socket_model(tcp).state is Listen),
        socket_model(tcp).local.specified(),
        socket_model(tcp).remote.specified(),
    ensures
        socket_model(tcp).local == (IpEndpoint { addr: ip.destination(), port: segment.dst_port })
            && socket_model(tcp).remote == (IpEndpoint {
            addr: ip.source(),
            port: segment.src_port,
        }) ==> r is Ok,
        socket_model(tcp).local != (IpEndpoint { addr: ip.destination(), port: segment.dst_port })
            || socket_model(tcp).remote != (IpEndpoint {
            addr: ip.source(),
            port: segment.src_port,
        }) ==> r == Err::<(), StackError>(StackError::Dropped),
{
}

/// A socket that waits for a connection takes what comes to its address from
/// anywhere, unless it acknowledges something. A closed one takes nothing.
pub proof fn lemma_unconnected_socket_takes_what_is_new(
    tcp: TcpSocket<'static>,
    ip: IpRepr,
    segment: TcpRepr<'_>,
    r: Result<(), StackError>,
)
    requires
        call_ensures(check_acceptability, (&tcp, &ip, &segment), r),
        socket_model(tcp).remote.port == 0,
        socket_model(tcp).remote.addr is Unspecified,
    ensures
        socket_model(tcp).state is Closed ==> r == Err::<(), StackError>(StackError::Dropped),
        socket_model(tcp).state is Listen && segment.ack_number is Some ==> r == Err::<
            (),
            StackError,
        >(StackError::Dropped),
        socket_model(tcp).state is Listen && segment.ack_number is None
            && socket_model(tcp).local.port == segment.dst_port && socket_model(tcp).local.addr
            == ip.destination() ==> r is Ok,
        socket_model(tcp).local.port != segment.dst_port ==> r == Err::<(), StackError>(
            StackError::Dropped,
        ),
{
}

/// After a segment, a connection has the turn that its socket asks for. If that
/// waits for the next segment, nothing changes, unless nobody uses the connection
/// and it has no deadline: then it gets a turn at once.
pub proof fn lemma_segment_is_followed_by_a_turn()
    ensures
        forall|
            status: &RwStatus,
            tcp: &TcpSocket<'static>,
            poll_at: PollAt,
            queue: &mut DispatchQueue,
            r: (Wakes, bool),
        | #[trigger]
            call_ensures(RwStatus::after_process, (status, tcp, poll_at, queue), r) ==> {
                let before = queue@;
                let after = final(queue)@;
                let at_once = before.insert(status.handle, queue.origin());
                &&& match poll_at {
                    PollAt::Now => r.1 && after == at_once,
                    PollAt::Time(millis) => millis >= 0 && r.1 ==> after == before.insert(
                        status.handle,
                        instant_after(queue.origin(), (millis * 1_000_000) as nat),
                    ),
                    PollAt::Ingress => r.1 && after == if before.contains_key(status.handle)
                        || !status.reader_dropped || !status.writer_dropped {
                        before
                    } else {
                        at_once
                    },
                }
                &&& !r.1 ==> after == before
                &&& final(queue).origin() == queue.origin()
            },
{
}

/// After a segment, the reader is woken if there is something to read, and either
/// half if it is over. A half that was dropped is not.
pub proof fn lemma_segment_wakes()
    ensures
        forall|
            status: &RwStatus,
            tcp: &TcpSocket<'static>,
            poll_at: PollAt,
            queue: &mut DispatchQueue,
            r: (Wakes, bool),
        | #[trigger]
            call_ensures(RwStatus::after_process, (status, tcp, poll_at, queue), r) ==> {
                let socket = socket_model(*tcp);
                &&& status.reader_dropped ==> !r.0.reader
                &&& status.writer_dropped ==> !r.0.writer
                &&& !status.reader_dropped && socket.rx.len() > 0 ==> r.0.reader
                &&& !status.reader_dropped && socket.rx.len() == 0 ==> r.0.reader
                    == match socket.state {
                    TcpState::Established | TcpState::FinWait1 | TcpState::FinWait2 => false,
                    _ => true,
                }
                &&& !status.writer_dropped ==> r.0.writer == match socket.state {
                    TcpState::Established | TcpState::CloseWait => false,
                    _ => true,
                }
            },
{
}

/// A turn to send is the last one of a connection that nobody uses if it has no
/// peer, had nothing to send, or waits for a segment only. Until then, and as long
/// as a half is in use, the connection has the next turn that its socket asks for.
/// It counts as queued exactly if that is at once.
pub proof fn lemma_turn_is_followed_by_the_next()
    ensures
        forall|
            status: &RwStatus,
            inner: &mut Inner,
            outcome: Result<(), StackError>,
            poll_at: PollAt,
            queue: &mut DispatchQueue,
            r: Dispatched,
        | #[trigger]
            call_ensures(
                RwStatus::after_dispatch,
                (status, inner, outcome, poll_at, queue),
                r,
            ) ==> {
                let remote = socket_model(inner.tcp).remote;
                let before = queue@;
                let after = final(queue)@;
                &&& !status.reader_dropped || !status.writer_dropped ==> !r.drop
                &&& remote.specified() && outcome != Err::<(), StackError>(StackError::Exhausted)
                    && !(poll_at is Ingress) ==> !r.drop
                &&& status.reader_dropped && status.writer_dropped && (!remote.specified()
                    || outcome == Err::<(), StackError>(StackError::Exhausted)
                    || poll_at is Ingress) ==> r.drop
                &&& r.drop ==> r.scheduled && after == before && final(inner).polling_active
                    == inner.polling_active
                &&& !r.drop ==> match poll_at {
                    PollAt::Now => r.scheduled && after == before.insert(
                        status.handle,
                        queue.origin(),
                    ) && final(inner).polling_active,
                    PollAt::Time(millis) => (millis >= 0 && r.scheduled ==> after == before.insert(
                        status.handle,
                        instant_after(queue.origin(), (millis * 1_000_000) as nat),
                    )) && !final(inner).polling_active,
                    PollAt::Ingress => r.scheduled && after == before
                        && !final(inner).polling_active,
                }
                &&& !r.scheduled ==> after == before
                &&& final(inner).tcp == inner.tcp
                &&& final(queue).origin() == queue.origin()
            },
{
}

/// After a turn to send, the writer is woken if there is room for more, and either
/// half if it is over. A half that was dropped is not.
pub proof fn lemma_turn_wakes()
    ensures
        forall|
            status: &RwStatus,
            inner: &mut Inner,
            outcome: Result<(), StackError>,
            poll_at: PollAt,
            queue: &mut DispatchQueue,
            r: Dispatched,
        | #[trigger]
            call_ensures(
                RwStatus::after_dispatch,
                (status, inner, outcome, poll_at, queue),
                r,
            ) ==> {
                let socket = socket_model(inner.tcp);
                &&& status.reader_dropped ==> !r.wakes.reader
                &&& status.writer_dropped ==> !r.wakes.writer
                &&& !status.reader_dropped && socket.rx.len() > 0 ==> !r.wakes.reader
                &&& !status.reader_dropped && socket.rx.len() == 0 ==> r.wakes.reader
                    == match socket.state {
                    TcpState::Established | TcpState::FinWait1 | TcpState::FinWait2 => false,
                    _ => true,
                }
                &&& !status.writer_dropped ==> r.wakes.writer == match socket.state {
                    TcpState::Established | TcpState::CloseWait => socket.tx.len()
                        < socket.tx_capacity,
                    _ => true,
                }
            },
{
}

/// Once the transmit half is closed, the connection has the turn that its socket
/// asks for, also while it is still read from. If that waits for a segment, nothing
/// changes, unless nobody uses the connection: then it gets a turn at once.
pub proof fn lemma_close_is_followed_by_a_turn()
    ensures
        forall|status: &RwStatus, poll_at: PollAt, queue: &mut DispatchQueue, r: bool| #[trigger]
            call_ensures(RwStatus::after_close, (status, poll_at, queue), r) ==> {
                let before = queue@;
                let after = final(queue)@;
                let at_once = before.insert(status.handle, queue.origin());
                &&& match poll_at {
                    PollAt::Now => r && after == at_once,
                    PollAt::Time(millis) => millis >= 0 && r ==> after == before.insert(
                        status.handle,
                        instant_after(queue.origin(), (millis * 1_000_000) as nat),
                    ),
                    PollAt::Ingress => r && after == if status.reader_dropped
                        && status.writer_dropped {
                        at_once
                    } else {
                        before
                    },
                }
                &&& !r ==> after == before
                &&& final(queue).origin() == queue.origin()
            },
{
}

/// A new connection is used by both halves. Nobody uses it once both are dropped,
/// and not before.
pub proof fn lemma_both_halves_start_in_use<L>(
    socket: L,
    addr: SocketHandle,
    connection: Connection<L>,
    status: RwStatus,
    unused: bool,
)
    requires
        call_ensures(Connection::<L>::new, (socket, addr), connection),
        call_ensures(RwStatus::both_dropped, (&status,), unused),
    ensures
        connection.socket == socket,
        connection.inner.handle == addr,
        !connection.inner.reader_dropped,
        !connection.inner.writer_dropped,
        unused <==> status.reader_dropped && status.writer_dropped,
{
}

/// Dropping a half drops that half and nothing else, and reports a connection that
/// is not used any more. Without a writer the transmit half is closed. With one,
/// the socket and its deadline stay as they are.
pub proof fn lemma_dropped_half<L, G: FnOnce(&TcpSocket<'static>) -> PollAt>()
    ensures
        forall|
            connection: &mut Connection<L>,
            rw: Close,
            tcp: &mut TcpSocket<'static>,
            poll_at: G,
            queue: &mut DispatchQueue,
            r: HalfDropped,
        | #[trigger]
            call_ensures(
                Connection::<L>::drop_half::<G>,
                (connection, rw, tcp, poll_at, queue),
                r,
            ) ==> {
                let before = connection.inner;
                let after = final(connection).inner;
                let state = socket_model(*tcp).state;
                let closed = socket_model(*final(tcp)).state;
                &&& final(connection).socket == connection.socket
                &&& after.handle == before.handle
                &&& after.reader_dropped == (before.reader_dropped || rw is Read)
                &&& after.writer_dropped == (before.writer_dropped || rw is Write)
                &&& r.drop == (after.reader_dropped && after.writer_dropped)
                &&& !after.writer_dropped ==> r.scheduled && *final(tcp) == *tcp && final(queue)@
                    == queue@
                &&& after.writer_dropped ==> socket_model(*final(tcp)).tx == socket_model(*tcp).tx
                    && socket_model(*final(tcp)).rx == socket_model(*tcp).rx
                &&& after.writer_dropped && (state is Established || state is SynReceived)
                    ==> closed is FinWait1
                &&& after.writer_dropped && state is CloseWait ==> closed is LastAck
                &&& after.writer_dropped && (state is Listen || state is SynSent)
                    ==> closed is Closed
                &&& after.reader_dropped && after.writer_dropped && r.scheduled
                    ==> final(queue)@.contains_key(before.handle)
            },
{
}

} // verus!
