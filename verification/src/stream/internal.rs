//! The side of a connection that faces the network.
use crate::dispatch::packet::{one_packet, Emission};
use crate::dispatch::poll_queue::{rescheduled, scheduled, DispatchQueue, PollAt};
use crate::dispatch::shutdown::Close;
use crate::dispatch::SocketHandle;
use crate::sockets::AddrPair;
use crate::stream::socket::{
    can_recv, can_send, close, local_endpoint, may_recv, may_send, remote_endpoint, socket_model,
    state, SocketModel, TcpState,
};
use crate::stream::Inner;
use crate::time::unrepresentable;
use crate::wire::{DeviceCapabilities, IpRepr, Segment, StackError, TcpRepr};
use smoltcp::socket::TcpSocket;
use std::time::Instant;
use vstd::prelude::*;

verus! {

/// A segment to be sent in answer to another one.
pub type Reply = Option<(IpRepr, TcpRepr<'static>)>;

/// Which tasks have to be woken.
#[derive(Clone, Copy, Debug, PartialEq, Eq, Structural)]
pub struct Wakes {
    pub reader: bool,
    pub writer: bool,
}

/// What came of an incoming segment.
pub struct Processed {
    /// The answer, or why the segment was not taken.
    pub reply: Result<Reply, StackError>,
    /// Whom to wake.
    pub wakes: Wakes,
    /// Whether the machine can represent the next deadline of the connection.
    pub scheduled: bool,
}

/// What came of a turn to send.
#[derive(Clone, Copy, Debug, PartialEq, Eq, Structural)]
pub struct Dispatched {
    /// Whether the connection is over and has to be forgotten.
    pub drop: bool,
    /// Whom to wake.
    pub wakes: Wakes,
    /// Whether the machine can represent the next deadline of the connection.
    pub scheduled: bool,
}

/// What came of dropping one half.
#[derive(Clone, Copy, Debug, PartialEq, Eq, Structural)]
pub struct HalfDropped {
    /// Whether the connection should be dropped, once it has nothing left to do.
    pub drop: bool,
    /// Whether the machine can represent the next deadline of the connection.
    pub scheduled: bool,
}

/// Which halves of a connection are still in use.
#[derive(Clone, Copy, Debug, PartialEq, Eq, Structural)]
pub struct RwStatus {
    /// Can be used as a key in key-value storage.
    pub handle: SocketHandle,
    pub reader_dropped: bool,
    pub writer_dropped: bool,
}

/// Reference to TcpSocket.
/// Notify readers and writers after IO activities.
pub struct Connection<L> {
    /// The way to the socket, which is shared with the two halves.
    pub socket: L,
    pub inner: RwStatus,
}

/// The segment is meant for a socket in this state.
pub open spec fn acceptable(socket: SocketModel, ip: IpRepr, segment: Segment) -> bool {
    &&& !(socket.state is Closed)
    &&& !(socket.state is Listen && segment.ack_number is Some)
    &&& socket.local.port == segment.dst_port
    &&& socket.local.addr.unspecified() || socket.local.addr == ip.destination()
    &&& socket.remote.port == 0 || socket.remote.port == segment.src_port
    &&& socket.remote.addr.unspecified() || socket.remote.addr == ip.source()
}

/// Refuses a segment that is not meant for the socket.
pub fn check_acceptability(tcp: &TcpSocket<'static>, ip_repr: &IpRepr, repr: &TcpRepr<'_>) -> (r:
    Result<(), StackError>)
    ensures
        r is Ok <==> acceptable(socket_model(*tcp), *ip_repr, repr@),
        r is Err ==> r->Err_0 == StackError::Dropped,
{
    let error = Err(StackError::Dropped);
    let state = state(tcp);
    let local_endpoint = local_endpoint(tcp);
    let remote_endpoint = remote_endpoint(tcp);
    if state == TcpState::Closed {
        return error;
    }
    // If we're still listening for SYNs and the packet has an ACK, it cannot
    // be destined to this socket, but another one may well listen on the same
    // local endpoint.
    if state == TcpState::Listen && repr.ack_number.is_some() {
        return error;
    }
    // Reject packets with a wrong destination.
    if local_endpoint.port != repr.dst_port {
        return error;
    }
    if !local_endpoint.addr.is_unspecified() && local_endpoint.addr != ip_repr.dst_addr() {
        return error;
    }
    // Reject packets from a source to which we aren't connected.
    if remote_endpoint.port != 0 && remote_endpoint.port != repr.src_port {
        return error;
    }
    if !remote_endpoint.addr.is_unspecified() && remote_endpoint.addr != ip_repr.src_addr() {
        return error;
    }
    Ok(())
}

impl RwStatus {
    /// A connection both halves of which are in use.
    pub open spec fn in_use(handle: SocketHandle) -> RwStatus {
        RwStatus { handle, reader_dropped: false, writer_dropped: false }
    }

    /// Both halves have been dropped.
    pub open spec fn unused(self) -> bool {
        self.reader_dropped && self.writer_dropped
    }

    /// Whom to wake once a segment has been processed: the reader if there is
    /// something to read, and either half if it has reached the end.
    pub open spec fn wakes_after_process(self, socket: SocketModel) -> Wakes {
        Wakes {
            reader: !self.reader_dropped && (socket.can_recv() || !socket.may_recv()),
            writer: !self.writer_dropped && !socket.may_send(),
        }
    }

    /// Whom to wake after a turn to send: the writer if there is room for more,
    /// and either half if it has reached the end.
    pub open spec fn wakes_after_dispatch(self, socket: SocketModel) -> Wakes {
        Wakes {
            reader: !self.reader_dropped && !socket.may_recv(),
            writer: !self.writer_dropped && (socket.can_send() || !socket.may_send()),
        }
    }

    /// When to poll the socket after a segment: a connection that nobody uses
    /// does not wait for the next one, but for its turn, unless it has one.
    pub open spec fn poll_after_process(self, poll_at: PollAt, queued: bool) -> PollAt {
        if self.unused() && poll_at is Ingress && !queued {
            PollAt::Now
        } else {
            poll_at
        }
    }

    /// When to poll the socket after its transmit half has been closed: a
    /// connection that nobody uses gets a turn at once.
    pub open spec fn poll_after_close(self, poll_at: PollAt) -> PollAt {
        if self.unused() && poll_at is Ingress {
            PollAt::Now
        } else {
            poll_at
        }
    }

    /// The connection has nothing left to do: nobody uses it, and it has no
    /// peer, or nothing to send, or nothing but a segment to wait for.
    pub open spec fn over(
        self,
        socket: SocketModel,
        outcome: Result<(), StackError>,
        poll_at: PollAt,
    ) -> bool {
        self.unused() && (!socket.remote.specified() || outcome == Err::<(), StackError>(
            StackError::Exhausted,
        ) || poll_at is Ingress)
    }

    /// One half less in use.
    pub open spec fn without(self, rw: Close) -> RwStatus {
        match rw {
            Close::Read => RwStatus { reader_dropped: true, ..self },
            Close::Write => RwStatus { writer_dropped: true, ..self },
        }
    }

    /// Notify reader or writer after reaching the end.
    /// TcpSocket state may change after either processing or dispatching.
    fn wake_to_close(&self, tcp: &TcpSocket<'static>) -> (r: Wakes)
        ensures
            r.reader == (!self.reader_dropped && !socket_model(*tcp).may_recv()),
            r.writer == (!self.writer_dropped && !socket_model(*tcp).may_send()),
    {
        Wakes {
            reader: !may_recv(tcp) && self.wake_reader(),
            writer: !may_send(tcp) && self.wake_writer(),
        }
    }

    /// Whether there is a reader to wake.
    fn wake_reader(&self) -> (r: bool)
        ensures
            r == !self.reader_dropped,
    {
        !self.reader_dropped
    }

    /// Whether there is a writer to wake.
    fn wake_writer(&self) -> (r: bool)
        ensures
            r == !self.writer_dropped,
    {
        !self.writer_dropped
    }

    /// Whether nobody uses the connection.
    pub fn both_dropped(&self) -> (r: bool)
        ensures
            r == self.unused(),
    {
        self.writer_dropped && self.reader_dropped
    }

    /// What is to be done once the socket has processed a segment and asks to
    /// be polled at `poll_at`.
    pub fn after_process(
        &self,
        tcp: &TcpSocket<'static>,
        poll_at: PollAt,
        queue: &mut DispatchQueue,
    ) -> (r: (Wakes, bool))
        requires
            old(queue).wf(),
            old(queue).takes(
                self.handle,
                self.poll_after_process(poll_at, old(queue)@.contains_key(self.handle)),
            ),
        ensures
            final(queue).wf(),
            final(queue).origin() == old(queue).origin(),
            r.0 == self.wakes_after_process(socket_model(*tcp)),
            rescheduled(
                old(queue)@,
                final(queue)@,
                old(queue).origin(),
                self.handle,
                self.poll_after_process(poll_at, old(queue)@.contains_key(self.handle)),
                r.1,
            ),
    {
        let mut wakes = self.wake_to_close(tcp);
        if can_recv(tcp) {
            wakes.reader = self.wake_reader();
        }
        let mut poll_at = poll_at;
        if self.both_dropped() && poll_at == PollAt::Ingress && !queue.contains(&self.handle) {
            poll_at = PollAt::Now;
        }
        let scheduled = queue.send(self.handle, poll_at);
        (wakes, scheduled)
    }

    /// What is to be done once the socket has had a turn to send, which came to
    /// `outcome`, and asks to be polled at `poll_at`.
    pub fn after_dispatch(
        &self,
        inner: &mut Inner,
        outcome: Result<(), StackError>,
        poll_at: PollAt,
        queue: &mut DispatchQueue,
    ) -> (r: Dispatched)
        requires
            old(queue).wf(),
            self.over(socket_model(old(inner).tcp), outcome, poll_at) || old(queue).takes(
                self.handle,
                poll_at,
            ),
        ensures
            final(queue).wf(),
            final(queue).origin() == old(queue).origin(),
            final(inner).tcp == old(inner).tcp,
            r.drop == self.over(socket_model(old(inner).tcp), outcome, poll_at),
            r.wakes == self.wakes_after_dispatch(socket_model(old(inner).tcp)),
            r.drop ==> r.scheduled && final(inner).polling_active == old(inner).polling_active
                && final(queue)@ == old(queue)@,
            !r.drop ==> final(inner).polling_active == (poll_at is Now),
            !r.drop ==> rescheduled(
                old(queue)@,
                final(queue)@,
                old(queue).origin(),
                self.handle,
                poll_at,
                r.scheduled,
            ),
    {
        let mut wakes = self.wake_to_close(&inner.tcp);
        if can_send(&inner.tcp) {
            wakes.writer = self.wake_writer();
        }
        if self.both_dropped() {
            if !remote_endpoint(&inner.tcp).is_specified() {
                return Dispatched { drop: true, wakes, scheduled: true };
            }
            if let Err(error) = outcome {
                if error == StackError::Exhausted {
                    return Dispatched { drop: true, wakes, scheduled: true };
                }
            }
            if poll_at == PollAt::Ingress {
                return Dispatched { drop: true, wakes, scheduled: true };
            }
        }
        inner.polling_active = poll_at == PollAt::Now;
        let scheduled = queue.send(self.handle, poll_at);
        Dispatched { drop: false, wakes, scheduled }
    }

    /// What is to be done once the transmit half of the socket has been closed
    /// and it asks to be polled at `poll_at`.
    pub fn after_close(&self, poll_at: PollAt, queue: &mut DispatchQueue) -> (r: bool)
        requires
            old(queue).wf(),
            old(queue).takes(self.handle, self.poll_after_close(poll_at)),
        ensures
            final(queue).wf(),
            final(queue).origin() == old(queue).origin(),
            rescheduled(
                old(queue)@,
                final(queue)@,
                old(queue).origin(),
                self.handle,
                self.poll_after_close(poll_at),
                r,
            ),
    {
        let mut poll_at = poll_at;
        if self.both_dropped() && poll_at == PollAt::Ingress {
            poll_at = PollAt::Now;
        }
        queue.send(self.handle, poll_at)
    }
}

/// A connection is over only after both its halves have been dropped, in
/// either order. One is not enough, and dropping one twice is no more than once.
pub proof fn lemma_over_after_both_halves(
    handle: SocketHandle,
    first: Close,
    socket: SocketModel,
    outcome: Result<(), StackError>,
    poll_at: PollAt,
)
    ensures
        !RwStatus::in_use(handle).over(socket, outcome, poll_at),
        !RwStatus::in_use(handle).without(first).over(socket, outcome, poll_at),
        RwStatus::in_use(handle).without(first).without(first) == RwStatus::in_use(handle).without(
            first,
        ),
        RwStatus::in_use(handle).without(Close::Read).without(Close::Write) == RwStatus::in_use(
            handle,
        ).without(Close::Write).without(Close::Read),
        RwStatus::in_use(handle).without(Close::Read).without(Close::Write).unused(),
{
}

/// A connection that nobody uses never waits without a deadline. It has one
/// after each segment, once its halves are dropped, and after each turn to send
/// unless that was its last.
pub proof fn lemma_unused_is_looked_after(
    status: RwStatus,
    deadlines: Map<AddrPair, Instant>,
    origin: Instant,
    socket: SocketModel,
    outcome: Result<(), StackError>,
    poll_at: PollAt,
)
    requires
        status.unused(),
    ensures
        scheduled(
            deadlines,
            origin,
            status.handle,
            status.poll_after_process(poll_at, deadlines.contains_key(status.handle)),
        ).contains_key(status.handle),
        scheduled(
            deadlines,
            origin,
            status.handle,
            status.poll_after_close(poll_at),
        ).contains_key(status.handle),
        status.over(socket, outcome, poll_at) || scheduled(
            deadlines,
            origin,
            status.handle,
            poll_at,
        ).contains_key(status.handle),
{
}

/// Once both halves have been dropped, in either order, nobody uses the
/// connection, its transmit half is closed, and it is queued for a turn, after
/// which it can be forgotten. The one exception is a deadline that the machine
/// was asked for and could not represent.
pub proof fn lemma_both_halves_dropped(
    handle: SocketHandle,
    first: Close,
    second: Close,
    socket: SocketModel,
    before: Map<AddrPair, Instant>,
    after: Map<AddrPair, Instant>,
    origin: Instant,
    poll_at: PollAt,
    done: bool,
)
    requires
        first != second,
        rescheduled(
            before,
            after,
            origin,
            handle,
            RwStatus::in_use(handle).without(first).without(second).poll_after_close(poll_at),
            done,
        ),
    ensures
        !RwStatus::in_use(handle).without(first).unused(),
        RwStatus::in_use(handle).without(first).without(second).unused(),
        RwStatus::in_use(handle).without(first).without(second).writer_dropped,
        !socket.after_close().may_send(),
        done ==> after.contains_key(handle),
        !done ==> poll_at is Time && poll_at->Time_0 != 0 && unrepresentable(
            origin,
            poll_at->Time_0,
        ),
        poll_at is Ingress ==> after.contains_key(handle) && after[handle] == origin,
{
}

/// A half that was dropped is not woken any more, and one that has reached the
/// end always is.
pub proof fn lemma_the_end_wakes(status: RwStatus, socket: SocketModel)
    ensures
        status.reader_dropped ==> !status.wakes_after_process(socket).reader
            && !status.wakes_after_dispatch(socket).reader,
        status.writer_dropped ==> !status.wakes_after_process(socket).writer
            && !status.wakes_after_dispatch(socket).writer,
        !status.reader_dropped && !socket.may_recv() ==> status.wakes_after_process(socket).reader
            && status.wakes_after_dispatch(socket).reader,
        !status.writer_dropped && !socket.may_send() ==> status.wakes_after_process(socket).writer
            && status.wakes_after_dispatch(socket).writer,
{
}

/// A connection that has a peer, has not run dry and has asked for a turn, at
/// once or later, is kept until it has had it, whoever still uses it.
pub proof fn lemma_work_left_is_kept(
    status: RwStatus,
    socket: SocketModel,
    outcome: Result<(), StackError>,
    poll_at: PollAt,
)
    requires
        socket.remote.specified(),
        outcome != Err::<(), StackError>(StackError::Exhausted),
        poll_at is Now || poll_at is Time,
    ensures
        !status.over(socket, outcome, poll_at),
{
}

/// A connection that nobody uses is forgotten as soon as one thing is missing:
/// the address or the port of its peer, something to send, or a turn to wait for.
pub proof fn lemma_nothing_left_is_forgotten(
    status: RwStatus,
    socket: SocketModel,
    outcome: Result<(), StackError>,
    poll_at: PollAt,
)
    requires
        status.reader_dropped,
        status.writer_dropped,
        socket.remote.port == 0 || socket.remote.addr is Unspecified || outcome == Err::<
            (),
            StackError,
        >(StackError::Exhausted) || poll_at is Ingress,
    ensures
        status.over(socket, outcome, poll_at),
{
}

/// What a turn to send came to matters only if it ran dry: whether it succeeded
/// or failed in any other way makes no difference to who is kept.
pub proof fn lemma_other_failures_end_nothing(
    status: RwStatus,
    socket: SocketModel,
    outcome: Result<(), StackError>,
    other: Result<(), StackError>,
    poll_at: PollAt,
)
    requires
        outcome != Err::<(), StackError>(StackError::Exhausted),
        other != Err::<(), StackError>(StackError::Exhausted),
    ensures
        status.over(socket, outcome, poll_at) == status.over(socket, other, poll_at),
        status.over(socket, outcome, poll_at) ==> status.over(
            socket,
            Err(StackError::Exhausted),
            poll_at,
        ),
{
}

/// A turn that the socket asks for, at once or at a time, is the turn that it
/// gets, after a segment and after its transmit half was closed, whoever still
/// uses the connection and whether or not it has a deadline.
pub proof fn lemma_turn_asked_for_is_given(status: RwStatus, poll_at: PollAt, queued: bool)
    requires
        poll_at is Now || poll_at is Time,
    ensures
        status.poll_after_close(poll_at) == poll_at,
        status.poll_after_process(poll_at, queued) == poll_at,
{
}

/// A socket that has something to send once its transmit half was closed is
/// queued for a turn at once, also while the other half is in use.
pub proof fn lemma_close_is_sent_at_once(
    status: RwStatus,
    before: Map<AddrPair, Instant>,
    after: Map<AddrPair, Instant>,
    origin: Instant,
    done: bool,
)
    requires
        rescheduled(
            before,
            after,
            origin,
            status.handle,
            status.poll_after_close(PollAt::Now),
            done,
        ),
    ensures
        done,
        after.contains_key(status.handle),
        after[status.handle] == origin,
        after.remove(status.handle) == before.remove(status.handle),
{
    assert(after.remove(status.handle) =~= before.remove(status.handle));
}

/// As long as a half is in use, a socket that waits for a segment keeps the
/// deadline that it had, or goes on without one. Nobody gets a turn for it.
pub proof fn lemma_waiting_sets_no_deadline(
    status: RwStatus,
    before: Map<AddrPair, Instant>,
    after: Map<AddrPair, Instant>,
    origin: Instant,
    queued: bool,
    done: bool,
)
    requires
        !status.reader_dropped || !status.writer_dropped,
        rescheduled(
            before,
            after,
            origin,
            status.handle,
            status.poll_after_process(PollAt::Ingress, queued),
            done,
        ) || rescheduled(
            before,
            after,
            origin,
            status.handle,
            status.poll_after_close(PollAt::Ingress),
            done,
        ),
    ensures
        done,
        after == before,
{
}

/// Once nobody uses a connection whose socket waits for a segment, a segment
/// gets it a turn at once if it has no deadline, and leaves the one that it has.
pub proof fn lemma_unused_gets_one_turn(
    status: RwStatus,
    before: Map<AddrPair, Instant>,
    after: Map<AddrPair, Instant>,
    origin: Instant,
    done: bool,
)
    requires
        status.reader_dropped,
        status.writer_dropped,
        rescheduled(
            before,
            after,
            origin,
            status.handle,
            status.poll_after_process(PollAt::Ingress, before.contains_key(status.handle)),
            done,
        ),
    ensures
        done,
        after.contains_key(status.handle),
        after[status.handle] == if before.contains_key(status.handle) {
            before[status.handle]
        } else {
            origin
        },
{
}

/// Dropping a half drops that half and nothing else.
pub proof fn lemma_the_other_half_stays(status: RwStatus)
    ensures
        status.without(Close::Read).reader_dropped,
        status.without(Close::Read).writer_dropped == status.writer_dropped,
        status.without(Close::Read).handle == status.handle,
        status.without(Close::Write).writer_dropped,
        status.without(Close::Write).reader_dropped == status.reader_dropped,
        status.without(Close::Write).handle == status.handle,
{
}

/// The reader is woken by a segment exactly if it would not have to wait: there
/// is something to read, or nothing more can come. So is the writer by a turn to
/// send: there is room, or nothing more can be sent. Of the other half each of
/// them learns only that it is over.
pub proof fn lemma_only_those_who_can_go_on_are_woken(status: RwStatus, socket: SocketModel)
    requires
        !status.reader_dropped,
        !status.writer_dropped,
    ensures
        socket.rx.len() > 0 ==> status.wakes_after_process(socket).reader
            && !status.wakes_after_dispatch(socket).reader,
        socket.rx.len() == 0 && (socket.state is Established || socket.state is FinWait1
            || socket.state is FinWait2) ==> !status.wakes_after_process(socket).reader
            && !status.wakes_after_dispatch(socket).reader,
        socket.rx.len() == 0 && !(socket.state is Established) && !(socket.state is FinWait1) && !(
        socket.state is FinWait2) ==> status.wakes_after_process(socket).reader
            && status.wakes_after_dispatch(socket).reader,
        (socket.state is Established || socket.state is CloseWait) && socket.tx.len()
            < socket.tx_capacity ==> status.wakes_after_dispatch(socket).writer
            && !status.wakes_after_process(socket).writer,
        (socket.state is Established || socket.state is CloseWait) && socket.tx.len()
            >= socket.tx_capacity ==> !status.wakes_after_dispatch(socket).writer
            && !status.wakes_after_process(socket).writer,
        !(socket.state is Established) && !(socket.state is CloseWait)
            ==> status.wakes_after_dispatch(socket).writer && status.wakes_after_process(
            socket,
        ).writer,
{
}

/// Whether one half is woken does not depend on whether the other is in use.
pub proof fn lemma_halves_are_woken_separately(
    status: RwStatus,
    other: RwStatus,
    socket: SocketModel,
)
    ensures
        status.reader_dropped == other.reader_dropped ==> status.wakes_after_process(socket).reader
            == other.wakes_after_process(socket).reader && status.wakes_after_dispatch(
            socket,
        ).reader == other.wakes_after_dispatch(socket).reader,
        status.writer_dropped == other.writer_dropped ==> status.wakes_after_process(socket).writer
            == other.wakes_after_process(socket).writer && status.wakes_after_dispatch(
            socket,
        ).writer == other.wakes_after_dispatch(socket).writer,
{
}

impl<L> Connection<L> {
    /// A connection both halves of which are in use.
    pub fn new(socket: L, addr: SocketHandle) -> (r: Connection<L>)
        ensures
            r.socket == socket,
            r.inner == RwStatus::in_use(addr),
    {
        let inner = RwStatus { handle: addr, writer_dropped: false, reader_dropped: false };
        Connection { socket, inner }
    }

    /// Process incoming packet and queue for polling. `step` is what the socket
    /// makes, at a time, of a segment that is meant for it, `poll_at` when it
    /// wants to be polled afterwards.
    pub fn process<
        F: FnOnce(&mut TcpSocket<'static>, i64, &IpRepr, &TcpRepr<'_>) -> Result<Reply, StackError>,
        G: FnOnce(&TcpSocket<'static>) -> PollAt,
    >(
        &self,
        timestamp: i64,
        tcp: &mut TcpSocket<'static>,
        ip_repr: &IpRepr,
        tcp_repr: &TcpRepr<'_>,
        step: F,
        poll_at: G,
        send_poll: &mut DispatchQueue,
    ) -> (r: Processed)
        requires
            old(send_poll).wf(),
            forall|t: &mut TcpSocket<'static>| step.requires((t, timestamp, ip_repr, tcp_repr)),
            forall|t: &TcpSocket<'static>| poll_at.requires((t,)),
            forall|t: &TcpSocket<'static>, p: PollAt|
                acceptable(socket_model(*old(tcp)), *ip_repr, tcp_repr@) && poll_at.ensures(
                    (t,),
                    p,
                ) ==> old(send_poll).takes(
                    self.inner.handle,
                    self.inner.poll_after_process(
                        p,
                        old(send_poll)@.contains_key(self.inner.handle),
                    ),
                ),
        ensures
            final(send_poll).wf(),
            final(send_poll).origin() == old(send_poll).origin(),
            !acceptable(socket_model(*old(tcp)), *ip_repr, tcp_repr@) ==> {
                &&& r.reply == Err::<Reply, StackError>(StackError::Dropped)
                &&& r.wakes == (Wakes { reader: false, writer: false })
                &&& r.scheduled
                &&& *final(tcp) == *old(tcp)
                &&& final(send_poll)@ == old(send_poll)@
            },
            acceptable(socket_model(*old(tcp)), *ip_repr, tcp_repr@) ==> {
                &&& r.wakes == self.inner.wakes_after_process(socket_model(*final(tcp)))
                &&& exists|t: &mut TcpSocket<'static>|
                    *t == *old(tcp) && *final(t) == *final(tcp) && #[trigger] step.ensures(
                        (t, timestamp, ip_repr, tcp_repr),
                        r.reply,
                    )
                &&& exists|p: PollAt| #[trigger]
                    poll_at.ensures((&*final(tcp),), p) && rescheduled(
                        old(send_poll)@,
                        final(send_poll)@,
                        old(send_poll).origin(),
                        self.inner.handle,
                        self.inner.poll_after_process(
                            p,
                            old(send_poll)@.contains_key(self.inner.handle),
                        ),
                        r.scheduled,
                    )
            },
    {
        if let Err(error) = check_acceptability(tcp, ip_repr, tcp_repr) {
            return Processed {
                reply: Err(error),
                wakes: Wakes { reader: false, writer: false },
                scheduled: true,
            };
        }
        let reply = step(tcp, timestamp, ip_repr, tcp_repr);
        let poll_at = poll_at(tcp);
        let (wakes, scheduled) = self.inner.after_process(tcp, poll_at, send_poll);
        Processed { reply, wakes, scheduled }
    }

    /// Serialise outgoing packet and queue for next dispatch.
    /// Assumes the packet will be written to network device immediately.
    /// `step` is what the socket does, at a time and for a device, with a turn to
    /// send, `poll_at` when it wants to be polled afterwards. What comes of it is
    /// one packet or none.
    pub fn dispatch<
        F: FnOnce(
            &mut TcpSocket<'static>,
            i64,
            &DeviceCapabilities,
            &mut Emission,
        ) -> Result<(), StackError>,
        G: FnOnce(&TcpSocket<'static>) -> PollAt,
    >(
        &self,
        buf: &mut Vec<u8>,
        timestamp: i64,
        capabilities: &DeviceCapabilities,
        inner: &mut Inner,
        step: F,
        poll_at: G,
        send_poll: &mut DispatchQueue,
    ) -> (r: Dispatched)
        requires
            old(buf)@.len() == 0,
            old(send_poll).wf(),
            forall|t: &mut TcpSocket<'static>, e: &mut Emission|
                step.requires((t, timestamp, capabilities, e)),
            forall|t: &TcpSocket<'static>| poll_at.requires((t,)),
            forall|t: &TcpSocket<'static>, o: Result<(), StackError>, p: PollAt|
                poll_at.ensures((t,), p) ==> #[trigger] self.inner.over(socket_model(*t), o, p)
                    || old(send_poll).takes(self.inner.handle, p),
        ensures
            final(send_poll).wf(),
            final(send_poll).origin() == old(send_poll).origin(),
            r.wakes == self.inner.wakes_after_dispatch(socket_model(final(inner).tcp)),
            exists|
                t: &mut TcpSocket<'static>,
                e: &mut Emission,
                o: Result<(), StackError>,
                p: PollAt,
            |
                {
                    &&& *t == old(inner).tcp
                    &&& *final(t) == final(inner).tcp
                    &&& e.bytes().len() == 0
                    &&& e.checksum() == capabilities.checksum
                    &&& final(e).bytes() == final(buf)@
                    &&& final(buf)@.len() == 0 || one_packet(final(buf)@, final(e).checksum())
                    &&& #[trigger] step.ensures((t, timestamp, capabilities, e), o)
                    &&& #[trigger] poll_at.ensures((&final(inner).tcp,), p)
                    &&& r.drop == self.inner.over(socket_model(final(inner).tcp), o, p)
                    &&& r.drop ==> {
                        &&& r.scheduled
                        &&& final(inner).polling_active == old(inner).polling_active
                        &&& final(send_poll)@ == old(send_poll)@
                    }
                    &&& !r.drop ==> final(inner).polling_active == (p is Now)
                    &&& !r.drop ==> rescheduled(
                        old(send_poll)@,
                        final(send_poll)@,
                        old(send_poll).origin(),
                        self.inner.handle,
                        p,
                        r.scheduled,
                    )
                },
    {
        let mut buffer: Vec<u8> = Vec::new();
        std::mem::swap(&mut buffer, buf);
        let mut emission = Emission::new(buffer, capabilities.checksum);
        let outcome = step(&mut inner.tcp, timestamp, capabilities, &mut emission);
        *buf = emission.into_buffer();
        let poll_at = poll_at(&inner.tcp);
        self.inner.after_dispatch(inner, outcome, poll_at, send_poll)
    }

    /// Mark reader or writer as dropped. Without a writer, the transmit half of
    /// the socket is closed. `poll_at` is when the socket wants to be polled
    /// afterwards. Returns whether the connection should be dropped: that is so
    /// once nobody uses it.
    pub fn drop_half<G: FnOnce(&TcpSocket<'static>) -> PollAt>(
        &mut self,
        rw: Close,
        tcp: &mut TcpSocket<'static>,
        poll_at: G,
        dispatch_queue: &mut DispatchQueue,
    ) -> (r: HalfDropped)
        requires
            old(dispatch_queue).wf(),
            forall|t: &TcpSocket<'static>| poll_at.requires((t,)),
            forall|t: &TcpSocket<'static>, p: PollAt|
                old(self).inner.without(rw).writer_dropped && poll_at.ensures((t,), p)
                    ==> old(dispatch_queue).takes(
                    old(self).inner.handle,
                    old(self).inner.without(rw).poll_after_close(p),
                ),
        ensures
            final(dispatch_queue).wf(),
            final(dispatch_queue).origin() == old(dispatch_queue).origin(),
            final(self).socket == old(self).socket,
            final(self).inner == old(self).inner.without(rw),
            r.drop == final(self).inner.unused(),
            !final(self).inner.writer_dropped ==> r.scheduled && *final(tcp) == *old(tcp)
                && final(dispatch_queue)@ == old(dispatch_queue)@,
            final(self).inner.writer_dropped ==> {
                &&& socket_model(*final(tcp)) == socket_model(*old(tcp)).after_close()
                &&& exists|p: PollAt| #[trigger]
                    poll_at.ensures((&*final(tcp),), p) && rescheduled(
                        old(dispatch_queue)@,
                        final(dispatch_queue)@,
                        old(dispatch_queue).origin(),
                        final(self).inner.handle,
                        final(self).inner.poll_after_close(p),
                        r.scheduled,
                    )
            },
    {
        match rw {
            Close::Read => self.inner.reader_dropped = true,
            Close::Write => self.inner.writer_dropped = true,
        }
        if !self.inner.writer_dropped {
            return HalfDropped { drop: false, scheduled: true };
        }
        close(tcp);
        let poll_at = poll_at(tcp);
        let scheduled = self.inner.after_close(poll_at, dispatch_queue);
        HalfDropped { drop: self.inner.both_dropped(), scheduled }
    }
}

} // verus!
