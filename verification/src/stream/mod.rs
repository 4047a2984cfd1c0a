//! TcpStream and private structures.
use crate::dispatch::poll_queue::{PollAt, PollUpdate, QueueUpdater};
use crate::dispatch::shutdown::{Close, CloseSender, HalfCloseSender};
use crate::dispatch::SocketHandle;
use crate::sockets::{AddrPair, SocketAddr};
use crate::stream::socket::{
    can_recv, can_send, may_recv, may_send, recv_slice, send_slice, socket_model, state,
    SocketModel, TcpState,
};
use smoltcp::socket::TcpSocket;
use std::task::Waker;
use vstd::prelude::*;

pub mod internal;
pub mod socket;

verus! {

/// `std::task::Waker`, kept until there is a reason to wake.
#[verifier::external_type_specification]
#[verifier::external_body]
pub struct ExWaker(std::task::Waker);

/// `Waker::wake` wakes a task. Nothing is claimed of it.
pub assume_specification[ std::task::Waker::wake ](waker: std::task::Waker);

/// The socket of a connection, and what its owners have to agree on.
pub struct Inner {
    pub tcp: TcpSocket<'static>,
    /// Whether the connection is in queue to be dispatched.
    /// If true, data in the tx buffer will be sent out.
    /// If false, the dispatch queue should be notified
    /// after writing to the tx buffer.
    pub polling_active: bool,
}

/// Whom to wake once one half of a connection can go on.
#[derive(Debug)]
pub struct SharedState {
    pub waker: Option<Waker>,
}

/// Hands a waker to what is to be done with it.
fn hand_to<F: FnOnce(Waker)>(wake: F, waker: Waker)
    requires
        wake.requires((waker,)),
    ensures
        wake.ensures((waker,), ()),
{
    wake(waker)
}

impl SharedState {
    /// Wakes the task that waits, if there is one. It has to ask again before
    /// it is woken again.
    pub fn wake_once(&mut self)
        ensures
            old(self).waker is Some ==> call_ensures(Waker::wake, (old(self).waker->Some_0,), ()),
            final(self).waker is None,
    {
        if let Some(waker) = self.waker.take() {
            hand_to(Waker::wake, waker);
        }
    }

    /// Asks for a task to be woken, in place of the one that waited before.
    pub fn register(&mut self, waker: Waker)
        ensures
            final(self).waker == Some(waker),
    {
        self.waker = Some(waker);
    }
}

/// What an attempt to read came to.
#[derive(Clone, Copy, Debug, PartialEq, Eq, Structural)]
pub enum ReadStep {
    /// So many bytes were read. None mark the end of what there is to read.
    Ready(usize),
    /// There is nothing to read yet.
    Pending,
    /// The end was passed before.
    Aborted,
}

/// What an attempt to write came to.
#[derive(Clone, Copy, Debug, PartialEq, Eq, Structural)]
pub enum WriteStep {
    /// So many bytes were taken.
    Ready(usize),
    /// There is no room yet.
    Pending,
    /// Nothing can be sent any more.
    Aborted,
    /// The interface is gone.
    QueueClosed,
}

/// How many bytes are read into `room` bytes.
pub open spec fn readable(socket: SocketModel, room: nat) -> int {
    vstd::math::min(room as int, socket.rx.len() as int)
}

/// What an attempt to read into `room` bytes comes to, for a reader that has
/// been told that there is no more or has not.
pub open spec fn read_step(socket: SocketModel, at_eof: bool, room: nat) -> ReadStep {
    if readable(socket, room) > 0 {
        ReadStep::Ready(readable(socket, room) as usize)
    } else if socket.may_recv() || socket.state is SynReceived {
        ReadStep::Pending
    } else if at_eof {
        ReadStep::Aborted
    } else {
        ReadStep::Ready(0)
    }
}

/// What an attempt to write `len` bytes comes to while there is an interface.
pub open spec fn write_step(socket: SocketModel, len: nat) -> WriteStep {
    if socket.writable(len) > 0 {
        WriteStep::Ready(socket.writable(len) as usize)
    } else if !socket.may_send() {
        WriteStep::Aborted
    } else {
        WriteStep::Pending
    }
}

/// The end of what there is to read is reported once. From then on every
/// attempt to read fails.
pub proof fn lemma_eof_is_reported_once(socket: SocketModel, room: nat, later: nat)
    requires
        room <= usize::MAX,
        read_step(socket, false, room) == ReadStep::Ready(0),
    ensures
        socket.rx.len() == 0,
        read_step(socket, true, later) == ReadStep::Aborted,
{
}

/// A reader is never told of the end, nor turned away, before it has read
/// everything that was received.
pub proof fn lemma_eof_comes_last(socket: SocketModel, at_eof: bool, room: nat)
    requires
        room <= usize::MAX,
        socket.rx.len() > 0,
    ensures
        read_step(socket, at_eof, room) == if room > 0 {
            ReadStep::Ready(vstd::math::min(room as int, socket.rx.len() as int) as usize)
        } else {
            ReadStep::Pending
        },
        read_step(socket, at_eof, room) != ReadStep::Ready(0),
{
}

/// As long as something may come, a reader that finds nothing waits for it: before
/// the handshake is finished, while the connection is open, and after this end
/// was closed.
pub proof fn lemma_reader_waits_for_more(socket: SocketModel, at_eof: bool, room: nat)
    requires
        socket.rx.len() == 0,
        socket.state is SynReceived || socket.state is Established || socket.state is FinWait1
            || socket.state is FinWait2,
    ensures
        read_step(socket, at_eof, room) == ReadStep::Pending,
{
}

/// A reader that finds nothing, and to which nothing can come any more, is told
/// so. It is not left waiting.
pub proof fn lemma_reader_is_told_of_the_end(socket: SocketModel, room: nat)
    requires
        socket.rx.len() == 0,
        socket.state is Closed || socket.state is Listen || socket.state is SynSent
            || socket.state is CloseWait || socket.state is Closing || socket.state is LastAck
            || socket.state is TimeWait,
    ensures
        read_step(socket, false, room) == ReadStep::Ready(0),
        read_step(socket, true, room) == ReadStep::Aborted,
{
}

/// A writer is told how much of what it offered was taken. With no room it waits
/// as long as the connection is open, and once that is over it is turned away,
/// room or not.
pub proof fn lemma_writer_goes_on_while_open(socket: SocketModel, len: nat)
    requires
        len <= usize::MAX,
        socket.tx.len() <= socket.tx_capacity,
    ensures
        (socket.state is Established || socket.state is CloseWait) && len > 0 && socket.tx.len()
            < socket.tx_capacity ==> {
            &&& write_step(socket, len) matches WriteStep::Ready(n)
            &&& 0 < n <= len
            &&& socket.tx.len() + n <= socket.tx_capacity
            &&& n == len || socket.tx.len() + n == socket.tx_capacity
            &&& socket.writable(len) == n
        },
        (socket.state is Established || socket.state is CloseWait) && (len == 0 || socket.tx.len()
            == socket.tx_capacity) ==> write_step(socket, len) == WriteStep::Pending
            && socket.writable(len) == 0,
        !(socket.state is Established) && !(socket.state is CloseWait) ==> write_step(socket, len)
            == WriteStep::Aborted && socket.writable(len) == 0,
{
}

/// Closing the transmit half of a connection owes the peer a last segment, also
/// before the handshake is finished. Where there is no peer, nothing is owed. A
/// transmit half that is closed already is left as it is.
pub proof fn lemma_close_tells_the_peer(socket: SocketModel)
    ensures
        socket.state is SynReceived || socket.state is Established
            ==> socket.after_close().state is FinWait1,
        socket.state is CloseWait ==> socket.after_close().state is LastAck,
        socket.state is Listen || socket.state is SynSent ==> socket.after_close().state is Closed,
        socket.state is Closed || socket.state is FinWait1 || socket.state is FinWait2
            || socket.state is Closing || socket.state is LastAck || socket.state is TimeWait
            ==> socket.after_close() == socket,
        socket.after_close().local == socket.local,
        socket.after_close().remote == socket.remote,
        socket.after_close().rx == socket.rx,
        socket.after_close().tx == socket.tx,
{
}

/// Two reads in a row give what one into both their buffers gives: bytes are
/// read in the order in which they were received, none twice and none left out.
pub proof fn lemma_reads_continue(socket: SocketModel, first: nat, second: nat)
    ensures
        ({
            let n = readable(socket, first);
            let rest = socket.after_reading(n);
            let m = readable(rest, second);
            &&& n + m == readable(socket, first + second)
            &&& socket.rx.take(n) + rest.rx.take(m) == socket.rx.take(n + m)
            &&& rest.after_reading(m) == socket.after_reading(n + m)
        }),
{
    let n = readable(socket, first);
    let rest = socket.after_reading(n);
    let m = readable(rest, second);
    assert(socket.rx.take(n) + rest.rx.take(m) =~= socket.rx.take(n + m));
    assert(rest.after_reading(m).rx =~= socket.after_reading(n + m).rx);
}

/// Two writes in a row, the second of what the first did not take, do what one
/// of the whole does: bytes are sent in the order in which they were written,
/// none twice and none left out.
pub proof fn lemma_writes_continue(socket: SocketModel, data: Seq<u8>, cut: int)
    requires
        socket.tx.len() <= socket.tx_capacity,
        0 <= cut <= data.len(),
    ensures
        ({
            let n = socket.writable(cut as nat);
            let rest = socket.after_writing(data.take(n));
            let m = rest.writable((data.len() - n) as nat);
            &&& n + m == socket.writable(data.len())
            &&& rest.after_writing(data.skip(n).take(m)) == socket.after_writing(data.take(n + m))
            &&& rest.tx.len() <= rest.tx_capacity
        }),
{
    let n = socket.writable(cut as nat);
    let rest = socket.after_writing(data.take(n));
    let m = rest.writable((data.len() - n) as nat);
    assert(data.take(n) + data.skip(n).take(m) =~= data.take(n + m));
    assert(rest.after_writing(data.skip(n).take(m)).tx =~= socket.after_writing(
        data.take(n + m),
    ).tx);
}

/// Once the transmit half is closed nothing more is written, and closing it
/// again changes nothing. What was written and what was received stays, and
/// what could be received can still be.
pub proof fn lemma_close_ends_writing(socket: SocketModel, len: nat)
    ensures
        write_step(socket.after_close(), len) == WriteStep::Aborted,
        socket.after_close().after_close() == socket.after_close(),
        socket.after_close().tx == socket.tx,
        socket.after_close().rx == socket.rx,
        socket.may_recv() ==> socket.after_close().may_recv(),
{
}

/// Reading, writing and closing lead to a state that may come next.
pub proof fn lemma_user_steps_follow(socket: SocketModel, n: int, data: Seq<u8>)
    ensures
        socket.followed_by(socket.after_reading(n)),
        socket.followed_by(socket.after_writing(data)),
        socket.followed_by(socket.after_close()),
{
}

/// After the transmit half was closed every attempt to write fails and adds
/// nothing, however many bytes are offered and whatever happened since, as long
/// as no step of the socket leads back to a state in which it can send.
pub proof fn lemma_closed_for_good(socket: SocketModel, states: Seq<SocketModel>, len: nat)
    requires
        states.len() > 0,
        states[0] == socket.after_close(),
        forall|i: int|
            0 <= i < states.len() - 1 ==> (#[trigger] states[i]).followed_by(states[i + 1]),
    ensures
        states.last().write_closed(),
        states.last().writable(len) == 0,
        write_step(states.last(), len) == WriteStep::Aborted,
    decreases states.len(),
{
    if states.len() > 1 {
        let earlier = states.drop_last();
        assert forall|i: int| 0 <= i < earlier.len() - 1 implies (
        #[trigger] earlier[i]).followed_by(earlier[i + 1]) by {
            assert(states[i].followed_by(states[i + 1]));
        }
        lemma_closed_for_good(socket, earlier, len);
        assert(states[states.len() - 2].followed_by(states[states.len() - 1]));
    }
}

/// From a state in which the transmit half is closed no step leads to one in
/// which something can be sent, or to one in which a connection is opened.
pub proof fn lemma_no_way_back(socket: SocketModel, after: SocketModel)
    requires
        socket.state is Closed || socket.state is FinWait1 || socket.state is FinWait2
            || socket.state is Closing || socket.state is LastAck || socket.state is TimeWait,
        socket.followed_by(after),
    ensures
        !(after.state is Established),
        !(after.state is CloseWait),
        !(after.state is SynReceived),
        !(after.state is SynSent),
        !(after.state is Listen),
{
}

/// The half of a connection that is read from.
pub struct ReadHalf {
    eof_reached: bool,
    /// Send a message when getting dropped.
    shutdown_notifier: HalfCloseSender,
}

/// The half of a connection that is written to.
pub struct WriteHalf {
    handle: SocketHandle,
    notifier: QueueUpdater,
    shutdown_notifier: HalfCloseSender,
}

/// A connection that a peer has opened.
pub struct TcpStream {
    pub writer: WriteHalf,
    pub reader: ReadHalf,
    /// Local and peer address.
    // Immutable.
    addr: AddrPair,
}

impl ReadHalf {
    /// The reader has been told that there is no more.
    pub closed spec fn at_eof(self) -> bool {
        self.eof_reached
    }

    /// What is sent once the reader is dropped.
    pub closed spec fn farewell(self) -> (SocketHandle, Close) {
        self.shutdown_notifier.message()
    }

    /// The messages sent so far.
    pub closed spec fn farewells_sent(self) -> Seq<(SocketHandle, Close)> {
        self.shutdown_notifier.sent()
    }

    /// Which channel they are sent through.
    pub closed spec fn farewell_channel(self) -> int {
        self.shutdown_notifier.channel()
    }

    /// Both have the same to say once they are dropped, through the same channel.
    pub open spec fn same_ends(self, other: ReadHalf) -> bool {
        self.farewell() == other.farewell() && self.farewell_channel() == other.farewell_channel()
    }

    /// The channel was handed the farewell and gave it back.
    pub closed spec fn leave_refused(self) -> bool {
        self.shutdown_notifier.refused()
    }

    /// `after` is this half once it has taken its leave.
    pub open spec fn took_leave(self, after: ReadHalf) -> bool {
        &&& after.same_ends(self)
        &&& after.at_eof() == self.at_eof()
        &&& after.farewells_sent() == self.farewells_sent().push(self.farewell())
    }

    fn new(shutdown_notifier: HalfCloseSender) -> (r: Self)
        ensures
            !r.at_eof(),
            r.farewell() == shutdown_notifier.message(),
            r.farewells_sent() == shutdown_notifier.sent(),
            r.farewell_channel() == shutdown_notifier.channel(),
    {
        ReadHalf { eof_reached: false, shutdown_notifier }
    }

    /// Reads what has been received, as much as fits. With nothing to read,
    /// waits as long as something may come, also before the handshake is
    /// finished: then `waker` is what is to be woken. After that the end is
    /// reported once.
    pub fn poll_read(
        &mut self,
        inner: &mut Inner,
        buf: &mut [u8],
        shared: &mut SharedState,
        waker: Waker,
    ) -> (r: ReadStep)
        ensures
            final(self).same_ends(*old(self)),
            final(self).farewells_sent() == old(self).farewells_sent(),
            final(inner).polling_active == old(inner).polling_active,
            ({
                let socket = socket_model(old(inner).tcp);
                let n = readable(socket, old(buf)@.len());
                &&& socket_model(final(inner).tcp) == socket.after_reading(n)
                &&& final(buf)@ == socket.rx.take(n) + old(buf)@.skip(n)
                &&& r == read_step(socket, old(self).at_eof(), old(buf)@.len())
                &&& final(self).at_eof() == (old(self).at_eof() || r == ReadStep::Ready(0))
            }),
            final(shared).waker == (if r is Pending {
                Some(waker)
            } else {
                old(shared).waker
            }),
    {
        let ghost socket = socket_model(inner.tcp);
        proof {
            assert(socket.rx.skip(0) =~= socket.rx);
            assert(socket.rx.take(0) + buf@.skip(0) =~= buf@);
        }
        if can_recv(&inner.tcp) {
            // Actually there should not be any error when can_recv is true.
            if let Ok(n) = recv_slice(&mut inner.tcp, buf) {
                if n > 0 {
                    return ReadStep::Ready(n);
                }
            }
        }
        let state = state(&inner.tcp);
        // Reader could be used before the handshake is finished.
        if may_recv(&inner.tcp) || state == TcpState::SynReceived {
            shared.register(waker);
            return ReadStep::Pending;
        }
        if self.eof_reached {
            return ReadStep::Aborted;
        }
        self.eof_reached = true;
        ReadStep::Ready(0)
    }

    /// Tells the interface that the reader is gone. With the interface gone,
    /// the message comes back.
    pub fn notify_dropped(&mut self) -> (r: Result<(), (SocketHandle, Close)>)
        ensures
            r is Ok ==> old(self).took_leave(*final(self)),
            r is Err ==> {
                &&& final(self).same_ends(*old(self))
                &&& final(self).at_eof() == old(self).at_eof()
                &&& final(self).farewells_sent() == old(self).farewells_sent()
                &&& r->Err_0 == old(self).farewell()
                &&& old(self).leave_refused()
            },
    {
        self.shutdown_notifier.notify()
    }
}

impl WriteHalf {
    /// The connection that is written to.
    pub closed spec fn socket(self) -> SocketHandle {
        self.handle
    }

    /// The updates sent to the dispatch queue so far.
    pub closed spec fn updates(self) -> Seq<PollUpdate> {
        self.notifier.sent()
    }

    /// What is sent once the writer is dropped.
    pub closed spec fn farewell(self) -> (SocketHandle, Close) {
        self.shutdown_notifier.message()
    }

    /// The messages sent so far.
    pub closed spec fn farewells_sent(self) -> Seq<(SocketHandle, Close)> {
        self.shutdown_notifier.sent()
    }

    /// Which channel they are sent through.
    pub closed spec fn farewell_channel(self) -> int {
        self.shutdown_notifier.channel()
    }

    /// Which channel updates are sent through.
    pub closed spec fn channel(self) -> int {
        self.notifier.channel()
    }

    /// The channel was handed an update to `poll_at` and gave it back.
    pub closed spec fn refused(self, poll_at: PollAt) -> bool {
        self.notifier.refused((self.handle, poll_at))
    }

    /// Both speak for the same connection, through the same channels.
    pub open spec fn same_ends(self, other: WriteHalf) -> bool {
        &&& self.socket() == other.socket()
        &&& self.channel() == other.channel()
        &&& self.farewell() == other.farewell()
        &&& self.farewell_channel() == other.farewell_channel()
    }

    /// The channel was handed the farewell and gave it back.
    pub closed spec fn leave_refused(self) -> bool {
        self.shutdown_notifier.refused()
    }

    /// `after` is this half once it has taken its leave.
    pub open spec fn took_leave(self, after: WriteHalf) -> bool {
        &&& after.same_ends(self)
        &&& after.updates() == self.updates()
        &&& after.farewells_sent() == self.farewells_sent().push(self.farewell())
    }

    fn new(
        notifier: QueueUpdater,
        handle: SocketHandle,
        shutdown_notifier: HalfCloseSender,
    ) -> (r: Self)
        ensures
            r.socket() == handle,
            r.updates() == notifier.sent(),
            r.channel() == notifier.channel(),
            r.farewell() == shutdown_notifier.message(),
            r.farewells_sent() == shutdown_notifier.sent(),
            r.farewell_channel() == shutdown_notifier.channel(),
    {
        WriteHalf { notifier, handle, shutdown_notifier }
    }

    /// Close the transmit half of the full-duplex connection, and ask for a
    /// turn to send unless there is one to come. `poll_at` is when the socket
    /// wants to be polled. Returns false if the interface is gone.
    pub fn close<G: FnOnce(&TcpSocket<'static>) -> PollAt>(
        &mut self,
        inner: &mut Inner,
        poll_at: G,
    ) -> (r: bool)
        requires
            forall|t: &TcpSocket<'static>| poll_at.requires((t,)),
        ensures
            final(self).same_ends(*old(self)),
            final(self).farewells_sent() == old(self).farewells_sent(),
            final(inner).polling_active == old(inner).polling_active,
            socket_model(final(inner).tcp) == socket_model(old(inner).tcp).after_close(),
            old(inner).polling_active ==> r && final(self).updates() == old(self).updates(),
            !old(inner).polling_active && r ==> exists|p: PollAt| #[trigger]
                poll_at.ensures((&final(inner).tcp,), p)
                    && final(self).updates() == old(self).updates().push((old(self).socket(), p)),
            !r ==> final(self).updates() == old(self).updates(),
            !r ==> exists|p: PollAt| #[trigger]
                poll_at.ensures((&final(inner).tcp,), p) && old(self).refused(p),
    {
        socket::close(&mut inner.tcp);
        if !inner.polling_active {
            let poll_at = poll_at(&inner.tcp);
            return self.notifier.send(self.handle, poll_at).is_ok();
        }
        true
    }

    /// Writes the start of `buf`, as much as there is room for, and asks for a
    /// turn to send unless there is one to come. `poll_at` is when the socket
    /// wants to be polled. With no room, waits as long as something may be sent:
    /// then `waker` is what is to be woken.
    pub fn poll_write<G: FnOnce(&TcpSocket<'static>) -> PollAt>(
        &mut self,
        inner: &mut Inner,
        buf: &[u8],
        poll_at: G,
        shared: &mut SharedState,
        waker: Waker,
    ) -> (r: WriteStep)
        requires
            forall|t: &TcpSocket<'static>| poll_at.requires((t,)),
        ensures
            final(self).same_ends(*old(self)),
            final(self).farewells_sent() == old(self).farewells_sent(),
            final(inner).polling_active == old(inner).polling_active,
            ({
                let socket = socket_model(old(inner).tcp);
                let n = socket.writable(buf@.len());
                &&& socket_model(final(inner).tcp) == socket.after_writing(buf@.take(n))
                &&& r != WriteStep::QueueClosed ==> r == write_step(socket, buf@.len())
            }),
            old(inner).polling_active ==> r != WriteStep::QueueClosed && final(self).updates()
                == old(self).updates(),
            !old(inner).polling_active && r != WriteStep::QueueClosed ==> exists|
                p: PollAt,
            | #[trigger]
                poll_at.ensures((&final(inner).tcp,), p)
                    && final(self).updates() == old(self).updates().push((old(self).socket(), p)),
            r == WriteStep::QueueClosed ==> final(self).updates() == old(self).updates(),
            r == WriteStep::QueueClosed ==> exists|p: PollAt| #[trigger]
                poll_at.ensures((&final(inner).tcp,), p) && old(self).refused(p),
            final(shared).waker == (if r is Pending {
                Some(waker)
            } else {
                old(shared).waker
            }),
    {
        let ghost socket = socket_model(inner.tcp);
        proof {
            assert(socket.tx + buf@.take(0) =~= socket.tx);
        }
        let inactive = !inner.polling_active;
        let mut n: usize = 0;
        if can_send(&inner.tcp) {
            if let Ok(sent) = send_slice(&mut inner.tcp, buf) {
                n = sent;
            }
        }
        if inactive {
            let poll_at = poll_at(&inner.tcp);
            if self.notifier.send(self.handle, poll_at).is_err() {
                return WriteStep::QueueClosed;
            }
        }
        if n > 0 {
            return WriteStep::Ready(n);
        }
        if !may_send(&inner.tcp) {
            return WriteStep::Aborted;
        }
        shared.register(waker);
        WriteStep::Pending
    }

    /// Tells the interface that the writer is gone. With the interface gone,
    /// the message comes back.
    pub fn notify_dropped(&mut self) -> (r: Result<(), (SocketHandle, Close)>)
        ensures
            r is Ok ==> old(self).took_leave(*final(self)),
            r is Err ==> {
                &&& final(self).same_ends(*old(self))
                &&& final(self).updates() == old(self).updates()
                &&& final(self).farewells_sent() == old(self).farewells_sent()
                &&& r->Err_0 == old(self).farewell()
                &&& old(self).leave_refused()
            },
    {
        self.shutdown_notifier.notify()
    }
}

/// Once both halves of a stream that was never used have taken their leave, each
/// has said so once, through the channel that both have in common. Until then
/// neither has said anything.
pub proof fn lemma_each_half_leaves_once(
    stream: TcpStream,
    addr: AddrPair,
    updates: int,
    closes: int,
    reader: ReadHalf,
    writer: WriteHalf,
)
    requires
        stream.untouched(addr, updates, closes),
        stream.read_half().took_leave(reader),
        stream.write_half().took_leave(writer),
    ensures
        stream.read_half().farewells_sent() == Seq::<(SocketHandle, Close)>::empty(),
        stream.write_half().farewells_sent() == Seq::<(SocketHandle, Close)>::empty(),
        reader.farewells_sent() == seq![(addr, Close::Read)],
        writer.farewells_sent() == seq![(addr, Close::Write)],
        reader.farewell_channel() == closes,
        writer.farewell_channel() == closes,
{
    assert(reader.farewells_sent() =~= seq![(addr, Close::Read)]);
    assert(writer.farewells_sent() =~= seq![(addr, Close::Write)]);
}

impl TcpStream {
    /// Local and peer address.
    pub closed spec fn addresses(self) -> AddrPair {
        self.addr
    }

    /// The half that is read from.
    pub closed spec fn read_half(self) -> ReadHalf {
        self.reader
    }

    /// The half that is written to.
    pub closed spec fn write_half(self) -> WriteHalf {
        self.writer
    }

    /// A stream of the connection `addr` that was never used. Each of its
    /// halves speaks for itself, updates go through the channel `updates`, and
    /// farewells through the channel `closes`.
    pub open spec fn untouched(self, addr: AddrPair, updates: int, closes: int) -> bool {
        &&& self.addresses() == addr
        &&& self.write_half().channel() == updates
        &&& self.read_half().farewell_channel() == closes
        &&& self.write_half().farewell_channel() == closes
        &&& !self.read_half().at_eof()
        &&& self.read_half().farewell() == (addr, Close::Read)
        &&& self.read_half().farewells_sent().len() == 0
        &&& self.write_half().socket() == addr
        &&& self.write_half().farewell() == (addr, Close::Write)
        &&& self.write_half().farewells_sent().len() == 0
    }

    /// Returns a TcpStream and the socket that it shares with the interface.
    pub fn new(
        tcp: TcpSocket<'static>,
        poll_queue: QueueUpdater,
        addr: AddrPair,
        shutdown_builder: &CloseSender,
    ) -> (r: (TcpStream, Inner))
        ensures
            r.0.untouched(addr, poll_queue.channel(), shutdown_builder.channel()),
            r.0.write_half().updates() == poll_queue.sent(),
            r.1.tcp == tcp,
            !r.1.polling_active,
    {
        let inner = Inner { tcp, polling_active: false };
        let reader = ReadHalf::new(shutdown_builder.build(addr, Close::Read));
        let writer = WriteHalf::new(poll_queue, addr, shutdown_builder.build(addr, Close::Write));
        let tcp = TcpStream { reader, writer, addr };
        (tcp, inner)
    }

    /// Returns the local address that this TcpStream is bound to.
    pub fn local_addr(&self) -> (r: SocketAddr)
        ensures
            r == self.addresses().local,
    {
        self.addr.local
    }

    /// Returns the remote address that this stream is connected to.
    pub fn peer_addr(&self) -> (r: SocketAddr)
        ensures
            r == self.addresses().peer,
    {
        self.addr.peer
    }

    /// Parts the stream into its halves.
    pub fn split(self) -> (r: (ReadHalf, WriteHalf))
        ensures
            r.0 == self.read_half(),
            r.1 == self.write_half(),
    {
        (self.reader, self.writer)
    }

    /// Close the transmit half of the full-duplex connection, as
    /// [`WriteHalf::close`] does.
    pub fn close<G: FnOnce(&TcpSocket<'static>) -> PollAt>(
        &mut self,
        inner: &mut Inner,
        poll_at: G,
    ) -> (r: bool)
        requires
            forall|t: &TcpSocket<'static>| poll_at.requires((t,)),
        ensures
            final(self).addresses() == old(self).addresses(),
            final(self).read_half() == old(self).read_half(),
            final(self).write_half().same_ends(old(self).write_half()),
            final(self).write_half().farewells_sent() == old(self).write_half().farewells_sent(),
            final(inner).polling_active == old(inner).polling_active,
            socket_model(final(inner).tcp) == socket_model(old(inner).tcp).after_close(),
            old(inner).polling_active ==> r
                && final(self).write_half().updates() == old(self).write_half().updates(),
            !old(inner).polling_active && r ==> exists|p: PollAt| #[trigger]
                poll_at.ensures((&final(inner).tcp,), p)
                    && final(self).write_half().updates() == old(self).write_half().updates().push(
                    (old(self).write_half().socket(), p),
                ),
            !r ==> final(self).write_half().updates() == old(self).write_half().updates(),
            !r ==> exists|p: PollAt| #[trigger]
                poll_at.ensures((&final(inner).tcp,), p) && old(self).write_half().refused(p),
    {
        self.writer.close(inner, poll_at)
    }
}

} // verus!
