//! What the two halves of a stream do with bytes, and how they take their leave.
use crate::dispatch::poll_queue::{PollAt, QueueUpdater};
use crate::dispatch::shutdown::{Close, CloseSender};
use crate::dispatch::SocketHandle;
use crate::sockets::{AddrPair, SocketAddr};
use crate::stream::socket::{socket_model, SocketModel, TcpState};
use crate::stream::{Inner, ReadHalf, ReadStep, SharedState, TcpStream, WriteHalf, WriteStep};
use smoltcp::socket::TcpSocket;
use std::task::Waker;
use vstd::prelude::*;

verus! {

/// A reader gets the oldest unread bytes, as many as there are or fit, and those
/// are read then. It finds the rest of its buffer as it was.
pub proof fn lemma_read_takes_the_oldest_bytes()
    ensures
        forall|
            half: &mut ReadHalf,
            inner: &mut Inner,
            buf: &mut [u8],
            shared: &mut SharedState,
            waker: Waker,
            r: ReadStep,
        | #[trigger]
            call_ensures(ReadHalf::poll_read, (half, inner, buf, shared, waker), r)
                && socket_model(inner.tcp).rx.len() > 0 && 0 < buf@.len() <= usize::MAX ==> {
                let socket = socket_model(inner.tcp);
                &&& r matches ReadStep::Ready(n)
                &&& 0 < n <= buf@.len()
                &&& n <= socket.rx.len()
                &&& n == buf@.len() || n == socket.rx.len()
                &&& socket_model(final(inner).tcp) == (SocketModel {
                    rx: socket.rx.skip(n as int),
                    ..socket
                })
                &&& final(buf)@ == socket.rx.take(n as int) + buf@.skip(n as int)
                &&& final(shared).waker == shared.waker
                &&& final(half).at_eof() == half.at_eof()
            },
{
}

/// A reader that finds nothing waits as long as something may come: before the
/// handshake is finished, while the connection is open, and after this end was
/// closed. After that it is told of the end once, and from then on turned away.
/// Nothing is read, and who waits is the task that is to be woken.
pub proof fn lemma_read_waits_for_more()
    ensures
        forall|
            half: &mut ReadHalf,
            inner: &mut Inner,
            buf: &mut [u8],
            shared: &mut SharedState,
            waker: Waker,
            r: ReadStep,
        | #[trigger]
            call_ensures(ReadHalf::poll_read, (half, inner, buf, shared, waker), r)
                && socket_model(inner.tcp).rx.len() == 0 ==> {
                &&& match socket_model(inner.tcp).state {
                    TcpState::SynReceived
                    | TcpState::Established
                    | TcpState::FinWait1
                    | TcpState::FinWait2 => r == ReadStep::Pending && final(shared).waker == Some(
                        waker,
                    ) && final(half).at_eof() == half.at_eof(),
                    _ => r == (if half.at_eof() {
                        ReadStep::Aborted
                    } else {
                        ReadStep::Ready(0)
                    }) && final(half).at_eof() && final(shared).waker == shared.waker,
                }
                &&& socket_model(final(inner).tcp).rx.len() == 0
                &&& socket_model(final(inner).tcp).state == socket_model(inner.tcp).state
                &&& socket_model(final(inner).tcp).tx == socket_model(inner.tcp).tx
                &&& final(buf)@ =~= buf@
            },
{
}

/// Reading into no room takes nothing, and waits as long as there is something.
pub proof fn lemma_read_into_no_room()
    ensures
        forall|
            half: &mut ReadHalf,
            inner: &mut Inner,
            buf: &mut [u8],
            shared: &mut SharedState,
            waker: Waker,
            r: ReadStep,
        | #[trigger]
            call_ensures(ReadHalf::poll_read, (half, inner, buf, shared, waker), r) && buf@.len()
                == 0 ==> {
                &&& socket_model(final(inner).tcp).rx =~= socket_model(inner.tcp).rx
                &&& socket_model(inner.tcp).rx.len() > 0 ==> r == ReadStep::Pending
                    && final(half).at_eof() == half.at_eof()
            },
{
}

/// Reading leaves whether the connection is queued and what the reader has to say
/// once it is dropped as they are.
pub proof fn lemma_read_changes_nothing_else()
    ensures
        forall|
            half: &mut ReadHalf,
            inner: &mut Inner,
            buf: &mut [u8],
            shared: &mut SharedState,
            waker: Waker,
            r: ReadStep,
        | #[trigger]
            call_ensures(ReadHalf::poll_read, (half, inner, buf, shared, waker), r) ==> {
                &&& final(inner).polling_active == inner.polling_active
                &&& final(half).farewell() == half.farewell()
                &&& final(half).farewell_channel() == half.farewell_channel()
                &&& final(half).farewells_sent() == half.farewells_sent()
            },
{
}

/// What a writer offers is appended to what was written before, as much of its
/// start as there is room for, as long as the connection is open. With no room it
/// waits, and once the connection is not open it is turned away. Only an interface
/// that is gone keeps it from hearing of that.
pub proof fn lemma_write_appends<G: FnOnce(&TcpSocket<'static>) -> PollAt>()
    ensures
        forall|
            half: &mut WriteHalf,
            inner: &mut Inner,
            buf: &[u8],
            poll_at: G,
            shared: &mut SharedState,
            waker: Waker,
            r: WriteStep,
        | #[trigger]
            call_ensures(
                WriteHalf::poll_write::<G>,
                (half, inner, buf, poll_at, shared, waker),
                r,
            ) ==> {
                let socket = socket_model(inner.tcp);
                let after = socket_model(final(inner).tcp);
                let open = socket.state is Established || socket.state is CloseWait;
                let room = socket.tx_capacity - socket.tx.len();
                &&& open && room > 0 && buf@.len() <= room ==> after.tx =~= socket.tx + buf@
                &&& open && 0 < room < buf@.len() ==> after.tx =~= socket.tx + buf@.take(room)
                &&& !open || room <= 0 ==> after.tx =~= socket.tx
                &&& after.rx == socket.rx && after.state == socket.state
                &&& r == WriteStep::QueueClosed || if open && room > 0 && buf@.len() > 0 {
                    r == WriteStep::Ready(
                        if buf@.len() <= room {
                            buf@.len() as usize
                        } else {
                            room as usize
                        },
                    )
                } else if open {
                    r == WriteStep::Pending
                } else {
                    r == WriteStep::Aborted
                }
                &&& r is Pending ==> final(shared).waker == Some(waker)
                &&& !(r is Pending) ==> final(shared).waker == shared.waker
            },
{
}

/// A writer asks for a turn to send exactly if there is none to come, once for each
/// attempt, and for the turn that the socket wants after it.
pub proof fn lemma_write_asks_for_a_turn<G: FnOnce(&TcpSocket<'static>) -> PollAt>()
    ensures
        forall|
            half: &mut WriteHalf,
            inner: &mut Inner,
            buf: &[u8],
            poll_at: G,
            shared: &mut SharedState,
            waker: Waker,
            r: WriteStep,
        | #[trigger]
            call_ensures(
                WriteHalf::poll_write::<G>,
                (half, inner, buf, poll_at, shared, waker),
                r,
            ) ==> {
                let asked = final(half).updates();
                &&& inner.polling_active ==> asked == half.updates() && r != WriteStep::QueueClosed
                &&& !inner.polling_active && r != WriteStep::QueueClosed ==> asked.len()
                    == half.updates().len() + 1 && asked.drop_last() =~= half.updates()
                    && asked.last().0 == half.socket() && poll_at.ensures(
                    (&final(inner).tcp,),
                    asked.last().1,
                )
                &&& r == WriteStep::QueueClosed ==> asked == half.updates()
                &&& final(inner).polling_active == inner.polling_active
                &&& final(half).socket() == half.socket()
                &&& final(half).channel() == half.channel()
                &&& final(half).farewells_sent() == half.farewells_sent()
            },
{
}

/// Closing the transmit half keeps what was written and what was received, and
/// asks for a turn to send exactly if there is none to come.
pub proof fn lemma_close_asks_for_a_turn<G: FnOnce(&TcpSocket<'static>) -> PollAt>()
    ensures
        forall|half: &mut WriteHalf, inner: &mut Inner, poll_at: G, r: bool| #[trigger]
            call_ensures(WriteHalf::close::<G>, (half, inner, poll_at), r) ==> {
                let socket = socket_model(inner.tcp);
                let after = socket_model(final(inner).tcp);
                let asked = final(half).updates();
                &&& match socket.state {
                    TcpState::Listen | TcpState::SynSent => after.state is Closed,
                    TcpState::SynReceived | TcpState::Established => after.state is FinWait1,
                    TcpState::CloseWait => after.state is LastAck,
                    _ => after.state == socket.state,
                }
                &&& after.tx == socket.tx && after.rx == socket.rx
                &&& inner.polling_active ==> r && asked == half.updates()
                &&& !inner.polling_active && r ==> asked.len() == half.updates().len() + 1
                    && asked.drop_last() =~= half.updates() && asked.last().0 == half.socket()
                    && poll_at.ensures((&final(inner).tcp,), asked.last().1)
                &&& !r ==> asked == half.updates()
                &&& final(inner).polling_active == inner.polling_active
            },
{
}

/// Closing a stream closes its transmit half, and leaves the reader as it is.
pub proof fn lemma_close_of_a_stream<G: FnOnce(&TcpSocket<'static>) -> PollAt>()
    ensures
        forall|stream: &mut TcpStream, inner: &mut Inner, poll_at: G, r: bool| #[trigger]
            call_ensures(TcpStream::close::<G>, (stream, inner, poll_at), r) ==> {
                let socket = socket_model(inner.tcp);
                let after = socket_model(final(inner).tcp);
                let before = stream.write_half().updates();
                let asked = final(stream).write_half().updates();
                &&& match socket.state {
                    TcpState::Listen | TcpState::SynSent => after.state is Closed,
                    TcpState::SynReceived | TcpState::Established => after.state is FinWait1,
                    TcpState::CloseWait => after.state is LastAck,
                    _ => after.state == socket.state,
                }
                &&& after.tx == socket.tx && after.rx == socket.rx
                &&& inner.polling_active ==> r && asked == before
                &&& !inner.polling_active && r ==> asked.len() == before.len() + 1
                    && asked.drop_last() =~= before && asked.last().0
                    == stream.write_half().socket() && poll_at.ensures(
                    (&final(inner).tcp,),
                    asked.last().1,
                )
                &&& !r ==> asked == before
                &&& final(stream).read_half() == stream.read_half()
                &&& final(stream).addresses() == stream.addresses()
            },
{
}

/// A half that takes its leave says so once, in its own words, or has its message
/// back. What it said before stands.
pub proof fn lemma_leave_is_taken_once()
    ensures
        forall|half: &mut ReadHalf, r: Result<(), (SocketHandle, Close)>| #[trigger]
            call_ensures(ReadHalf::notify_dropped, (half,), r) ==> {
                let said = final(half).farewells_sent();
                &&& r is Ok ==> said.len() == half.farewells_sent().len() + 1 && said.last()
                    == half.farewell() && said.drop_last() =~= half.farewells_sent()
                &&& r is Err ==> r->Err_0 == half.farewell() && said == half.farewells_sent()
                &&& final(half).farewell() == half.farewell()
                &&& final(half).at_eof() == half.at_eof()
            },
        forall|half: &mut WriteHalf, r: Result<(), (SocketHandle, Close)>| #[trigger]
            call_ensures(WriteHalf::notify_dropped, (half,), r) ==> {
                let said = final(half).farewells_sent();
                &&& r is Ok ==> said.len() == half.farewells_sent().len() + 1 && said.last()
                    == half.farewell() && said.drop_last() =~= half.farewells_sent()
                &&& r is Err ==> r->Err_0 == half.farewell() && said == half.farewells_sent()
                &&& final(half).farewell() == half.farewell()
                &&& final(half).updates() == half.updates()
            },
{
}

/// A new stream has the addresses of its connection, halves that speak for it and
/// have said nothing, and a socket that is not queued. The reader has not been told
/// of an end.
pub proof fn lemma_new_stream_speaks_for_its_connection(
    tcp: TcpSocket<'static>,
    poll_queue: QueueUpdater,
    addr: AddrPair,
    closes: CloseSender,
    stream: TcpStream,
    inner: Inner,
    local: SocketAddr,
    peer: SocketAddr,
    reader: ReadHalf,
    writer: WriteHalf,
)
    requires
        call_ensures(TcpStream::new, (tcp, poll_queue, addr, &closes), (stream, inner)),
        call_ensures(TcpStream::local_addr, (&stream,), local),
        call_ensures(TcpStream::peer_addr, (&stream,), peer),
        call_ensures(TcpStream::split, (stream,), (reader, writer)),
    ensures
        inner.tcp == tcp,
        !inner.polling_active,
        local == addr.local,
        peer == addr.peer,
        !reader.at_eof(),
        reader.farewell() == (addr, Close::Read),
        writer.farewell() == (addr, Close::Write),
        reader.farewells_sent().len() == 0,
        writer.farewells_sent().len() == 0,
        reader.farewell_channel() == closes.channel(),
        writer.farewell_channel() == closes.channel(),
        writer.socket() == addr,
        writer.channel() == poll_queue.channel(),
        writer.updates() == poll_queue.sent(),
{
}

/// The task that asked last is the one that is woken, and it is not woken again
/// before it has asked again.
pub proof fn lemma_last_to_ask_is_woken()
    ensures
        forall|shared: &mut SharedState, waker: Waker| #[trigger]
            call_ensures(SharedState::register, (shared, waker), ()) ==> final(shared).waker
                == Some(waker),
        forall|shared: &mut SharedState| #[trigger]
            call_ensures(SharedState::wake_once, (shared,), ()) ==> final(shared).waker is None && (
            shared.waker matches Some(waker) ==> call_ensures(Waker::wake, (waker,), ())),
{
}

} // verus!
