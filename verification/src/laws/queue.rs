//! When which connection has its turn.
use crate::dispatch::poll_queue::{
    updates_come_from, DispatchQueue, PollAt, PollReceiver, QueueUpdater,
};
use crate::dispatch::shutdown::{
    closes_come_from, shutdown_channel, Close, CloseReceiver, CloseSender, HalfCloseSender,
};
use crate::dispatch::SocketHandle;
use crate::sockets::AddrPair;
use crate::time::{instant_after, Clock};
use std::task::Context;
use std::time::{Duration, Instant};
use vstd::prelude::*;

verus! {

/// Who asks for a turn has the deadline that it asked for: the start of the clock
/// for a turn at once, so many milliseconds later for a turn at a time. Who waits
/// for something to arrive keeps what it had. No other connection is concerned. An
/// update fails only if the machine could not add its time to the start.
pub proof fn lemma_update_sets_its_deadline()
    ensures
        forall|queue: &mut DispatchQueue, socket: SocketHandle, poll_at: PollAt, r: bool| #[trigger]
            call_ensures(DispatchQueue::send, (queue, socket, poll_at), r) ==> {
                &&& match poll_at {
                    PollAt::Now => r && final(queue)@ == queue@.insert(socket, queue.origin()),
                    PollAt::Time(millis) => millis >= 0 && r ==> final(queue)@ == queue@.insert(
                        socket,
                        instant_after(queue.origin(), (millis * 1_000_000) as nat),
                    ),
                    PollAt::Ingress => r && final(queue)@ == queue@,
                }
                &&& poll_at == PollAt::Time(0) ==> r
                &&& !r ==> final(queue)@ == queue@ && exists|d: Duration| #[trigger]
                    call_ensures(Instant::checked_add, (&queue.origin(), d), None)
                &&& final(queue).wf()
                &&& final(queue).origin() == queue.origin()
            },
{
}

/// Whose turn it is had a deadline and has none any more. Nobody else lost one.
/// As long as somebody has asked for a turn at once, it is somebody's turn.
pub proof fn lemma_turn_uses_up_its_deadline()
    ensures
        forall|queue: &mut DispatchQueue, cx: &mut Context<'_>, r: Option<SocketHandle>| #[trigger]
            call_ensures(DispatchQueue::poll, (queue, cx), r) ==> {
                &&& match r {
                    Some(socket) => {
                        &&& queue@.contains_key(socket)
                        &&& !final(queue)@.contains_key(socket)
                        &&& final(queue)@.insert(socket, queue@[socket]) =~= queue@
                    },
                    None => final(queue)@ == queue@,
                }
                &&& forall|waiting: AddrPair| #[trigger]
                    queue@.contains_key(waiting) && queue@[waiting] == queue.origin() ==> r is Some
                &&& final(queue).wf()
                &&& final(queue).origin() == queue.origin()
            },
{
}

/// Dropping a deadline drops that one and no other.
pub proof fn lemma_dropped_deadline()
    ensures
        forall|queue: &mut DispatchQueue, socket: &SocketHandle| #[trigger]
            call_ensures(DispatchQueue::remove, (queue, socket), ()) ==> {
                &&& !final(queue)@.contains_key(*socket)
                &&& forall|other: AddrPair|
                    other != *socket ==> #[trigger] final(queue)@.contains_key(other)
                        == queue@.contains_key(other)
                &&& forall|other: AddrPair|
                    other != *socket && queue@.contains_key(other) ==> #[trigger] final(queue)@[other]
                        == queue@[other]
                &&& final(queue).origin() == queue.origin()
            },
{
}

/// A queue knows who has a deadline. It takes every update that sets none, and one
/// that sets one if that lies in the 2^36 milliseconds after the start of the clock,
/// and the connection has one already or fewer than 2^30 - 1 have.
pub proof fn lemma_queue_knows_what_it_takes(
    queue: DispatchQueue,
    socket: SocketHandle,
    poll_at: PollAt,
    known: bool,
    taken: bool,
    in_range: bool,
)
    requires
        call_ensures(DispatchQueue::contains, (&queue, &socket), known),
        call_ensures(DispatchQueue::accepts, (&queue, &socket, poll_at), taken),
        call_ensures(PollAt::is_in_range, (&poll_at,), in_range),
    ensures
        known == queue@.contains_key(socket),
        in_range == match poll_at {
            PollAt::Time(millis) => 0 <= millis < 0x10_0000_0000,
            _ => true,
        },
        taken == match poll_at {
            PollAt::Ingress => true,
            _ => in_range && (known || queue@.len() < 0x3fff_ffff),
        },
{
}

/// A new queue has no deadlines, measures them from the start of its clock, and
/// hears of updates at the other end of a channel that nothing was sent through.
pub proof fn lemma_new_queue_is_empty(
    clock: Clock,
    queue: DispatchQueue,
    updater: QueueUpdater,
    updates: PollReceiver,
)
    requires
        call_ensures(DispatchQueue::new, (clock,), (queue, updater, updates)),
    ensures
        queue.wf(),
        forall|socket: AddrPair| !#[trigger] queue@.contains_key(socket),
        queue.origin() == clock.start(),
        updater.sent().len() == 0,
        updater.channel() == updates_come_from(updates),
{
}

/// An update, and the report of a closed half, is sent behind those before it, or
/// comes back as it was. A sender stays with its channel.
pub proof fn lemma_messages_are_sent_in_order()
    ensures
        forall|
            updater: &mut QueueUpdater,
            socket: SocketHandle,
            poll_at: PollAt,
            r: Result<(), (SocketHandle, PollAt)>,
        | #[trigger]
            call_ensures(QueueUpdater::send, (updater, socket, poll_at), r) ==> {
                &&& r is Ok ==> final(updater).sent().len() == updater.sent().len() + 1
                    && final(updater).sent().drop_last() =~= updater.sent()
                    && final(updater).sent().last() == (socket, poll_at)
                &&& r is Err ==> r->Err_0 == (socket, poll_at) && final(updater).sent()
                    == updater.sent()
                &&& final(updater).channel() == updater.channel()
            },
        forall|
            sender: &mut CloseSender,
            socket: SocketHandle,
            rw: Close,
            r: Result<(), (SocketHandle, Close)>,
        | #[trigger]
            call_ensures(CloseSender::notify, (sender, socket, rw), r) ==> {
                &&& r is Ok ==> final(sender).sent().len() == sender.sent().len() + 1
                    && final(sender).sent().drop_last() =~= sender.sent()
                    && final(sender).sent().last() == (socket, rw)
                &&& r is Err ==> r->Err_0 == (socket, rw) && final(sender).sent() == sender.sent()
                &&& final(sender).channel() == sender.channel()
            },
        forall|sender: &mut HalfCloseSender, r: Result<(), (SocketHandle, Close)>| #[trigger]
            call_ensures(HalfCloseSender::notify, (sender,), r) ==> {
                &&& r is Ok ==> final(sender).sent().len() == sender.sent().len() + 1
                    && final(sender).sent().drop_last() =~= sender.sent()
                    && final(sender).sent().last() == sender.message()
                &&& r is Err ==> r->Err_0 == sender.message() && final(sender).sent()
                    == sender.sent()
                &&& final(sender).message() == sender.message()
                &&& final(sender).channel() == sender.channel()
            },
{
}

/// The two ends of a new channel for closed halves belong together, and nothing was
/// sent through it.
pub proof fn lemma_new_channel_is_empty(sender: CloseSender, closing: CloseReceiver)
    requires
        call_ensures(shutdown_channel, (), (sender, closing)),
    ensures
        sender.sent().len() == 0,
        sender.channel() == closes_come_from(closing),
{
}

/// A sender that is built for a half reports that half, through the same channel,
/// and has reported nothing yet.
pub proof fn lemma_sender_reports_its_half(
    sender: CloseSender,
    socket: SocketHandle,
    rw: Close,
    half: HalfCloseSender,
)
    requires
        call_ensures(CloseSender::build, (&sender, socket, rw), half),
    ensures
        half.message() == (socket, rw),
        half.sent().len() == 0,
        half.channel() == sender.channel(),
{
}

} // verus!
