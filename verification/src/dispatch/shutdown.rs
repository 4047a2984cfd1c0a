//! Telling the interface that one half of a connection is no longer in use.
use crate::dispatch::SocketHandle;
use crate::sockets::AddrPair;
use tokio::sync::mpsc::{UnboundedReceiver, UnboundedSender};
use vstd::prelude::*;

verus! {

/// `tokio::sync::mpsc::UnboundedSender`, one end of a channel.
#[verifier::external_type_specification]
#[verifier::external_body]
#[verifier::reject_recursive_types(T)]
pub struct ExUnboundedSender<T>(tokio::sync::mpsc::UnboundedSender<T>);

/// `tokio::sync::mpsc::UnboundedReceiver`, the other end of it.
#[verifier::external_type_specification]
#[verifier::external_body]
#[verifier::reject_recursive_types(T)]
pub struct ExUnboundedReceiver<T>(tokio::sync::mpsc::UnboundedReceiver<T>);

/// Hands a message to the function that sends it.
pub(crate) fn hand_over<M, F: FnOnce(&mut UnboundedSender<M>, M) -> Result<(), M>>(
    send: F,
    tx: &mut UnboundedSender<M>,
    message: M,
) -> (r: Result<(), M>)
    requires
        forall|t: &mut UnboundedSender<M>| send.requires((t, message)),
    ensures
        exists|t: &mut UnboundedSender<M>|
            *t == *old(tx) && *final(t) == *final(tx) && #[trigger] send.ensures((t, message), r),
{
    send(tx, message)
}

/// The half of a connection that is closed.
#[derive(Clone, Copy, Debug, PartialEq, Eq, Structural)]
pub enum Close {
    Read,
    Write,
}

/// What this end of the channel has put into it, in order.
pub uninterp spec fn closes_sent(tx: UnboundedSender<(AddrPair, Close)>) -> Seq<(AddrPair, Close)>;

/// Which channel this end puts messages into.
pub uninterp spec fn closes_go_to(tx: UnboundedSender<(AddrPair, Close)>) -> int;

/// Which channel this end takes messages out of.
pub uninterp spec fn closes_come_from(rx: UnboundedReceiver<(AddrPair, Close)>) -> int;

/// Calls `tokio::sync::mpsc::unbounded_channel`, which makes the two ends of a
/// channel. Nothing has been put into it.
#[verifier::external_body]
fn close_channel() -> (r: (
    UnboundedSender<(AddrPair, Close)>,
    UnboundedReceiver<(AddrPair, Close)>,
))
    ensures
        closes_sent(r.0).len() == 0,
        closes_go_to(r.0) == closes_come_from(r.1),
{
    tokio::sync::mpsc::unbounded_channel()
}

/// Calls `UnboundedSender::clone`, which makes another end for the same channel.
/// Through this end nothing has been put into it.
#[verifier::external_body]
fn another_close_sender(tx: &UnboundedSender<(AddrPair, Close)>) -> (r: UnboundedSender<
    (AddrPair, Close),
>)
    ensures
        closes_sent(r).len() == 0,
        closes_go_to(r) == closes_go_to(*tx),
{
    tx.clone()
}

/// Calls `UnboundedSender::send`: the message is put into the channel, or, once
/// the other end is closed, handed back.
#[verifier::external_body]
fn send_close(tx: &mut UnboundedSender<(AddrPair, Close)>, message: (AddrPair, Close)) -> (r:
    Result<(), (AddrPair, Close)>)
    ensures
        r is Ok ==> closes_sent(*final(tx)) == closes_sent(*old(tx)).push(message),
        r is Err ==> closes_sent(*final(tx)) == closes_sent(*old(tx)) && r->Err_0 == message,
        closes_go_to(*final(tx)) == closes_go_to(*old(tx)),
{
    tx.send(message).map_err(|error| error.0)
}

/// Tells the interface about halves of any connection.
pub struct CloseSender {
    tx: UnboundedSender<(SocketHandle, Close)>,
}

impl Clone for CloseSender {
    /// Another sender to the same interface.
    fn clone(&self) -> (r: Self)
        ensures
            r.sent().len() == 0,
            r.channel() == self.channel(),
    {
        CloseSender { tx: another_close_sender(&self.tx) }
    }
}

/// Tells the interface about one half of one connection.
pub struct HalfCloseSender {
    socket: SocketHandle,
    rw: Close,
    sender: CloseSender,
}

/// Where the interface hears of closed halves.
pub type CloseReceiver = UnboundedReceiver<(SocketHandle, Close)>;

/// Makes the two ends of the channel for closed halves.
pub fn shutdown_channel() -> (r: (CloseSender, CloseReceiver))
    ensures
        r.0.sent().len() == 0,
        r.0.channel() == closes_come_from(r.1),
{
    let (end_sender, end_receiver) = close_channel();
    let shutdown_builder = CloseSender { tx: end_sender };
    (shutdown_builder, end_receiver)
}

impl CloseSender {
    /// The messages sent so far.
    pub closed spec fn sent(self) -> Seq<(SocketHandle, Close)> {
        closes_sent(self.tx)
    }

    /// Which channel they are sent through.
    pub closed spec fn channel(self) -> int {
        closes_go_to(self.tx)
    }

    /// The channel was handed this message and gave it back.
    pub closed spec fn refused(self, message: (SocketHandle, Close)) -> bool {
        exists|t: &mut UnboundedSender<(SocketHandle, Close)>|
            *t == self.tx && #[trigger] call_ensures(send_close, (t, message), Err(message))
    }

    /// Reports a closed half. With the interface gone, the message comes back.
    pub fn notify(&mut self, socket: SocketHandle, rw: Close) -> (r: Result<
        (),
        (SocketHandle, Close),
    >)
        ensures
            r is Ok ==> final(self).sent() == old(self).sent().push((socket, rw)),
            r is Err ==> final(self).sent() == old(self).sent() && r->Err_0 == (socket, rw),
            r is Err ==> old(self).refused((socket, rw)),
            final(self).channel() == old(self).channel(),
    {
        hand_over(send_close, &mut self.tx, (socket, rw))
    }

    /// A sender for one half of one connection.
    pub fn build(&self, socket: SocketHandle, rw: Close) -> (r: HalfCloseSender)
        ensures
            r.message() == (socket, rw),
            r.sent().len() == 0,
            r.channel() == self.channel(),
    {
        HalfCloseSender { sender: self.clone(), rw, socket }
    }
}

/// A report counts as given back only if the channel gives back what it is handed:
/// what it takes is taken.
proof fn lemma_given_back_by_the_channel(sender: CloseSender, message: (SocketHandle, Close))
    requires
        sender.refused(message),
    ensures
        exists|t: &mut UnboundedSender<(SocketHandle, Close)>|
            *t == sender.tx && #[trigger] call_ensures(send_close, (t, message), Err(message)),
{
}

impl HalfCloseSender {
    /// What there is to report.
    pub closed spec fn message(self) -> (SocketHandle, Close) {
        (self.socket, self.rw)
    }

    /// The messages sent so far.
    pub closed spec fn sent(self) -> Seq<(SocketHandle, Close)> {
        self.sender.sent()
    }

    /// Which channel they are sent through.
    pub closed spec fn channel(self) -> int {
        self.sender.channel()
    }

    /// The channel was handed what there is to report and gave it back.
    pub closed spec fn refused(self) -> bool {
        self.sender.refused(self.message())
    }

    /// Reports that the half is closed. With the interface gone, the message
    /// comes back.
    pub fn notify(&mut self) -> (r: Result<(), (SocketHandle, Close)>)
        ensures
            final(self).message() == old(self).message(),
            final(self).channel() == old(self).channel(),
            r is Ok ==> final(self).sent() == old(self).sent().push(old(self).message()),
            r is Err ==> final(self).sent() == old(self).sent() && r->Err_0 == old(self).message(),
            r is Err ==> old(self).refused(),
    {
        self.sender.notify(self.socket, self.rw)
    }
}

} // verus!
