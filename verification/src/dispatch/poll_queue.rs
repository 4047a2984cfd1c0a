//! When which connection is to be looked after.
use crate::dispatch::shutdown::hand_over;
use crate::dispatch::SocketHandle;
use crate::sockets::table::AddrTable;
use crate::sockets::AddrPair;
use crate::time::{instant_after, instant_at, unrepresentable, Clock};
use std::task::Context;
use std::task::Poll;
use std::time::Instant;
use tokio::sync::mpsc::{UnboundedReceiver, UnboundedSender};
use tokio_util::time::delay_queue::Key;
use tokio_util::time::DelayQueue;
use vstd::prelude::*;

verus! {

/// `std::task::Context`, which a poll hands on.
#[verifier::external_type_specification]
#[verifier::external_body]
pub struct ExContext<'a>(std::task::Context<'a>);

/// `tokio_util::time::DelayQueue`, which gives items back at their deadlines.
#[verifier::external_type_specification]
#[verifier::external_body]
#[verifier::reject_recursive_types(T)]
pub struct ExDelayQueue<T>(tokio_util::time::DelayQueue<T>);

/// `tokio_util::time::delay_queue::Key`, by which an item is found again.
#[verifier::external_type_specification]
#[verifier::external_body]
pub struct ExKey(tokio_util::time::delay_queue::Key);

/// Deadlines have to lie less than so many milliseconds after the start of the
/// clock: the range of the timer wheel in a `DelayQueue`.
pub const MAX_DELAY_MILLIS: i64 = 0x10_0000_0000;

/// The most items that a `DelayQueue` takes.
pub const MAX_ENTRIES: usize = 0x3fff_ffff;

/// When a socket has to be polled again.
#[derive(Clone, Copy, Debug, PartialEq, Eq, Structural)]
pub enum PollAt {
    /// At once.
    Now,
    /// At a time, in milliseconds since the start of the clock.
    Time(i64),
    /// Not before something arrives.
    Ingress,
}

impl PollAt {
    /// A time, if any, that the queue can wait for.
    pub open spec fn in_range(self) -> bool {
        self is Time ==> 0 <= self->Time_0 < MAX_DELAY_MILLIS
    }

    /// Whether this is no time that the queue cannot wait for.
    pub fn is_in_range(&self) -> (r: bool)
        ensures
            r == self.in_range(),
    {
        match *self {
            PollAt::Time(millis) => 0 <= millis && millis < MAX_DELAY_MILLIS,
            _ => true,
        }
    }
}

/// Update the timing for polling a socket for retransmission.
pub type PollUpdate = (SocketHandle, PollAt);

/// Where the interface hears of updates.
pub type PollReceiver = UnboundedReceiver<PollUpdate>;

/// What this end of the channel has put into it, in order.
pub uninterp spec fn updates_sent(tx: UnboundedSender<(AddrPair, PollAt)>) -> Seq<
    (AddrPair, PollAt),
>;

/// Which channel this end puts messages into.
pub uninterp spec fn updates_go_to(tx: UnboundedSender<(AddrPair, PollAt)>) -> int;

/// Which channel this end takes messages out of.
pub uninterp spec fn updates_come_from(rx: UnboundedReceiver<(AddrPair, PollAt)>) -> int;

/// Calls `tokio::sync::mpsc::unbounded_channel`, which makes the two ends of a
/// channel. Nothing has been put into it.
#[verifier::external_body]
fn update_channel() -> (r: (
    UnboundedSender<(AddrPair, PollAt)>,
    UnboundedReceiver<(AddrPair, PollAt)>,
))
    ensures
        updates_sent(r.0).len() == 0,
        updates_go_to(r.0) == updates_come_from(r.1),
{
    tokio::sync::mpsc::unbounded_channel()
}

/// Calls `UnboundedSender::clone`, which makes another end for the same channel.
/// Through this end nothing has been put into it.
#[verifier::external_body]
fn another_update_sender(tx: &UnboundedSender<(AddrPair, PollAt)>) -> (r: UnboundedSender<
    (AddrPair, PollAt),
>)
    ensures
        updates_sent(r).len() == 0,
        updates_go_to(r) == updates_go_to(*tx),
{
    tx.clone()
}

/// Calls `UnboundedSender::send`: the message is put into the channel, or, once
/// the other end is closed, handed back.
#[verifier::external_body]
fn send_update(tx: &mut UnboundedSender<(AddrPair, PollAt)>, message: (AddrPair, PollAt)) -> (r:
    Result<(), (AddrPair, PollAt)>)
    ensures
        r is Ok ==> updates_sent(*final(tx)) == updates_sent(*old(tx)).push(message),
        r is Err ==> updates_sent(*final(tx)) == updates_sent(*old(tx)) && r->Err_0 == message,
        updates_go_to(*final(tx)) == updates_go_to(*old(tx)),
{
    tx.send(message).map_err(|error| error.0)
}

/// Used to send updated polling delay to the queue.
#[derive(Debug)]
pub struct QueueUpdater {
    sender: UnboundedSender<PollUpdate>,
}

impl Clone for QueueUpdater {
    /// Another sender to the same queue.
    fn clone(&self) -> (r: Self)
        ensures
            r.sent().len() == 0,
            r.channel() == self.channel(),
    {
        QueueUpdater { sender: another_update_sender(&self.sender) }
    }
}

impl QueueUpdater {
    /// The updates sent so far.
    pub closed spec fn sent(self) -> Seq<PollUpdate> {
        updates_sent(self.sender)
    }

    /// Which channel they are sent through.
    pub closed spec fn channel(self) -> int {
        updates_go_to(self.sender)
    }

    /// The channel was handed this update and gave it back.
    pub closed spec fn refused(self, update: PollUpdate) -> bool {
        exists|t: &mut UnboundedSender<PollUpdate>|
            *t == self.sender && #[trigger] call_ensures(send_update, (t, update), Err(update))
    }

    /// Sends an update. With the interface gone, the message comes back.
    pub fn send(&mut self, socket: SocketHandle, poll_at: PollAt) -> (r: Result<(), PollUpdate>)
        ensures
            r is Ok ==> final(self).sent() == old(self).sent().push((socket, poll_at)),
            r is Err ==> final(self).sent() == old(self).sent() && r->Err_0 == (socket, poll_at),
            r is Err ==> old(self).refused((socket, poll_at)),
            final(self).channel() == old(self).channel(),
    {
        hand_over(send_update, &mut self.sender, (socket, poll_at))
    }
}

/// An update counts as given back only if the channel gives back what it is handed:
/// what it takes is taken.
proof fn lemma_given_back_by_the_channel(updater: QueueUpdater, update: PollUpdate)
    requires
        updater.refused(update),
    ensures
        exists|t: &mut UnboundedSender<PollUpdate>|
            *t == updater.sender && #[trigger] call_ensures(send_update, (t, update), Err(update)),
{
}

/// What a `DelayQueue` holds: for each key an item and its deadline.
pub uninterp spec fn delayed_items(q: DelayQueue<AddrPair>) -> Map<Key, (AddrPair, Instant)>;

/// The start of the clock that a `DelayQueue` was made under.
pub uninterp spec fn delay_origin(q: DelayQueue<AddrPair>) -> Instant;

/// A deadline that the queue can wait for.
pub open spec fn deadline_in_range(q: DelayQueue<AddrPair>, deadline: Instant) -> bool {
    deadline == delay_origin(q) || exists|millis: i64|
        0 <= millis < MAX_DELAY_MILLIS && deadline == #[trigger] instant_at(
            delay_origin(q),
            millis,
        )
}

/// Calls `DelayQueue::new`, which returns an empty queue. Its own time starts
/// after that of the given clock, which was made before.
#[verifier::external_body]
fn new_delay_queue(clock: &Clock) -> (q: DelayQueue<AddrPair>)
    ensures
        delayed_items(q).dom() == Set::<Key>::empty(),
        delay_origin(q) == clock.start(),
{
    let _made_before = clock;
    DelayQueue::new()
}

/// Calls `DelayQueue::insert_at`, which adds the item under a new key. It sets
/// a timer of the Tokio runtime that it is called in.
#[verifier::external_body]
fn insert_delayed(q: &mut DelayQueue<AddrPair>, item: AddrPair, deadline: Instant) -> (key: Key)
    requires
        delayed_items(*old(q)).len() < MAX_ENTRIES,
        deadline_in_range(*old(q), deadline),
    ensures
        !delayed_items(*old(q)).contains_key(key),
        delayed_items(*final(q)) == delayed_items(*old(q)).insert(key, (item, deadline)),
        delay_origin(*final(q)) == delay_origin(*old(q)),
{
    q.insert_at(item, deadline.into())
}

/// Calls `DelayQueue::reset_at`, which gives the item under the key another
/// deadline.
#[verifier::external_body]
fn reset_delayed(q: &mut DelayQueue<AddrPair>, key: &Key, deadline: Instant)
    requires
        delayed_items(*old(q)).contains_key(*key),
        deadline_in_range(*old(q), deadline),
    ensures
        delayed_items(*final(q)) == delayed_items(*old(q)).insert(
            *key,
            (delayed_items(*old(q))[*key].0, deadline),
        ),
        delay_origin(*final(q)) == delay_origin(*old(q)),
{
    q.reset_at(key, deadline.into())
}

/// Calls `DelayQueue::remove`, which takes out and returns the item under the key.
#[verifier::external_body]
fn remove_delayed(q: &mut DelayQueue<AddrPair>, key: &Key) -> (item: AddrPair)
    requires
        delayed_items(*old(q)).contains_key(*key),
    ensures
        item == delayed_items(*old(q))[*key].0,
        delayed_items(*final(q)) == delayed_items(*old(q)).remove(*key),
        delay_origin(*final(q)) == delay_origin(*old(q)),
{
    q.remove(key).into_inner()
}

/// What a look into a `DelayQueue` came to.
enum Expiry {
    /// An item whose deadline has come, and the key that it had.
    Due(Key, AddrPair),
    /// There is nothing left to wait for.
    Nothing,
    /// No deadline has come.
    NotYet,
    /// The timer failed.
    Failed,
}

/// Calls `DelayQueue::poll_expired`, which takes out an item whose deadline has
/// come. That is the case as soon as there is an item whose deadline had been
/// reached before the queue was made: such an item is available at once. When
/// else it is the case is left open. It does not fail, and what it does not
/// return stays as it is.
#[verifier::external_body]
fn poll_delayed(q: &mut DelayQueue<AddrPair>, cx: &mut Context<'_>) -> (r: Expiry)
    ensures
        !(r is Failed),
        r is Due ==> delayed_items(*old(q)).contains_key(r->Due_0) && delayed_items(
            *old(q),
        )[r->Due_0].0 == r->Due_1 && delayed_items(*final(q)) == delayed_items(*old(q)).remove(
            r->Due_0,
        ),
        (exists|k: Key| #[trigger]
            delayed_items(*old(q)).contains_key(k) && delayed_items(*old(q))[k].1 == delay_origin(
                *old(q),
            )) ==> r is Due,
        r is Nothing ==> delayed_items(*old(q)).dom() == Set::<Key>::empty(),
        !(r is Due) ==> delayed_items(*final(q)) == delayed_items(*old(q)),
        delay_origin(*final(q)) == delay_origin(*old(q)),
{
    match q.poll_expired(cx) {
        Poll::Ready(Some(Ok(expired))) => Expiry::Due(expired.key(), expired.into_inner()),
        Poll::Ready(Some(Err(_error))) => Expiry::Failed,
        Poll::Ready(None) => Expiry::Nothing,
        Poll::Pending => Expiry::NotYet,
    }
}

/// Asks the queue through the function that looks into it.
fn ask<'c, F: FnOnce(&mut DelayQueue<AddrPair>, &mut Context<'c>) -> Expiry>(
    poll: F,
    q: &mut DelayQueue<AddrPair>,
    cx: &mut Context<'c>,
) -> (r: Expiry)
    requires
        forall|t: &mut DelayQueue<AddrPair>, c: &mut Context<'c>| poll.requires((t, c)),
    ensures
        exists|t: &mut DelayQueue<AddrPair>, c: &mut Context<'c>|
            *t == *old(q) && *final(t) == *final(q) && *c == *old(cx) && #[trigger] poll.ensures(
                (t, c),
                r,
            ),
{
    poll(q, cx)
}

/// The queue `q` was asked on behalf of the task of `cx`, and `r` is the
/// connection that it gave out, if it gave out one.
spec fn outcome_of(q: DelayQueue<AddrPair>, cx: Context<'_>, r: Option<SocketHandle>) -> bool {
    exists|t: &mut DelayQueue<AddrPair>, c: &mut Context<'_>, e: Expiry|
        *t == q && *c == cx && #[trigger] call_ensures(poll_delayed, (t, c), e) && r == (match e {
            Expiry::Due(_, socket) => Some(socket),
            _ => None,
        })
}

/// Drops the key of a connection whose deadline has come, and returns the
/// connection. With none, nothing changes.
fn forget_expired(keys: &mut AddrTable<Key>, expiry: &Expiry) -> (r: Option<SocketHandle>)
    requires
        old(keys).wf(),
    ensures
        final(keys).wf(),
        match *expiry {
            Expiry::Due(_, socket) => r == Some(socket) && final(keys)@ == old(keys)@.remove(
                socket,
            ),
            _ => r is None && final(keys)@ == old(keys)@,
        },
{
    match expiry {
        Expiry::Due(_key, socket) => {
            let _known = keys.remove(socket);
            Some(*socket)
        },
        _ => None,
    }
}

/// Deadlines by connection.
struct Delays {
    queue: DelayQueue<SocketHandle>,
    keys: AddrTable<Key>,
}

impl Delays {
    /// The table of keys and the queue hold the same connections, each once.
    spec fn wf(self) -> bool {
        &&& self.keys.wf()
        &&& delayed_items(self.queue).dom().finite()
        &&& delayed_items(self.queue).len() == self.keys@.len()
        &&& forall|s: AddrPair| #[trigger]
            self.keys@.contains_key(s) ==> delayed_items(self.queue).contains_key(self.keys@[s])
                && delayed_items(self.queue)[self.keys@[s]].0 == s
        &&& forall|k: Key| #[trigger]
            delayed_items(self.queue).contains_key(k) ==> self.keys@.contains_key(
                delayed_items(self.queue)[k].0,
            ) && self.keys@[delayed_items(self.queue)[k].0] == k
    }

    /// The deadline of each connection.
    spec fn deadlines(self) -> Map<AddrPair, Instant> {
        Map::new(
            |s: AddrPair| self.keys@.contains_key(s),
            |s: AddrPair| delayed_items(self.queue)[self.keys@[s]].1,
        )
    }

    /// No deadlines.
    fn new(clock: &Clock) -> (r: Delays)
        ensures
            r.wf(),
            r.deadlines() == Map::<AddrPair, Instant>::empty(),
            delay_origin(r.queue) == clock.start(),
    {
        let r = Delays { queue: new_delay_queue(clock), keys: AddrTable::new() };
        assert(r.deadlines() =~= Map::<AddrPair, Instant>::empty());
        r
    }

    /// Takes out a connection whose deadline has come. There is one as soon as
    /// a connection is due at once.
    fn next(&mut self, cx: &mut Context<'_>) -> (r: Option<SocketHandle>)
        requires
            old(self).wf(),
        ensures
            final(self).wf(),
            delay_origin(final(self).queue) == delay_origin(old(self).queue),
            r is Some ==> old(self).deadlines().contains_key(r->Some_0) && final(self).deadlines()
                == old(self).deadlines().remove(r->Some_0),
            r is None ==> final(self).deadlines() == old(self).deadlines(),
            due_at_once(old(self).deadlines(), delay_origin(old(self).queue)) ==> r is Some,
            outcome_of(old(self).queue, *old(cx), r),
    {
        proof {
            self.keys.lemma_view();
            if due_at_once(self.deadlines(), delay_origin(self.queue)) {
                let s = choose|s: AddrPair| #[trigger]
                    self.deadlines().contains_key(s) && self.deadlines()[s] == delay_origin(
                        self.queue,
                    );
                assert(delayed_items(self.queue).contains_key(self.keys@[s]));
            }
        }
        let expiry = ask(poll_delayed, &mut self.queue, cx);
        let expired = forget_expired(&mut self.keys, &expiry);
        assert(self.deadlines() =~= match expired {
            Some(socket) => old(self).deadlines().remove(socket),
            None => old(self).deadlines(),
        });
        expired
    }

    /// Sets the deadline of a connection.
    fn insert(&mut self, socket: SocketHandle, instant: Instant)
        requires
            old(self).wf(),
            old(self).deadlines().contains_key(socket) || old(self).deadlines().len() < MAX_ENTRIES,
            deadline_in_range(old(self).queue, instant),
        ensures
            final(self).wf(),
            delay_origin(final(self).queue) == delay_origin(old(self).queue),
            final(self).deadlines() == old(self).deadlines().insert(socket, instant),
    {
        proof {
            self.keys.lemma_view();
            assert(self.deadlines().dom() =~= self.keys@.dom());
        }
        match self.keys.get(&socket) {
            Some(k) => {
                reset_delayed(&mut self.queue, k, instant);
            },
            None => {
                let k = insert_delayed(&mut self.queue, socket, instant);
                let _nothing = self.keys.insert(socket, k);
            },
        }
        assert(self.deadlines() =~= old(self).deadlines().insert(socket, instant));
    }

    /// Whether a connection has a deadline.
    fn contains_key(&self, socket: &SocketHandle) -> (r: bool)
        requires
            self.wf(),
        ensures
            r == self.deadlines().contains_key(*socket),
    {
        self.keys.contains_key(socket)
    }

    /// Drops the deadline of a connection, if it has one.
    fn remove(&mut self, socket: &SocketHandle)
        requires
            old(self).wf(),
        ensures
            final(self).wf(),
            delay_origin(final(self).queue) == delay_origin(old(self).queue),
            final(self).deadlines() == old(self).deadlines().remove(*socket),
    {
        proof {
            self.keys.lemma_view();
        }
        if let Some(key) = self.keys.remove(socket) {
            let _socket = remove_delayed(&mut self.queue, &key);
        }
        assert(self.deadlines() =~= old(self).deadlines().remove(*socket));
    }
}

/// The connections that wait to be polled, each with one deadline.
pub struct DispatchQueue {
    clock: Clock,
    delayed: Delays,
}

/// What an update makes of the deadlines of a queue whose clock started at `origin`.
pub open spec fn scheduled(
    deadlines: Map<AddrPair, Instant>,
    origin: Instant,
    socket: AddrPair,
    poll_at: PollAt,
) -> Map<AddrPair, Instant> {
    match poll_at {
        PollAt::Now => deadlines.insert(socket, origin),
        PollAt::Time(millis) => deadlines.insert(socket, instant_at(origin, millis)),
        PollAt::Ingress => deadlines,
    }
}

/// Some connection has asked for a turn at once: its deadline is `origin`, the
/// start of the clock.
pub open spec fn due_at_once(deadlines: Map<AddrPair, Instant>, origin: Instant) -> bool {
    exists|s: AddrPair| #[trigger] deadlines.contains_key(s) && deadlines[s] == origin
}

/// An update can be carried out: it sets no deadline, or one in range that there
/// is room for.
pub open spec fn room_for(
    deadlines: Map<AddrPair, Instant>,
    socket: AddrPair,
    poll_at: PollAt,
) -> bool {
    poll_at is Ingress || (poll_at.in_range() && (deadlines.contains_key(socket) || deadlines.len()
        < MAX_ENTRIES))
}

/// `after` is what an update made of the deadlines `before`, unless the machine
/// was asked for its time and could not represent it (then it is `before`).
pub open spec fn rescheduled(
    before: Map<AddrPair, Instant>,
    after: Map<AddrPair, Instant>,
    origin: Instant,
    socket: AddrPair,
    poll_at: PollAt,
    done: bool,
) -> bool {
    &&& done ==> after == scheduled(before, origin, socket, poll_at)
    &&& !done ==> {
        &&& poll_at is Time && poll_at->Time_0 != 0
        &&& unrepresentable(origin, poll_at->Time_0)
        &&& after == before
    }
}

/// The latest deadline of a connection counts, whatever was set before.
pub proof fn lemma_latest_update_counts(
    deadlines: Map<AddrPair, Instant>,
    origin: Instant,
    socket: AddrPair,
    earlier: PollAt,
    later: PollAt,
)
    requires
        !(later is Ingress),
    ensures
        scheduled(scheduled(deadlines, origin, socket, earlier), origin, socket, later)
            == scheduled(deadlines, origin, socket, later),
{
    assert(scheduled(scheduled(deadlines, origin, socket, earlier), origin, socket, later)
        =~= scheduled(deadlines, origin, socket, later));
}

/// An update concerns no connection but its own, and updates of different
/// connections can be carried out in either order.
pub proof fn lemma_updates_are_independent(
    deadlines: Map<AddrPair, Instant>,
    origin: Instant,
    socket: AddrPair,
    poll_at: PollAt,
    other: AddrPair,
    other_poll_at: PollAt,
)
    requires
        socket != other,
    ensures
        scheduled(deadlines, origin, socket, poll_at).contains_key(other)
            == deadlines.contains_key(other),
        deadlines.contains_key(other) ==> scheduled(deadlines, origin, socket, poll_at)[other]
            == deadlines[other],
        scheduled(scheduled(deadlines, origin, socket, poll_at), origin, other, other_poll_at)
            == scheduled(
            scheduled(deadlines, origin, other, other_poll_at),
            origin,
            socket,
            poll_at,
        ),
{
    assert(scheduled(scheduled(deadlines, origin, socket, poll_at), origin, other, other_poll_at)
        =~= scheduled(
        scheduled(deadlines, origin, other, other_poll_at),
        origin,
        socket,
        poll_at,
    ));
}

/// Dropping the deadline of a connection undoes any update of it.
pub proof fn lemma_remove_undoes_update(
    deadlines: Map<AddrPair, Instant>,
    origin: Instant,
    socket: AddrPair,
    poll_at: PollAt,
)
    ensures
        scheduled(deadlines, origin, socket, poll_at).remove(socket) == deadlines.remove(socket),
{
    assert(scheduled(deadlines, origin, socket, poll_at).remove(socket) =~= deadlines.remove(
        socket,
    ));
}

/// As long as only known connections are given deadlines, only known
/// connections have them.
pub proof fn lemma_deadlines_stay_known(
    before: Map<AddrPair, Instant>,
    after: Map<AddrPair, Instant>,
    origin: Instant,
    socket: AddrPair,
    poll_at: PollAt,
    done: bool,
    known: Set<AddrPair>,
)
    requires
        rescheduled(before, after, origin, socket, poll_at, done),
        before.dom().subset_of(known),
        known.contains(socket),
    ensures
        after.dom().subset_of(known),
        before.remove(socket).dom().subset_of(known.remove(socket)),
{
}

/// A connection that asks for a turn at once is queued for one.
pub proof fn lemma_turn_at_once_is_queued(
    before: Map<AddrPair, Instant>,
    after: Map<AddrPair, Instant>,
    origin: Instant,
    socket: AddrPair,
    done: bool,
)
    requires
        rescheduled(before, after, origin, socket, PollAt::Now, done),
    ensures
        done,
        after.contains_key(socket),
        after[socket] == origin,
{
}

/// After an update the connection has the deadline that it asked for, so many
/// milliseconds after the start of the clock, in place of any other. Every other
/// connection has what it had.
pub proof fn lemma_time_asked_for_is_the_deadline(
    before: Map<AddrPair, Instant>,
    after: Map<AddrPair, Instant>,
    origin: Instant,
    socket: AddrPair,
    millis: i64,
    done: bool,
)
    requires
        millis >= 0,
        rescheduled(before, after, origin, socket, PollAt::Time(millis), done),
    ensures
        done ==> {
            &&& after.contains_key(socket)
            &&& after[socket] == instant_after(origin, (millis * 1_000_000) as nat)
            &&& forall|other: AddrPair|
                other != socket ==> #[trigger] after.contains_key(other) == before.contains_key(
                    other,
                )
            &&& forall|other: AddrPair|
                other != socket && before.contains_key(other) ==> #[trigger] after[other]
                    == before[other]
        },
        !done ==> after == before && millis > 0,
{
    assert(millis >= 0 ==> millis as u64 == millis);
}

/// Waiting for something to arrive leaves every deadline as it is.
pub proof fn lemma_waiting_keeps_deadlines(
    before: Map<AddrPair, Instant>,
    after: Map<AddrPair, Instant>,
    origin: Instant,
    socket: AddrPair,
    done: bool,
)
    requires
        rescheduled(before, after, origin, socket, PollAt::Ingress, done),
    ensures
        done,
        after == before,
{
}

/// Once a connection has asked for a turn at once, there is one that is due,
/// until it has had its turn. Without such a request none need be.
pub proof fn lemma_turn_at_once_is_due(
    before: Map<AddrPair, Instant>,
    after: Map<AddrPair, Instant>,
    origin: Instant,
    socket: AddrPair,
    done: bool,
)
    requires
        rescheduled(before, after, origin, socket, PollAt::Now, done),
    ensures
        due_at_once(after, origin),
        !due_at_once(Map::<AddrPair, Instant>::empty(), origin),
        !due_at_once(before.remove(socket), origin) ==> !due_at_once(after.remove(socket), origin),
{
    assert(after.contains_key(socket));
    assert(after.remove(socket) =~= before.remove(socket));
}

/// A turn at once can always be asked for by a connection that has a deadline,
/// and by any as long as fewer than 2^30 - 1 have one. So can a turn at a time in
/// the 2^36 milliseconds after the start of the clock. Waiting always can be.
pub proof fn lemma_turns_can_be_asked_for(
    deadlines: Map<AddrPair, Instant>,
    socket: AddrPair,
    millis: i64,
)
    requires
        deadlines.contains_key(socket) || deadlines.len() < 0x3fff_ffff,
    ensures
        room_for(deadlines, socket, PollAt::Now),
        0 <= millis < 0x10_0000_0000 ==> room_for(deadlines, socket, PollAt::Time(millis)),
        millis < 0 || millis >= 0x10_0000_0000 ==> !room_for(
            deadlines,
            socket,
            PollAt::Time(millis),
        ),
        room_for(deadlines, socket, PollAt::Ingress),
{
}

/// A connection without a deadline cannot get one while the queue is full. It can
/// still wait.
pub proof fn lemma_full_queue_takes_no_more(
    deadlines: Map<AddrPair, Instant>,
    socket: AddrPair,
    poll_at: PollAt,
)
    requires
        !deadlines.contains_key(socket),
        deadlines.len() >= 0x3fff_ffff,
    ensures
        room_for(deadlines, socket, poll_at) <==> poll_at is Ingress,
{
}

impl View for DispatchQueue {
    type V = Map<AddrPair, Instant>;

    closed spec fn view(&self) -> Map<AddrPair, Instant> {
        self.delayed.deadlines()
    }
}

impl DispatchQueue {
    /// The parts of the queue agree with each other.
    pub closed spec fn wf(self) -> bool {
        self.delayed.wf() && delay_origin(self.delayed.queue) == self.clock.start()
    }

    /// The start of the clock that deadlines are measured by.
    pub closed spec fn origin(self) -> Instant {
        self.clock.start()
    }

    /// The timer was asked on behalf of the task of `cx`, and `r` is the
    /// connection that it gave out, if it gave out one.
    pub closed spec fn handed_out(self, cx: Context<'_>, r: Option<SocketHandle>) -> bool {
        outcome_of(self.delayed.queue, cx, r)
    }

    /// The timer hands out no connection but one that has a deadline, and it hands
    /// out one as long as some connection has asked for a turn at once.
    pub proof fn lemma_timer_hands_out_who_waits(self, cx: Context<'_>, r: Option<SocketHandle>)
        requires
            self.wf(),
            self.handed_out(cx, r),
        ensures
            r is Some ==> self@.contains_key(r->Some_0),
            due_at_once(self@, self.origin()) ==> r is Some,
    {
        if due_at_once(self@, self.origin()) {
            let s = choose|s: AddrPair| #[trigger]
                self@.contains_key(s) && self@[s] == self.origin();
            assert(delayed_items(self.delayed.queue).contains_key(self.delayed.keys@[s]));
        }
    }

    /// An update can be carried out.
    pub open spec fn takes(self, socket: AddrPair, poll_at: PollAt) -> bool {
        room_for(self@, socket, poll_at)
    }

    /// A queue without deadlines, and the two ends of a channel for updates of it.
    pub fn new(clock: Clock) -> (r: (Self, QueueUpdater, PollReceiver))
        ensures
            r.0.wf(),
            r.0@ == Map::<AddrPair, Instant>::empty(),
            r.0.origin() == clock.start(),
            r.1.sent().len() == 0,
            r.1.channel() == updates_come_from(r.2),
    {
        let (sender, receiver) = update_channel();
        let delayed = Delays::new(&clock);
        let queue = DispatchQueue { clock, delayed };
        let updater = QueueUpdater { sender };
        (queue, updater, receiver)
    }

    /// Sets when the connection is to be polled, in place of an earlier
    /// deadline. Waiting for something to arrive changes nothing. Returns
    /// whether the machine can represent the deadline: if not, nothing changes.
    pub fn send(&mut self, socket: SocketHandle, poll_at: PollAt) -> (r: bool)
        requires
            old(self).wf(),
            old(self).takes(socket, poll_at),
        ensures
            final(self).wf(),
            final(self).origin() == old(self).origin(),
            rescheduled(old(self)@, final(self)@, old(self).origin(), socket, poll_at, r),
    {
        let instant = match poll_at {
            PollAt::Now => self.clock.origin(),
            PollAt::Time(millis) => match self.clock.resolve(millis) {
                Some(instant) => instant,
                None => return false,
            },
            PollAt::Ingress => return true,
        };
        self.delayed.insert(socket, instant);
        true
    }

    /// Takes out a connection whose deadline has come. There is one as soon as
    /// a connection has asked for a turn at once. With none, the task of `cx` is
    /// woken once there may be one.
    pub fn poll(&mut self, cx: &mut Context<'_>) -> (r: Option<SocketHandle>)
        requires
            old(self).wf(),
        ensures
            final(self).wf(),
            final(self).origin() == old(self).origin(),
            r is Some ==> old(self)@.contains_key(r->Some_0) && final(self)@ == old(self)@.remove(
                r->Some_0,
            ),
            r is None ==> final(self)@ == old(self)@,
            due_at_once(old(self)@, old(self).origin()) ==> r is Some,
            old(self).handed_out(*old(cx), r),
    {
        self.delayed.next(cx)
    }

    /// Drops the deadline of a connection, if it has one.
    pub fn remove(&mut self, socket: &SocketHandle)
        requires
            old(self).wf(),
        ensures
            final(self).wf(),
            final(self).origin() == old(self).origin(),
            final(self)@ == old(self)@.remove(*socket),
    {
        self.delayed.remove(socket);
    }

    /// Whether a connection has a deadline.
    pub fn contains(&self, socket: &SocketHandle) -> (r: bool)
        requires
            self.wf(),
        ensures
            r == self@.contains_key(*socket),
    {
        self.delayed.contains_key(socket)
    }

    /// Whether an update can be carried out.
    pub fn accepts(&self, socket: &SocketHandle, poll_at: PollAt) -> (r: bool)
        requires
            self.wf(),
        ensures
            r == self.takes(*socket, poll_at),
    {
        proof {
            assert(self@.dom() =~= self.delayed.keys@.dom());
        }
        poll_at == PollAt::Ingress || (poll_at.is_in_range() && (self.delayed.contains_key(socket)
            || self.delayed.keys.len() < MAX_ENTRIES))
    }
}

} // verus!
