use std::future::poll_fn;
use std::task::{Context, Poll, Waker};
use std::time::Duration;
use tokio::runtime::{Builder, Runtime};
use ustunet::dispatch::poll_queue::{DispatchQueue, PollAt, MAX_DELAY_MILLIS};
use ustunet::dispatch::shutdown::{shutdown_channel, Close};
use ustunet::sockets::{AddrPair, SocketAddr};
use ustunet::time::Clock;

fn runtime() -> Runtime {
    Builder::new_current_thread().enable_time().build().unwrap()
}

fn pair(port: u16) -> AddrPair {
    AddrPair { peer: SocketAddr::V4(0xc0a8_0904, port), local: SocketAddr::V4(0x0a21_0007, 80) }
}

fn poll(queue: &mut DispatchQueue) -> Option<AddrPair> {
    queue.poll(&mut Context::from_waker(Waker::noop()))
}

#[test]
fn a_new_queue_holds_nothing() {
    let runtime = runtime();
    let _guard = runtime.enter();
    let (mut queue, _updater, _receiver) = DispatchQueue::new(Clock::new());
    assert!(!queue.contains(&pair(1)));
    assert_eq!(poll(&mut queue), None);
}

#[test]
fn a_turn_at_once_comes_at_once() {
    let runtime = runtime();
    let _guard = runtime.enter();
    let (mut queue, _updater, _receiver) = DispatchQueue::new(Clock::new());
    assert!(queue.send(pair(1), PollAt::Now));
    assert!(queue.contains(&pair(1)));
    assert_eq!(poll(&mut queue), Some(pair(1)));
    assert!(!queue.contains(&pair(1)));
    assert_eq!(poll(&mut queue), None);
}

#[test]
fn waiting_for_a_segment_changes_nothing() {
    let runtime = runtime();
    let _guard = runtime.enter();
    let (mut queue, _updater, _receiver) = DispatchQueue::new(Clock::new());
    assert!(queue.send(pair(1), PollAt::Ingress));
    assert!(!queue.contains(&pair(1)));
    assert!(queue.send(pair(1), PollAt::Now));
    assert!(queue.send(pair(1), PollAt::Ingress));
    assert_eq!(poll(&mut queue), Some(pair(1)));
}

#[test]
fn a_later_deadline_is_waited_for() {
    runtime().block_on(async {
        let clock = Clock::new();
        let (mut queue, _updater, _receiver) = DispatchQueue::new(clock);
        assert!(queue.send(pair(1), PollAt::Time(30)));
        assert_eq!(poll(&mut queue), None);
        assert!(queue.contains(&pair(1)));
        let expired = poll_fn(|cx| match queue.poll(cx) {
            Some(socket) => Poll::Ready(socket),
            None => Poll::Pending,
        })
        .await;
        assert_eq!(expired, pair(1));
        assert!(clock.origin().elapsed() >= Duration::from_millis(30));
        assert!(!queue.contains(&pair(1)));
    });
}

#[test]
fn the_latest_deadline_counts() {
    let runtime = runtime();
    let _guard = runtime.enter();
    let (mut queue, _updater, _receiver) = DispatchQueue::new(Clock::new());
    assert!(queue.send(pair(1), PollAt::Now));
    assert!(queue.send(pair(1), PollAt::Time(1_000_000)));
    assert_eq!(poll(&mut queue), None);
    assert!(queue.contains(&pair(1)));
    assert!(queue.send(pair(1), PollAt::Now));
    assert_eq!(poll(&mut queue), Some(pair(1)));
    assert_eq!(poll(&mut queue), None);
}

#[test]
fn a_removed_deadline_does_not_come() {
    let runtime = runtime();
    let _guard = runtime.enter();
    let (mut queue, _updater, _receiver) = DispatchQueue::new(Clock::new());
    assert!(queue.send(pair(1), PollAt::Now));
    assert!(queue.send(pair(2), PollAt::Now));
    queue.remove(&pair(1));
    queue.remove(&pair(3));
    assert!(!queue.contains(&pair(1)));
    assert!(queue.contains(&pair(2)));
    assert_eq!(poll(&mut queue), Some(pair(2)));
    assert_eq!(poll(&mut queue), None);
}

#[test]
fn connections_do_not_share_deadlines() {
    let runtime = runtime();
    let _guard = runtime.enter();
    let (mut queue, _updater, _receiver) = DispatchQueue::new(Clock::new());
    for port in 1..50 {
        assert!(queue.send(pair(port), PollAt::Now));
    }
    assert!(queue.send(pair(7), PollAt::Time(1_000_000)));
    let mut seen = Vec::new();
    while let Some(socket) = poll(&mut queue) {
        seen.push(socket.peer);
    }
    seen.sort_by_key(|addr| match addr {
        SocketAddr::V4(_, port) => *port,
        SocketAddr::V6(_, port) => *port,
    });
    let expected: Vec<SocketAddr> =
        (1..50).filter(|port| *port != 7).map(|port| pair(port).peer).collect();
    assert_eq!(seen, expected);
    assert!(queue.contains(&pair(7)));
}

#[test]
fn only_deadlines_in_range_are_accepted() {
    let (queue, _updater, _receiver) = DispatchQueue::new(Clock::new());
    assert!(queue.accepts(&pair(1), PollAt::Now));
    assert!(queue.accepts(&pair(1), PollAt::Ingress));
    assert!(queue.accepts(&pair(1), PollAt::Time(0)));
    assert!(queue.accepts(&pair(1), PollAt::Time(MAX_DELAY_MILLIS - 1)));
    assert!(!queue.accepts(&pair(1), PollAt::Time(MAX_DELAY_MILLIS)));
    assert!(!queue.accepts(&pair(1), PollAt::Time(-1)));
}

#[test]
fn the_last_deadline_in_range_can_be_set() {
    let runtime = runtime();
    let _guard = runtime.enter();
    let (mut queue, _updater, _receiver) = DispatchQueue::new(Clock::new());
    assert!(queue.send(pair(1), PollAt::Time(MAX_DELAY_MILLIS - 1)));
    assert!(queue.contains(&pair(1)));
    assert_eq!(poll(&mut queue), None);
}

#[test]
fn the_start_of_the_clock_can_be_a_deadline() {
    let runtime = runtime();
    let _guard = runtime.enter();
    let (mut queue, _updater, _receiver) = DispatchQueue::new(Clock::new());
    assert!(queue.send(pair(1), PollAt::Time(0)));
    assert_eq!(poll(&mut queue), Some(pair(1)));
}

#[test]
fn updates_arrive_in_order() {
    let (_queue, mut updater, mut receiver) = DispatchQueue::new(Clock::new());
    let mut other = updater.clone();
    assert_eq!(updater.send(pair(1), PollAt::Now), Ok(()));
    assert_eq!(other.send(pair(2), PollAt::Time(5)), Ok(()));
    assert_eq!(receiver.try_recv().unwrap(), (pair(1), PollAt::Now));
    assert_eq!(receiver.try_recv().unwrap(), (pair(2), PollAt::Time(5)));
    assert!(receiver.try_recv().is_err());
    drop(receiver);
    assert_eq!(updater.send(pair(1), PollAt::Now), Err((pair(1), PollAt::Now)));
}

#[test]
fn closed_halves_are_reported() {
    let (mut sender, mut receiver) = shutdown_channel();
    assert_eq!(sender.notify(pair(1), Close::Read), Ok(()));
    let mut half = sender.build(pair(2), Close::Write);
    assert_eq!(half.notify(), Ok(()));
    assert_eq!(receiver.try_recv().unwrap(), (pair(1), Close::Read));
    assert_eq!(receiver.try_recv().unwrap(), (pair(2), Close::Write));
    drop(receiver);
    assert_eq!(half.notify(), Err((pair(2), Close::Write)));
    assert_eq!(sender.clone().notify(pair(3), Close::Read), Err((pair(3), Close::Read)));
}
