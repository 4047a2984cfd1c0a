use smoltcp::iface::{EthernetInterfaceBuilder, NeighborCache};
use smoltcp::phy::Loopback;
use smoltcp::socket::{Socket, SocketSet, TcpSocket, TcpSocketBuffer, TcpState};
use smoltcp::time::Instant;
use smoltcp::wire::{EthernetAddress, IpCidr};
use std::cell::{Cell, RefCell};
use std::collections::BTreeMap;
use std::rc::Rc;
use std::sync::atomic::{AtomicUsize, Ordering};
use std::sync::Arc;
use std::task::{Context, Wake, Waker};
use tokio::runtime::{Builder, Runtime};
use ustunet::dispatch::packet::{packet_to_bytes, Emission, Packet};
use ustunet::dispatch::poll_queue::{DispatchQueue, PollAt, PollReceiver};
use ustunet::dispatch::shutdown::{shutdown_channel, Close, CloseReceiver};
use ustunet::dispatch::Interface;
use ustunet::sockets::{open_socket, route, AddrPair, SocketAddr, SocketPool};
use ustunet::stream::internal::{check_acceptability, HalfDropped, RwStatus, Wakes};
use ustunet::stream::{
    Inner, ReadHalf, ReadStep, SharedState, TcpStream, WriteHalf, WriteStep,
};
use ustunet::time::Clock;
use ustunet::wire::{
    Checksum, ChecksumCapabilities, DeviceCapabilities, IpAddress, IpRepr, Ipv4Repr, Ipv6Repr,
    StackError, TcpControl, TcpRepr,
};

const LOCALHOST: u32 = 0x7f00_0001;
const CLIENT_PORT: u16 = 65000;
const SERVER_PORT: u16 = 1234;
const CAPABILITIES: DeviceCapabilities = DeviceCapabilities {
    max_transmission_unit: 1500,
    max_burst_size: Some(1),
    checksum: ChecksumCapabilities { ipv4: Checksum::Both, tcp: Checksum::Both },
};

fn pair() -> AddrPair {
    AddrPair {
        peer: SocketAddr::V4(LOCALHOST, CLIENT_PORT),
        local: SocketAddr::V4(LOCALHOST, SERVER_PORT),
    }
}

/// A socket to which a peer has connected and sent `data`, and which the peer
/// has closed then, or not.
fn connected(data: &[u8], finished: bool) -> TcpSocket<'static> {
    let localhost = smoltcp::wire::IpAddress::v4(127, 0, 0, 1);
    let mut iface = EthernetInterfaceBuilder::new(Loopback::new())
        .ethernet_addr(EthernetAddress::default())
        .neighbor_cache(NeighborCache::new(BTreeMap::new()))
        .ip_addrs(vec![IpCidr::new(localhost, 8)])
        .finalize();
    let mut sockets = SocketSet::new(Vec::new());
    let server = sockets.add(open_socket(pair().local).unwrap());
    let mut client = TcpSocket::new(
        TcpSocketBuffer::new(vec![0; 1024]),
        TcpSocketBuffer::new(vec![0; 1024]),
    );
    client.connect((localhost, SERVER_PORT), (localhost, CLIENT_PORT)).unwrap();
    let client = sockets.add(client);
    for step in 0..100 {
        let _ = iface.poll(&mut sockets, Instant::from_millis(step * 100));
        if step == 50 {
            assert_eq!(sockets.get::<TcpSocket>(client).send_slice(data), Ok(data.len()));
            if finished {
                sockets.get::<TcpSocket>(client).close();
            }
        }
    }
    match sockets.remove(server) {
        Socket::Tcp(socket) => socket,
        _ => panic!("not a socket of TCP"),
    }
}

fn stream_on(tcp: TcpSocket<'static>) -> (TcpStream, Inner, PollReceiver, CloseReceiver) {
    let (_queue, updater, updates) = DispatchQueue::new(Clock::new());
    let (closer, closed) = shutdown_channel();
    let (stream, inner) = TcpStream::new(tcp, updater, pair(), &closer);
    (stream, inner, updates, closed)
}

fn at_once(_tcp: &TcpSocket<'static>) -> PollAt {
    PollAt::Now
}

fn read(reader: &mut ReadHalf, inner: &mut Inner, buf: &mut [u8]) -> ReadStep {
    let mut shared = SharedState { waker: None };
    let step = reader.poll_read(inner, buf, &mut shared, Waker::noop().clone());
    assert_eq!(shared.waker.is_some(), step == ReadStep::Pending);
    step
}

fn write<G: FnOnce(&TcpSocket<'static>) -> PollAt>(
    writer: &mut WriteHalf,
    inner: &mut Inner,
    buf: &[u8],
    poll_at: G,
) -> WriteStep {
    let mut shared = SharedState { waker: None };
    let step = writer.poll_write(inner, buf, poll_at, &mut shared, Waker::noop().clone());
    assert_eq!(shared.waker.is_some(), step == WriteStep::Pending);
    step
}

fn exhausted(
    _tcp: &mut TcpSocket<'static>,
    _timestamp: i64,
    _device: &DeviceCapabilities,
    _emission: &mut Emission,
) -> Result<(), StackError> {
    Err(StackError::Exhausted)
}

fn sent(
    _tcp: &mut TcpSocket<'static>,
    _timestamp: i64,
    _device: &DeviceCapabilities,
    _emission: &mut Emission,
) -> Result<(), StackError> {
    Ok(())
}

#[test]
fn bytes_are_read_in_order() {
    let (stream, mut inner, _updates, _closed) = stream_on(connected(b"hello world", false));
    let (mut reader, _writer) = stream.split();
    let mut buf = [0u8; 6];
    assert_eq!(read(&mut reader, &mut inner, &mut buf), ReadStep::Ready(6));
    assert_eq!(&buf, b"hello ");
    assert_eq!(read(&mut reader, &mut inner, &mut buf), ReadStep::Ready(5));
    assert_eq!(&buf, b"world ");
    assert_eq!(read(&mut reader, &mut inner, &mut buf), ReadStep::Pending);
}

#[test]
fn nothing_is_read_into_no_room() {
    let (stream, mut inner, _updates, _closed) = stream_on(connected(b"hello", true));
    let (mut reader, _writer) = stream.split();
    assert_eq!(read(&mut reader, &mut inner, &mut []), ReadStep::Pending);
    let mut buf = [0u8; 9];
    assert_eq!(read(&mut reader, &mut inner, &mut buf), ReadStep::Ready(5));
    assert_eq!(&buf, b"hello\0\0\0\0");
}

#[test]
fn the_end_is_reported_once() {
    let (stream, mut inner, _updates, _closed) = stream_on(connected(b"bye", true));
    assert_eq!(inner.tcp.state(), TcpState::CloseWait);
    let (mut reader, _writer) = stream.split();
    let mut buf = [0u8; 8];
    assert_eq!(read(&mut reader, &mut inner, &mut buf), ReadStep::Ready(3));
    assert_eq!(read(&mut reader, &mut inner, &mut buf), ReadStep::Ready(0));
    assert_eq!(read(&mut reader, &mut inner, &mut buf), ReadStep::Aborted);
    assert_eq!(read(&mut reader, &mut inner, &mut buf), ReadStep::Aborted);
}

#[test]
fn nothing_comes_from_a_socket_that_listens() {
    let (stream, mut inner, _updates, _closed) = stream_on(open_socket(pair().local).unwrap());
    let (mut reader, mut writer) = stream.split();
    assert_eq!(read(&mut reader, &mut inner, &mut [0u8; 8]), ReadStep::Ready(0));
    assert_eq!(write(&mut writer, &mut inner, b"early", at_once), WriteStep::Aborted);
}

#[test]
fn bytes_are_written_as_far_as_there_is_room() {
    let (stream, mut inner, mut updates, _closed) = stream_on(connected(b"", false));
    let (_reader, mut writer) = stream.split();
    let data = vec![5u8; 40_000];
    assert_eq!(write(&mut writer, &mut inner, &data[..10], at_once), WriteStep::Ready(10));
    assert_eq!(inner.tcp.send_queue(), 10);
    assert_eq!(updates.try_recv().unwrap(), (pair(), PollAt::Now));
    assert_eq!(write(&mut writer, &mut inner, &data, at_once), WriteStep::Ready(32_758));
    assert_eq!(inner.tcp.send_queue(), 32_768);
    assert_eq!(updates.try_recv().unwrap(), (pair(), PollAt::Now));
    assert_eq!(write(&mut writer, &mut inner, &data, |_| PollAt::Time(3)), WriteStep::Pending);
    assert_eq!(updates.try_recv().unwrap(), (pair(), PollAt::Time(3)));
}

#[test]
fn a_turn_to_come_is_not_asked_for_again() {
    let (stream, mut inner, mut updates, _closed) = stream_on(connected(b"", false));
    let (_reader, mut writer) = stream.split();
    inner.polling_active = true;
    assert_eq!(write(&mut writer, &mut inner, b"abc", at_once), WriteStep::Ready(3));
    assert!(writer.close(&mut inner, at_once));
    assert!(updates.try_recv().is_err());
}

#[test]
fn nothing_is_written_after_closing() {
    let (mut stream, mut inner, mut updates, _closed) = stream_on(connected(b"x", false));
    assert!(stream.close(&mut inner, at_once));
    assert_eq!(inner.tcp.state(), TcpState::FinWait1);
    assert_eq!(updates.try_recv().unwrap(), (pair(), PollAt::Now));
    let (mut reader, mut writer) = stream.split();
    assert_eq!(write(&mut writer, &mut inner, b"late", at_once), WriteStep::Aborted);
    // Closing again changes nothing, and what was received can still be read.
    assert!(writer.close(&mut inner, at_once));
    assert_eq!(inner.tcp.state(), TcpState::FinWait1);
    assert_eq!(read(&mut reader, &mut inner, &mut [0u8; 8]), ReadStep::Ready(1));
}

#[test]
fn writers_notice_that_the_interface_is_gone() {
    let (stream, mut inner, updates, closed) = stream_on(connected(b"", false));
    let (mut reader, mut writer) = stream.split();
    drop(updates);
    drop(closed);
    assert_eq!(write(&mut writer, &mut inner, b"abc", at_once), WriteStep::QueueClosed);
    assert!(!writer.close(&mut inner, at_once));
    assert_eq!(writer.notify_dropped(), Err((pair(), Close::Write)));
    assert_eq!(reader.notify_dropped(), Err((pair(), Close::Read)));
}

#[test]
fn halves_take_their_leave() {
    let (stream, _inner, _updates, mut closed) = stream_on(connected(b"", false));
    let (mut reader, mut writer) = stream.split();
    assert_eq!(writer.notify_dropped(), Ok(()));
    assert_eq!(reader.notify_dropped(), Ok(()));
    assert_eq!(closed.try_recv().unwrap(), (pair(), Close::Write));
    assert_eq!(closed.try_recv().unwrap(), (pair(), Close::Read));
}

#[test]
fn a_stream_knows_its_addresses() {
    let (stream, _inner, _updates, _closed) = stream_on(connected(b"", false));
    assert_eq!(stream.local_addr(), SocketAddr::V4(LOCALHOST, SERVER_PORT));
    assert_eq!(stream.peer_addr(), SocketAddr::V4(LOCALHOST, CLIENT_PORT));
}

struct Counter(AtomicUsize);

impl Wake for Counter {
    fn wake(self: Arc<Self>) {
        self.0.fetch_add(1, Ordering::SeqCst);
    }
}

#[test]
fn a_task_that_has_to_wait_is_woken() {
    let counter = Arc::new(Counter(AtomicUsize::new(0)));
    let (stream, mut inner, _updates, _closed) = stream_on(connected(b"x", false));
    let (mut reader, _writer) = stream.split();
    let mut shared = SharedState { waker: None };
    let mut buf = [0u8; 4];
    let waker = Waker::from(counter.clone());
    let step = reader.poll_read(&mut inner, &mut buf, &mut shared, waker);
    assert_eq!(step, ReadStep::Ready(1));
    assert!(shared.waker.is_none());
    let waker = Waker::from(counter.clone());
    let step = reader.poll_read(&mut inner, &mut buf, &mut shared, waker);
    assert_eq!(step, ReadStep::Pending);
    shared.wake_once();
    assert_eq!(counter.0.load(Ordering::SeqCst), 1);
}

#[test]
fn a_task_is_woken_once() {
    let counter = Arc::new(Counter(AtomicUsize::new(0)));
    let mut state = SharedState { waker: None };
    state.wake_once();
    assert_eq!(counter.0.load(Ordering::SeqCst), 0);
    state.register(Waker::from(counter.clone()));
    state.wake_once();
    state.wake_once();
    assert_eq!(counter.0.load(Ordering::SeqCst), 1);
    assert!(state.waker.is_none());
}

fn ip(src_addr: u32, dst_addr: u32) -> IpRepr {
    IpRepr::Ipv4(Ipv4Repr { src_addr, dst_addr, protocol: 6, payload_len: 20, hop_limit: 64 })
}

fn segment(src_port: u16, dst_port: u16, control: TcpControl) -> TcpRepr<'static> {
    TcpRepr {
        src_port,
        dst_port,
        control,
        seq_number: 1,
        ack_number: None,
        window_len: 1024,
        window_scale: None,
        max_seg_size: None,
        sack_permitted: false,
        sack_ranges: [None, None, None],
        payload: &[],
    }
}

fn own(control: TcpControl) -> TcpRepr<'static> {
    segment(CLIENT_PORT, SERVER_PORT, control)
}

fn acked(repr: TcpRepr<'static>) -> TcpRepr<'static> {
    TcpRepr { ack_number: Some(9), ..repr }
}

#[test]
fn a_socket_that_listens_takes_what_opens_a_connection() {
    let socket = open_socket(SocketAddr::V4(0x0a21_0007, 80)).unwrap();
    let syn = segment(50000, 80, TcpControl::Syn);
    assert_eq!(check_acceptability(&socket, &ip(1 << 24, 0x0a21_0007), &syn), Ok(()));
    let dropped = Err(StackError::Dropped);
    assert_eq!(check_acceptability(&socket, &ip(1 << 24, 0x0a21_0007), &acked(syn)), dropped);
    assert_eq!(check_acceptability(&socket, &ip(1 << 24, 0x0a21_0008), &syn), dropped);
    let other = segment(50000, 81, TcpControl::Syn);
    assert_eq!(check_acceptability(&socket, &ip(1 << 24, 0x0a21_0007), &other), dropped);
}

#[test]
fn sockets_listen_in_both_families() {
    let v6 = |src_addr: u128, dst_addr: u128| {
        let (next_header, payload_len, hop_limit) = (6, 20, 64);
        IpRepr::Ipv6(Ipv6Repr { src_addr, dst_addr, next_header, payload_len, hop_limit })
    };
    let socket = open_socket(SocketAddr::V6(0xfd00 << 112 | 2, 80)).unwrap();
    let syn = segment(50000, 80, TcpControl::Syn);
    assert_eq!(check_acceptability(&socket, &v6(1, 0xfd00 << 112 | 2), &syn), Ok(()));
    assert_eq!(
        check_acceptability(&socket, &v6(1, 0xfd00 << 112 | 3), &syn),
        Err(StackError::Dropped)
    );
}

#[test]
fn nobody_listens_at_port_zero() {
    assert!(matches!(
        open_socket(SocketAddr::V4(LOCALHOST, 0)),
        Err(StackError::Unaddressable)
    ));
}

#[test]
fn a_new_socket_acknowledges_at_once() {
    let socket = open_socket(pair().local).unwrap();
    assert_eq!(socket.ack_delay(), Some(smoltcp::time::Duration::from_millis(0)));
    assert_eq!(socket.state(), TcpState::Listen);
    assert_eq!(socket.send_capacity(), 32_768);
    assert_eq!(socket.recv_capacity(), 32_768);
}

#[test]
fn a_connected_socket_takes_only_its_own_segments() {
    let socket = connected(b"", false);
    let dropped = Err(StackError::Dropped);
    let here = ip(LOCALHOST, LOCALHOST);
    let plain = acked(own(TcpControl::Plain));
    assert_eq!(check_acceptability(&socket, &here, &plain), Ok(()));
    let port = acked(segment(CLIENT_PORT + 1, SERVER_PORT, TcpControl::Plain));
    assert_eq!(check_acceptability(&socket, &here, &port), dropped);
    let port = acked(segment(CLIENT_PORT, SERVER_PORT + 1, TcpControl::Plain));
    assert_eq!(check_acceptability(&socket, &here, &port), dropped);
    assert_eq!(check_acceptability(&socket, &ip(LOCALHOST + 1, LOCALHOST), &plain), dropped);
    assert_eq!(check_acceptability(&socket, &ip(LOCALHOST, LOCALHOST + 1), &plain), dropped);
}

#[test]
fn a_closed_socket_takes_nothing() {
    let mut socket = open_socket(pair().local).unwrap();
    socket.close();
    assert_eq!(
        check_acceptability(&socket, &ip(LOCALHOST, LOCALHOST), &own(TcpControl::Syn)),
        Err(StackError::Dropped)
    );
}

#[test]
fn segments_are_led_to_their_connections() {
    let here = ip(LOCALHOST, LOCALHOST);
    assert_eq!(route(&here, &own(TcpControl::Syn)), Ok(pair()));
    assert_eq!(route(&here, &acked(own(TcpControl::Plain))), Ok(pair()));
    assert_eq!(route(&here, &acked(own(TcpControl::Syn))), Err(StackError::Dropped));
    let nowhere = IpRepr::Unspecified {
        src_addr: IpAddress::Unspecified,
        dst_addr: IpAddress::Ipv4(LOCALHOST),
        protocol: 6,
        payload_len: 20,
        hop_limit: 64,
    };
    assert_eq!(route(&nowhere, &own(TcpControl::Syn)), Err(StackError::Unrecognized));
}

type Shared = Rc<RefCell<Inner>>;
type Pool = SocketPool<Shared>;

fn runtime() -> Runtime {
    Builder::new_current_thread().enable_time().build().unwrap()
}

fn pool() -> Pool {
    let clock = Clock::new();
    let (queue, updater, _updates) = DispatchQueue::new(clock);
    let (closer, _closed) = shutdown_channel();
    SocketPool::new(updater, closer, CAPABILITIES, queue, clock)
}

fn share(inner: Inner) -> Shared {
    Rc::new(RefCell::new(inner))
}

/// Makes the pool know a connection, and puts another socket in its place.
fn pool_with(tcp: TcpSocket<'static>) -> (Pool, Shared) {
    let mut pool = pool();
    let here = ip(LOCALHOST, LOCALHOST);
    let (found, stream) = pool.find_or_create(&here, &own(TcpControl::Syn), share).unwrap();
    assert_eq!(found, pair());
    assert!(stream.is_some());
    let socket = pool.socket(&pair()).unwrap().clone();
    socket.borrow_mut().tcp = tcp;
    (pool, socket)
}

fn expired(pool: &mut Pool) -> Option<AddrPair> {
    pool.expired(&mut Context::from_waker(Waker::noop()))
}

#[test]
fn any_address_can_be_reached() {
    let mut pool = pool();
    for (addr, port) in [(0x0a21_0007, 80), (0xc0a8_0964, 65535), (0x0102_0304, 1)] {
        let (found, stream) = pool
            .find_or_create(&ip(LOCALHOST, addr), &segment(50000, port, TcpControl::Syn), share)
            .unwrap();
        let stream = stream.unwrap();
        assert_eq!(stream.local_addr(), SocketAddr::V4(addr, port));
        assert_eq!(stream.peer_addr(), SocketAddr::V4(LOCALHOST, 50000));
        let socket = pool.socket(&found).unwrap().borrow();
        assert!(!socket.polling_active);
        assert_eq!(
            check_acceptability(
                &socket.tcp,
                &ip(LOCALHOST, addr),
                &segment(50000, port, TcpControl::Syn)
            ),
            Ok(())
        );
    }
}

#[test]
fn addresses_of_the_other_family_can_be_reached() {
    let mut pool = pool();
    let (src, dst) = (0xfd00 << 112 | 1, 0xfd00 << 112 | 2);
    let header = Ipv6Repr {
        src_addr: src,
        dst_addr: dst,
        next_header: 6,
        payload_len: 20,
        hop_limit: 64,
    };
    let packet = Packet::Tcp(IpRepr::Ipv6(header), segment(50000, 443, TcpControl::Syn));
    let mut bytes = Vec::new();
    assert_eq!(packet_to_bytes(&packet, &mut bytes, &CAPABILITIES.checksum), Ok(()));
    let (ip_repr, tcp_repr) =
        Interface::<()>::process(&CAPABILITIES.checksum, &bytes).unwrap().unwrap();
    let (found, stream) = pool.find_or_create(&ip_repr, &tcp_repr, share).unwrap();
    let stream = stream.unwrap();
    assert_eq!(stream.peer_addr(), SocketAddr::V6(src, 50000));
    assert_eq!(stream.local_addr(), SocketAddr::V6(dst, 443));
    let socket = pool.socket(&found).unwrap().borrow();
    assert_eq!(check_acceptability(&socket.tcp, &ip_repr, &tcp_repr), Ok(()));
}

#[test]
fn a_connection_is_made_once() {
    let mut pool = pool();
    let here = ip(LOCALHOST, LOCALHOST);
    let first = pool.find_or_create(&here, &own(TcpControl::Syn), share).unwrap();
    assert!(first.1.is_some());
    let again = pool.find_or_create(&here, &own(TcpControl::Syn), share).unwrap();
    assert!(again.0 == pair() && again.1.is_none());
    let next = pool.find_or_create(&here, &acked(own(TcpControl::Plain)), share).unwrap();
    assert!(next.0 == pair() && next.1.is_none());
    let other = segment(CLIENT_PORT - 1, SERVER_PORT, TcpControl::Syn);
    assert!(pool.find_or_create(&here, &other, share).unwrap().1.is_some());
}

#[test]
fn segments_of_no_connection_are_refused() {
    let mut pool = pool();
    let here = ip(LOCALHOST, LOCALHOST);
    for (repr, error) in [
        (own(TcpControl::Plain), StackError::Dropped),
        (own(TcpControl::Fin), StackError::Dropped),
        (own(TcpControl::Rst), StackError::Dropped),
        (acked(own(TcpControl::Syn)), StackError::Dropped),
        (segment(1, 0, TcpControl::Syn), StackError::Unaddressable),
    ] {
        assert!(matches!(pool.find_or_create(&here, &repr, share), Err(e) if e == error));
    }
    assert!(pool.socket(&pair()).is_none());
    assert!(pool.status(&pair()).is_none());
}

#[test]
fn an_answer_is_handed_on() {
    let runtime = runtime();
    let _guard = runtime.enter();
    let (mut pool, socket) = pool_with(connected(b"data", false));
    let here = ip(LOCALHOST, LOCALHOST);
    let answer = own(TcpControl::Rst);
    let done = pool.process(
        &pair(),
        &mut socket.borrow_mut().tcp,
        &here,
        &acked(own(TcpControl::Plain)),
        |_tcp, timestamp, ip_repr, tcp_repr| {
            assert!(timestamp >= 0);
            assert_eq!(*ip_repr, here);
            assert_eq!(tcp_repr.ack_number, Some(9));
            Ok(Some((here, answer)))
        },
        at_once,
    );
    let (reply_ip, reply) = done.reply.unwrap().unwrap();
    assert_eq!(reply_ip, here);
    assert_eq!(reply.control, TcpControl::Rst);
    assert_eq!(done.wakes, Wakes { reader: true, writer: false });
    assert!(done.scheduled);
    assert_eq!(expired(&mut pool), Some(pair()));
    assert_eq!(expired(&mut pool), None);
}

#[test]
fn a_segment_for_somebody_else_does_not_reach_the_socket() {
    let runtime = runtime();
    let _guard = runtime.enter();
    let (mut pool, socket) = pool_with(connected(b"data", false));
    let done = pool.process(
        &pair(),
        &mut socket.borrow_mut().tcp,
        &ip(LOCALHOST + 1, LOCALHOST),
        &acked(own(TcpControl::Plain)),
        |_tcp, _timestamp, _ip, _segment| panic!("not for this socket"),
        |_tcp| panic!("not for this socket"),
    );
    assert!(matches!(done.reply, Err(StackError::Dropped)));
    assert_eq!(done.wakes, Wakes { reader: false, writer: false });
    assert_eq!(expired(&mut pool), None);
}

#[test]
fn the_end_wakes_both_halves() {
    let runtime = runtime();
    let _guard = runtime.enter();
    let (mut pool, socket) = pool_with(connected(b"", false));
    let mut process = |pool: &mut Pool, abort: bool| {
        let step = |tcp: &mut TcpSocket<'static>, _: i64, _: &IpRepr, _: &TcpRepr<'_>| {
            if abort {
                tcp.abort();
            }
            Err(StackError::Dropped)
        };
        let done = pool.process(
            &pair(),
            &mut socket.borrow_mut().tcp,
            &ip(LOCALHOST, LOCALHOST),
            &acked(own(TcpControl::Rst)),
            step,
            |_tcp| PollAt::Ingress,
        );
        done.wakes
    };
    assert_eq!(process(&mut pool, false), Wakes { reader: false, writer: false });
    assert_eq!(process(&mut pool, true), Wakes { reader: true, writer: true });
}

#[test]
fn a_turn_to_send_fills_the_buffer() {
    let runtime = runtime();
    let _guard = runtime.enter();
    let (mut pool, socket) = pool_with(connected(b"", false));
    let mut buf = Vec::new();
    let done = pool.dispatch(
        &mut buf,
        &pair(),
        &mut socket.borrow_mut(),
        |_tcp, _timestamp, device, emission| {
            assert_eq!(*device, CAPABILITIES);
            assert!(emission.is_empty());
            let r = emission.emit(ip(LOCALHOST, LOCALHOST), own(TcpControl::Rst));
            assert!(!emission.is_empty());
            r
        },
        at_once,
    );
    let (_, sent) = Interface::<()>::process(&CAPABILITIES.checksum, &buf).unwrap().unwrap();
    assert_eq!(sent.control, TcpControl::Rst);
    assert_eq!(buf.len(), 40);
    assert!(!done.drop && done.scheduled);
    assert_eq!(done.wakes, Wakes { reader: false, writer: true });
    assert!(socket.borrow().polling_active);
    assert_eq!(expired(&mut pool), Some(pair()));

    buf.clear();
    let later = |_tcp: &TcpSocket<'static>| PollAt::Time(1_000_000);
    let done = pool.dispatch(&mut buf, &pair(), &mut socket.borrow_mut(), exhausted, later);
    assert!(buf.is_empty());
    // Somebody still uses the connection.
    assert!(!done.drop);
    assert!(!socket.borrow().polling_active);
    assert_eq!(expired(&mut pool), None);
    assert!(pool.socket(&pair()).is_some());
}

#[test]
fn a_segment_that_cannot_be_addressed_is_not_sent() {
    let runtime = runtime();
    let _guard = runtime.enter();
    let (mut pool, socket) = pool_with(connected(b"", false));
    let mut buf = Vec::new();
    let done = pool.dispatch(
        &mut buf,
        &pair(),
        &mut socket.borrow_mut(),
        |_tcp, _timestamp, _device, emission| {
            let r = emission.emit(ip(0, LOCALHOST), own(TcpControl::Rst));
            assert_eq!(r, Err(StackError::Unaddressable));
            r
        },
        |_tcp| PollAt::Ingress,
    );
    assert!(buf.is_empty() && !done.drop);
}

fn drop_both(pool: &mut Pool, socket: &Shared) {
    for half in [Close::Read, Close::Write] {
        let done = pool.drop_tcp_half(&pair(), half, &mut socket.borrow_mut().tcp, |_tcp| {
            PollAt::Time(1_000_000)
        });
        assert_eq!(done, HalfDropped { drop: half == Close::Write, scheduled: true });
    }
}

#[test]
fn the_writer_closes_the_socket() {
    let runtime = runtime();
    let _guard = runtime.enter();
    let (mut pool, socket) = pool_with(connected(b"", false));
    let asked = Cell::new(0);
    let poll_at = |_tcp: &TcpSocket<'static>| {
        asked.set(asked.get() + 1);
        PollAt::Ingress
    };
    let done = pool.drop_tcp_half(&pair(), Close::Read, &mut socket.borrow_mut().tcp, poll_at);
    assert_eq!(done, HalfDropped { drop: false, scheduled: true });
    assert_eq!(asked.get(), 0);
    assert_eq!(socket.borrow().tcp.state(), TcpState::Established);
    assert_eq!(
        pool.status(&pair()),
        Some(RwStatus { handle: pair(), reader_dropped: true, writer_dropped: false })
    );
    assert_eq!(expired(&mut pool), None);
    let done = pool.drop_tcp_half(&pair(), Close::Write, &mut socket.borrow_mut().tcp, poll_at);
    assert_eq!(done, HalfDropped { drop: true, scheduled: true });
    assert_eq!(asked.get(), 1);
    assert_eq!(socket.borrow().tcp.state(), TcpState::FinWait1);
    assert!(pool.status(&pair()).unwrap().both_dropped());
    // Nobody uses the connection any more: it does not wait for a segment.
    assert_eq!(expired(&mut pool), Some(pair()));
}

#[test]
fn without_a_reader_the_writer_goes_on() {
    let runtime = runtime();
    let _guard = runtime.enter();
    let (mut pool, socket) = pool_with(connected(b"", false));
    let waits = |_tcp: &TcpSocket<'static>| PollAt::Ingress;
    let done = pool.drop_tcp_half(&pair(), Close::Write, &mut socket.borrow_mut().tcp, waits);
    assert_eq!(done, HalfDropped { drop: false, scheduled: true });
    assert_eq!(socket.borrow().tcp.state(), TcpState::FinWait1);
    assert_eq!(expired(&mut pool), None);
    // The other order ends the same way.
    let done = pool.drop_tcp_half(&pair(), Close::Read, &mut socket.borrow_mut().tcp, waits);
    assert_eq!(done, HalfDropped { drop: true, scheduled: true });
    assert_eq!(expired(&mut pool), Some(pair()));
}

#[test]
fn a_reader_outlives_the_writer() {
    let runtime = runtime();
    let _guard = runtime.enter();
    let (mut pool, socket) = pool_with(connected(b"", false));
    let waits = |_tcp: &TcpSocket<'static>| PollAt::Ingress;
    let done = pool.drop_tcp_half(&pair(), Close::Write, &mut socket.borrow_mut().tcp, waits);
    assert!(!done.drop);
    let mut buf = Vec::new();
    let done = pool.dispatch(&mut buf, &pair(), &mut socket.borrow_mut(), exhausted, waits);
    assert!(!done.drop);
    assert_eq!(done.wakes, Wakes { reader: false, writer: false });
}

#[test]
fn an_unused_connection_with_nothing_to_send_is_forgotten() {
    let runtime = runtime();
    let _guard = runtime.enter();
    let (mut pool, socket) = pool_with(connected(b"", false));
    drop_both(&mut pool, &socket);
    let done = pool.dispatch(
        &mut Vec::new(),
        &pair(),
        &mut socket.borrow_mut(),
        exhausted,
        at_once,
    );
    assert!(done.drop);
    assert!(pool.socket(&pair()).is_none());
    assert_eq!(expired(&mut pool), None);
}

#[test]
fn an_unused_connection_that_would_wait_for_a_segment_is_forgotten() {
    let runtime = runtime();
    let _guard = runtime.enter();
    let (mut pool, socket) = pool_with(connected(b"", false));
    drop_both(&mut pool, &socket);
    let done = pool.dispatch(
        &mut Vec::new(),
        &pair(),
        &mut socket.borrow_mut(),
        sent,
        |_tcp| PollAt::Ingress,
    );
    assert!(done.drop);
    assert!(pool.socket(&pair()).is_none());
}

#[test]
fn an_unused_connection_without_a_peer_is_forgotten() {
    let runtime = runtime();
    let _guard = runtime.enter();
    let (mut pool, socket) = pool_with(open_socket(pair().local).unwrap());
    drop_both(&mut pool, &socket);
    let done =
        pool.dispatch(&mut Vec::new(), &pair(), &mut socket.borrow_mut(), sent, at_once);
    assert!(done.drop);
    assert!(pool.socket(&pair()).is_none());
}

#[test]
fn an_unused_connection_with_something_to_send_stays() {
    let runtime = runtime();
    let _guard = runtime.enter();
    let (mut pool, socket) = pool_with(connected(b"", false));
    drop_both(&mut pool, &socket);
    let done =
        pool.dispatch(&mut Vec::new(), &pair(), &mut socket.borrow_mut(), sent, at_once);
    assert!(!done.drop);
    assert!(pool.socket(&pair()).is_some());
    assert_eq!(expired(&mut pool), Some(pair()));
    // A segment that leaves nothing to do gives it another turn.
    let done = pool.process(
        &pair(),
        &mut socket.borrow_mut().tcp,
        &ip(LOCALHOST, LOCALHOST),
        &acked(own(TcpControl::Plain)),
        |_tcp, _timestamp, _ip, _segment| Ok(None),
        |_tcp| PollAt::Ingress,
    );
    assert!(matches!(done.reply, Ok(None)));
    assert_eq!(done.wakes, Wakes { reader: false, writer: false });
    assert_eq!(expired(&mut pool), Some(pair()));
}

#[test]
fn updates_set_deadlines() {
    let runtime = runtime();
    let _guard = runtime.enter();
    let mut pool = pool();
    assert!(pool.accepts(&pair(), PollAt::Now));
    assert!(!pool.accepts(&pair(), PollAt::Time(i64::MAX)));
    assert!(pool.update(pair(), PollAt::Now));
    assert_eq!(expired(&mut pool), Some(pair()));
    assert!(pool.update(pair(), PollAt::Ingress));
    assert_eq!(expired(&mut pool), None);
    assert!(pool.timestamp() >= 0);
    assert_eq!(pool.capabilities(), CAPABILITIES);
}
