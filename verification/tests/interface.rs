use std::task::{Context, Waker};
use tokio::runtime::{Builder, Runtime};
use ustunet::dispatch::poll_queue::PollAt;
use ustunet::dispatch::{Interface, Turn};
use ustunet::sockets::{AddrPair, SocketAddr};
use ustunet::wire::{
    Checksum, ChecksumCapabilities, DeviceCapabilities, IpAddress, IpRepr, Ipv4Repr, StackError,
    TcpControl, TcpRepr,
};

const CAPABILITIES: DeviceCapabilities = DeviceCapabilities {
    max_transmission_unit: 1500,
    max_burst_size: Some(1),
    checksum: ChecksumCapabilities { ipv4: Checksum::Both, tcp: Checksum::Both },
};

fn runtime() -> Runtime {
    Builder::new_current_thread().enable_time().build().unwrap()
}

fn pair(port: u16) -> AddrPair {
    AddrPair { peer: SocketAddr::V4(0xc0a8_0904, port), local: SocketAddr::V4(0x0a21_0007, 80) }
}

fn interface() -> Interface<()> {
    Interface::new(CAPABILITIES).0
}

fn ip() -> IpRepr {
    IpRepr::Ipv4(Ipv4Repr {
        src_addr: 0x0a21_0007,
        dst_addr: 0xc0a8_0904,
        protocol: 6,
        payload_len: 20,
        hop_limit: 64,
    })
}

fn segment(dst_port: u16) -> TcpRepr<'static> {
    TcpRepr {
        src_port: 80,
        dst_port,
        control: TcpControl::Rst,
        seq_number: 1,
        ack_number: None,
        window_len: 0,
        window_scale: None,
        max_seg_size: None,
        sack_permitted: false,
        sack_ranges: [None, None, None],
        payload: &[],
    }
}

/// The port that a packet goes to.
fn destination(bytes: &[u8]) -> u16 {
    let (_, tcp) =
        Interface::<()>::process(&CAPABILITIES.checksum, bytes).unwrap().unwrap();
    tcp.dst_port
}

fn cx() -> Context<'static> {
    Context::from_waker(Waker::noop())
}

#[test]
fn a_new_interface_has_nothing_to_write() {
    let mut interface = interface();
    assert!(interface.wants_expiry());
    assert!(matches!(interface.next_write(), Turn::Idle));
    assert!(matches!(interface.next_write(), Turn::Idle));
}

#[test]
fn the_latest_reply_is_written_first() {
    let mut interface = interface();
    assert_eq!(interface.processed(Ok(Some((ip(), segment(1))))), None);
    assert_eq!(interface.processed(Ok(None)), None);
    assert_eq!(interface.processed(Ok(Some((ip(), segment(2))))), None);
    for port in [2, 1] {
        match interface.next_write() {
            Turn::Write(bytes) => {
                assert_eq!(destination(&bytes), port);
                // Nothing else is written meanwhile.
                assert!(matches!(interface.next_write(), Turn::Busy));
                interface.written(bytes);
            }
            _ => panic!("there is a reply"),
        }
    }
    assert!(matches!(interface.next_write(), Turn::Idle));
}

#[test]
fn a_dropped_packet_is_not_worth_a_warning() {
    let mut interface = interface();
    assert_eq!(interface.processed(Err(StackError::Dropped)), None);
    assert_eq!(interface.processed(Err(StackError::Checksum)), Some(StackError::Checksum));
    assert!(matches!(interface.next_write(), Turn::Idle));
}

#[test]
fn a_reply_without_a_source_fails() {
    let mut interface = interface();
    let nowhere = IpRepr::Unspecified {
        src_addr: IpAddress::Unspecified,
        dst_addr: IpAddress::Ipv4(0xc0a8_0904),
        protocol: 6,
        payload_len: 20,
        hop_limit: 64,
    };
    assert_eq!(interface.processed(Ok(Some((ip(), segment(1))))), None);
    assert_eq!(interface.processed(Ok(Some((nowhere, segment(2))))), None);
    assert!(matches!(interface.next_write(), Turn::Failed(StackError::Unaddressable)));
    assert!(matches!(interface.next_write(), Turn::Write(bytes) if destination(&bytes) == 1));
}

#[test]
fn replies_come_before_turns() {
    let runtime = runtime();
    let _guard = runtime.enter();
    let mut interface = interface();
    assert!(interface.sockets().update(pair(9), PollAt::Now));
    assert!(interface.expired(&mut cx()));
    assert!(!interface.wants_expiry());
    assert_eq!(interface.processed(Ok(Some((ip(), segment(1))))), None);
    match interface.next_write() {
        Turn::Write(bytes) => interface.written(bytes),
        _ => panic!("there is a reply"),
    }
    match interface.next_write() {
        Turn::Dispatch(addr, mut buf) => {
            assert_eq!(addr, pair(9));
            assert!(buf.is_empty());
            assert!(interface.wants_expiry());
            assert!(matches!(interface.next_write(), Turn::Busy));
            buf.push(1);
            match interface.dispatched(buf) {
                Turn::Write(bytes) => {
                    assert_eq!(bytes, [1]);
                    assert!(matches!(interface.next_write(), Turn::Busy));
                    interface.written(bytes);
                }
                _ => panic!("there is something to write"),
            }
        }
        _ => panic!("there is a connection to poll"),
    }
    assert!(matches!(interface.next_write(), Turn::Idle));
}

#[test]
fn a_turn_may_come_to_nothing() {
    let runtime = runtime();
    let _guard = runtime.enter();
    let mut interface = interface();
    assert!(!interface.expired(&mut cx()));
    assert!(interface.sockets().update(pair(9), PollAt::Now));
    assert!(interface.expired(&mut cx()));
    match interface.next_write() {
        Turn::Dispatch(_, buf) => assert!(matches!(interface.dispatched(buf), Turn::Idle)),
        _ => panic!("there is a connection to poll"),
    }
    assert!(matches!(interface.next_write(), Turn::Idle));
}

#[test]
fn the_channels_lead_to_the_interface() {
    let (mut interface, mut closing, mut updates) = Interface::<u32>::new(CAPABILITIES);
    let syn = TcpRepr { control: TcpControl::Syn, ..segment(1234) };
    let (addr, stream) = interface.sockets().find_or_create(&ip(), &syn, |_inner| 7).unwrap();
    assert_eq!(interface.sockets().socket(&addr), Some(&7));
    let (mut reader, _writer) = stream.unwrap().split();
    assert_eq!(reader.notify_dropped(), Ok(()));
    assert_eq!(closing.try_recv().unwrap().0, addr);
    assert!(updates.try_recv().is_err());
}
