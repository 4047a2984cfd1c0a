use ustunet::dispatch::packet::{packet_to_bytes, Packet};
use ustunet::dispatch::Interface;
use ustunet::sockets::SocketAddr;
use ustunet::util::convert_to_socket_address;
use ustunet::wire::{
    is_unicast_v4, is_unicast_v6, Checksum, ChecksumCapabilities, IpAddress, IpEndpoint, IpRepr,
    Ipv4Repr, Ipv6Repr, StackError, TcpControl, TcpRepr,
};

const CLIENT: u32 = 0xc0a8_0904;
const SERVER: u32 = 0x0a21_0007;
const CHECKED: ChecksumCapabilities =
    ChecksumCapabilities { ipv4: Checksum::Both, tcp: Checksum::Both };
const IGNORED: ChecksumCapabilities =
    ChecksumCapabilities { ipv4: Checksum::Neither, tcp: Checksum::Neither };

const SYN_PACKET: [u8; 40] = [
    0x45, 0x00, 0x00, 0x28, 0x00, 0x00, 0x40, 0x00, 0x40, 0x06, 0x66, 0xfc, 0xc0, 0xa8, 0x09, 0x04,
    0x0a, 0x21, 0x00, 0x07, 0xc3, 0x50, 0x00, 0x50, 0x00, 0x00, 0x00, 0x01, 0x00, 0x00, 0x00, 0x00,
    0x50, 0x02, 0x04, 0x00, 0x14, 0x6d, 0x00, 0x00,
];

fn segment(control: TcpControl) -> TcpRepr<'static> {
    TcpRepr {
        src_port: 50000,
        dst_port: 80,
        control,
        seq_number: 1,
        ack_number: None,
        window_len: 1024,
        window_scale: None,
        max_seg_size: None,
        sack_permitted: false,
        sack_ranges: [None, None, None],
        payload: &[],
    }
}

fn header(payload_len: usize) -> Ipv4Repr {
    Ipv4Repr { src_addr: CLIENT, dst_addr: SERVER, protocol: 6, payload_len, hop_limit: 64 }
}

fn process(bytes: &[u8]) -> Result<Option<(IpRepr, TcpRepr<'_>)>, StackError> {
    Interface::<()>::process(&CHECKED, bytes)
}

fn error(bytes: &[u8]) -> StackError {
    process(bytes).unwrap_err()
}

#[test]
fn a_segment_is_written_with_its_header() {
    let mut buffer = Vec::new();
    let packet = Packet::Tcp(IpRepr::Ipv4(header(20)), segment(TcpControl::Syn));
    assert!(packet.is_emittable());
    assert_eq!(packet_to_bytes(&packet, &mut buffer, &CHECKED), Ok(()));
    assert_eq!(buffer, SYN_PACKET);
}

#[test]
fn ignored_checksums_are_left_zero() {
    let mut buffer = Vec::new();
    let packet = Packet::Tcp(IpRepr::Ipv4(header(20)), segment(TcpControl::Syn));
    assert_eq!(packet_to_bytes(&packet, &mut buffer, &IGNORED), Ok(()));
    let mut expected = SYN_PACKET.to_vec();
    expected[10] = 0;
    expected[11] = 0;
    expected[36] = 0;
    expected[37] = 0;
    assert_eq!(buffer, expected);
}

#[test]
fn a_segment_of_the_other_family_is_written() {
    let mut buffer = Vec::new();
    let ip = IpRepr::Ipv6(Ipv6Repr {
        src_addr: 0xfd00_0000_0000_0000_0000_0000_0000_0001,
        dst_addr: 0xfd00_0000_0000_0000_0000_0000_0000_0002,
        next_header: 6,
        payload_len: 22,
        hop_limit: 64,
    });
    let tcp = TcpRepr {
        src_port: 80,
        dst_port: 50000,
        seq_number: 7,
        ack_number: Some(2),
        payload: b"hi",
        ..segment(TcpControl::Plain)
    };
    assert_eq!(packet_to_bytes(&Packet::Tcp(ip, tcp), &mut buffer, &CHECKED), Ok(()));
    let expected: [u8; 62] = [
        0x60, 0x00, 0x00, 0x00, 0x00, 0x16, 0x06, 0x40, 0xfd, 0x00, 0x00, 0x00, 0x00, 0x00, 0x00,
        0x00, 0x00, 0x00, 0x00, 0x00, 0x00, 0x00, 0x00, 0x01, 0xfd, 0x00, 0x00, 0x00, 0x00, 0x00,
        0x00, 0x00, 0x00, 0x00, 0x00, 0x00, 0x00, 0x00, 0x00, 0x02, 0x00, 0x50, 0xc3, 0x50, 0x00,
        0x00, 0x00, 0x07, 0x00, 0x00, 0x00, 0x02, 0x50, 0x10, 0x04, 0x00, 0x85, 0xbb, 0x00, 0x00,
        0x68, 0x69,
    ];
    assert_eq!(buffer, expected);
}

#[test]
fn a_family_is_settled_by_the_addresses() {
    let unsettled = IpRepr::Unspecified {
        src_addr: IpAddress::Ipv4(CLIENT),
        dst_addr: IpAddress::Ipv4(SERVER),
        protocol: 6,
        payload_len: 20,
        hop_limit: 64,
    };
    assert_eq!(unsettled.lower(), Ok(IpRepr::Ipv4(header(20))));
    assert_eq!(unsettled.src_addr(), IpAddress::Ipv4(CLIENT));
    assert_eq!(unsettled.dst_addr(), IpAddress::Ipv4(SERVER));
    let mut buffer = Vec::new();
    let packet = Packet::Tcp(unsettled, segment(TcpControl::Syn));
    assert_eq!(packet_to_bytes(&packet, &mut buffer, &CHECKED), Ok(()));
    assert_eq!(buffer, SYN_PACKET);
}

#[test]
fn without_a_source_nothing_is_written() {
    let nowhere = IpRepr::Unspecified {
        src_addr: IpAddress::Unspecified,
        dst_addr: IpAddress::Ipv4(SERVER),
        protocol: 6,
        payload_len: 20,
        hop_limit: 64,
    };
    let zero = IpRepr::Ipv4(Ipv4Repr { src_addr: 0, ..header(20) });
    for ip in [nowhere, zero] {
        let packet = Packet::Tcp(ip, segment(TcpControl::Syn));
        assert!(packet.is_emittable());
        let mut buffer = Vec::new();
        assert_eq!(
            packet_to_bytes(&packet, &mut buffer, &CHECKED),
            Err(StackError::Unaddressable)
        );
        assert!(buffer.is_empty());
    }
}

fn ipv6_header(payload_len: usize) -> Ipv6Repr {
    Ipv6Repr {
        src_addr: 0xfd00 << 112 | 1,
        dst_addr: 0xfd00 << 112 | 2,
        next_header: 6,
        payload_len,
        hop_limit: 64,
    }
}

fn ipv6_packet(tcp: TcpRepr<'_>) -> Vec<u8> {
    let ip = IpRepr::Ipv6(ipv6_header(tcp.header_len() + tcp.payload.len()));
    let mut buffer = Vec::new();
    assert_eq!(packet_to_bytes(&Packet::Tcp(ip, tcp), &mut buffer, &CHECKED), Ok(()));
    buffer
}

#[test]
fn packets_of_the_other_family_are_read() {
    let tcp = TcpRepr { payload: b"hi", ack_number: Some(2), ..segment(TcpControl::Plain) };
    let mut bytes = ipv6_packet(tcp);
    bytes.extend_from_slice(&[1, 2, 3]);
    let (ip, read) = process(&bytes).unwrap().unwrap();
    assert_eq!(ip, IpRepr::Ipv6(ipv6_header(22)));
    assert_eq!((read.src_port, read.dst_port), (50000, 80));
    assert_eq!((read.seq_number, read.ack_number), (1, Some(2)));
    assert_eq!(read.payload, b"hi");
}

#[test]
fn broken_packets_of_the_other_family_are_refused() {
    let bytes = ipv6_packet(segment(TcpControl::Syn));
    assert_eq!(error(&bytes[..39]), StackError::Truncated);
    assert_eq!(error(&bytes[..59]), StackError::Truncated);
    assert_eq!(error(&bytes[..1]), StackError::Truncated);
    let mut checksum = bytes.clone();
    checksum[56] ^= 1;
    assert_eq!(error(&checksum), StackError::Checksum);
    let mut multicast = bytes.clone();
    multicast[8] = 0xff;
    assert_eq!(error(&multicast), StackError::Malformed);
    let mut nowhere = bytes.clone();
    nowhere[8..24].copy_from_slice(&[0; 16]);
    assert_eq!(error(&nowhere), StackError::Malformed);
    let mut other = bytes;
    other[6] = 17;
    assert!(process(&other).unwrap().is_none());
}

#[test]
fn options_read_back() {
    for options in 0..64 {
        let on = |bit: u32| options >> bit & 1 == 1;
        let tcp = TcpRepr {
            ack_number: if on(0) { Some(i32::MIN) } else { None },
            max_seg_size: if on(1) { Some(0) } else { None },
            window_scale: if on(2) { Some(255) } else { None },
            sack_permitted: on(3),
            sack_ranges: [
                None,
                if on(4) { Some((1, u32::MAX)) } else { None },
                if on(5) { Some((5, 6)) } else { None },
            ],
            payload: b"odd",
            ..segment(TcpControl::Fin)
        };
        let bytes = ipv6_packet(tcp);
        let (_, read) = process(&bytes).unwrap().unwrap();
        assert_eq!((read.src_port, read.dst_port), (tcp.src_port, tcp.dst_port));
        assert_eq!((read.seq_number, read.ack_number), (tcp.seq_number, tcp.ack_number));
        assert_eq!(read.control, tcp.control);
        assert_eq!(read.window_len, tcp.window_len);
        assert_eq!(read.max_seg_size, tcp.max_seg_size);
        assert_eq!(read.sack_permitted, tcp.sack_permitted);
        assert_eq!(read.payload, tcp.payload);
    }
}

#[test]
fn other_packets_are_not_written() {
    let mut buffer = Vec::new();
    assert!(Packet::Other.is_emittable());
    assert_eq!(packet_to_bytes(&Packet::Other, &mut buffer, &CHECKED), Ok(()));
    assert!(buffer.is_empty());
}

#[test]
fn what_does_not_fit_is_not_emittable() {
    let short = Packet::Tcp(IpRepr::Ipv4(header(19)), segment(TcpControl::Syn));
    assert!(!short.is_emittable());
    let long = Packet::Tcp(IpRepr::Ipv4(header(65_516)), segment(TcpControl::Syn));
    assert!(!long.is_emittable());
    let nowhere = IpRepr::Unspecified {
        src_addr: IpAddress::Ipv4(CLIENT),
        dst_addr: IpAddress::Unspecified,
        protocol: 6,
        payload_len: 20,
        hop_limit: 64,
    };
    assert!(!Packet::Tcp(nowhere, segment(TcpControl::Syn)).is_emittable());
}

#[test]
fn options_lengthen_the_header() {
    assert_eq!(segment(TcpControl::Syn).header_len(), 20);
    let tcp = TcpRepr { max_seg_size: Some(1460), ..segment(TcpControl::Syn) };
    assert_eq!(tcp.header_len(), 24);
    let tcp = TcpRepr { window_scale: Some(0), ..tcp };
    assert_eq!(tcp.header_len(), 28);
    let tcp = TcpRepr { sack_permitted: true, ..tcp };
    assert_eq!(tcp.header_len(), 32);
    let tcp = TcpRepr {
        sack_ranges: [Some((1, 2)), None, Some((3, 4))],
        ..segment(TcpControl::Plain)
    };
    assert_eq!(tcp.header_len(), 40);
}

#[test]
fn what_was_written_reads_back() {
    let tcp = TcpRepr {
        ack_number: Some(-5),
        max_seg_size: Some(1460),
        window_scale: Some(3),
        payload: b"abc",
        ..segment(TcpControl::Psh)
    };
    let ip = IpRepr::Ipv4(header(tcp.header_len() + 3));
    let mut buffer = Vec::new();
    assert_eq!(packet_to_bytes(&Packet::Tcp(ip, tcp), &mut buffer, &CHECKED), Ok(()));
    let (read_ip, read) = process(&buffer).unwrap().unwrap();
    assert_eq!(read_ip, ip);
    assert_eq!(read.src_port, 50000);
    assert_eq!(read.dst_port, 80);
    assert_eq!(read.control, TcpControl::Psh);
    assert_eq!(read.seq_number, 1);
    assert_eq!(read.ack_number, Some(-5));
    assert_eq!(read.window_len, 1024);
    assert_eq!(read.max_seg_size, Some(1460));
    assert_eq!(read.window_scale, Some(3));
    assert_eq!(read.payload, b"abc");
}

#[test]
fn bytes_after_the_packet_are_left_alone() {
    let mut bytes = SYN_PACKET.to_vec();
    bytes.extend_from_slice(&[0xff; 7]);
    let (ip, tcp) = process(&bytes).unwrap().unwrap();
    assert_eq!(ip, IpRepr::Ipv4(header(20)));
    assert_eq!(tcp.control, TcpControl::Syn);
    assert_eq!(tcp.ack_number, None);
    assert!(tcp.payload.is_empty());
}

#[test]
fn every_control_flag_is_read() {
    for (flags, control) in [
        (0x10, TcpControl::Plain),
        (0x18, TcpControl::Psh),
        (0x02, TcpControl::Syn),
        (0x11, TcpControl::Fin),
        (0x04, TcpControl::Rst),
    ] {
        let mut bytes = SYN_PACKET;
        bytes[33] = flags;
        let (_, tcp) = Interface::<()>::process(&IGNORED, &bytes).unwrap().unwrap();
        assert_eq!(tcp.control, control);
        assert_eq!(tcp.ack_number.is_some(), flags & 0x10 != 0);
    }
}

#[test]
fn short_packets_are_truncated() {
    assert_eq!(error(&[]), StackError::Truncated);
    assert_eq!(error(&SYN_PACKET[..19]), StackError::Truncated);
    assert_eq!(error(&SYN_PACKET[..39]), StackError::Truncated);
    let mut options = SYN_PACKET;
    options[0] = 0x4f;
    assert_eq!(error(&options), StackError::Truncated);
}

#[test]
fn contradictions_are_malformed() {
    let mut total = SYN_PACKET;
    total[3] = 19;
    assert_eq!(error(&total), StackError::Malformed);
    let mut version = SYN_PACKET;
    version[0] = 0x55;
    assert_eq!(error(&version), StackError::Malformed);
}

#[test]
fn wrong_checksums_are_noticed() {
    let mut bytes = SYN_PACKET;
    bytes[10] ^= 1;
    assert_eq!(error(&bytes), StackError::Checksum);
    assert!(Interface::<()>::process(&IGNORED, &bytes).is_ok());
    let mut bytes = SYN_PACKET;
    bytes[36] ^= 1;
    assert_eq!(error(&bytes), StackError::Checksum);
    assert!(Interface::<()>::process(&IGNORED, &bytes).is_ok());
    for checksum in [Checksum::Rx, Checksum::Both] {
        let caps = ChecksumCapabilities { ipv4: Checksum::Tx, tcp: checksum };
        assert_eq!(
            Interface::<()>::process(&caps, &bytes).unwrap_err(),
            StackError::Checksum
        );
    }
    let caps = ChecksumCapabilities { ipv4: Checksum::Rx, tcp: Checksum::Tx };
    assert!(Interface::<()>::process(&caps, &bytes).is_ok());
}

#[test]
fn fragments_are_refused() {
    let caps = ChecksumCapabilities { ipv4: Checksum::Neither, tcp: Checksum::Both };
    let mut more = SYN_PACKET;
    more[6] = 0x20;
    assert_eq!(Interface::<()>::process(&caps, &more).unwrap_err(), StackError::Fragmented);
    let mut later = SYN_PACKET;
    later[7] = 1;
    assert_eq!(Interface::<()>::process(&caps, &later).unwrap_err(), StackError::Fragmented);
}

#[test]
fn only_one_host_can_be_a_source() {
    for source in [[0, 1, 2, 3], [224, 0, 0, 1], [255, 255, 255, 255]] {
        let mut bytes = SYN_PACKET;
        bytes[12..16].copy_from_slice(&source);
        assert_eq!(
            Interface::<()>::process(&IGNORED, &bytes).unwrap_err(),
            StackError::Malformed
        );
    }
    assert!(is_unicast_v4(CLIENT));
    assert!(is_unicast_v4(0xf000_0000));
    assert!(is_unicast_v4(0x0100_0000));
    assert!(!is_unicast_v4(0x00ff_ffff));
    assert!(!is_unicast_v4(0xe000_0000));
    assert!(!is_unicast_v4(0xefff_ffff));
    assert!(!is_unicast_v4(0xffff_ffff));
    assert!(is_unicast_v6(1));
    assert!(is_unicast_v6(0xfeff << 112));
    assert!(!is_unicast_v6(0));
    assert!(!is_unicast_v6(0xff00 << 112));
}

#[test]
fn other_protocols_are_passed_over() {
    let mut bytes = SYN_PACKET;
    bytes[9] = 17;
    assert!(Interface::<()>::process(&IGNORED, &bytes).unwrap().is_none());
}

#[test]
fn broken_segments_are_refused() {
    // The packet ends within the header of the segment.
    let mut short = SYN_PACKET;
    short[3] = 39;
    assert_eq!(
        Interface::<()>::process(&IGNORED, &short).unwrap_err(),
        StackError::Truncated
    );
    // The header of the segment is shorter than any.
    let mut offset = SYN_PACKET;
    offset[32] = 0x40;
    assert_eq!(
        Interface::<()>::process(&IGNORED, &offset).unwrap_err(),
        StackError::Malformed
    );
    // There is no port zero.
    for at in [20, 22] {
        let mut port = SYN_PACKET;
        port[at] = 0;
        port[at + 1] = 0;
        assert_eq!(
            Interface::<()>::process(&IGNORED, &port).unwrap_err(),
            StackError::Malformed
        );
    }
}

#[test]
fn addresses_are_converted() {
    assert_eq!(
        convert_to_socket_address(IpAddress::Ipv4(SERVER), 80),
        Ok(SocketAddr::V4(SERVER, 80))
    );
    assert_eq!(convert_to_socket_address(IpAddress::Ipv6(1), 443), Ok(SocketAddr::V6(1, 443)));
    assert_eq!(
        convert_to_socket_address(IpAddress::Unspecified, 80),
        Err(StackError::Unrecognized)
    );
}

fn smol_address(addr: IpAddress) -> smoltcp::wire::IpAddress {
    match addr {
        IpAddress::Unspecified => smoltcp::wire::IpAddress::Unspecified,
        IpAddress::Ipv4(a) => {
            smoltcp::wire::IpAddress::Ipv4(smoltcp::wire::Ipv4Address(a.to_be_bytes()))
        }
        IpAddress::Ipv6(a) => {
            smoltcp::wire::IpAddress::Ipv6(smoltcp::wire::Ipv6Address(a.to_be_bytes()))
        }
    }
}

fn smol_header(ip: IpRepr) -> smoltcp::wire::IpRepr {
    match ip {
        IpRepr::Unspecified { src_addr, dst_addr, protocol, payload_len, hop_limit } => {
            smoltcp::wire::IpRepr::Unspecified {
                src_addr: smol_address(src_addr),
                dst_addr: smol_address(dst_addr),
                protocol: protocol.into(),
                payload_len,
                hop_limit,
            }
        }
        IpRepr::Ipv4(repr) => smoltcp::wire::IpRepr::Ipv4(smoltcp::wire::Ipv4Repr {
            src_addr: smoltcp::wire::Ipv4Address(repr.src_addr.to_be_bytes()),
            dst_addr: smoltcp::wire::Ipv4Address(repr.dst_addr.to_be_bytes()),
            protocol: repr.protocol.into(),
            payload_len: repr.payload_len,
            hop_limit: repr.hop_limit,
        }),
        IpRepr::Ipv6(repr) => smoltcp::wire::IpRepr::Ipv6(smoltcp::wire::Ipv6Repr {
            src_addr: smoltcp::wire::Ipv6Address(repr.src_addr.to_be_bytes()),
            dst_addr: smoltcp::wire::Ipv6Address(repr.dst_addr.to_be_bytes()),
            next_header: repr.next_header.into(),
            payload_len: repr.payload_len,
            hop_limit: repr.hop_limit,
        }),
    }
}

#[test]
fn families_are_settled_as_smoltcp_does() {
    let unsettled = |src_addr: IpAddress, dst_addr: IpAddress| IpRepr::Unspecified {
        src_addr,
        dst_addr,
        protocol: 6,
        payload_len: 33,
        hop_limit: 7,
    };
    let mut headers = Vec::new();
    for src in [0, 0x00ff_ffff, 0x0100_0000, CLIENT, u32::MAX] {
        headers.push(unsettled(IpAddress::Ipv4(src), IpAddress::Ipv4(SERVER)));
        headers.push(IpRepr::Ipv4(Ipv4Repr { src_addr: src, ..header(33) }));
    }
    for src in [0, 1, u128::MAX] {
        headers.push(unsettled(IpAddress::Ipv6(src), IpAddress::Ipv6(5)));
        headers.push(IpRepr::Ipv6(Ipv6Repr {
            src_addr: src,
            dst_addr: 5,
            next_header: 6,
            payload_len: 33,
            hop_limit: 7,
        }));
    }
    headers.push(unsettled(IpAddress::Unspecified, IpAddress::Ipv4(SERVER)));
    headers.push(unsettled(IpAddress::Unspecified, IpAddress::Ipv6(5)));
    for ip in headers {
        let theirs = smol_header(ip).lower(&[]);
        match ip.lower() {
            Ok(lowered) => assert_eq!(theirs, Ok(smol_header(lowered))),
            Err(error) => {
                assert_eq!(error, StackError::Unaddressable);
                assert_eq!(theirs, Err(smoltcp::Error::Unaddressable));
            }
        }
    }
}

#[test]
fn hosts_are_told_apart_as_smoltcp_does() {
    for first in 0..=255u8 {
        for rest in [[0, 0, 0], [0, 0, 1], [255, 255, 255]] {
            let octets = [first, rest[0], rest[1], rest[2]];
            let theirs = smoltcp::wire::Ipv4Address(octets);
            let ours = u32::from_be_bytes(octets);
            assert_eq!(is_unicast_v4(ours), theirs.is_unicast());
            assert_eq!(IpAddress::Ipv4(ours).is_unspecified(), theirs.is_unspecified());
        }
    }
}

#[test]
fn headers_are_as_long_as_those_of_smoltcp() {
    for options in 0..64 {
        let on = |bit: u32| options >> bit & 1 == 1;
        let ours = TcpRepr {
            max_seg_size: if on(0) { Some(1460) } else { None },
            window_scale: if on(1) { Some(2) } else { None },
            sack_permitted: on(2),
            sack_ranges: [
                if on(3) { Some((1, 2)) } else { None },
                if on(4) { Some((3, 4)) } else { None },
                if on(5) { Some((5, 6)) } else { None },
            ],
            ..segment(TcpControl::Plain)
        };
        let theirs = smoltcp::wire::TcpRepr {
            src_port: ours.src_port,
            dst_port: ours.dst_port,
            control: smoltcp::wire::TcpControl::None,
            seq_number: smoltcp::wire::TcpSeqNumber(ours.seq_number),
            ack_number: None,
            window_len: ours.window_len,
            window_scale: ours.window_scale,
            max_seg_size: ours.max_seg_size,
            sack_permitted: ours.sack_permitted,
            sack_ranges: ours.sack_ranges,
            payload: ours.payload,
        };
        assert_eq!(ours.header_len(), theirs.header_len());
    }
}

#[test]
fn placeholders_are_no_addresses() {
    assert!(IpAddress::Unspecified.is_unspecified());
    assert!(IpAddress::Ipv4(0x00ff_ffff).is_unspecified());
    assert!(!IpAddress::Ipv4(0x0100_0000).is_unspecified());
    assert!(IpAddress::Ipv6(0).is_unspecified());
    assert!(!IpAddress::Ipv6(1).is_unspecified());
    assert!(IpEndpoint { addr: IpAddress::Ipv4(SERVER), port: 80 }.is_specified());
    assert!(!IpEndpoint { addr: IpAddress::Ipv4(SERVER), port: 0 }.is_specified());
    assert!(!IpEndpoint { addr: IpAddress::Unspecified, port: 80 }.is_specified());
}
