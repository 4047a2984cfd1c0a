//! What the interface does with packets, and when.
use crate::bytes::{
    be128, be16, be32, fills, header_fields, ipv4_body, ipv4_check, ipv4_defect, ipv4_header_bytes,
    ipv4_parse, ipv4_parsed, ipv4_payload, ipv6_body, ipv6_check, ipv6_defect, ipv6_header_bytes,
    ipv6_parse, ipv6_parsed, ipv6_payload, lemma_ipv4_header, lemma_ipv4_reads_back,
    lemma_ipv6_header, lemma_ipv6_reads_back, reads_back, same_segment, tcp_check, tcp_defect,
    tcp_flag, tcp_parse, tcp_parsed,
};
use crate::dispatch::packet::{
    ip_header_len, lemma_segment_is_sent, packet_bytes, packet_len, packet_to_bytes, Packet,
};
use crate::dispatch::poll_queue::{
    due_at_once, updates_come_from, DispatchQueue, PollReceiver,
};
use crate::dispatch::shutdown::{closes_come_from, shutdown_channel, CloseReceiver};
use crate::sockets::{
    lemma_any_address_can_be_reached, opened, pair_of, AddrPair, SocketPool,
};
use crate::stream::internal::{acceptable, Connection, Reply};
use crate::time::Clock;
use crate::wire::{
    is_unicast_v4, is_unicast_v6, same_family, smol_address, stack_error, v4_unicast, v6_unicast,
    ChecksumCapabilities, DeviceCapabilities, IpAddress, IpEndpoint, IpRepr, Ipv4Repr, Ipv6Repr,
    Segment, StackError, TcpRepr, IPV4_HEADER_LEN, MAX_SEGMENT_LEN, PROTOCOL_TCP,
};
use std::task::Context;
use std::time::Instant;
use vstd::prelude::*;

pub mod packet;
pub mod poll_queue;
pub mod sendbuf;
pub mod shutdown;

verus! {

/// Used to locate a socket in the storage.
/// The address pair can be used but there are other options.
pub type SocketHandle = AddrPair;

/// What the payload of a packet says as a segment, or why it is refused.
pub open spec fn tcp_ingress(
    checksum: ChecksumCapabilities,
    ip: IpRepr,
    payload: Seq<u8>,
) -> Result<Segment, StackError> {
    match tcp_defect(payload) {
        Some(error) => Err(error),
        None => tcp_parsed(payload, ip.source(), ip.destination(), checksum.tcp.rx()),
    }
}

/// What a packet says whose header is read and whose source is one host.
pub open spec fn transport_ingress(
    checksum: ChecksumCapabilities,
    ip: IpRepr,
    protocol: u8,
    payload: Seq<u8>,
) -> Result<Option<(IpRepr, Segment)>, StackError> {
    if protocol != PROTOCOL_TCP {
        Ok(None)
    } else {
        match tcp_ingress(checksum, ip, payload) {
            Err(error) => Err(error),
            Ok(segment) => Ok(Some((ip, segment))),
        }
    }
}

/// What an incoming IPv4 packet says.
pub open spec fn ipv4_ingress(checksum: ChecksumCapabilities, bytes: Seq<u8>) -> Result<
    Option<(IpRepr, Segment)>,
    StackError,
> {
    match ipv4_defect(bytes) {
        Some(error) => Err(error),
        None => match ipv4_parsed(bytes, checksum.ipv4) {
            Err(error) => Err(error),
            Ok(repr) => if !v4_unicast(repr.src_addr) {
                Err(StackError::Malformed)
            } else {
                transport_ingress(checksum, IpRepr::Ipv4(repr), repr.protocol, ipv4_body(bytes))
            },
        },
    }
}

/// What an incoming IPv6 packet says.
pub open spec fn ipv6_ingress(checksum: ChecksumCapabilities, bytes: Seq<u8>) -> Result<
    Option<(IpRepr, Segment)>,
    StackError,
> {
    match ipv6_defect(bytes) {
        Some(error) => Err(error),
        None => match ipv6_parsed(bytes) {
            Err(error) => Err(error),
            Ok(repr) => if !v6_unicast(repr.src_addr) {
                Err(StackError::Malformed)
            } else {
                transport_ingress(checksum, IpRepr::Ipv6(repr), repr.next_header, ipv6_body(bytes))
            },
        },
    }
}

/// The packet is one of IPv6, by the version field of its header.
pub open spec fn is_ipv6(bytes: Seq<u8>) -> bool {
    bytes.len() > 0 && bytes[0] / 16 == 6
}

/// What an incoming packet says: a segment with its header, nothing that
/// matters here, or why it is refused.
pub open spec fn ingress(checksum: ChecksumCapabilities, bytes: Seq<u8>) -> Result<
    Option<(IpRepr, Segment)>,
    StackError,
> {
    if is_ipv6(bytes) {
        ipv6_ingress(checksum, bytes)
    } else {
        ipv4_ingress(checksum, bytes)
    }
}

/// What follows the header of a packet of either family.
pub open spec fn ip_body(bytes: Seq<u8>) -> Seq<u8> {
    if is_ipv6(bytes) {
        ipv6_body(bytes)
    } else {
        ipv4_body(bytes)
    }
}

/// A packet that asks for a connection, and acknowledges nothing, is led to a
/// connection between the two ends that it names, and a socket that is made for
/// that connection takes it. That holds for packets of either family.
pub proof fn lemma_packet_opens_connection(ip: IpRepr, segment: Segment, payload: Seq<u8>)
    requires
        !(ip is Unspecified),
        header_fields(payload, segment),
        tcp_flag(payload, 2),
        !tcp_flag(payload, 16),
    ensures
        pair_of(ip, segment) is Ok,
        ({
            let pair = pair_of(ip, segment)->Ok_0;
            &&& pair.peer.endpoint() == (IpEndpoint {
                addr: ip.source(),
                port: be16(payload, 0) as u16,
            })
            &&& pair.local.endpoint() == (IpEndpoint {
                addr: ip.destination(),
                port: be16(payload, 2) as u16,
            })
            &&& pair.local.port_number() != 0
            &&& acceptable(opened(pair.local), ip, segment)
        }),
{
    lemma_any_address_can_be_reached(ip, segment);
}

/// The segment and its header can be read back: its source is one host, it has
/// ports, its length is the one in the header, and a checksum that is verified
/// is filled in.
pub open spec fn legible(ip: IpRepr, segment: Segment, checksum: ChecksumCapabilities) -> bool {
    &&& checksum.tcp.rx() ==> checksum.tcp.tx()
    &&& match ip {
        IpRepr::Ipv4(repr) => {
            &&& v4_unicast(repr.src_addr)
            &&& repr.protocol == PROTOCOL_TCP
            &&& repr.payload_len <= 0xffff - IPV4_HEADER_LEN
            &&& fills(segment, repr.payload_len as nat)
            &&& checksum.ipv4.rx() ==> checksum.ipv4.tx()
        },
        IpRepr::Ipv6(repr) => {
            &&& v6_unicast(repr.src_addr)
            &&& repr.next_header == PROTOCOL_TCP
            &&& repr.payload_len <= 0xffff
            &&& fills(segment, repr.payload_len as nat)
        },
        IpRepr::Unspecified { .. } => false,
    }
}

/// The bytes are taken for a segment with this header that says the same.
pub open spec fn reads_as(
    checksum: ChecksumCapabilities,
    bytes: Seq<u8>,
    ip: IpRepr,
    segment: Segment,
) -> bool {
    match ingress(checksum, bytes) {
        Ok(Some((read_ip, read))) => read_ip == ip && same_segment(read, segment),
        _ => false,
    }
}

/// What is written for a segment is read as a segment that says the same, with
/// the same header, if what follows the header is.
pub proof fn lemma_written_packet_is_read(
    ip: IpRepr,
    segment: Segment,
    checksum: ChecksumCapabilities,
)
    requires
        legible(ip, segment, checksum),
        packet_bytes(ip, segment, checksum).len() == packet_len(ip),
        reads_back(
            tcp_ingress(
                checksum,
                ip,
                packet_bytes(ip, segment, checksum).skip(ip_header_len(ip) as int),
            ),
            segment,
        ),
    ensures
        reads_as(checksum, packet_bytes(ip, segment, checksum), ip, segment),
{
    let bytes = packet_bytes(ip, segment, checksum);
    let payload = bytes.skip(ip_header_len(ip) as int);
    match ip {
        IpRepr::Ipv4(repr) => {
            let header = ipv4_header_bytes(repr, checksum.ipv4.tx());
            lemma_ipv4_header(repr, checksum.ipv4.tx());
            assert(bytes =~= header + payload) by {
                reveal(packet_bytes);
            }
            lemma_ipv4_reads_back(repr, checksum.ipv4.tx(), checksum.ipv4, payload);
        },
        IpRepr::Ipv6(repr) => {
            let header = ipv6_header_bytes(repr);
            lemma_ipv6_header(repr);
            assert(bytes =~= header + payload) by {
                reveal(packet_bytes);
            }
            lemma_ipv6_reads_back(repr, payload);
        },
        IpRepr::Unspecified { .. } => {},
    }
}

/// An ordinary segment is legible: from one host, with both ports, with the
/// protocol number of TCP and as many bytes as its header says, as long as every
/// checksum is verified and filled in alike.
pub proof fn lemma_ordinary_segments_are_legible(
    ip: IpRepr,
    segment: Segment,
    checksum: ChecksumCapabilities,
)
    requires
        segment.src_port != 0,
        segment.dst_port != 0,
        checksum.tcp is Both || checksum.tcp is Neither,
        checksum.ipv4 is Both || checksum.ipv4 is Neither,
        match ip {
            IpRepr::Ipv4(repr) => v4_unicast(repr.src_addr) && repr.protocol == 6
                && repr.payload_len == segment.header_len() + segment.payload.len()
                && repr.payload_len <= 65515,
            IpRepr::Ipv6(repr) => v6_unicast(repr.src_addr) && repr.next_header == 6
                && repr.payload_len == segment.header_len() + segment.payload.len()
                && repr.payload_len <= 65535,
            IpRepr::Unspecified { .. } => false,
        },
    ensures
        legible(ip, segment, checksum),
{
}

/// What reads as a segment with a header is a packet from which that header and a
/// segment come, between the same ports, for the same purpose, with the same
/// numbers and the same payload.
pub proof fn lemma_what_reads_as_a_segment(
    checksum: ChecksumCapabilities,
    bytes: Seq<u8>,
    ip: IpRepr,
    segment: Segment,
)
    requires
        reads_as(checksum, bytes, ip, segment),
    ensures
        ingress(checksum, bytes) is Ok,
        ingress(checksum, bytes)->Ok_0 is Some,
        ({
            let (read_ip, read) = ingress(checksum, bytes)->Ok_0->Some_0;
            &&& read_ip == ip
            &&& read.src_port == segment.src_port
            &&& read.dst_port == segment.dst_port
            &&& read.control == segment.control
            &&& read.seq_number == segment.seq_number
            &&& read.ack_number == segment.ack_number
            &&& read.window_len == segment.window_len
            &&& read.max_seg_size == segment.max_seg_size
            &&& read.sack_permitted == segment.sack_permitted
            &&& read.payload == segment.payload
        }),
{
}

/// A packet that is shorter than the header of its family, or than that header
/// says, is refused.
pub proof fn lemma_short_packets_are_refused(checksum: ChecksumCapabilities, bytes: Seq<u8>)
    requires
        bytes.len() == 0 || if bytes[0] / 16 == 6 {
            bytes.len() < 40 || bytes.len() < 40 + bytes[4] * 256 + bytes[5]
        } else {
            bytes.len() < 20 || bytes.len() < bytes[2] * 256 + bytes[3]
        },
    ensures
        ingress(checksum, bytes) == Err::<Option<(IpRepr, Segment)>, StackError>(
            StackError::Truncated,
        ),
{
}

/// What is taken for a segment is a packet of IPv4 or IPv6, by the first four bits
/// of its header, says itself that it carries TCP, and comes from one host. It is
/// led by the addresses of that header.
pub proof fn lemma_only_segments_from_a_host_are_taken(
    checksum: ChecksumCapabilities,
    bytes: Seq<u8>,
)
    requires
        ingress(checksum, bytes) is Ok,
        ingress(checksum, bytes)->Ok_0 is Some,
    ensures
        ({
            let (ip, segment) = ingress(checksum, bytes)->Ok_0->Some_0;
            &&& bytes[0] / 16 == 4 || bytes[0] / 16 == 6
            &&& bytes[0] / 16 == 4 ==> {
                &&& ip is Ipv4
                &&& bytes[9] == 6
                &&& ip.source() == IpAddress::Ipv4(be32(bytes, 12) as u32)
                &&& ip.destination() == IpAddress::Ipv4(be32(bytes, 16) as u32)
                &&& v4_unicast(be32(bytes, 12) as u32)
            }
            &&& bytes[0] / 16 == 6 ==> {
                &&& ip is Ipv6
                &&& bytes[6] == 6
                &&& ip.source() == IpAddress::Ipv6(be128(bytes, 8) as u128)
                &&& ip.destination() == IpAddress::Ipv6(be128(bytes, 24) as u128)
                &&& v6_unicast(be128(bytes, 8) as u128)
            }
            &&& tcp_parsed(
                ip_body(bytes),
                ip.source(),
                ip.destination(),
                checksum.tcp is Both || checksum.tcp is Rx,
            ) == Ok::<Segment, StackError>(segment)
        }),
{
}

/// Every segment in an IPv6 packet from one host is taken, and so is every one in
/// an IPv4 packet from one host that is whole, and whose checksum is correct or
/// does not matter. In the same packet, anything but TCP is passed over.
pub proof fn lemma_segments_from_a_host_are_taken(
    checksum: ChecksumCapabilities,
    bytes: Seq<u8>,
    ip: IpRepr,
)
    requires
        bytes.len() > 0,
        match ip {
            IpRepr::Ipv4(repr) => bytes[0] / 16 != 6 && ipv4_defect(bytes) is None && ipv4_parsed(
                bytes,
                checksum.ipv4,
            ) == Ok::<Ipv4Repr, StackError>(repr) && v4_unicast(repr.src_addr),
            IpRepr::Ipv6(repr) => bytes[0] / 16 == 6 && ipv6_defect(bytes) is None && ipv6_parsed(
                bytes,
            ) == Ok::<Ipv6Repr, StackError>(repr) && v6_unicast(repr.src_addr),
            IpRepr::Unspecified { .. } => false,
        },
    ensures
        ({
            let protocol = match ip {
                IpRepr::Ipv4(repr) => repr.protocol,
                IpRepr::Ipv6(repr) => repr.next_header,
                IpRepr::Unspecified { protocol, .. } => protocol,
            };
            let read = tcp_parsed(
                ip_body(bytes),
                ip.source(),
                ip.destination(),
                checksum.tcp is Both || checksum.tcp is Rx,
            );
            &&& protocol != 6 ==> ingress(checksum, bytes) == Ok::<
                Option<(IpRepr, Segment)>,
                StackError,
            >(None)
            &&& protocol == 6 && tcp_defect(ip_body(bytes)) is None && read is Ok ==> ingress(
                checksum,
                bytes,
            ) == Ok::<Option<(IpRepr, Segment)>, StackError>(Some((ip, read->Ok_0)))
            &&& protocol == 6 && tcp_defect(ip_body(bytes)) is None && read is Err ==> ingress(
                checksum,
                bytes,
            ) == Err::<Option<(IpRepr, Segment)>, StackError>(read->Err_0)
            &&& protocol == 6 && tcp_defect(ip_body(bytes)) is Some ==> ingress(checksum, bytes)
                == Err::<Option<(IpRepr, Segment)>, StackError>(tcp_defect(ip_body(bytes))->Some_0)
        }),
{
}

/// A packet from an address that is not that of one host is refused, whatever it
/// carries.
pub proof fn lemma_other_sources_are_refused(checksum: ChecksumCapabilities, bytes: Seq<u8>)
    requires
        bytes.len() > 0,
        if bytes[0] / 16 == 6 {
            ipv6_defect(bytes) is None && ipv6_parsed(bytes) is Ok && !v6_unicast(
                ipv6_parsed(bytes)->Ok_0.src_addr,
            )
        } else {
            ipv4_defect(bytes) is None && ipv4_parsed(bytes, checksum.ipv4) is Ok && !v4_unicast(
                ipv4_parsed(bytes, checksum.ipv4)->Ok_0.src_addr,
            )
        },
    ensures
        ingress(checksum, bytes) == Err::<Option<(IpRepr, Segment)>, StackError>(
            StackError::Malformed,
        ),
{
}

/// What there is to do for the device that packets are written to.
pub enum Turn {
    /// Nothing until the write under way is finished.
    Busy,
    /// Write these bytes.
    Write(Vec<u8>),
    /// Give the connection a turn to fill the buffer.
    Dispatch(SocketHandle, Vec<u8>),
    /// Nothing: there is nothing to write.
    Idle,
    /// A reply could not be addressed.
    Failed(StackError),
}

/// There is nothing to write for this packet.
pub open spec fn not_sent(packet: Packet<'static>, checksum: ChecksumCapabilities) -> bool {
    packet.bytes(checksum) is Ok && packet.bytes(checksum)->Ok_0.len() == 0
}

/// What is left of the replies without those at the end for which there is
/// nothing to write.
pub open spec fn without_unsent(
    replies: Seq<Packet<'static>>,
    checksum: ChecksumCapabilities,
) -> Seq<Packet<'static>>
    decreases replies.len(),
{
    if replies.len() == 0 || !not_sent(replies.last(), checksum) {
        replies
    } else {
        without_unsent(replies.drop_last(), checksum)
    }
}

/// Every reply that is a segment is written, or fails to be addressed, the
/// latest one first. None is passed over.
pub proof fn lemma_no_reply_is_passed_over(
    replies: Seq<Packet<'static>>,
    checksum: ChecksumCapabilities,
)
    requires
        replies.len() > 0,
        replies.last() is Tcp,
        replies.last().emittable(),
    ensures
        without_unsent(replies, checksum) == replies,
{
    if replies.last().bytes(checksum) is Ok {
        lemma_segment_is_sent(replies.last(), checksum);
    }
}

/// A reply that is not a segment holds nothing up: what is behind it is written as
/// if it were not there. With no replies, there is nothing to write.
pub proof fn lemma_unsent_replies_hold_nothing_up(
    replies: Seq<Packet<'static>>,
    checksum: ChecksumCapabilities,
)
    ensures
        without_unsent(replies.push(Packet::Other), checksum) == without_unsent(replies, checksum),
        without_unsent(Seq::<Packet<'static>>::empty(), checksum).len() == 0,
        without_unsent(replies, checksum).len() > 0 ==> !(without_unsent(
            replies,
            checksum,
        ).last() is Other),
        without_unsent(replies, checksum).is_prefix_of(replies),
    decreases replies.len(),
{
    assert(replies.push(Packet::Other).drop_last() =~= replies);
    assert(replies.push(Packet::Other).last() is Other);
    if replies.len() > 0 {
        lemma_unsent_replies_hold_nothing_up(replies.drop_last(), checksum);
    }
}

/// The state of an interface between two of its steps.
pub struct Interface<L> {
    sockets: SocketPool<L>,
    capabilities: DeviceCapabilities,
    /// Answers to incoming segments, the next one to be written last.
    ingress_replies: Vec<Packet<'static>>,
    /// The connection that is to have the next turn to send.
    next_poll: Option<SocketHandle>,
    /// The buffer for the next packet, unless it is in use.
    writing: Option<Vec<u8>>,
}

impl<L> Interface<L> {
    /// The connections and their deadlines.
    pub closed spec fn pool(self) -> SocketPool<L> {
        self.sockets
    }

    /// What is known of the device.
    pub closed spec fn device(self) -> DeviceCapabilities {
        self.capabilities
    }

    /// Answers to incoming segments, the next one to be written last.
    pub closed spec fn replies(self) -> Seq<Packet<'static>> {
        self.ingress_replies@
    }

    /// The connection that is to have the next turn to send.
    pub closed spec fn upcoming(self) -> Option<SocketHandle> {
        self.next_poll
    }

    /// A write is under way, or a connection has its turn to fill the buffer.
    pub closed spec fn busy(self) -> bool {
        self.writing is None
    }

    /// Replies can be written out, and the buffer for the next packet is empty.
    pub closed spec fn wf(self) -> bool {
        &&& self.sockets.wf()
        &&& self.writing is Some ==> self.writing->Some_0@.len() == 0
        &&& forall|i: int|
            0 <= i < self.ingress_replies@.len() ==> (
            #[trigger] self.ingress_replies@[i]).emittable()
    }

    /// An interface without connections. Closed halves and updates of
    /// deadlines come in at the two ends of channels that it returns.
    pub fn new(capabilities: DeviceCapabilities) -> (r: (Interface<L>, CloseReceiver, PollReceiver))
        ensures
            r.0.wf(),
            r.0.pool().wf(),
            r.0.pool().connections() == Map::<AddrPair, Connection<L>>::empty(),
            r.0.pool().deadlines() == Map::<AddrPair, Instant>::empty(),
            r.0.pool().device() == capabilities,
            r.0.pool().started() == r.0.pool().origin(),
            call_ensures(Instant::now, (), r.0.pool().started()),
            r.0.pool().close_channel() == closes_come_from(r.1),
            r.0.pool().update_channel() == updates_come_from(r.2),
            r.0.device() == capabilities,
            r.0.replies().len() == 0,
            r.0.upcoming() is None,
            !r.0.busy(),
    {
        let clock = Clock::new();
        let (shutdown_builder, closing) = shutdown_channel();
        let (queue, queue_sender, poll_recv) = DispatchQueue::new(clock);
        let sockets = SocketPool::new(queue_sender, shutdown_builder, capabilities, queue, clock);
        let interface = Interface {
            sockets,
            capabilities,
            ingress_replies: Vec::new(),
            next_poll: None,
            writing: Some(Vec::new()),
        };
        (interface, closing, poll_recv)
    }

    /// Lends out the connections and their deadlines.
    pub fn sockets(&mut self) -> (r: &mut SocketPool<L>)
        requires
            old(self).wf(),
        ensures
            r.wf(),
            *r == old(self).pool(),
            *final(r) == final(self).pool(),
            final(r).wf() ==> final(self).wf(),
            final(self).device() == old(self).device(),
            final(self).replies() == old(self).replies(),
            final(self).upcoming() == old(self).upcoming(),
            final(self).busy() == old(self).busy(),
    {
        &mut self.sockets
    }

    /// Process incoming packet: what it says, if it is a segment.
    pub fn process<'a>(checksum_caps: &ChecksumCapabilities, packet: &'a [u8]) -> (r: Result<
        Option<(IpRepr, TcpRepr<'a>)>,
        StackError,
    >)
        ensures
            r is Ok <==> ingress(*checksum_caps, packet@) is Ok,
            r is Err ==> r->Err_0 == ingress(*checksum_caps, packet@)->Err_0,
            r is Ok ==> match r->Ok_0 {
                Some((ip, tcp)) => {
                    &&& ingress(*checksum_caps, packet@)->Ok_0 == Some((ip, tcp@))
                    &&& !(ip is Unspecified)
                    &&& header_fields(ip_body(packet@), tcp@)
                },
                None => ingress(*checksum_caps, packet@)->Ok_0 is None,
            },
    {
        if packet.len() > 0 && packet[0] / 16 == 6 {
            Self::process_ipv6(checksum_caps, packet)
        } else {
            Self::process_ipv4(checksum_caps, packet)
        }
    }

    /// Process incoming ipv4 packet.
    fn process_ipv4<'a>(checksum_caps: &ChecksumCapabilities, payload: &'a [u8]) -> (r: Result<
        Option<(IpRepr, TcpRepr<'a>)>,
        StackError,
    >)
        requires
            !is_ipv6(payload@),
        ensures
            r is Ok <==> ingress(*checksum_caps, payload@) is Ok,
            r is Err ==> r->Err_0 == ingress(*checksum_caps, payload@)->Err_0,
            r is Ok ==> match r->Ok_0 {
                Some((ip, tcp)) => {
                    &&& ingress(*checksum_caps, payload@)->Ok_0 == Some((ip, tcp@))
                    &&& ip is Ipv4
                    &&& header_fields(ipv4_body(payload@), tcp@)
                },
                None => ingress(*checksum_caps, payload@)->Ok_0 is None,
            },
    {
        if let Err(error) = ipv4_check(payload) {
            return Err(stack_error(error));
        }
        let ipv4_repr = match ipv4_parse(payload, checksum_caps.ipv4) {
            Ok(ipv4_repr) => ipv4_repr,
            Err(error) => return Err(stack_error(error)),
        };
        if !is_unicast_v4(ipv4_repr.src_addr) {
            // Discard packets with non-unicast source addresses.
            return Err(StackError::Malformed);
        }
        let ip_repr = IpRepr::Ipv4(ipv4_repr);
        let ip_payload = ipv4_payload(payload);
        if ipv4_repr.protocol == PROTOCOL_TCP {
            match Self::process_tcp(checksum_caps, ip_repr, ip_payload) {
                Ok(tcp_repr) => Ok(Some((ip_repr, tcp_repr))),
                Err(error) => Err(error),
            }
        } else {
            Ok(None)
        }
    }

    /// Process incoming ipv6 packet. Extension headers are not looked into.
    fn process_ipv6<'a>(checksum_caps: &ChecksumCapabilities, payload: &'a [u8]) -> (r: Result<
        Option<(IpRepr, TcpRepr<'a>)>,
        StackError,
    >)
        requires
            is_ipv6(payload@),
        ensures
            r is Ok <==> ingress(*checksum_caps, payload@) is Ok,
            r is Err ==> r->Err_0 == ingress(*checksum_caps, payload@)->Err_0,
            r is Ok ==> match r->Ok_0 {
                Some((ip, tcp)) => {
                    &&& ingress(*checksum_caps, payload@)->Ok_0 == Some((ip, tcp@))
                    &&& ip is Ipv6
                    &&& header_fields(ipv6_body(payload@), tcp@)
                },
                None => ingress(*checksum_caps, payload@)->Ok_0 is None,
            },
    {
        if let Err(error) = ipv6_check(payload) {
            return Err(stack_error(error));
        }
        let ipv6_repr = match ipv6_parse(payload) {
            Ok(ipv6_repr) => ipv6_repr,
            Err(error) => return Err(stack_error(error)),
        };
        if !is_unicast_v6(ipv6_repr.src_addr) {
            // Discard packets with non-unicast source addresses.
            return Err(StackError::Malformed);
        }
        let ip_repr = IpRepr::Ipv6(ipv6_repr);
        let ip_payload = ipv6_payload(payload);
        if ipv6_repr.next_header == PROTOCOL_TCP {
            match Self::process_tcp(checksum_caps, ip_repr, ip_payload) {
                Ok(tcp_repr) => Ok(Some((ip_repr, tcp_repr))),
                Err(error) => Err(error),
            }
        } else {
            Ok(None)
        }
    }

    /// Process incoming tcp packet.
    fn process_tcp<'a>(
        checksum_caps: &ChecksumCapabilities,
        ip_repr: IpRepr,
        ip_payload: &'a [u8],
    ) -> (r: Result<TcpRepr<'a>, StackError>)
        requires
            ip_payload@.len() <= MAX_SEGMENT_LEN,
            same_family(ip_repr.source(), ip_repr.destination()),
        ensures
            r is Ok <==> tcp_ingress(*checksum_caps, ip_repr, ip_payload@) is Ok,
            r is Ok ==> r->Ok_0@ == tcp_ingress(*checksum_caps, ip_repr, ip_payload@)->Ok_0,
            r is Err ==> r->Err_0 == tcp_ingress(*checksum_caps, ip_repr, ip_payload@)->Err_0,
            r is Ok ==> header_fields(ip_payload@, r->Ok_0@),
    {
        if let Err(error) = tcp_check(ip_payload) {
            return Err(stack_error(error));
        }
        let src_addr = smol_address(ip_repr.src_addr());
        let dst_addr = smol_address(ip_repr.dst_addr());
        match tcp_parse(ip_payload, &src_addr, &dst_addr, checksum_caps.tcp) {
            Ok(tcp_repr) => Ok(tcp_repr),
            Err(error) => Err(stack_error(error)),
        }
    }

    /// Takes note of what came of an incoming packet: an answer is to be
    /// written. Returns an error that is worth a warning: one other than that
    /// the packet was dropped.
    pub fn processed(&mut self, outcome: Result<Reply, StackError>) -> (r: Option<StackError>)
        requires
            old(self).wf(),
            outcome is Ok && outcome->Ok_0 is Some ==> Packet::Tcp(
                outcome->Ok_0->Some_0.0,
                outcome->Ok_0->Some_0.1,
            ).emittable(),
        ensures
            final(self).wf(),
            final(self).pool() == old(self).pool(),
            final(self).device() == old(self).device(),
            final(self).upcoming() == old(self).upcoming(),
            final(self).busy() == old(self).busy(),
            match outcome {
                Ok(Some((ip, tcp))) => r is None
                    && final(self).replies() == old(self).replies().push(Packet::Tcp(ip, tcp)),
                Ok(None) => r is None && final(self).replies() == old(self).replies(),
                Err(error) => final(self).replies() == old(self).replies() && r == (if error
                    == StackError::Dropped {
                    None
                } else {
                    Some(error)
                }),
            },
    {
        match outcome {
            Ok(reply) => {
                if let Some((ip_repr, tcp_repr)) = reply {
                    self.ingress_replies.push(Packet::Tcp(ip_repr, tcp_repr));
                }
                None
            },
            Err(error) => if error != StackError::Dropped {
                Some(error)
            } else {
                None
            },
        }
    }

    /// Decides what to write next. The latest reply comes first, then the
    /// connection whose turn it is.
    pub fn next_write(&mut self) -> (r: Turn)
        requires
            old(self).wf(),
        ensures
            final(self).wf(),
            final(self).pool() == old(self).pool(),
            final(self).device() == old(self).device(),
            old(self).busy() ==> r is Busy && *final(self) == *old(self),
            !old(self).busy() ==> {
                let checksum = old(self).device().checksum;
                let left = without_unsent(old(self).replies(), checksum);
                if left.len() > 0 {
                    &&& final(self).replies() == left.drop_last()
                    &&& final(self).upcoming() == old(self).upcoming()
                    &&& match left.last().bytes(checksum) {
                        Ok(bytes) => r is Write && r->Write_0@ == bytes && final(self).busy(),
                        Err(error) => r == Turn::Failed(error) && !final(self).busy(),
                    }
                } else {
                    &&& final(self).replies().len() == 0
                    &&& final(self).upcoming() is None
                    &&& match old(self).upcoming() {
                        Some(addr) => r is Dispatch && r->Dispatch_0 == addr
                            && r->Dispatch_1@.len() == 0 && final(self).busy(),
                        None => r is Idle && !final(self).busy(),
                    }
                }
            },
    {
        let mut write_buf = match self.writing.take() {
            Some(write_buf) => write_buf,
            None => return Turn::Busy,
        };
        let ghost checksum = self.capabilities.checksum;
        while self.ingress_replies.len() > 0
            invariant
                !old(self).busy(),
                self.sockets == old(self).sockets,
                self.sockets.wf(),
                self.capabilities == old(self).capabilities,
                self.next_poll == old(self).next_poll,
                self.writing is None,
                checksum == self.capabilities.checksum,
                write_buf@.len() == 0,
                forall|i: int|
                    0 <= i < self.ingress_replies@.len() ==> (
                    #[trigger] self.ingress_replies@[i]).emittable(),
                without_unsent(self.ingress_replies@, checksum) == without_unsent(
                    old(self).ingress_replies@,
                    checksum,
                ),
            decreases self.ingress_replies@.len(),
        {
            let ghost before = self.ingress_replies@;
            let packet = self.ingress_replies.pop().unwrap();
            assert(self.ingress_replies@ =~= before.drop_last());
            assert(packet == before.last() && packet.emittable());
            if let Err(error) = packet_to_bytes(
                &packet,
                &mut write_buf,
                &self.capabilities.checksum,
            ) {
                self.writing = Some(write_buf);
                return Turn::Failed(error);
            }
            if !write_buf.is_empty() {
                return Turn::Write(write_buf);
            }
        }
        if let Some(addr) = self.next_poll.take() {
            return Turn::Dispatch(addr, write_buf);
        }
        self.writing = Some(write_buf);
        Turn::Idle
    }

    /// Goes on after a connection has had its turn with the buffer.
    pub fn dispatched(&mut self, write_buf: Vec<u8>) -> (r: Turn)
        requires
            old(self).wf(),
            old(self).busy(),
        ensures
            final(self).wf(),
            final(self).pool() == old(self).pool(),
            final(self).device() == old(self).device(),
            final(self).replies() == old(self).replies(),
            final(self).upcoming() == old(self).upcoming(),
            write_buf@.len() > 0 ==> r == Turn::Write(write_buf) && final(self).busy(),
            write_buf@.len() == 0 ==> r is Idle && !final(self).busy(),
    {
        if !write_buf.is_empty() {
            return Turn::Write(write_buf);
        }
        self.writing = Some(write_buf);
        Turn::Idle
    }

    /// Takes the buffer back once its bytes are written.
    pub fn written(&mut self, write_buf: Vec<u8>)
        requires
            old(self).wf(),
            old(self).busy(),
        ensures
            final(self).wf(),
            final(self).pool() == old(self).pool(),
            final(self).device() == old(self).device(),
            final(self).replies() == old(self).replies(),
            final(self).upcoming() == old(self).upcoming(),
            !final(self).busy(),
    {
        let mut write_buf = write_buf;
        write_buf.clear();
        self.writing = Some(write_buf);
    }

    /// Whether the interface is to wait for a deadline: not while a connection
    /// waits for its turn.
    pub fn wants_expiry(&self) -> (r: bool)
        ensures
            r == (self.upcoming() is None),
    {
        self.next_poll.is_none()
    }

    /// Gives the next turn to a connection whose deadline has come.
    pub fn expired(&mut self, cx: &mut Context<'_>) -> (r: bool)
        requires
            old(self).wf(),
            old(self).upcoming() is None,
        ensures
            final(self).wf(),
            final(self).pool().connections() == old(self).pool().connections(),
            final(self).pool().same_setup(old(self).pool()),
            final(self).device() == old(self).device(),
            final(self).replies() == old(self).replies(),
            final(self).busy() == old(self).busy(),
            r == final(self).upcoming() is Some,
            due_at_once(old(self).pool().deadlines(), old(self).pool().origin()) ==> r,
            old(self).pool().handed_out(*old(cx), final(self).upcoming()),
            match final(self).upcoming() {
                Some(addr) => old(self).pool().deadlines().contains_key(addr)
                    && final(self).pool().deadlines() == old(self).pool().deadlines().remove(addr),
                None => final(self).pool().deadlines() == old(self).pool().deadlines(),
            },
    {
        self.next_poll = self.sockets.expired(cx);
        self.next_poll.is_some()
    }
}

} // verus!
