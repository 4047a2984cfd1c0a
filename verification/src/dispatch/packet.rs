//! The packets that are written to the device.
use crate::bytes::{
    fills, ipv4_emit, ipv4_header_bytes, ipv6_emit, ipv6_header_bytes, lemma_ipv4_header,
    lemma_ipv6_header, reads_back, tcp_emit, tcp_segment_bytes,
};
use crate::dispatch::{legible, lemma_written_packet_is_read, reads_as, tcp_ingress};
use crate::wire::{
    same_family, smol_address, ChecksumCapabilities, IpAddress, IpRepr, Segment, StackError,
    TcpRepr, IPV4_HEADER_LEN, IPV6_HEADER_LEN, MAX_SEGMENT_LEN,
};
use vstd::prelude::*;

verus! {

/// A packet to be sent.
#[derive(Clone, Copy, Debug)]
pub enum Packet<'a> {
    /// A segment with its header.
    Tcp(IpRepr, TcpRepr<'a>),
    /// Something that is not sent.
    Other,
}

/// The segment and the length that the header has for it go together.
pub open spec fn segment_fits(ip: IpRepr, segment: Segment) -> bool {
    match ip {
        IpRepr::Ipv4(repr) => segment.header_len() + segment.payload.len() <= repr.payload_len
            <= MAX_SEGMENT_LEN && repr.payload_len % 0x1_0000 <= 0xffff - IPV4_HEADER_LEN,
        IpRepr::Ipv6(repr) => segment.header_len() + segment.payload.len() <= repr.payload_len
            <= MAX_SEGMENT_LEN,
        IpRepr::Unspecified { .. } => false,
    }
}

/// The bytes of a segment with its header, whose family is settled.
#[verifier::opaque]
pub open spec fn packet_bytes(
    ip: IpRepr,
    segment: Segment,
    checksum: ChecksumCapabilities,
) -> Seq<u8> {
    match ip {
        IpRepr::Ipv4(repr) => ipv4_header_bytes(repr, checksum.ipv4.tx()) + tcp_segment_bytes(
            segment,
            ip.source(),
            ip.destination(),
            checksum.tcp.tx(),
            Seq::new(repr.payload_len as nat, |i: int| 0u8),
        ),
        IpRepr::Ipv6(repr) => ipv6_header_bytes(repr) + tcp_segment_bytes(
            segment,
            ip.source(),
            ip.destination(),
            checksum.tcp.tx(),
            Seq::new(repr.payload_len as nat, |i: int| 0u8),
        ),
        IpRepr::Unspecified { .. } => Seq::empty(),
    }
}

/// The length of a header whose family is settled.
pub open spec fn ip_header_len(ip: IpRepr) -> nat {
    match ip {
        IpRepr::Ipv4(_) => IPV4_HEADER_LEN as nat,
        IpRepr::Ipv6(_) => IPV6_HEADER_LEN as nat,
        IpRepr::Unspecified { .. } => 0,
    }
}

/// The length of what follows a header, by the header.
pub open spec fn ip_payload_len(ip: IpRepr) -> nat {
    match ip {
        IpRepr::Ipv4(repr) => repr.payload_len as nat,
        IpRepr::Ipv6(repr) => repr.payload_len as nat,
        IpRepr::Unspecified { payload_len, .. } => payload_len as nat,
    }
}

/// The length of a packet with this header, whose family is settled.
pub open spec fn packet_len(ip: IpRepr) -> nat {
    ip_header_len(ip) + ip_payload_len(ip)
}

/// The bytes behind the header read back as the segment, if it fills them and a
/// checksum that is verified was filled in.
pub open spec fn segment_reads_back(
    bytes: Seq<u8>,
    ip: IpRepr,
    segment: Segment,
    checksum: ChecksumCapabilities,
) -> bool {
    fills(segment, ip_payload_len(ip)) && (checksum.tcp.rx() ==> checksum.tcp.tx()) ==> reads_back(
        tcp_ingress(checksum, ip, bytes.skip(ip_header_len(ip) as int)),
        segment,
    )
}

impl<'a> Packet<'a> {
    /// The packet can be written out, or be refused for want of an address.
    pub open spec fn emittable(self) -> bool {
        match self {
            Packet::Tcp(ip, tcp) => ip.lowerable() && (ip.lowered() is Ok ==> segment_fits(
                ip.lowered()->Ok_0,
                tcp@,
            )),
            Packet::Other => true,
        }
    }

    /// The bytes of the packet, none for one that is not sent.
    pub open spec fn bytes(self, checksum: ChecksumCapabilities) -> Result<Seq<u8>, StackError> {
        match self {
            Packet::Tcp(ip, tcp) => match ip.lowered() {
                Ok(ip) => Ok(packet_bytes(ip, tcp@, checksum)),
                Err(error) => Err(error),
            },
            Packet::Other => Ok(Seq::empty()),
        }
    }

    /// Whether the packet can be written out, or be refused for want of an address.
    pub fn is_emittable(&self) -> (r: bool)
        ensures
            r == self.emittable(),
    {
        match self {
            Packet::Other => true,
            Packet::Tcp(ip, tcp) => {
                if let IpRepr::Unspecified { src_addr, dst_addr, .. } = *ip {
                    match (src_addr, dst_addr) {
                        (_, IpAddress::Unspecified) => return false,
                        (IpAddress::Ipv4(_), IpAddress::Ipv6(_)) => return false,
                        (IpAddress::Ipv6(_), IpAddress::Ipv4(_)) => return false,
                        _ => {},
                    }
                }
                match ip.lower() {
                    Err(_) => true,
                    Ok(IpRepr::Ipv4(repr)) => {
                        let room: usize = repr.payload_len;
                        let header: usize = tcp.header_len();
                        room <= MAX_SEGMENT_LEN && room % 0x1_0000 <= 0xffff - IPV4_HEADER_LEN
                            && header <= room && tcp.payload.len() <= room - header
                    },
                    Ok(IpRepr::Ipv6(repr)) => {
                        let room: usize = repr.payload_len;
                        let header: usize = tcp.header_len();
                        room <= MAX_SEGMENT_LEN && header <= room && tcp.payload.len() <= room
                            - header
                    },
                    Ok(IpRepr::Unspecified { .. }) => false,
                }
            },
        }
    }
}

/// A segment is never sent as no bytes at all: there is its header.
pub proof fn lemma_segment_is_sent(packet: Packet<'_>, checksum: ChecksumCapabilities)
    requires
        packet.emittable(),
        packet.bytes(checksum) is Ok,
    ensures
        packet is Tcp <==> packet.bytes(checksum)->Ok_0.len() > 0,
        packet is Tcp ==> packet.bytes(checksum)->Ok_0.len() >= IPV4_HEADER_LEN,
{
    if let Packet::Tcp(ip, tcp) = packet {
        reveal(packet_bytes);
        match ip.lowered()->Ok_0 {
            IpRepr::Ipv4(repr) => {
                lemma_ipv4_header(repr, checksum.ipv4.tx());
            },
            IpRepr::Ipv6(repr) => {
                lemma_ipv6_header(repr);
            },
            IpRepr::Unspecified { .. } => {},
        }
    }
}

/// A segment can be written out if its header has an address to send it from, one
/// to send it to, and as many bytes for it as it has, at most as many as the
/// length fields of a packet can say.
pub proof fn lemma_ordinary_segments_can_be_written(ip: IpRepr, tcp: TcpRepr<'_>)
    requires
        same_family(ip.source(), ip.destination()),
        tcp@.header_len() + tcp.payload@.len() == ip_payload_len(ip),
        ip_payload_len(ip) <= 65515,
    ensures
        Packet::Tcp(ip, tcp).emittable(),
        Packet::Other.emittable(),
{
}

/// A segment that has more bytes than its header has for it cannot be written
/// out, unless it is refused for want of an address.
pub proof fn lemma_segments_stay_in_their_room(
    packet: Packet<'_>,
    checksum: ChecksumCapabilities,
)
    requires
        packet.emittable(),
        packet.bytes(checksum) is Ok,
        packet is Tcp,
    ensures
        packet->Tcp_1@.header_len() + packet->Tcp_1.payload@.len() <= ip_payload_len(
            packet->Tcp_0,
        ) <= 131072,
{
}

/// What is written for a segment is a header of the family of its destination,
/// 20 bytes or 40, and behind it the segment between the two addresses of that
/// header, in as many bytes as the header has for it.
pub proof fn lemma_packet_is_header_and_segment(
    packet: Packet<'_>,
    checksum: ChecksumCapabilities,
)
    requires
        packet is Tcp,
        packet.emittable(),
        packet.bytes(checksum) is Ok,
    ensures
        ({
            let ip = packet->Tcp_0;
            let bytes = packet.bytes(checksum)->Ok_0;
            let header: int = if ip.destination() is Ipv4 {
                20
            } else {
                40
            };
            &&& bytes.len() >= header
            &&& bytes.skip(header) == tcp_segment_bytes(
                packet->Tcp_1@,
                ip.source(),
                ip.destination(),
                checksum.tcp is Both || checksum.tcp is Tx,
                Seq::new(ip_payload_len(ip), |i: int| 0u8),
            )
            &&& bytes.take(header) == match packet->Tcp_0.lowered()->Ok_0 {
                IpRepr::Ipv4(repr) => ipv4_header_bytes(
                    repr,
                    checksum.ipv4 is Both || checksum.ipv4 is Tx,
                ),
                IpRepr::Ipv6(repr) => ipv6_header_bytes(repr),
                IpRepr::Unspecified { .. } => Seq::empty(),
            }
        }),
{
    reveal(packet_bytes);
    let bytes = packet.bytes(checksum)->Ok_0;
    let ip = packet->Tcp_0;
    let segment = tcp_segment_bytes(
        packet->Tcp_1@,
        ip.source(),
        ip.destination(),
        checksum.tcp is Both || checksum.tcp is Tx,
        Seq::new(ip_payload_len(ip), |i: int| 0u8),
    );
    match ip.lowered()->Ok_0 {
        IpRepr::Ipv4(repr) => {
            lemma_ipv4_header(repr, checksum.ipv4.tx());
            assert(bytes.skip(20) =~= segment);
            assert(bytes.take(20) =~= ipv4_header_bytes(repr, checksum.ipv4.tx()));
        },
        IpRepr::Ipv6(repr) => {
            lemma_ipv6_header(repr);
            assert(bytes.skip(40) =~= segment);
            assert(bytes.take(40) =~= ipv6_header_bytes(repr));
        },
        IpRepr::Unspecified { .. } => {},
    }
}

/// What there is no source for is not written, and what is not a segment is
/// written as no bytes.
pub proof fn lemma_what_is_not_written(packet: Packet<'_>, checksum: ChecksumCapabilities)
    requires
        packet.emittable(),
    ensures
        packet is Other ==> packet.bytes(checksum) == Ok::<Seq<u8>, StackError>(Seq::empty()),
        packet is Tcp && packet->Tcp_0.source() is Unspecified ==> packet.bytes(checksum) == Err::<
            Seq<u8>,
            StackError,
        >(StackError::Unaddressable),
        packet is Tcp && !packet->Tcp_0.source().unspecified() ==> packet.bytes(checksum) is Ok,
{
}

/// Fills an empty buffer with the bytes of a segment and its header, whose
/// family is settled.
fn write_segment(
    ip_repr: &IpRepr,
    tcp_repr: &TcpRepr<'_>,
    buffer: &mut Vec<u8>,
    checksum_caps: &ChecksumCapabilities,
)
    requires
        old(buffer)@.len() == 0,
        segment_fits(*ip_repr, tcp_repr@),
        same_family(ip_repr.source(), ip_repr.destination()),
    ensures
        final(buffer)@ == packet_bytes(*ip_repr, tcp_repr@, *checksum_caps),
        final(buffer)@.len() == packet_len(*ip_repr),
        segment_reads_back(final(buffer)@, *ip_repr, tcp_repr@, *checksum_caps),
{
    proof {
        reveal(packet_bytes);
    }
    let src = smol_address(ip_repr.src_addr());
    let dst = smol_address(ip_repr.dst_addr());
    match ip_repr {
        IpRepr::Ipv4(repr) => {
            buffer.resize(IPV4_HEADER_LEN + repr.payload_len, 0);
            let (header, payload) = buffer.as_mut_slice().split_at_mut(IPV4_HEADER_LEN);
            ipv4_emit(repr, header, checksum_caps.ipv4);
            proof {
                lemma_ipv4_header(*repr, checksum_caps.ipv4.tx());
                assert(payload@ =~= Seq::new(repr.payload_len as nat, |i: int| 0u8));
            }
            tcp_emit(tcp_repr, payload, &src, &dst, checksum_caps.tcp);
            assert(buffer@.skip(IPV4_HEADER_LEN as int) =~= payload@);
        },
        IpRepr::Ipv6(repr) => {
            buffer.resize(IPV6_HEADER_LEN + repr.payload_len, 0);
            let (header, payload) = buffer.as_mut_slice().split_at_mut(IPV6_HEADER_LEN);
            ipv6_emit(repr, header);
            proof {
                lemma_ipv6_header(*repr);
                assert(payload@ =~= Seq::new(repr.payload_len as nat, |i: int| 0u8));
            }
            tcp_emit(tcp_repr, payload, &src, &dst, checksum_caps.tcp);
            assert(buffer@.skip(IPV6_HEADER_LEN as int) =~= payload@);
        },
        IpRepr::Unspecified { .. } => {},
    }
}

/// Fills an empty buffer with the bytes of a packet. A packet that cannot be
/// addressed leaves the buffer as it is. What is written reads back as what it
/// was written from.
pub fn packet_to_bytes(
    packet: &Packet<'_>,
    buffer: &mut Vec<u8>,
    checksum_caps: &ChecksumCapabilities,
) -> (r: Result<(), StackError>)
    requires
        old(buffer)@.len() == 0,
        packet.emittable(),
    ensures
        r is Ok <==> packet.bytes(*checksum_caps) is Ok,
        r is Ok ==> final(buffer)@ == packet.bytes(*checksum_caps)->Ok_0,
        r is Ok ==> match *packet {
            Packet::Tcp(ip, tcp) => {
                let ip = ip.lowered()->Ok_0;
                &&& final(buffer)@.len() == packet_len(ip)
                &&& segment_reads_back(final(buffer)@, ip, tcp@, *checksum_caps)
                &&& legible(ip, tcp@, *checksum_caps) ==> reads_as(
                    *checksum_caps,
                    final(buffer)@,
                    ip,
                    tcp@,
                )
            },
            Packet::Other => final(buffer)@.len() == 0,
        },
        r is Err ==> final(buffer)@ == old(buffer)@ && r->Err_0 == packet.bytes(
            *checksum_caps,
        )->Err_0,
{
    match packet {
        Packet::Tcp(ip_repr, tcp_repr) => {
            let ip_repr = match ip_repr.lower() {
                Ok(ip_repr) => ip_repr,
                Err(error) => return Err(error),
            };
            write_segment(&ip_repr, tcp_repr, buffer, checksum_caps);
            proof {
                if legible(ip_repr, tcp_repr@, *checksum_caps) {
                    lemma_written_packet_is_read(ip_repr, tcp_repr@, *checksum_caps);
                }
            }
        },
        Packet::Other => {},
    }
    Ok(())
}

/// These bytes are those of some segment with its header.
pub open spec fn one_packet(bytes: Seq<u8>, checksum: ChecksumCapabilities) -> bool {
    exists|ip: IpRepr, segment: Segment| #[trigger]
        segment_fits(ip, segment) && bytes == packet_bytes(ip, segment, checksum)
}

/// What counts as one packet starts with the header of an IPv4 or IPv6 packet, and
/// is as long as the header and what it has for the segment.
pub proof fn lemma_one_packet_has_its_header(bytes: Seq<u8>, checksum: ChecksumCapabilities)
    requires
        one_packet(bytes, checksum),
    ensures
        bytes.len() >= 20,
        bytes[0] == 0x45 || bytes[0] == 0x60,
        bytes[0] == 0x60 ==> bytes.len() >= 40,
{
    let (ip, segment) = choose|ip: IpRepr, segment: Segment| #[trigger]
        segment_fits(ip, segment) && bytes == packet_bytes(ip, segment, checksum);
    reveal(packet_bytes);
    match ip {
        IpRepr::Ipv4(repr) => {
            lemma_ipv4_header(repr, checksum.ipv4.tx());
        },
        IpRepr::Ipv6(repr) => {
            lemma_ipv6_header(repr);
        },
        IpRepr::Unspecified { .. } => {},
    }
}

/// The bytes of every segment that can be written out are one packet.
pub proof fn lemma_written_segment_is_one_packet(
    packet: Packet<'_>,
    checksum: ChecksumCapabilities,
)
    requires
        packet is Tcp,
        packet.emittable(),
        packet.bytes(checksum) is Ok,
    ensures
        one_packet(packet.bytes(checksum)->Ok_0, checksum),
{
    assert(segment_fits(packet->Tcp_0.lowered()->Ok_0, packet->Tcp_1@));
}

/// Where a socket puts the segment that it has a turn to send.
pub struct Emission {
    buffer: Vec<u8>,
    checksum_caps: ChecksumCapabilities,
}

impl Emission {
    /// There is nothing, or one packet.
    #[verifier::type_invariant]
    spec fn whole(self) -> bool {
        self.buffer@.len() == 0 || one_packet(self.buffer@, self.checksum_caps)
    }

    /// What was put there.
    pub closed spec fn bytes(self) -> Seq<u8> {
        self.buffer@
    }

    /// Which checksums are filled in.
    pub closed spec fn checksum(self) -> ChecksumCapabilities {
        self.checksum_caps
    }

    /// Room for a packet in an empty buffer.
    pub fn new(buffer: Vec<u8>, checksum_caps: ChecksumCapabilities) -> (r: Emission)
        requires
            buffer@.len() == 0,
        ensures
            r.bytes().len() == 0,
            r.checksum() == checksum_caps,
    {
        Emission { buffer, checksum_caps }
    }

    /// Whether there is nothing yet.
    pub fn is_empty(&self) -> (r: bool)
        ensures
            r == (self.bytes().len() == 0),
    {
        self.buffer.is_empty()
    }

    /// Serialises a segment, as [`packet_to_bytes`] does.
    pub fn emit(&mut self, ip_repr: IpRepr, tcp_repr: TcpRepr<'_>) -> (r: Result<(), StackError>)
        requires
            old(self).bytes().len() == 0,
            Packet::Tcp(ip_repr, tcp_repr).emittable(),
        ensures
            final(self).checksum() == old(self).checksum(),
            match Packet::Tcp(ip_repr, tcp_repr).bytes(old(self).checksum()) {
                Ok(bytes) => r is Ok && final(self).bytes() == bytes,
                Err(error) => r is Err && r->Err_0 == error && final(self).bytes().len() == 0,
            },
    {
        let mut buffer: Vec<u8> = Vec::new();
        std::mem::swap(&mut buffer, &mut self.buffer);
        let r = packet_to_bytes(
            &Packet::Tcp(ip_repr, tcp_repr),
            &mut buffer,
            &self.checksum_caps,
        );
        self.buffer = buffer;
        r
    }

    /// Gives back the buffer with the packet, if there is one.
    pub fn into_buffer(self) -> (r: Vec<u8>)
        ensures
            r@ == self.bytes(),
            r@.len() == 0 || one_packet(r@, self.checksum()),
    {
        proof {
            use_type_invariant(&self);
        }
        self.buffer
    }
}

} // verus!
