//! From the bytes of a packet to what they say, and back.
use crate::wire::{
    address_of, error_kind, same_family, Checksum, IpAddress, Ipv4Repr, Ipv6Repr, Segment,
    StackError, TcpControl, TcpRepr, IPV4_HEADER_LEN, IPV6_HEADER_LEN, MAX_SEGMENT_LEN,
};
use smoltcp::phy::Checksum as SmolChecksum;
use smoltcp::phy::ChecksumCapabilities as SmolCapabilities;
use smoltcp::wire::IpAddress as SmolAddress;
use smoltcp::wire::Ipv4Repr as SmolIpv4Repr;
use smoltcp::wire::Ipv6Repr as SmolIpv6Repr;
use smoltcp::wire::TcpControl as SmolControl;
use smoltcp::wire::TcpRepr as SmolTcpRepr;
use smoltcp::wire::{Ipv4Address, Ipv4Packet, Ipv6Address, Ipv6Packet, TcpPacket, TcpSeqNumber};
use smoltcp::Error as SmolError;
use vstd::prelude::*;

verus! {

/// The number that two bytes spell, the first one the most significant.
pub open spec fn be16(bytes: Seq<u8>, at: int) -> int {
    bytes[at] * 0x100 + bytes[at + 1]
}

/// The number that four bytes spell, the first one the most significant.
pub open spec fn be32(bytes: Seq<u8>, at: int) -> int {
    be16(bytes, at) * 0x1_0000 + be16(bytes, at + 2)
}

/// The byte of `n` that is worth `unit`.
pub open spec fn byte_of(n: int, unit: int) -> u8 {
    (n / unit % 0x100) as u8
}

/// The two lowest bytes of `n`, the most significant one first.
pub open spec fn two_bytes(n: int) -> Seq<u8> {
    seq![byte_of(n, 0x100), byte_of(n, 1)]
}

/// The four lowest bytes of `n`, the most significant one first.
pub open spec fn four_bytes(n: int) -> Seq<u8> {
    two_bytes(n / 0x1_0000) + two_bytes(n)
}

/// The sixteen lowest bytes of `n`, the most significant one first.
#[verifier::opaque]
pub open spec fn sixteen_bytes(n: int) -> Seq<u8> {
    four_bytes(n / 0x1_0000_0000_0000_0000_0000_0000) + four_bytes(
        n / 0x1_0000_0000_0000_0000,
    ) + four_bytes(n / 0x1_0000_0000) + four_bytes(n)
}

/// The length of an IPv4 header, by the header itself.
pub open spec fn ipv4_header_len(bytes: Seq<u8>) -> int {
    bytes[0] % 16 * 4
}

/// The length of an IPv4 packet, by its header.
pub open spec fn ipv4_total_len(bytes: Seq<u8>) -> int {
    be16(bytes, 2)
}

/// What lies between the end of the header and the end of the packet.
pub open spec fn ipv4_body(bytes: Seq<u8>) -> Seq<u8> {
    bytes.subrange(ipv4_header_len(bytes), ipv4_total_len(bytes))
}

/// What keeps bytes from being cut into an IPv4 header and a payload.
pub open spec fn ipv4_defect(bytes: Seq<u8>) -> Option<StackError> {
    if bytes.len() < 20 || bytes.len() < ipv4_header_len(bytes) {
        Some(StackError::Truncated)
    } else if ipv4_header_len(bytes) > ipv4_total_len(bytes) {
        Some(StackError::Malformed)
    } else if bytes.len() < ipv4_total_len(bytes) {
        Some(StackError::Truncated)
    } else {
        None
    }
}

/// The sum of the bytes, taken two at a time as one number each. An odd byte at
/// the end counts as the first of two.
pub open spec fn word_sum(bytes: Seq<u8>) -> int
    decreases bytes.len(),
{
    if bytes.len() == 0 {
        0
    } else if bytes.len() == 1 {
        bytes[0] * 0x100
    } else {
        be16(bytes, 0) + word_sum(bytes.skip(2))
    }
}

/// The sum that internet checksums rest on: what is carried out of sixteen bits
/// is added at the low end again.
pub open spec fn internet_sum(bytes: Seq<u8>) -> int {
    if word_sum(bytes) == 0 {
        0
    } else {
        (word_sum(bytes) - 1) % 0xffff + 1
    }
}

/// The header of an IPv4 packet has a correct checksum.
pub open spec fn ipv4_checksum_ok(bytes: Seq<u8>) -> bool {
    internet_sum(bytes.take(ipv4_header_len(bytes))) == 0xffff
}

/// What an IPv4 header says, or why the packet is refused.
pub open spec fn ipv4_parsed(bytes: Seq<u8>, checksum: Checksum) -> Result<Ipv4Repr, StackError> {
    if bytes[0] / 16 != 4 {
        Err(StackError::Malformed)
    } else if checksum.rx() && !ipv4_checksum_ok(bytes) {
        Err(StackError::Checksum)
    } else if be16(bytes, 6) % 0x4000 != 0 {
        Err(StackError::Fragmented)
    } else {
        Ok(
            Ipv4Repr {
                src_addr: be32(bytes, 12) as u32,
                dst_addr: be32(bytes, 16) as u32,
                protocol: bytes[9],
                payload_len: (ipv4_total_len(bytes) - ipv4_header_len(bytes)) as usize,
                hop_limit: bytes[8],
            },
        )
    }
}

/// Calls `Ipv4Packet::new_checked`, which compares the length of the buffer
/// with the two length fields of the header.
#[verifier::external_body]
pub(crate) fn ipv4_check(bytes: &[u8]) -> (r: Result<(), SmolError>)
    ensures
        r is Ok ==> ipv4_defect(bytes@) is None,
        r is Err ==> ipv4_defect(bytes@) == Some(error_kind(r->Err_0)),
{
    Ipv4Packet::new_checked(bytes).map(|_packet| ())
}

/// Calls `Ipv4Repr::parse`, which tests the version, the checksum where it is
/// to be verified, and that the packet is no fragment, in this order, and reads
/// the fields.
#[verifier::external_body]
pub(crate) fn ipv4_parse(bytes: &[u8], checksum: Checksum) -> (r: Result<Ipv4Repr, SmolError>)
    requires
        ipv4_defect(bytes@) is None,
    ensures
        r is Ok <==> ipv4_parsed(bytes@, checksum) is Ok,
        r is Ok ==> ipv4_parsed(bytes@, checksum)->Ok_0 == r->Ok_0,
        r is Err ==> ipv4_parsed(bytes@, checksum)->Err_0 == error_kind(r->Err_0),
{
    let mut caps = SmolCapabilities::ignored();
    caps.ipv4 = match checksum {
        Checksum::Both => SmolChecksum::Both,
        Checksum::Rx => SmolChecksum::Rx,
        Checksum::Tx => SmolChecksum::Tx,
        Checksum::Neither => SmolChecksum::None,
    };
    SmolIpv4Repr::parse(&Ipv4Packet::new_unchecked(bytes), &caps).map(|p| Ipv4Repr {
        src_addr: u32::from_be_bytes(p.src_addr.0),
        dst_addr: u32::from_be_bytes(p.dst_addr.0),
        protocol: p.protocol.into(),
        payload_len: p.payload_len,
        hop_limit: p.hop_limit,
    })
}

/// Calls `Ipv4Packet::payload`: what lies between the end of the header and
/// the end of the packet, by the length fields.
#[verifier::external_body]
pub(crate) fn ipv4_payload<'a>(bytes: &'a [u8]) -> (r: &'a [u8])
    requires
        ipv4_defect(bytes@) is None,
    ensures
        r@ == ipv4_body(bytes@),
{
    Ipv4Packet::new_unchecked(bytes).payload()
}

/// The number that sixteen bytes spell, the first one the most significant.
pub open spec fn be128(bytes: Seq<u8>, at: int) -> int {
    be32(bytes, at) * 0x1_0000_0000_0000_0000_0000_0000 + be32(bytes, at + 4)
        * 0x1_0000_0000_0000_0000 + be32(bytes, at + 8) * 0x1_0000_0000 + be32(bytes, at + 12)
}

/// What keeps bytes from being cut into an IPv6 header and a payload.
pub open spec fn ipv6_defect(bytes: Seq<u8>) -> Option<StackError> {
    if bytes.len() < 40 || bytes.len() < 40 + be16(bytes, 4) {
        Some(StackError::Truncated)
    } else {
        None
    }
}

/// What follows an IPv6 header, by its length field.
pub open spec fn ipv6_body(bytes: Seq<u8>) -> Seq<u8> {
    bytes.subrange(40, 40 + be16(bytes, 4))
}

/// What an IPv6 header says, or why the packet is refused.
pub open spec fn ipv6_parsed(bytes: Seq<u8>) -> Result<Ipv6Repr, StackError> {
    if bytes[0] / 16 != 6 {
        Err(StackError::Malformed)
    } else {
        Ok(
            Ipv6Repr {
                src_addr: be128(bytes, 8) as u128,
                dst_addr: be128(bytes, 24) as u128,
                next_header: bytes[6],
                payload_len: be16(bytes, 4) as usize,
                hop_limit: bytes[7],
            },
        )
    }
}

/// Calls `Ipv6Packet::new_checked`, which compares the length of the buffer
/// with that of a header and with the length field.
#[verifier::external_body]
pub(crate) fn ipv6_check(bytes: &[u8]) -> (r: Result<(), SmolError>)
    ensures
        r is Ok ==> ipv6_defect(bytes@) is None,
        r is Err ==> ipv6_defect(bytes@) == Some(error_kind(r->Err_0)),
{
    Ipv6Packet::new_checked(bytes).map(|_packet| ())
}

/// Calls `Ipv6Repr::parse`, which tests the version and reads the fields.
#[verifier::external_body]
pub(crate) fn ipv6_parse(bytes: &[u8]) -> (r: Result<Ipv6Repr, SmolError>)
    requires
        ipv6_defect(bytes@) is None,
    ensures
        r is Ok <==> ipv6_parsed(bytes@) is Ok,
        r is Ok ==> ipv6_parsed(bytes@)->Ok_0 == r->Ok_0,
        r is Err ==> ipv6_parsed(bytes@)->Err_0 == error_kind(r->Err_0),
{
    SmolIpv6Repr::parse(&Ipv6Packet::new_unchecked(bytes)).map(|p| Ipv6Repr {
        src_addr: u128::from_be_bytes(p.src_addr.0),
        dst_addr: u128::from_be_bytes(p.dst_addr.0),
        next_header: p.next_header.into(),
        payload_len: p.payload_len,
        hop_limit: p.hop_limit,
    })
}

/// Calls `Ipv6Packet::payload`: what follows the header, by the length field.
#[verifier::external_body]
pub(crate) fn ipv6_payload<'a>(bytes: &'a [u8]) -> (r: &'a [u8])
    requires
        ipv6_defect(bytes@) is None,
    ensures
        r@ == ipv6_body(bytes@),
{
    Ipv6Packet::new_unchecked(bytes).payload()
}

/// The length of a TCP header, by the header itself.
pub open spec fn tcp_header_len(bytes: Seq<u8>) -> int {
    bytes[12] / 16 * 4
}

/// What keeps bytes from being cut into a TCP header and a payload.
pub open spec fn tcp_defect(bytes: Seq<u8>) -> Option<StackError> {
    if bytes.len() < 20 || bytes.len() < tcp_header_len(bytes) {
        Some(StackError::Truncated)
    } else if tcp_header_len(bytes) < 20 {
        Some(StackError::Malformed)
    } else {
        None
    }
}

/// Calls `TcpPacket::new_checked`, which compares the length of the buffer and
/// the least length of a header with the length field of the header.
#[verifier::external_body]
pub(crate) fn tcp_check(bytes: &[u8]) -> (r: Result<(), SmolError>)
    ensures
        r is Ok ==> tcp_defect(bytes@) is None,
        r is Err ==> tcp_defect(bytes@) == Some(error_kind(r->Err_0)),
{
    TcpPacket::new_checked(bytes).map(|_packet| ())
}

/// What a TCP segment between two addresses says, or why it is refused: the
/// result of smoltcp's `TcpRepr::parse`, with the checksum verified or not.
pub uninterp spec fn tcp_parsed(
    bytes: Seq<u8>,
    src: IpAddress,
    dst: IpAddress,
    verify: bool,
) -> Result<Segment, StackError>;

/// The flag of a TCP header that is worth `unit` is set.
pub open spec fn tcp_flag(bytes: Seq<u8>, unit: int) -> bool {
    bytes[13] as int / unit % 2 == 1
}

/// The segment has the ports of the header, neither of them zero, what the flags
/// of the header say it is for, and what follows the header.
pub open spec fn header_fields(bytes: Seq<u8>, segment: Segment) -> bool {
    &&& segment.src_port == be16(bytes, 0) && segment.src_port != 0
    &&& segment.dst_port == be16(bytes, 2) && segment.dst_port != 0
    &&& segment.control is Fin <==> tcp_flag(bytes, 1)
    &&& segment.control is Syn <==> tcp_flag(bytes, 2)
    &&& segment.control is Rst <==> tcp_flag(bytes, 4)
    &&& segment.ack_number is Some <==> tcp_flag(bytes, 16)
    &&& segment.payload == bytes.skip(tcp_header_len(bytes))
}

/// Calls `TcpRepr::parse`. Its result is given a name. Beside it stand the
/// fields that lead a segment to its connection, and its payload.
#[verifier::external_body]
pub(crate) fn tcp_parse<'a>(
    bytes: &'a [u8],
    src: &SmolAddress,
    dst: &SmolAddress,
    checksum: Checksum,
) -> (r: Result<TcpRepr<'a>, SmolError>)
    requires
        tcp_defect(bytes@) is None,
        bytes@.len() <= MAX_SEGMENT_LEN,
        same_family(address_of(*src), address_of(*dst)),
    ensures
        r is Ok <==> tcp_parsed(
            bytes@,
            address_of(*src),
            address_of(*dst),
            checksum.rx(),
        ) is Ok,
        r is Ok ==> tcp_parsed(
            bytes@,
            address_of(*src),
            address_of(*dst),
            checksum.rx(),
        )->Ok_0 == r->Ok_0@,
        r is Err ==> tcp_parsed(
            bytes@,
            address_of(*src),
            address_of(*dst),
            checksum.rx(),
        )->Err_0 == error_kind(r->Err_0),
        r is Ok ==> header_fields(bytes@, r->Ok_0@),
{
    let mut caps = SmolCapabilities::ignored();
    caps.tcp = match checksum {
        Checksum::Both => SmolChecksum::Both, Checksum::Rx => SmolChecksum::Rx,
        Checksum::Tx => SmolChecksum::Tx, Checksum::Neither => SmolChecksum::None,
    };
    SmolTcpRepr::parse(&TcpPacket::new_unchecked(bytes), src, dst, &caps).map(|p| TcpRepr {
        src_port: p.src_port, dst_port: p.dst_port, seq_number: p.seq_number.0,
        ack_number: p.ack_number.map(|n| n.0), window_len: p.window_len,
        window_scale: p.window_scale, max_seg_size: p.max_seg_size, payload: p.payload,
        sack_permitted: p.sack_permitted, sack_ranges: p.sack_ranges, control: match p.control {
            SmolControl::None => TcpControl::Plain, SmolControl::Psh => TcpControl::Psh,
            SmolControl::Syn => TcpControl::Syn, SmolControl::Fin => TcpControl::Fin,
            SmolControl::Rst => TcpControl::Rst,
        } })
}

/// The bytes of an IPv4 header with the given checksum.
pub open spec fn ipv4_header(repr: Ipv4Repr, checksum: int) -> Seq<u8> {
    seq![0x45u8, 0u8] + two_bytes(20 + repr.payload_len % 0x1_0000) + seq![0u8, 0u8, 0x40u8, 0u8]
        + seq![repr.hop_limit, repr.protocol] + two_bytes(checksum) + four_bytes(
        repr.src_addr as int,
    ) + four_bytes(repr.dst_addr as int)
}

/// The bytes of an IPv4 header, its checksum filled in or left zero.
#[verifier::opaque]
pub open spec fn ipv4_header_bytes(repr: Ipv4Repr, fill: bool) -> Seq<u8> {
    ipv4_header(
        repr,
        if fill {
            0xffff - internet_sum(ipv4_header(repr, 0))
        } else {
            0
        },
    )
}

/// Sums of an even number of bytes add up.
proof fn lemma_word_sum_splits(a: Seq<u8>, b: Seq<u8>)
    requires
        a.len() % 2 == 0,
    ensures
        word_sum(a + b) == word_sum(a) + word_sum(b),
    decreases a.len(),
{
    if a.len() == 0 {
        assert(a + b =~= b);
    } else {
        lemma_word_sum_splits(a.skip(2), b);
        assert((a + b).skip(2) =~= a.skip(2) + b);
    }
}

/// Two bytes spell the number that they were taken from.
proof fn lemma_two_bytes(n: int)
    requires
        0 <= n < 0x1_0000,
    ensures
        two_bytes(n).len() == 2,
        be16(two_bytes(n), 0) == n,
        word_sum(two_bytes(n)) == n,
{
    assert(n / 0x100 < 0x100);
    assert(n / 0x100 * 0x100 + n % 0x100 == n);
    assert(two_bytes(n).skip(2).len() == 0);
    assert(word_sum(two_bytes(n).skip(2)) == 0);
}

/// Two bytes are those of the number without what they have no room for.
proof fn lemma_two_bytes_wrap(n: int)
    requires
        0 <= n,
    ensures
        two_bytes(n) == two_bytes(n % 0x1_0000),
{
    let m = n % 0x1_0000;
    assert(n / 0x100 % 0x100 == m / 0x100 % 0x100);
    assert(n % 0x100 == m % 0x100);
    assert(two_bytes(n) =~= two_bytes(m));
}

/// Four bytes spell the number that they were taken from.
proof fn lemma_four_bytes(n: int)
    requires
        0 <= n < 0x1_0000_0000,
    ensures
        four_bytes(n).len() == 4,
        be32(four_bytes(n), 0) == n,
{
    let high = two_bytes(n / 0x1_0000);
    let low = two_bytes(n % 0x1_0000);
    lemma_two_bytes(n / 0x1_0000);
    lemma_two_bytes(n % 0x1_0000);
    lemma_two_bytes_wrap(n);
    let all = four_bytes(n);
    assert(all[0] == high[0] && all[1] == high[1]);
    assert(all[2] == low[0] && all[3] == low[1]);
    assert(be16(all, 0) == n / 0x1_0000);
    assert(be16(all, 2) == n % 0x1_0000);
}

/// A sum of bytes is not negative.
proof fn lemma_word_sum_positive(bytes: Seq<u8>)
    ensures
        word_sum(bytes) >= 0,
        bytes.len() >= 2 ==> word_sum(bytes) >= be16(bytes, 0),
    decreases bytes.len(),
{
    if bytes.len() >= 2 {
        lemma_word_sum_positive(bytes.skip(2));
    }
}

/// A checksum that was filled in is a correct one.
proof fn lemma_filled_checksum(repr: Ipv4Repr)
    ensures
        internet_sum(ipv4_header_bytes(repr, true)) == 0xffff,
{
    reveal(ipv4_header_bytes);
    let zero = ipv4_header(repr, 0);
    let sum = internet_sum(zero);
    let full = ipv4_header(repr, 0xffff - sum);
    let before = zero.take(10);
    let after = zero.skip(12);
    lemma_word_sum_positive(zero);
    assert(zero =~= before + two_bytes(0) + after);
    assert(full =~= before + two_bytes(0xffff - sum) + after);
    lemma_two_bytes(0);
    lemma_two_bytes(0xffff - sum);
    lemma_word_sum_splits(before, two_bytes(0));
    lemma_word_sum_splits(before + two_bytes(0), after);
    lemma_word_sum_splits(before, two_bytes(0xffff - sum));
    lemma_word_sum_splits(before + two_bytes(0xffff - sum), after);
    assert(word_sum(full) == word_sum(zero) + 0xffff - sum);
    assert(zero[0] == 0x45u8);
    assert(word_sum(zero) > 0);
    assert((word_sum(full) - 1) % 0xffff == 0xfffe);
}

/// An IPv4 header has its twenty bytes, of which the first one says so.
pub proof fn lemma_ipv4_header(repr: Ipv4Repr, fill: bool)
    ensures
        ipv4_header_bytes(repr, fill).len() == IPV4_HEADER_LEN,
        ipv4_header_bytes(repr, fill)[0] == 0x45u8,
{
    reveal(ipv4_header_bytes);
}

/// The header that is written in front of a payload reads back as what it was
/// written from, and the payload as itself. The checksum is a correct one if it
/// was filled in.
pub proof fn lemma_ipv4_reads_back(
    repr: Ipv4Repr,
    fill: bool,
    checksum: Checksum,
    payload: Seq<u8>,
)
    requires
        payload.len() == repr.payload_len,
        repr.payload_len <= 0xffff - IPV4_HEADER_LEN,
        checksum.rx() ==> fill,
    ensures
        ({
            let bytes = ipv4_header_bytes(repr, fill) + payload;
            &&& ipv4_defect(bytes) is None
            &&& ipv4_parsed(bytes, checksum) == Ok::<Ipv4Repr, StackError>(repr)
            &&& ipv4_body(bytes) == payload
        }),
{
    reveal(ipv4_header_bytes);
    let header = ipv4_header_bytes(repr, fill);
    let bytes = header + payload;
    lemma_two_bytes(20 + repr.payload_len);
    lemma_four_bytes(repr.src_addr as int);
    lemma_four_bytes(repr.dst_addr as int);
    assert(header.len() == 20);
    assert(bytes[0] == 0x45u8);
    assert(be16(bytes, 2) == be16(two_bytes(20 + repr.payload_len), 0));
    assert(be16(bytes, 6) == 0x4000);
    assert(be32(bytes, 12) == be32(four_bytes(repr.src_addr as int), 0));
    assert(be32(bytes, 16) == be32(four_bytes(repr.dst_addr as int), 0));
    assert(bytes.take(20) =~= header);
    if fill {
        lemma_filled_checksum(repr);
    }
    assert(bytes.subrange(20, bytes.len() as int) =~= payload);
}

/// Calls `Ipv4Repr::emit`, which writes a header without options to the start
/// of the buffer, every byte of it.
#[verifier::external_body]
pub(crate) fn ipv4_emit(repr: &Ipv4Repr, buffer: &mut [u8], checksum: Checksum)
    requires
        old(buffer)@.len() >= IPV4_HEADER_LEN,
        repr.payload_len % 0x1_0000 <= 0xffff - IPV4_HEADER_LEN,
    ensures
        final(buffer)@ == ipv4_header_bytes(*repr, checksum.tx()) + old(buffer)@.skip(
            IPV4_HEADER_LEN as int,
        ),
{
    let mut caps = SmolCapabilities::ignored();
    caps.ipv4 = match checksum {
        Checksum::Both => SmolChecksum::Both, Checksum::Rx => SmolChecksum::Rx,
        Checksum::Tx => SmolChecksum::Tx, Checksum::Neither => SmolChecksum::None,
    };
    let repr = SmolIpv4Repr {
        src_addr: Ipv4Address(repr.src_addr.to_be_bytes()),
        dst_addr: Ipv4Address(repr.dst_addr.to_be_bytes()),
        protocol: repr.protocol.into(),
        payload_len: repr.payload_len,
        hop_limit: repr.hop_limit,
    };
    repr.emit(&mut Ipv4Packet::new_unchecked(buffer), &caps)
}

/// The bytes of an IPv6 header.
#[verifier::opaque]
pub open spec fn ipv6_header_bytes(repr: Ipv6Repr) -> Seq<u8> {
    seq![0x60u8, 0u8, 0u8, 0u8] + two_bytes(repr.payload_len as int) + seq![
        repr.next_header,
        repr.hop_limit,
    ] + sixteen_bytes(repr.src_addr as int) + sixteen_bytes(repr.dst_addr as int)
}

/// Cutting a number off above two parts leaves both parts as they are.
proof fn lemma_parts_stay(n: int)
    requires
        0 <= n,
    ensures
        n % 0x1_0000_0000 % 0x1_0000 == n % 0x1_0000,
        n % 0x1_0000_0000 / 0x1_0000 == n / 0x1_0000 % 0x1_0000,
        n % 0x1_0000_0000 / 0x1_0000 % 0x1_0000 == n / 0x1_0000 % 0x1_0000,
{
    let high = n / 0x1_0000_0000;
    let m = n % 0x1_0000_0000;
    assert(n == high * 0x1_0000_0000 + m);
    assert(n / 0x1_0000 == high * 0x1_0000 + m / 0x1_0000);
}

/// Four bytes are those of the number without what they have no room for.
proof fn lemma_four_bytes_wrap(n: int)
    requires
        0 <= n,
    ensures
        four_bytes(n) == four_bytes(n % 0x1_0000_0000),
{
    let m = n % 0x1_0000_0000;
    lemma_parts_stay(n);
    lemma_two_bytes_wrap(n);
    lemma_two_bytes_wrap(m);
    lemma_two_bytes_wrap(n / 0x1_0000);
    lemma_two_bytes_wrap(m / 0x1_0000);
}

/// A number is made up of its four parts of four bytes each.
proof fn lemma_four_parts(n: u128)
    ensures
        n / 0x1_0000_0000_0000_0000_0000_0000 < 0x1_0000_0000,
        n == n / 0x1_0000_0000_0000_0000_0000_0000 * 0x1_0000_0000_0000_0000_0000_0000 + n
            / 0x1_0000_0000_0000_0000 % 0x1_0000_0000 * 0x1_0000_0000_0000_0000 + n / 0x1_0000_0000
            % 0x1_0000_0000 * 0x1_0000_0000 + n % 0x1_0000_0000,
{
    let q: int = n as int / 0x1_0000_0000;
    let p: int = q / 0x1_0000_0000;
    assert(p == n as int / 0x1_0000_0000_0000_0000);
    assert(p / 0x1_0000_0000 == n as int / 0x1_0000_0000_0000_0000_0000_0000);
}

/// Where four bytes stand among others, they spell the same number.
proof fn lemma_be32_within(before: Seq<u8>, four: Seq<u8>, after: Seq<u8>)
    requires
        four.len() == 4,
    ensures
        be32(before + four + after, before.len() as int) == be32(four, 0),
{
    let all = before + four + after;
    let at = before.len() as int;
    assert(all[at] == four[0]);
    assert(all[at + 1] == four[1]);
    assert(all[at + 2] == four[2]);
    assert(all[at + 3] == four[3]);
}

/// Sixteen bytes spell the number that they were taken from.
proof fn lemma_sixteen_bytes(n: u128)
    ensures
        sixteen_bytes(n as int).len() == 16,
        be128(sixteen_bytes(n as int), 0) == n,
{
    let a = four_bytes(n as int / 0x1_0000_0000_0000_0000_0000_0000);
    let b = four_bytes(n as int / 0x1_0000_0000_0000_0000);
    let c = four_bytes(n as int / 0x1_0000_0000);
    let d = four_bytes(n as int);
    lemma_four_parts(n);
    lemma_four_bytes(n as int / 0x1_0000_0000_0000_0000_0000_0000);
    lemma_four_bytes(n as int / 0x1_0000_0000_0000_0000 % 0x1_0000_0000);
    lemma_four_bytes(n as int / 0x1_0000_0000 % 0x1_0000_0000);
    lemma_four_bytes(n as int % 0x1_0000_0000);
    lemma_four_bytes_wrap(n as int / 0x1_0000_0000_0000_0000);
    lemma_four_bytes_wrap(n as int / 0x1_0000_0000);
    lemma_four_bytes_wrap(n as int);
    reveal(sixteen_bytes);
    let all = sixteen_bytes(n as int);
    lemma_be32_within(Seq::empty(), a, b + c + d);
    lemma_be32_within(a, b, c + d);
    lemma_be32_within(a + b, c, d);
    lemma_be32_within(a + b + c, d, Seq::empty());
    assert(Seq::empty() + a + (b + c + d) =~= all);
    assert(a + b + (c + d) =~= all);
    assert(a + b + c + d + Seq::empty() =~= all);
}

/// Where sixteen bytes stand among others, they spell the same number.
proof fn lemma_be128_within(before: Seq<u8>, sixteen: Seq<u8>, after: Seq<u8>)
    requires
        sixteen.len() == 16,
    ensures
        be128(before + sixteen + after, before.len() as int) == be128(sixteen, 0),
{
    let all = before + sixteen + after;
    let at = before.len() as int;
    assert(forall|i: int| 0 <= i < 16 ==> all[at + i] == #[trigger] sixteen[i]);
    assert(be32(all, at) == be32(sixteen, 0));
    assert(be32(all, at + 4) == be32(sixteen, 4));
    assert(be32(all, at + 8) == be32(sixteen, 8));
    assert(be32(all, at + 12) == be32(sixteen, 12));
}

/// An IPv6 header has its forty bytes, of which the first one tells the version,
/// and the addresses have their places.
pub proof fn lemma_ipv6_header(repr: Ipv6Repr)
    ensures
        ipv6_header_bytes(repr).len() == IPV6_HEADER_LEN,
        ipv6_header_bytes(repr)[0] == 0x60u8,
        be128(ipv6_header_bytes(repr), 8) == repr.src_addr,
        be128(ipv6_header_bytes(repr), 24) == repr.dst_addr,
{
    reveal(ipv6_header_bytes);
    lemma_sixteen_bytes(repr.src_addr);
    lemma_sixteen_bytes(repr.dst_addr);
    let start = seq![0x60u8, 0u8, 0u8, 0u8] + two_bytes(repr.payload_len as int) + seq![
        repr.next_header,
        repr.hop_limit,
    ];
    let src = sixteen_bytes(repr.src_addr as int);
    let dst = sixteen_bytes(repr.dst_addr as int);
    lemma_be128_within(start, src, dst);
    lemma_be128_within(start + src, dst, Seq::empty());
    assert(start + src + dst + Seq::empty() =~= start + src + dst);
}

/// The IPv6 header that is written in front of a payload reads back as what it
/// was written from, and the payload as itself.
pub proof fn lemma_ipv6_reads_back(repr: Ipv6Repr, payload: Seq<u8>)
    requires
        payload.len() == repr.payload_len,
        repr.payload_len <= 0xffff,
    ensures
        ({
            let bytes = ipv6_header_bytes(repr) + payload;
            &&& ipv6_defect(bytes) is None
            &&& ipv6_parsed(bytes) == Ok::<Ipv6Repr, StackError>(repr)
            &&& ipv6_body(bytes) == payload
        }),
{
    let header = ipv6_header_bytes(repr);
    let bytes = header + payload;
    lemma_two_bytes(repr.payload_len as int);
    lemma_ipv6_header(repr);
    reveal(ipv6_header_bytes);
    assert(forall|i: int| 0 <= i < 40 ==> bytes[i] == #[trigger] header[i]);
    assert(be16(header, 4) == be16(two_bytes(repr.payload_len as int), 0));
    assert(be128(bytes, 8) == be128(header, 8));
    assert(be128(bytes, 24) == be128(header, 24));
    assert(bytes.subrange(40, bytes.len() as int) =~= payload);
}

/// Calls `Ipv6Repr::emit`, which writes a header to the start of the buffer,
/// every byte of it.
#[verifier::external_body]
pub(crate) fn ipv6_emit(repr: &Ipv6Repr, buffer: &mut [u8])
    requires
        old(buffer)@.len() >= IPV6_HEADER_LEN,
    ensures
        final(buffer)@ == ipv6_header_bytes(*repr) + old(buffer)@.skip(IPV6_HEADER_LEN as int),
{
    let repr = SmolIpv6Repr {
        src_addr: Ipv6Address(repr.src_addr.to_be_bytes()),
        dst_addr: Ipv6Address(repr.dst_addr.to_be_bytes()),
        next_header: repr.next_header.into(),
        payload_len: repr.payload_len,
        hop_limit: repr.hop_limit,
    };
    repr.emit(&mut Ipv6Packet::new_unchecked(buffer))
}

/// Both segments say the same, as far as acknowledgements of single ranges and
/// the scale of the window are left aside.
pub open spec fn same_segment(read: Segment, written: Segment) -> bool {
    &&& read.src_port == written.src_port
    &&& read.dst_port == written.dst_port
    &&& read.control == written.control
    &&& read.seq_number == written.seq_number
    &&& read.ack_number == written.ack_number
    &&& read.window_len == written.window_len
    &&& read.max_seg_size == written.max_seg_size
    &&& read.sack_permitted == written.sack_permitted
    &&& read.payload == written.payload
}

/// A segment was read, and it says the same as the one that was written.
pub open spec fn reads_back(read: Result<Segment, StackError>, written: Segment) -> bool {
    read is Ok && same_segment(read->Ok_0, written)
}

/// The segment has ports and fills `room` bytes.
pub open spec fn fills(segment: Segment, room: nat) -> bool {
    segment.src_port != 0 && segment.dst_port != 0 && segment.header_len() + segment.payload.len()
        == room
}

/// The bytes of a TCP segment between two addresses, its checksum filled in or
/// left zero, written over `room`: what smoltcp's `TcpRepr::emit` leaves there.
pub uninterp spec fn tcp_segment_bytes(
    segment: Segment,
    src: IpAddress,
    dst: IpAddress,
    fill: bool,
    room: Seq<u8>,
) -> Seq<u8>;

/// Calls `TcpRepr::emit`. What it leaves in the buffer, which keeps its length,
/// is given a name. It has the length field of its header, and a segment that
/// fills the buffer is what `TcpRepr::parse` reads there, with its checksum
/// verified if it was filled in.
#[verifier::external_body]
pub(crate) fn tcp_emit(
    repr: &TcpRepr<'_>,
    buffer: &mut [u8],
    src: &SmolAddress,
    dst: &SmolAddress,
    checksum: Checksum,
)
    requires
        repr@.header_len() + repr@.payload.len() <= old(buffer)@.len() <= MAX_SEGMENT_LEN,
        same_family(address_of(*src), address_of(*dst)),
    ensures
        final(buffer)@ == tcp_segment_bytes(
            repr@,
            address_of(*src),
            address_of(*dst),
            checksum.tx(),
            old(buffer)@,
        ),
        final(buffer)@.len() == old(buffer)@.len(),
        tcp_defect(final(buffer)@) is None,
        fills(repr@, old(buffer)@.len()) ==> reads_back(
            tcp_parsed(final(buffer)@, address_of(*src), address_of(*dst), false),
            repr@,
        ),
        fills(repr@, old(buffer)@.len()) && checksum.tx() ==> reads_back(
            tcp_parsed(final(buffer)@, address_of(*src), address_of(*dst), true),
            repr@,
        ),
{
    let mut caps = SmolCapabilities::ignored();
    caps.tcp = match checksum {
        Checksum::Both => SmolChecksum::Both, Checksum::Rx => SmolChecksum::Rx,
        Checksum::Tx => SmolChecksum::Tx, Checksum::Neither => SmolChecksum::None,
    };
    let control = match repr.control {
        TcpControl::Plain => SmolControl::None, TcpControl::Psh => SmolControl::Psh,
        TcpControl::Syn => SmolControl::Syn, TcpControl::Fin => SmolControl::Fin,
        TcpControl::Rst => SmolControl::Rst };
    let TcpRepr { src_port, dst_port, window_len, window_scale, max_seg_size, sack_permitted,
        sack_ranges, payload, seq_number, ack_number, .. } = *repr;
    let (seq_number, ack_number) = (TcpSeqNumber(seq_number), ack_number.map(TcpSeqNumber));
    SmolTcpRepr { src_port, dst_port, window_len, window_scale, max_seg_size, sack_permitted,
        sack_ranges, payload, seq_number, ack_number, control }
        .emit(&mut TcpPacket::new_unchecked(buffer), src, dst, &caps)
}

} // verus!
