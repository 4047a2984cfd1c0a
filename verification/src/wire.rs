//! Addresses, headers and segments as plain values.
use smoltcp::wire::IpAddress as SmolAddress;
use smoltcp::wire::IpRepr as SmolIpRepr;
use smoltcp::wire::Ipv4Repr as SmolIpv4Repr;
use smoltcp::wire::Ipv6Repr as SmolIpv6Repr;
use smoltcp::wire::TcpControl as SmolControl;
use smoltcp::wire::TcpRepr as SmolTcpRepr;
use smoltcp::wire::{Ipv4Address, Ipv6Address, TcpSeqNumber};
use smoltcp::Error as SmolError;
use vstd::prelude::*;

verus! {

/// The protocol number of TCP in an IP header.
pub const PROTOCOL_TCP: u8 = 6;

/// The length of an IPv4 header without options.
pub const IPV4_HEADER_LEN: usize = 20;

/// The length of an IPv6 header.
pub const IPV6_HEADER_LEN: usize = 40;

/// The most bytes over which a TCP checksum is computed.
pub const MAX_SEGMENT_LEN: usize = 131_072;

/// Why the stack did not do what it was asked to.
#[derive(Clone, Copy, Debug, PartialEq, Eq, Structural)]
pub enum StackError {
    /// A buffer is empty or full.
    Exhausted,
    /// Not permitted in the current state.
    Illegal,
    /// There is no address to send from or to.
    Unaddressable,
    /// There is no more to come.
    Finished,
    /// A packet ends before its fields do.
    Truncated,
    /// A packet has a wrong checksum.
    Checksum,
    /// A packet or address of an unknown kind.
    Unrecognized,
    /// A fragment of a larger packet.
    Fragmented,
    /// A packet contradicts itself.
    Malformed,
    /// A packet contradicts the state of its receiver.
    Dropped,
}

/// `smoltcp::Error`, which wrappers hand on.
#[verifier::external_type_specification]
#[verifier::external_body]
pub struct ExSmolError(SmolError);

/// `smoltcp::wire::IpAddress`, which wrappers hand on.
#[verifier::external_type_specification]
#[verifier::external_body]
pub struct ExSmolAddress(SmolAddress);

/// Which of its variants a `smoltcp::Error` is.
pub uninterp spec fn error_kind(e: SmolError) -> StackError;

/// Matches on `smoltcp::Error`: each of its ten variants has a namesake here.
#[verifier::external_body]
pub(crate) fn stack_error(e: SmolError) -> (r: StackError)
    ensures
        r == error_kind(e),
{
    match e {
        SmolError::Exhausted => StackError::Exhausted,
        SmolError::Illegal => StackError::Illegal,
        SmolError::Unaddressable => StackError::Unaddressable,
        SmolError::Finished => StackError::Finished,
        SmolError::Truncated => StackError::Truncated,
        SmolError::Checksum => StackError::Checksum,
        SmolError::Unrecognized => StackError::Unrecognized,
        SmolError::Fragmented => StackError::Fragmented,
        SmolError::Malformed => StackError::Malformed,
        _ => StackError::Dropped,
    }
}

/// An address of either family, as the number that its octets spell, or none.
#[derive(Clone, Copy, Debug, PartialEq, Eq, Hash, Structural)]
pub enum IpAddress {
    /// No address.
    Unspecified,
    /// Four octets, the first one the most significant.
    Ipv4(u32),
    /// Sixteen octets, the first one the most significant.
    Ipv6(u128),
}

/// The first octet is zero.
pub open spec fn v4_unspecified(a: u32) -> bool {
    a < 0x0100_0000
}

/// One host: not zero in the first octet, not multicast, not the broadcast address.
pub open spec fn v4_unicast(a: u32) -> bool {
    !v4_unspecified(a) && !(0xe000_0000 <= a < 0xf000_0000) && a != 0xffff_ffff
}

/// Whether an IPv4 address belongs to one host.
pub fn is_unicast_v4(a: u32) -> (r: bool)
    ensures
        r == v4_unicast(a),
{
    a >= 0x0100_0000 && !(0xe000_0000 <= a && a < 0xf000_0000) && a != 0xffff_ffff
}

/// One host: not multicast, and not the address that stands for none.
pub open spec fn v6_unicast(a: u128) -> bool {
    0 < a < 0xff00_0000_0000_0000_0000_0000_0000_0000
}

/// Whether an IPv6 address belongs to one host.
pub fn is_unicast_v6(a: u128) -> (r: bool)
    ensures
        r == v6_unicast(a),
{
    0 < a && a < 0xff00_0000_0000_0000_0000_0000_0000_0000
}

impl IpAddress {
    /// No address, or one that stands for none.
    pub open spec fn unspecified(self) -> bool {
        match self {
            IpAddress::Unspecified => true,
            IpAddress::Ipv4(a) => v4_unspecified(a),
            IpAddress::Ipv6(a) => a == 0,
        }
    }

    /// Whether this stands for no address.
    pub fn is_unspecified(&self) -> (r: bool)
        ensures
            r == self.unspecified(),
    {
        match *self {
            IpAddress::Unspecified => true,
            IpAddress::Ipv4(a) => a < 0x0100_0000,
            IpAddress::Ipv6(a) => a == 0,
        }
    }
}

/// Both addresses are given, in the same family.
pub open spec fn same_family(a: IpAddress, b: IpAddress) -> bool {
    (a is Ipv4 && b is Ipv4) || (a is Ipv6 && b is Ipv6)
}

/// The address that a `smoltcp::wire::IpAddress` is.
pub uninterp spec fn address_of(a: SmolAddress) -> IpAddress;

/// Builds a `smoltcp::wire::IpAddress` of the same variant and octets.
#[verifier::external_body]
pub(crate) fn smol_address(a: IpAddress) -> (r: SmolAddress)
    ensures
        address_of(r) == a,
{
    match a {
        IpAddress::Unspecified => SmolAddress::Unspecified,
        IpAddress::Ipv4(a) => SmolAddress::Ipv4(Ipv4Address(a.to_be_bytes())),
        IpAddress::Ipv6(a) => SmolAddress::Ipv6(Ipv6Address(a.to_be_bytes())),
    }
}

/// An address and a port.
#[derive(Clone, Copy, Debug, PartialEq, Eq, Structural)]
pub struct IpEndpoint {
    pub addr: IpAddress,
    pub port: u16,
}

impl IpEndpoint {
    /// Both the address and the port are given.
    pub open spec fn specified(self) -> bool {
        !self.addr.unspecified() && self.port != 0
    }

    /// Whether both the address and the port are given.
    pub fn is_specified(&self) -> (r: bool)
        ensures
            r == self.specified(),
    {
        !self.addr.is_unspecified() && self.port != 0
    }
}

/// When the checksum of a protocol matters.
#[derive(Clone, Copy, Debug, PartialEq, Eq, Structural)]
pub enum Checksum {
    /// It is verified on receipt and filled in on sending.
    Both,
    /// It is verified on receipt.
    Rx,
    /// It is filled in on sending.
    Tx,
    /// It is ignored.
    Neither,
}

impl Checksum {
    /// It is verified on receipt.
    pub open spec fn rx(self) -> bool {
        self is Both || self is Rx
    }

    /// It is filled in on sending.
    pub open spec fn tx(self) -> bool {
        self is Both || self is Tx
    }
}

/// What the device leaves to the stack.
#[derive(Clone, Copy, Debug, PartialEq, Eq, Structural)]
pub struct ChecksumCapabilities {
    pub ipv4: Checksum,
    pub tcp: Checksum,
}

/// What is known of the device.
#[derive(Clone, Copy, Debug, PartialEq, Eq, Structural)]
pub struct DeviceCapabilities {
    pub max_transmission_unit: usize,
    pub max_burst_size: Option<usize>,
    pub checksum: ChecksumCapabilities,
}

/// What an IPv4 header says.
#[derive(Clone, Copy, Debug, PartialEq, Eq, Structural)]
pub struct Ipv4Repr {
    pub src_addr: u32,
    pub dst_addr: u32,
    pub protocol: u8,
    pub payload_len: usize,
    pub hop_limit: u8,
}

/// What an IPv6 header says.
#[derive(Clone, Copy, Debug, PartialEq, Eq, Structural)]
pub struct Ipv6Repr {
    pub src_addr: u128,
    pub dst_addr: u128,
    pub next_header: u8,
    pub payload_len: usize,
    pub hop_limit: u8,
}

/// `smoltcp::wire::IpRepr`, which wrappers hand on.
#[verifier::external_type_specification]
#[verifier::external_body]
pub struct ExSmolIpRepr(SmolIpRepr);

/// The header that a `smoltcp::wire::IpRepr` describes.
pub uninterp spec fn header_of(ip: SmolIpRepr) -> IpRepr;

/// Builds a `smoltcp::wire::IpRepr` whose family is not settled.
#[verifier::external_body]
fn smol_unsettled(
    src_addr: &SmolAddress,
    dst_addr: &SmolAddress,
    protocol: u8,
    payload_len: usize,
    hop_limit: u8,
) -> (r: SmolIpRepr)
    ensures
        header_of(r) == (IpRepr::Unspecified {
            src_addr: address_of(*src_addr),
            dst_addr: address_of(*dst_addr),
            protocol,
            payload_len,
            hop_limit,
        }),
{
    let (src_addr, dst_addr, protocol) = (*src_addr, *dst_addr, protocol.into());
    SmolIpRepr::Unspecified { src_addr, dst_addr, protocol, payload_len, hop_limit }
}

/// Builds a `smoltcp::wire::IpRepr` of an IPv4 header.
#[verifier::external_body]
fn smol_ipv4(repr: &Ipv4Repr) -> (r: SmolIpRepr)
    ensures
        header_of(r) == IpRepr::Ipv4(*repr),
{
    SmolIpRepr::Ipv4(SmolIpv4Repr {
        src_addr: Ipv4Address(repr.src_addr.to_be_bytes()),
        dst_addr: Ipv4Address(repr.dst_addr.to_be_bytes()),
        protocol: repr.protocol.into(),
        payload_len: repr.payload_len,
        hop_limit: repr.hop_limit,
    })
}

/// Builds a `smoltcp::wire::IpRepr` of an IPv6 header.
#[verifier::external_body]
fn smol_ipv6(repr: &Ipv6Repr) -> (r: SmolIpRepr)
    ensures
        header_of(r) == IpRepr::Ipv6(*repr),
{
    SmolIpRepr::Ipv6(SmolIpv6Repr {
        src_addr: Ipv6Address(repr.src_addr.to_be_bytes()),
        dst_addr: Ipv6Address(repr.dst_addr.to_be_bytes()),
        next_header: repr.next_header.into(),
        payload_len: repr.payload_len,
        hop_limit: repr.hop_limit,
    })
}

/// Calls `IpRepr::lower` without source addresses to fall back on. It settles
/// the family of the header, and refuses one that has no source address.
#[verifier::external_body]
fn lower_header(ip: &SmolIpRepr) -> (r: Result<SmolIpRepr, SmolError>)
    requires
        header_of(*ip).lowerable(),
    ensures
        r is Ok <==> header_of(*ip).lowered() is Ok,
        r is Ok ==> header_of(r->Ok_0) == header_of(*ip).lowered()->Ok_0,
        r is Err ==> error_kind(r->Err_0) == header_of(*ip).lowered()->Err_0,
{
    ip.lower(&[])
}

/// Matches on `smoltcp::wire::IpRepr`: the header of a settled family, if it is
/// one.
#[verifier::external_body]
fn settled_header(ip: &SmolIpRepr) -> (r: Option<IpRepr>)
    ensures
        r is Some <==> !(header_of(*ip) is Unspecified),
        r is Some ==> r->Some_0 == header_of(*ip),
{
    match ip {
        SmolIpRepr::Ipv4(p) => Some(IpRepr::Ipv4(Ipv4Repr {
            src_addr: u32::from_be_bytes(p.src_addr.0), dst_addr: u32::from_be_bytes(p.dst_addr.0),
            protocol: p.protocol.into(), payload_len: p.payload_len, hop_limit: p.hop_limit,
        })),
        SmolIpRepr::Ipv6(p) => Some(IpRepr::Ipv6(Ipv6Repr {
            src_addr: u128::from_be_bytes(p.src_addr.0),
            dst_addr: u128::from_be_bytes(p.dst_addr.0),
            next_header: p.next_header.into(), payload_len: p.payload_len, hop_limit: p.hop_limit,
        })),
        _ => None,
    }
}

/// What an IP header says, or is to say once its family is settled.
#[derive(Clone, Copy, Debug, PartialEq, Eq, Structural)]
pub enum IpRepr {
    Unspecified {
        src_addr: IpAddress,
        dst_addr: IpAddress,
        protocol: u8,
        payload_len: usize,
        hop_limit: u8,
    },
    Ipv4(Ipv4Repr),
    Ipv6(Ipv6Repr),
}

impl IpRepr {
    /// Where the packet comes from.
    pub open spec fn source(self) -> IpAddress {
        match self {
            IpRepr::Unspecified { src_addr, .. } => src_addr,
            IpRepr::Ipv4(repr) => IpAddress::Ipv4(repr.src_addr),
            IpRepr::Ipv6(repr) => IpAddress::Ipv6(repr.src_addr),
        }
    }

    /// Where the packet goes.
    pub open spec fn destination(self) -> IpAddress {
        match self {
            IpRepr::Unspecified { dst_addr, .. } => dst_addr,
            IpRepr::Ipv4(repr) => IpAddress::Ipv4(repr.dst_addr),
            IpRepr::Ipv6(repr) => IpAddress::Ipv6(repr.dst_addr),
        }
    }

    /// The source address.
    pub fn src_addr(&self) -> (r: IpAddress)
        ensures
            r == self.source(),
    {
        match *self {
            IpRepr::Unspecified { src_addr, .. } => src_addr,
            IpRepr::Ipv4(repr) => IpAddress::Ipv4(repr.src_addr),
            IpRepr::Ipv6(repr) => IpAddress::Ipv6(repr.src_addr),
        }
    }

    /// The destination address.
    pub fn dst_addr(&self) -> (r: IpAddress)
        ensures
            r == self.destination(),
    {
        match *self {
            IpRepr::Unspecified { dst_addr, .. } => dst_addr,
            IpRepr::Ipv4(repr) => IpAddress::Ipv4(repr.dst_addr),
            IpRepr::Ipv6(repr) => IpAddress::Ipv6(repr.dst_addr),
        }
    }

    /// The destination settles a family, and the source is not of the other one.
    pub open spec fn lowerable(self) -> bool {
        match self {
            IpRepr::Unspecified { src_addr, dst_addr, .. } => !(dst_addr is Unspecified) && (
            src_addr is Unspecified || same_family(src_addr, dst_addr)),
            _ => true,
        }
    }

    /// The header in the family of its destination. With no source address to
    /// fall back on, a missing one is an error, and so is the placeholder in a
    /// header whose family was settled before.
    pub open spec fn lowered(self) -> Result<IpRepr, StackError> {
        match self {
            IpRepr::Unspecified { src_addr, dst_addr, protocol, payload_len, hop_limit } => match (
                src_addr,
                dst_addr,
            ) {
                (IpAddress::Ipv4(src_addr), IpAddress::Ipv4(dst_addr)) => Ok(
                    IpRepr::Ipv4(Ipv4Repr { src_addr, dst_addr, protocol, payload_len, hop_limit }),
                ),
                (IpAddress::Ipv6(src_addr), IpAddress::Ipv6(dst_addr)) => Ok(
                    IpRepr::Ipv6(
                        Ipv6Repr {
                            src_addr,
                            dst_addr,
                            next_header: protocol,
                            payload_len,
                            hop_limit,
                        },
                    ),
                ),
                _ => Err(StackError::Unaddressable),
            },
            _ => if self.source().unspecified() {
                Err(StackError::Unaddressable)
            } else {
                Ok(self)
            },
        }
    }

    /// Settles the family of the header.
    pub fn lower(&self) -> (r: Result<IpRepr, StackError>)
        requires
            self.lowerable(),
        ensures
            r == self.lowered(),
    {
        let header = match *self {
            IpRepr::Unspecified { src_addr, dst_addr, protocol, payload_len, hop_limit } => {
                let src_addr = smol_address(src_addr);
                let dst_addr = smol_address(dst_addr);
                smol_unsettled(&src_addr, &dst_addr, protocol, payload_len, hop_limit)
            },
            IpRepr::Ipv4(repr) => smol_ipv4(&repr),
            IpRepr::Ipv6(repr) => smol_ipv6(&repr),
        };
        match lower_header(&header) {
            Ok(lowered) => match settled_header(&lowered) {
                Some(ip_repr) => Ok(ip_repr),
                None => Err(StackError::Unaddressable),
            },
            Err(error) => Err(stack_error(error)),
        }
    }
}

/// An IPv4 address stands for none exactly if its first octet is zero, and for
/// one host exactly if its first octet is not zero and not one of the sixteen
/// multicast ones, unless all its bits are set.
pub proof fn lemma_first_octet_decides(a: u32)
    ensures
        v4_unspecified(a) <==> a / 0x100_0000 == 0,
        v4_unicast(a) <==> a / 0x100_0000 != 0 && a / 0x1000_0000 != 14 && a != u32::MAX,
        IpAddress::Ipv4(a).unspecified() <==> a / 0x100_0000 == 0,
{
}

/// An IPv6 address stands for none exactly if it is zero, and for one host
/// exactly if it is not zero and its first octet is not 255.
pub proof fn lemma_first_octet_of_sixteen_decides(a: u128)
    ensures
        v6_unicast(a) <==> a != 0 && a / 0x0100_0000_0000_0000_0000_0000_0000_0000 != 255,
        IpAddress::Ipv6(a).unspecified() <==> a == 0,
        IpAddress::Unspecified.unspecified(),
{
}

/// An end of a connection is given exactly if neither its address nor its port
/// is missing.
pub proof fn lemma_ends_have_address_and_port(end: IpEndpoint)
    ensures
        end.port == 0 ==> !end.specified(),
        end.addr.unspecified() ==> !end.specified(),
        end.port != 0 && !end.addr.unspecified() ==> end.specified(),
{
}

/// A checksum that matters both ways matters each way, one that matters one way
/// does not matter the other, and one that is ignored matters neither way.
pub proof fn lemma_checksums_matter_as_they_say()
    ensures
        Checksum::Both.rx() && Checksum::Both.tx(),
        Checksum::Rx.rx() && !Checksum::Rx.tx(),
        !Checksum::Tx.rx() && Checksum::Tx.tx(),
        !Checksum::Neither.rx() && !Checksum::Neither.tx(),
{
}

/// Settling the family of a header keeps where the packet comes from, where it
/// goes and what else the header says, leaves a settled family settled, and leaves
/// no family open. It fails exactly for want of a source.
pub proof fn lemma_settling_keeps_addresses(ip: IpRepr)
    requires
        ip.lowerable(),
    ensures
        ip is Unspecified ==> (ip.lowered() is Err <==> ip.source() is Unspecified),
        !(ip is Unspecified) ==> (ip.lowered() is Err <==> ip.source().unspecified()),
        ip.lowered() is Err ==> ip.lowered()->Err_0 == StackError::Unaddressable,
        ip.lowered() matches Ok(settled) ==> {
            &&& settled.source() == ip.source()
            &&& settled.destination() == ip.destination()
            &&& same_family(settled.source(), settled.destination())
            &&& settled is Ipv4 <==> ip.destination() is Ipv4
            &&& settled is Ipv6 <==> ip.destination() is Ipv6
            &&& !(ip is Unspecified) ==> settled == ip
        },
        ip matches IpRepr::Unspecified { protocol, payload_len, hop_limit, .. } ==> {
            match ip.lowered() {
                Ok(IpRepr::Ipv4(repr)) => repr.protocol == protocol && repr.payload_len
                    == payload_len && repr.hop_limit == hop_limit,
                Ok(IpRepr::Ipv6(repr)) => repr.next_header == protocol && repr.payload_len
                    == payload_len && repr.hop_limit == hop_limit,
                Ok(IpRepr::Unspecified { .. }) => false,
                Err(_) => true,
            }
        },
{
}

/// A header whose family is not settled can be settled exactly if it has a
/// destination, and a source of the same family or none. Any other one can.
pub proof fn lemma_what_can_be_settled(ip: IpRepr)
    ensures
        !(ip is Unspecified) ==> ip.lowerable(),
        ip is Unspecified && ip.destination() is Unspecified ==> !ip.lowerable(),
        ip is Unspecified && ip.destination() is Ipv4 ==> (ip.lowerable() <==> !(
        ip.source() is Ipv6)),
        ip is Unspecified && ip.destination() is Ipv6 ==> (ip.lowerable() <==> !(
        ip.source() is Ipv4)),
{
}

/// A packet comes from the source that its header has and goes to the
/// destination that it has.
pub proof fn lemma_headers_say_where(v4: Ipv4Repr, v6: Ipv6Repr)
    ensures
        IpRepr::Ipv4(v4).source() == IpAddress::Ipv4(v4.src_addr),
        IpRepr::Ipv4(v4).destination() == IpAddress::Ipv4(v4.dst_addr),
        IpRepr::Ipv6(v6).source() == IpAddress::Ipv6(v6.src_addr),
        IpRepr::Ipv6(v6).destination() == IpAddress::Ipv6(v6.dst_addr),
{
}

/// The flag that decides what a segment is for.
#[derive(Clone, Copy, Debug, PartialEq, Eq, Structural)]
pub enum TcpControl {
    /// No flag.
    Plain,
    Psh,
    Syn,
    Fin,
    Rst,
}

/// What a TCP segment says.
#[derive(Clone, Copy, Debug)]
pub struct TcpRepr<'a> {
    pub src_port: u16,
    pub dst_port: u16,
    pub control: TcpControl,
    pub seq_number: i32,
    pub ack_number: Option<i32>,
    pub window_len: u16,
    pub window_scale: Option<u8>,
    pub max_seg_size: Option<u16>,
    pub sack_permitted: bool,
    pub sack_ranges: [Option<(u32, u32)>; 3],
    pub payload: &'a [u8],
}

/// A TCP segment, independent of where its payload is kept.
pub struct Segment {
    pub src_port: u16,
    pub dst_port: u16,
    pub control: TcpControl,
    pub seq_number: i32,
    pub ack_number: Option<i32>,
    pub window_len: u16,
    pub window_scale: Option<u8>,
    pub max_seg_size: Option<u16>,
    pub sack_permitted: bool,
    pub sack_ranges: Seq<Option<(u32, u32)>>,
    pub payload: Seq<u8>,
}

impl<'a> View for TcpRepr<'a> {
    type V = Segment;

    open spec fn view(&self) -> Segment {
        Segment {
            src_port: self.src_port,
            dst_port: self.dst_port,
            control: self.control,
            seq_number: self.seq_number,
            ack_number: self.ack_number,
            window_len: self.window_len,
            window_scale: self.window_scale,
            max_seg_size: self.max_seg_size,
            sack_permitted: self.sack_permitted,
            sack_ranges: self.sack_ranges@,
            payload: self.payload@,
        }
    }
}

/// One if there is something.
pub open spec fn one_if_some<T>(o: Option<T>) -> nat {
    if o is Some {
        1
    } else {
        0
    }
}

impl Segment {
    /// How many of the three places for a selective acknowledgement are taken.
    pub open spec fn sack_count(self) -> nat {
        one_if_some(self.sack_ranges[0]) + one_if_some(self.sack_ranges[1]) + one_if_some(
            self.sack_ranges[2],
        )
    }

    /// The bytes of the header before padding.
    pub open spec fn raw_header_len(self) -> nat {
        20 + 4 * one_if_some(self.max_seg_size) + 3 * one_if_some(self.window_scale) + (
        if self.sack_permitted {
            2nat
        } else {
            0
        }) + (if self.sack_count() > 0 {
            8 * self.sack_count() + 2
        } else {
            0
        })
    }

    /// The bytes of the header with its options, padded to a multiple of four.
    pub open spec fn header_len(self) -> nat {
        (self.raw_header_len() + 3) / 4 * 4
    }
}

/// Calls `TcpRepr::header_len`, which adds up the header and the options that
/// are set and rounds up to a multiple of four.
#[verifier::external_body]
fn smol_header_len(repr: &TcpRepr<'_>) -> (r: usize)
    ensures
        r == repr@.header_len(),
{
    let TcpRepr { src_port, dst_port, window_len, window_scale, max_seg_size, sack_permitted,
        sack_ranges, payload, seq_number, ack_number, .. } = *repr;
    let (seq_number, ack_number) = (TcpSeqNumber(seq_number), ack_number.map(TcpSeqNumber));
    let control = match repr.control {
        TcpControl::Plain => SmolControl::None, TcpControl::Psh => SmolControl::Psh,
        TcpControl::Syn => SmolControl::Syn, TcpControl::Fin => SmolControl::Fin,
        TcpControl::Rst => SmolControl::Rst,
    };
    SmolTcpRepr { src_port, dst_port, window_len, window_scale, max_seg_size, sack_permitted,
        sack_ranges, payload, seq_number, ack_number, control }.header_len()
}

impl<'a> TcpRepr<'a> {
    /// The length of the header with its options.
    pub fn header_len(&self) -> (r: usize)
        ensures
            r == self@.header_len(),
            r <= 60,
    {
        smol_header_len(self)
    }
}

} // verus!
