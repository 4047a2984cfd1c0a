//! What an interface reads, and what it writes next.
use crate::bytes::{be128, be32};
use crate::dispatch::packet::{packet_to_bytes, Emission, Packet};
use crate::dispatch::{
    legible, lemma_no_reply_is_passed_over, reads_as, without_unsent, Interface, Turn,
};
use crate::sockets::{AddrPair, SocketPool};
use crate::stream::internal::Reply;
use crate::wire::{
    same_family, ChecksumCapabilities, DeviceCapabilities, IpAddress, IpRepr, StackError, TcpRepr,
};
use std::task::Context;
use vstd::prelude::*;

verus! {

/// What an incoming packet is read as has the addresses of its header and the ports
/// behind it, comes from one host and is TCP. A packet that is too short for a header
/// is refused.
pub proof fn lemma_packet_is_read_as_it_stands<L>(
    checksum: ChecksumCapabilities,
    packet: &[u8],
    r: Result<Option<(IpRepr, TcpRepr<'_>)>, StackError>,
)
    requires
        call_ensures(Interface::<L>::process, (&checksum, packet), r),
    ensures
        packet@.len() < 20 ==> r is Err && r->Err_0 == StackError::Truncated,
        r is Ok && r->Ok_0 is Some ==> {
            let (ip, segment) = r->Ok_0->Some_0;
            &&& packet@.len() >= 20
            &&& packet@[0] / 16 == 4 || packet@[0] / 16 == 6
            &&& segment.src_port != 0 && segment.dst_port != 0
            &&& packet@[0] / 16 == 4 ==> {
                &&& packet@[9] == 6
                &&& ip.source() == IpAddress::Ipv4(be32(packet@, 12) as u32)
                &&& ip.destination() == IpAddress::Ipv4(be32(packet@, 16) as u32)
                &&& !ip.source().unspecified()
            }
            &&& packet@[0] / 16 == 6 ==> {
                &&& packet@.len() >= 40
                &&& packet@[6] == 6
                &&& ip.source() == IpAddress::Ipv6(be128(packet@, 8) as u128)
                &&& ip.destination() == IpAddress::Ipv6(be128(packet@, 24) as u128)
                &&& !ip.source().unspecified()
            }
        },
        r is Ok && r->Ok_0 is None ==> packet@[9] != 6 || packet@[0] / 16 == 6,
{
}

/// An answer is put behind those that wait to be written. Nothing else that comes
/// of a packet adds one. A packet that was dropped is not worth a warning, and any
/// other failure is.
pub proof fn lemma_answers_wait_to_be_written<L>()
    ensures
        forall|
            interface: &mut Interface<L>,
            outcome: Result<Reply, StackError>,
            r: Option<StackError>,
        | #[trigger]
            call_ensures(Interface::<L>::processed, (interface, outcome), r) ==> {
                &&& match outcome {
                    Ok(Some((ip, segment))) => r is None && final(interface).replies().len()
                        == interface.replies().len() + 1 && final(interface).replies().last()
                        == Packet::Tcp(ip, segment) && final(interface).replies().drop_last()
                        =~= interface.replies(),
                    Ok(None) => r is None && final(interface).replies() == interface.replies(),
                    Err(StackError::Dropped) => r is None && final(interface).replies()
                        == interface.replies(),
                    Err(error) => r == Some(error) && final(interface).replies()
                        == interface.replies(),
                }
                &&& final(interface).pool() == interface.pool()
                &&& final(interface).upcoming() == interface.upcoming()
                &&& final(interface).busy() == interface.busy()
            },
{
}

/// As long as a write is under way nothing else is written. After that the latest
/// answer is, before anybody has a turn, and once there is none the connection whose
/// turn it is has it, once.
pub proof fn lemma_answers_are_written_first<L>()
    ensures
        forall|interface: &mut Interface<L>, r: Turn| #[trigger]
            call_ensures(Interface::<L>::next_write, (interface,), r) ==> {
                let replies = interface.replies();
                &&& interface.busy() ==> r is Busy && *final(interface) == *interface
                &&& !interface.busy() && replies.len() > 0 && replies.last() is Tcp
                    && replies.last().emittable() ==> {
                    &&& final(interface).replies() =~= replies.drop_last()
                    &&& final(interface).upcoming() == interface.upcoming()
                    &&& match replies.last().bytes(interface.device().checksum) {
                        Ok(bytes) => r is Write && r->Write_0@ == bytes && final(interface).busy(),
                        Err(error) => r == Turn::Failed(error) && !final(interface).busy(),
                    }
                }
                &&& !interface.busy() && replies.len() == 0 ==> {
                    &&& final(interface).replies().len() == 0
                    &&& final(interface).upcoming() is None
                    &&& match interface.upcoming() {
                        Some(addr) => r is Dispatch && r->Dispatch_0 == addr
                            && r->Dispatch_1@.len() == 0 && final(interface).busy(),
                        None => r is Idle && !final(interface).busy(),
                    }
                }
                &&& final(interface).pool() == interface.pool()
            },
{
    assert forall|interface: &mut Interface<L>, r: Turn| #[trigger]
        call_ensures(Interface::<L>::next_write, (interface,), r) && interface.replies().len() > 0
            && interface.replies().last() is Tcp
            && interface.replies().last().emittable() implies without_unsent(
        interface.replies(),
        interface.device().checksum,
    ) == interface.replies() by {
        lemma_no_reply_is_passed_over(
            interface.replies(),
            interface.device().checksum,
        );
    }
}

/// What a connection put into the buffer is written, and if that is nothing the
/// interface is free again, as it is once a write is finished.
pub proof fn lemma_turn_fills_the_buffer<L>()
    ensures
        forall|interface: &mut Interface<L>, buf: Vec<u8>, r: Turn| #[trigger]
            call_ensures(Interface::<L>::dispatched, (interface, buf), r) ==> {
                &&& buf@.len() > 0 ==> r == Turn::Write(buf) && final(interface).busy()
                &&& buf@.len() == 0 ==> r is Idle && !final(interface).busy()
                &&& final(interface).replies() == interface.replies()
                &&& final(interface).upcoming() == interface.upcoming()
                &&& final(interface).pool() == interface.pool()
            },
        forall|interface: &mut Interface<L>, buf: Vec<u8>| #[trigger]
            call_ensures(Interface::<L>::written, (interface, buf), ()) ==> {
                &&& !final(interface).busy()
                &&& final(interface).replies() == interface.replies()
                &&& final(interface).upcoming() == interface.upcoming()
                &&& final(interface).pool() == interface.pool()
            },
{
}

/// A connection whose deadline comes has the next turn, and the deadline is gone.
/// The interface waits for one exactly while no connection waits for its turn.
pub proof fn lemma_deadline_gives_the_next_turn<L>()
    ensures
        forall|interface: &Interface<L>, r: bool| #[trigger]
            call_ensures(Interface::<L>::wants_expiry, (interface,), r) ==> r
                == interface.upcoming() is None,
        forall|interface: &mut Interface<L>, cx: &mut Context<'_>, r: bool| #[trigger]
            call_ensures(Interface::<L>::expired, (interface, cx), r) ==> {
                let before = interface.pool();
                let after = final(interface).pool();
                &&& r <==> final(interface).upcoming() is Some
                &&& match final(interface).upcoming() {
                    Some(addr) => before.deadlines().contains_key(addr) && after.deadlines()
                        == before.deadlines().remove(addr),
                    None => after.deadlines() == before.deadlines(),
                }
                &&& forall|waiting: AddrPair| #[trigger]
                    before.deadlines().contains_key(waiting) && before.deadlines()[waiting]
                        == before.origin() ==> r
                &&& after.connections() == before.connections()
                &&& final(interface).replies() == interface.replies()
                &&& final(interface).busy() == interface.busy()
            },
{
}

/// The connections that an interface lends out are its own, and what is done to them
/// is done to it. Nothing else of it changes.
pub proof fn lemma_connections_are_lent<L>()
    ensures
        forall|interface: &mut Interface<L>, r: &mut SocketPool<L>| #[trigger]
            call_ensures(Interface::<L>::sockets, (interface,), r) ==> {
                &&& *r == interface.pool()
                &&& final(interface).pool() == *final(r)
                &&& final(r).wf() ==> final(interface).wf()
                &&& final(interface).device() == interface.device()
                &&& final(interface).replies() == interface.replies()
                &&& final(interface).upcoming() == interface.upcoming()
                &&& final(interface).busy() == interface.busy()
            },
{
}

/// A new interface has no connections, no deadlines and nothing to write, and works
/// for its device.
pub proof fn lemma_new_interface_is_idle<L>()
    ensures
        forall|capabilities: DeviceCapabilities, r| #[trigger]
            call_ensures(Interface::<L>::new, (capabilities,), r) ==> {
                &&& r.0.wf() && r.0.pool().wf()
                &&& forall|pair: AddrPair| !#[trigger] r.0.pool().connections().contains_key(pair)
                &&& forall|pair: AddrPair| !#[trigger] r.0.pool().deadlines().contains_key(pair)
                &&& r.0.device() == capabilities && r.0.pool().device() == capabilities
                &&& r.0.replies().len() == 0 && r.0.upcoming() is None && !r.0.busy()
            },
{
}

/// A segment that has addresses of one family and as many bytes as its header has
/// for it, no more than a packet can have, can be written out.
pub proof fn lemma_ordinary_segment_can_be_written(ip: IpRepr, segment: TcpRepr<'_>, r: bool)
    requires
        call_ensures(Packet::is_emittable, (&Packet::Tcp(ip, segment),), r),
    ensures
        match ip {
            IpRepr::Ipv4(repr) => repr.payload_len == segment@.header_len() + segment.payload@.len()
                && repr.payload_len <= 65515 ==> r,
            IpRepr::Ipv6(repr) => repr.payload_len == segment@.header_len() + segment.payload@.len()
                && repr.payload_len <= 65535 ==> r,
            IpRepr::Unspecified { src_addr, dst_addr, payload_len, .. } => same_family(
                src_addr,
                dst_addr,
            ) && payload_len == segment@.header_len() + segment.payload@.len() && payload_len
                <= 65515 ==> r,
        },
        ip is Unspecified && ip.destination() is Unspecified ==> !r,
        ip is Unspecified && ip.source() is Unspecified && !(ip.destination() is Unspecified) ==> r,
        !(ip is Unspecified) && ip.source().unspecified() ==> r,
{
}

/// A segment of which more bytes are there than its header has for it, or whose
/// header has more than a checksum can be computed over or the total length of an
/// IPv4 packet can say, cannot be written out. Up to there its length does not matter.
pub proof fn lemma_segments_have_bounds(ip: IpRepr, segment: TcpRepr<'_>, r: bool)
    requires
        call_ensures(Packet::is_emittable, (&Packet::Tcp(ip, segment),), r),
        !(ip is Unspecified),
        !ip.source().unspecified(),
    ensures
        ({
            let needed = segment@.header_len() + segment.payload@.len();
            match ip {
                IpRepr::Ipv4(repr) => r <==> needed <= repr.payload_len <= 131072
                    && repr.payload_len % 65536 + 20 <= 65535,
                IpRepr::Ipv6(repr) => r <==> needed <= repr.payload_len <= 131072,
                IpRepr::Unspecified { .. } => true,
            }
        }),
{
}

/// What is written for a segment is as long as its header says, starts with that
/// header and reads as that segment again, if it is legible. Without a source
/// nothing is written.
pub proof fn lemma_written_segment_reads_as_itself()
    ensures
        forall|
            ip: IpRepr,
            segment: TcpRepr<'_>,
            buf: &mut Vec<u8>,
            checksum: &ChecksumCapabilities,
            r: Result<(), StackError>,
        | #[trigger]
            call_ensures(packet_to_bytes, (&Packet::Tcp(ip, segment), buf, checksum), r) ==> {
                &&& match ip {
                    IpRepr::Ipv4(repr) => repr.src_addr / 0x100_0000 != 0 ==> r is Ok
                        && final(buf)@.len() == 20 + repr.payload_len,
                    IpRepr::Ipv6(repr) => repr.src_addr != 0 ==> r is Ok && final(buf)@.len() == 40
                        + repr.payload_len,
                    IpRepr::Unspecified { src_addr, .. } => src_addr is Unspecified ==> r is Err
                        && r->Err_0 == StackError::Unaddressable,
                }
                &&& r is Ok && !(ip is Unspecified) && legible(ip, segment@, *checksum) ==> reads_as(
                    *checksum,
                    final(buf)@,
                    ip,
                    segment@,
                )
                &&& r is Err ==> final(buf)@ == buf@
            },
        forall|buf: &mut Vec<u8>, checksum: &ChecksumCapabilities, r: Result<(), StackError>|
            #[trigger]
            call_ensures(packet_to_bytes, (&Packet::Other, buf, checksum), r) ==> r is Ok
                && final(buf)@.len() == 0,
{
}

/// What a socket emits is what is there, once, and stays there until the buffer is
/// taken back.
pub proof fn lemma_emission_is_kept()
    ensures
        forall|buf: Vec<u8>, checksum: ChecksumCapabilities, e: Emission| #[trigger]
            call_ensures(Emission::new, (buf, checksum), e) ==> e.bytes().len() == 0
                && e.checksum() == checksum,
        forall|e: &Emission, r: bool| #[trigger]
            call_ensures(Emission::is_empty, (e,), r) ==> r == (e.bytes().len() == 0),
        forall|e: Emission, r: Vec<u8>| #[trigger]
            call_ensures(Emission::into_buffer, (e,), r) ==> r@ == e.bytes(),
        forall|e: &mut Emission, ip: IpRepr, segment: TcpRepr<'_>, r: Result<(), StackError>|
            #[trigger]
            call_ensures(Emission::emit, (e, ip, segment), r) ==> {
                &&& r is Ok <==> Packet::Tcp(ip, segment).bytes(e.checksum()) is Ok
                &&& r is Ok ==> final(e).bytes() == Packet::Tcp(ip, segment).bytes(
                    e.checksum(),
                )->Ok_0
                &&& r is Err ==> final(e).bytes().len() == 0
                &&& final(e).checksum() == e.checksum()
            },
{
}

} // verus!
