//! Addresses, times and buffers.
use crate::dispatch::sendbuf::SendingBuffer;
use crate::time::{
    duration_nanos, elapsed_millis, instant_after, whole_millis, wraps_to, Clock,
};
use crate::util::{Progress, Selected, Selector};
use crate::wire::{is_unicast_v4, is_unicast_v6, IpAddress, IpEndpoint, IpRepr, StackError};
use std::time::{Duration, Instant};
use vstd::prelude::*;

verus! {

/// An IPv4 address belongs to one host exactly if its first octet is neither zero
/// nor one of the sixteen multicast ones, unless all its bits are set.
pub proof fn lemma_v4_hosts(a: u32, r: bool)
    requires
        call_ensures(is_unicast_v4, (a,), r),
    ensures
        r <==> a / 0x100_0000 != 0 && a / 0x1000_0000 != 14 && a != u32::MAX,
{
}

/// An IPv6 address belongs to one host exactly if it is not zero and its first
/// octet is not 255.
pub proof fn lemma_v6_hosts(a: u128, r: bool)
    requires
        call_ensures(is_unicast_v6, (a,), r),
    ensures
        r <==> a != 0 && a / 0x0100_0000_0000_0000_0000_0000_0000_0000 != 255,
{
}

/// An address stands for none exactly if it is not there, or is an IPv4 address
/// whose first octet is zero, or the IPv6 address zero. An end of a connection is
/// given exactly if its address stands for one and its port is not zero.
pub proof fn lemma_given_ends(end: IpEndpoint, missing: bool, given: bool)
    requires
        call_ensures(IpAddress::is_unspecified, (&end.addr,), missing),
        call_ensures(IpEndpoint::is_specified, (&end,), given),
    ensures
        missing <==> match end.addr {
            IpAddress::Unspecified => true,
            IpAddress::Ipv4(a) => a / 0x100_0000 == 0,
            IpAddress::Ipv6(a) => a == 0,
        },
        given <==> !missing && end.port != 0,
{
}

/// A header says where its packet comes from and where it goes. Settling its
/// family keeps both, and fails exactly if there is no source.
pub proof fn lemma_header_addresses(
    ip: IpRepr,
    src: IpAddress,
    dst: IpAddress,
    settled: Result<IpRepr, StackError>,
    settled_src: IpAddress,
    settled_dst: IpAddress,
)
    requires
        call_ensures(IpRepr::src_addr, (&ip,), src),
        call_ensures(IpRepr::dst_addr, (&ip,), dst),
        call_ensures(IpRepr::lower, (&ip,), settled),
        settled is Ok ==> call_ensures(IpRepr::src_addr, (&settled->Ok_0,), settled_src),
        settled is Ok ==> call_ensures(IpRepr::dst_addr, (&settled->Ok_0,), settled_dst),
    ensures
        match ip {
            IpRepr::Ipv4(repr) => src == IpAddress::Ipv4(repr.src_addr) && dst == IpAddress::Ipv4(
                repr.dst_addr,
            ),
            IpRepr::Ipv6(repr) => src == IpAddress::Ipv6(repr.src_addr) && dst == IpAddress::Ipv6(
                repr.dst_addr,
            ),
            IpRepr::Unspecified { src_addr, dst_addr, .. } => src == src_addr && dst == dst_addr,
        },
        settled is Ok ==> settled_src == src && settled_dst == dst && !(
        settled->Ok_0 is Unspecified),
        src is Unspecified ==> settled == Err::<IpRepr, StackError>(StackError::Unaddressable),
        settled is Err ==> settled->Err_0 == StackError::Unaddressable,
{
}

/// A time is counted in whole milliseconds, of which there are as many as fit.
pub proof fn lemma_whole_milliseconds_are_counted(elapsed: Duration, r: i64)
    requires
        call_ensures(elapsed_millis, (elapsed,), r),
        duration_nanos(elapsed) < 0x8000_0000_0000_0000 * 1_000_000,
    ensures
        0 <= r,
        r * 1_000_000 <= duration_nanos(elapsed) < (r + 1) * 1_000_000,
{
}

/// More time is counted as no fewer milliseconds.
pub proof fn lemma_count_does_not_go_back(
    elapsed: Duration,
    r: i64,
    later: Duration,
    later_r: i64,
)
    requires
        call_ensures(elapsed_millis, (elapsed,), r),
        call_ensures(elapsed_millis, (later,), later_r),
        duration_nanos(elapsed) <= duration_nanos(later),
        duration_nanos(later) < 0x8000_0000_0000_0000 * 1_000_000,
    ensures
        r <= later_r,
{
}

/// A clock resolves a number of milliseconds to the instant that lies so much
/// after its start, and zero to its start, which it hands out. A negative number is
/// taken for one that was wrapped around.
pub proof fn lemma_clock_resolves(
    clock: Clock,
    millis: i64,
    r: Option<Instant>,
    start: Instant,
)
    requires
        call_ensures(Clock::resolve, (&clock, millis), r),
        call_ensures(Clock::origin, (&clock,), start),
    ensures
        start == clock.start(),
        millis == 0 ==> r == Some(start),
        millis >= 0 && r is Some ==> r->Some_0 == instant_after(
            start,
            (millis * 1_000_000) as nat,
        ),
        millis < 0 && r is Some ==> r->Some_0 == instant_after(
            start,
            ((millis + 0x1_0000_0000_0000_0000) * 1_000_000) as nat,
        ),
        r is None ==> exists|d: Duration| #[trigger]
            call_ensures(Instant::checked_add, (&start, d), None) && (millis >= 0
                ==> duration_nanos(d) == millis * 1_000_000),
{
    assert(millis < 0 ==> millis as u64 == millis + 0x1_0000_0000_0000_0000) by (bit_vector);
}

/// A timestamp is the whole milliseconds of a time that the clock measured since
/// its start.
pub proof fn lemma_timestamp_is_measured(clock: Clock, r: i64)
    requires
        call_ensures(Clock::timestamp, (&clock,), r),
    ensures
        exists|elapsed: Duration| #[trigger]
            call_ensures(Instant::elapsed, (&clock.start(),), elapsed) && (duration_nanos(elapsed)
                < 0x8000_0000_0000_0000 * 1_000_000 ==> r * 1_000_000 <= duration_nanos(elapsed) < (
            r + 1) * 1_000_000),
{
    let elapsed = choose|elapsed: Duration| #[trigger]
        call_ensures(Instant::elapsed, (&clock.start(),), elapsed)
            && wraps_to(whole_millis(elapsed) as int, r) && (
        whole_millis(elapsed) <= i64::MAX ==> r == whole_millis(elapsed));
    assert(call_ensures(Instant::elapsed, (&clock.start(),), elapsed));
}

/// Buffers with a packet are written in the order in which they were handed in,
/// and each comes out as it went in. An empty one is kept for later.
pub proof fn lemma_packets_come_out_in_order()
    ensures
        forall|line: &mut SendingBuffer, b: Vec<u8>| #[trigger]
            call_ensures(SendingBuffer::queue_buf, (line, b), ()) ==> {
                &&& b@.len() > 0 ==> final(line)@.packets == line@.packets.push(b@)
                    && final(line)@.spare == line@.spare
                &&& b@.len() == 0 ==> final(line)@.packets == line@.packets && final(
                    line)@.spare.len() == line@.spare.len() + 1
            },
        forall|line: &mut SendingBuffer, r: Option<Vec<u8>>| #[trigger]
            call_ensures(SendingBuffer::pop_packet, (line,), r) ==> {
                &&& line@.packets.len() == 0 ==> r is None && final(line)@ == line@
                &&& line@.packets.len() > 0 ==> r is Some && seq![r->Some_0@] + final(line)@.packets
                    =~= line@.packets && final(line)@.spare == line@.spare
            },
        forall|line: &mut SendingBuffer| #[trigger]
            call_ensures(SendingBuffer::pop_front, (line,), ()) && line@.packets.len() > 0
                ==> seq![line@.packets[0]] + final(line)@.packets =~= line@.packets && final(
                line)@.spare.len() == line@.spare.len() + 1,
        forall|line: &SendingBuffer, r: Option<&[u8]>| #[trigger]
            call_ensures(SendingBuffer::first, (line,), r) ==> if line@.packets.len() == 0 {
                r is None
            } else {
                r is Some && r->Some_0@ == line@.packets[0]
            },
{
}

/// A spare buffer is handed out empty, as long as there is one, and leaves the
/// packets alone. What is written to one in place gets in line if it is something.
/// There are four of them at first.
pub proof fn lemma_spare_buffers_are_empty()
    ensures
        forall|line: SendingBuffer| #[trigger]
            call_ensures(SendingBuffer::new, (), line) ==> line@.packets.len() == 0
                && line@.spare.len() == 4,
        forall|line: &mut SendingBuffer, r: Option<Vec<u8>>| #[trigger]
            call_ensures(SendingBuffer::get_buf, (line,), r) ==> {
                &&& line@.spare.len() == 0 ==> r is None && final(line)@ == line@
                &&& line@.spare.len() > 0 ==> r is Some && r->Some_0@.len() == 0 && final(
                    line)@.spare.len() == line@.spare.len() - 1
                &&& final(line)@.packets == line@.packets
            },
        forall|line: &mut SendingBuffer, r: Option<&mut Vec<u8>>| #[trigger]
            call_ensures(SendingBuffer::get_mut, (line,), r) ==> {
                &&& r is Some <==> line@.spare.len() > 0
                &&& r is Some ==> r->Some_0@.len() == 0 && final(line)@.spare.len()
                    == line@.spare.len() && final(line)@.spare.last() == final(r->Some_0)@
                &&& final(line)@.packets == line@.packets
            },
        forall|line: &mut SendingBuffer| #[trigger]
            call_ensures(SendingBuffer::queue_written, (line,), ()) && line@.spare.len() > 0 ==> {
                let written = line@.spare.last();
                &&& written.len() > 0 ==> final(line)@.packets == line@.packets.push(written)
                    && final(line)@.spare.len() == line@.spare.len() - 1
                &&& written.len() == 0 ==> final(line)@.packets == line@.packets && final(
                    line)@.spare.len() == line@.spare.len()
            },
{
}

/// What is put into a slot is there, and the other slots are as they were. A new
/// selector has nothing in any of them.
pub proof fn lemma_slots_are_filled_separately<A, B, C, D>()
    ensures
        forall|s: Selector<A, B, C, D>| #[trigger]
            call_ensures(Selector::<A, B, C, D>::new, (), s) ==> s.slot_a() is None
                && s.slot_b() is None && s.slot_c() is None && s.slot_d() is None,
        forall|s: &mut Selector<A, B, C, D>, a: A| #[trigger]
            call_ensures(Selector::<A, B, C, D>::insert_a, (s, a), ()) ==> final(s).slot_a()
                == Some(a) && final(s).slot_b() == s.slot_b() && final(s).slot_c() == s.slot_c()
                && final(s).slot_d() == s.slot_d(),
        forall|s: &mut Selector<A, B, C, D>, b: B| #[trigger]
            call_ensures(Selector::<A, B, C, D>::insert_b, (s, b), ()) ==> final(s).slot_b()
                == Some(b) && final(s).slot_a() == s.slot_a() && final(s).slot_c() == s.slot_c()
                && final(s).slot_d() == s.slot_d(),
        forall|s: &mut Selector<A, B, C, D>, c: C| #[trigger]
            call_ensures(Selector::<A, B, C, D>::insert_c, (s, c), ()) ==> final(s).slot_c()
                == Some(c) && final(s).slot_a() == s.slot_a() && final(s).slot_b() == s.slot_b()
                && final(s).slot_d() == s.slot_d(),
        forall|s: &mut Selector<A, B, C, D>, d: D| #[trigger]
            call_ensures(Selector::<A, B, C, D>::insert_d, (s, d), ()) ==> final(s).slot_d()
                == Some(d) && final(s).slot_a() == s.slot_a() && final(s).slot_b() == s.slot_b()
                && final(s).slot_c() == s.slot_c(),
{
}

/// Operations are tried in the order of their slots, and the first that is over
/// is the one whose result comes out, of its own attempt. It leaves its slot. Those
/// before it go on, and those behind it are not touched. Without a result all of
/// them go on.
pub proof fn lemma_first_to_finish_is_selected<
    A,
    B,
    C,
    D,
    W,
    X,
    Y,
    Z,
    FA: FnOnce(A) -> Progress<A, W>,
    FB: FnOnce(B) -> Progress<B, X>,
    FC: FnOnce(C) -> Progress<C, Y>,
    FD: FnOnce(D) -> Progress<D, Z>,
>()
    ensures
        forall|
            s: &mut Selector<A, B, C, D>,
            fa: FA,
            fb: FB,
            fc: FC,
            fd: FD,
            r: Option<Selected<W, X, Y, Z>>,
        | #[trigger]
            call_ensures(
                Selector::<A, B, C, D>::select::<W, X, Y, Z, FA, FB, FC, FD>,
                (s, fa, fb, fc, fd),
                r,
            ) ==> {
                let at: int = match r {
                    Some(Selected::A(_)) => 0,
                    Some(Selected::B(_)) => 1,
                    Some(Selected::C(_)) => 2,
                    Some(Selected::D(_)) => 3,
                    None => 4,
                };
                &&& match r {
                    Some(Selected::A(w)) => s.slot_a() is Some && final(s).slot_a() is None
                        && fa.ensures((s.slot_a()->Some_0,), Progress::Ready(w)),
                    Some(Selected::B(x)) => s.slot_b() is Some && final(s).slot_b() is None
                        && fb.ensures((s.slot_b()->Some_0,), Progress::Ready(x)),
                    Some(Selected::C(y)) => s.slot_c() is Some && final(s).slot_c() is None
                        && fc.ensures((s.slot_c()->Some_0,), Progress::Ready(y)),
                    Some(Selected::D(z)) => s.slot_d() is Some && final(s).slot_d() is None
                        && fd.ensures((s.slot_d()->Some_0,), Progress::Ready(z)),
                    None => true,
                }
                &&& at > 0 && s.slot_a() is Some ==> final(s).slot_a() is Some && fa.ensures(
                    (s.slot_a()->Some_0,),
                    Progress::Pending(final(s).slot_a()->Some_0),
                )
                &&& at > 1 && s.slot_b() is Some ==> final(s).slot_b() is Some && fb.ensures(
                    (s.slot_b()->Some_0,),
                    Progress::Pending(final(s).slot_b()->Some_0),
                )
                &&& at > 2 && s.slot_c() is Some ==> final(s).slot_c() is Some && fc.ensures(
                    (s.slot_c()->Some_0,),
                    Progress::Pending(final(s).slot_c()->Some_0),
                )
                &&& at > 3 && s.slot_d() is Some ==> final(s).slot_d() is Some && fd.ensures(
                    (s.slot_d()->Some_0,),
                    Progress::Pending(final(s).slot_d()->Some_0),
                )
                &&& at < 1 ==> final(s).slot_b() == s.slot_b()
                &&& at < 2 ==> final(s).slot_c() == s.slot_c()
                &&& at < 3 ==> final(s).slot_d() == s.slot_d()
                &&& s.slot_a() is None ==> at > 0 && final(s).slot_a() is None
                &&& s.slot_b() is None ==> at != 1 && final(s).slot_b() is None
                &&& s.slot_c() is None ==> at != 2 && final(s).slot_c() is None
                &&& s.slot_d() is None ==> at != 3 && final(s).slot_d() is None
            },
{
}

} // verus!
