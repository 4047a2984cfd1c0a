//! Converting addresses, and waiting for the first of several operations to finish.
use crate::sockets::SocketAddr;
use crate::wire::{IpAddress, StackError};
use vstd::prelude::*;

verus! {

/// An address with its port, if it is one of either family.
pub open spec fn socket_address(address: IpAddress, port: u16) -> Result<SocketAddr, StackError> {
    match address {
        IpAddress::Ipv4(ip) => Ok(SocketAddr::V4(ip, port)),
        IpAddress::Ipv6(ip) => Ok(SocketAddr::V6(ip, port)),
        IpAddress::Unspecified => Err(StackError::Unrecognized),
    }
}

/// Puts an address and a port together.
pub fn convert_to_socket_address(address: IpAddress, port: u16) -> (r: Result<
    SocketAddr,
    StackError,
>)
    ensures
        r == socket_address(address, port),
{
    match address {
        IpAddress::Ipv4(v4) => Ok(SocketAddr::V4(v4, port)),
        IpAddress::Ipv6(v6) => Ok(SocketAddr::V6(v6, port)),
        IpAddress::Unspecified => Err(StackError::Unrecognized),
    }
}

/// What one attempt to finish an operation came to.
#[derive(Debug)]
pub enum Progress<F, T> {
    /// The operation goes on.
    Pending(F),
    /// The operation is over, with its result.
    Ready(T),
}

/// The result of the operation that finished.
#[derive(Debug)]
pub enum Selected<A, B, C, D> {
    A(A),
    B(B),
    C(C),
    D(D),
}

/// Up to four operations, each in a slot of its own.
pub struct Selector<A, B, C, D> {
    a: Option<A>,
    b: Option<B>,
    c: Option<C>,
    d: Option<D>,
}

/// `attempt` left the operation in a slot unfinished, or found the slot empty.
pub open spec fn unfinished<F, T, P: FnOnce(F) -> Progress<F, T>>(
    before: Option<F>,
    after: Option<F>,
    attempt: P,
) -> bool {
    match before {
        None => after is None,
        Some(f) => after is Some && attempt.ensures((f,), Progress::Pending(after->Some_0)),
    }
}

/// `attempt` finished the operation in a slot with `result`, and the slot is
/// empty now.
pub open spec fn finished<F, T, P: FnOnce(F) -> Progress<F, T>>(
    before: Option<F>,
    after: Option<F>,
    attempt: P,
    result: T,
) -> bool {
    &&& before is Some
    &&& after is None
    &&& attempt.ensures((before->Some_0,), Progress::Ready(result))
}

/// The four slots of a [`Selector`], in their order.
pub enum Slot {
    A,
    B,
    C,
    D,
}

/// What was done to a [`Selector`].
pub enum SelectorCall {
    /// An operation was put into a slot.
    Insert(Slot),
    /// One attempt was made on the slots. It found this slot to be over, or none.
    Select(Option<Slot>),
}

/// Whose result it is that an attempt on the slots returned.
pub open spec fn winner<A, B, C, D>(r: Option<Selected<A, B, C, D>>) -> Option<Slot> {
    match r {
        Some(Selected::A(_)) => Some(Slot::A),
        Some(Selected::B(_)) => Some(Slot::B),
        Some(Selected::C(_)) => Some(Slot::C),
        Some(Selected::D(_)) => Some(Slot::D),
        None => None,
    }
}

/// Makes an attempt on one slot.
fn attempt_slot<F, T, P: FnOnce(F) -> Progress<F, T>>(slot: &mut Option<F>, attempt: P) -> (r:
    Option<T>)
    requires
        forall|f: F| attempt.requires((f,)),
    ensures
        r is None ==> unfinished(*old(slot), *final(slot), attempt),
        r is Some ==> finished(*old(slot), *final(slot), attempt, r->Some_0),
{
    match slot.take() {
        None => None,
        Some(f) => match attempt(f) {
            Progress::Pending(f) => {
                *slot = Some(f);
                None
            },
            Progress::Ready(t) => Some(t),
        },
    }
}

impl<A, B, C, D> Selector<A, B, C, D> {
    /// What is in the first slot.
    pub closed spec fn slot_a(self) -> Option<A> {
        self.a
    }

    /// What is in the second slot.
    pub closed spec fn slot_b(self) -> Option<B> {
        self.b
    }

    /// What is in the third slot.
    pub closed spec fn slot_c(self) -> Option<C> {
        self.c
    }

    /// What is in the fourth slot.
    pub closed spec fn slot_d(self) -> Option<D> {
        self.d
    }

    /// There is an operation in the slot.
    pub open spec fn filled(self, slot: Slot) -> bool {
        match slot {
            Slot::A => self.slot_a() is Some,
            Slot::B => self.slot_b() is Some,
            Slot::C => self.slot_c() is Some,
            Slot::D => self.slot_d() is Some,
        }
    }

    /// Which slots are filled in `after` is what the call makes of this selector.
    pub open spec fn called(self, after: Self, call: SelectorCall) -> bool {
        match call {
            SelectorCall::Insert(slot) => {
                &&& after.filled(slot)
                &&& forall|other: Slot| other != slot ==> #[trigger] after.filled(other)
                    == self.filled(other)
            },
            SelectorCall::Select(Some(slot)) => {
                &&& self.filled(slot) && !after.filled(slot)
                &&& forall|other: Slot| other != slot ==> #[trigger] after.filled(other)
                    == self.filled(other)
            },
            SelectorCall::Select(None) => forall|slot: Slot| #[trigger]
                after.filled(slot) == self.filled(slot),
        }
    }

    /// All slots are empty.
    pub fn new() -> (r: Self)
        ensures
            r.slot_a() is None,
            r.slot_b() is None,
            r.slot_c() is None,
            r.slot_d() is None,
    {
        Selector { a: None, b: None, c: None, d: None }
    }

    /// Looks into the second slot.
    pub fn b(&self) -> (r: &Option<B>)
        ensures
            *r == self.slot_b(),
    {
        &self.b
    }

    /// Fills the first slot, which must be empty.
    pub fn insert_a(&mut self, a: A)
        requires
            old(self).slot_a() is None,
        ensures
            final(self).slot_a() == Some(a),
            final(self).slot_b() == old(self).slot_b(),
            final(self).slot_c() == old(self).slot_c(),
            final(self).slot_d() == old(self).slot_d(),
            old(self).called(*final(self), SelectorCall::Insert(Slot::A)),
    {
        self.a = Some(a);
    }

    /// Fills the second slot, which must be empty.
    pub fn insert_b(&mut self, b: B)
        requires
            old(self).slot_b() is None,
        ensures
            final(self).slot_a() == old(self).slot_a(),
            final(self).slot_b() == Some(b),
            final(self).slot_c() == old(self).slot_c(),
            final(self).slot_d() == old(self).slot_d(),
            old(self).called(*final(self), SelectorCall::Insert(Slot::B)),
    {
        self.b = Some(b);
    }

    /// Fills the third slot, which must be empty.
    pub fn insert_c(&mut self, c: C)
        requires
            old(self).slot_c() is None,
        ensures
            final(self).slot_a() == old(self).slot_a(),
            final(self).slot_b() == old(self).slot_b(),
            final(self).slot_c() == Some(c),
            final(self).slot_d() == old(self).slot_d(),
            old(self).called(*final(self), SelectorCall::Insert(Slot::C)),
    {
        self.c = Some(c);
    }

    /// Fills the fourth slot, which must be empty.
    pub fn insert_d(&mut self, d: D)
        requires
            old(self).slot_d() is None,
        ensures
            final(self).slot_a() == old(self).slot_a(),
            final(self).slot_b() == old(self).slot_b(),
            final(self).slot_c() == old(self).slot_c(),
            final(self).slot_d() == Some(d),
            old(self).called(*final(self), SelectorCall::Insert(Slot::D)),
    {
        self.d = Some(d);
    }

    /// Makes one attempt on the slots in their order, and stops at the first
    /// operation that is over: its slot is emptied and its result returned. The
    /// slots after it are not touched. With no result, every operation goes on.
    pub fn select<
        W,
        X,
        Y,
        Z,
        FA: FnOnce(A) -> Progress<A, W>,
        FB: FnOnce(B) -> Progress<B, X>,
        FC: FnOnce(C) -> Progress<C, Y>,
        FD: FnOnce(D) -> Progress<D, Z>,
    >(&mut self, fa: FA, fb: FB, fc: FC, fd: FD) -> (r: Option<Selected<W, X, Y, Z>>)
        requires
            forall|a: A| fa.requires((a,)),
            forall|b: B| fb.requires((b,)),
            forall|c: C| fc.requires((c,)),
            forall|d: D| fd.requires((d,)),
        ensures
            match r {
                Some(Selected::A(w)) => {
                    &&& finished(old(self).slot_a(), final(self).slot_a(), fa, w)
                    &&& final(self).slot_b() == old(self).slot_b()
                    &&& final(self).slot_c() == old(self).slot_c()
                    &&& final(self).slot_d() == old(self).slot_d()
                },
                Some(Selected::B(x)) => {
                    &&& unfinished(old(self).slot_a(), final(self).slot_a(), fa)
                    &&& finished(old(self).slot_b(), final(self).slot_b(), fb, x)
                    &&& final(self).slot_c() == old(self).slot_c()
                    &&& final(self).slot_d() == old(self).slot_d()
                },
                Some(Selected::C(y)) => {
                    &&& unfinished(old(self).slot_a(), final(self).slot_a(), fa)
                    &&& unfinished(old(self).slot_b(), final(self).slot_b(), fb)
                    &&& finished(old(self).slot_c(), final(self).slot_c(), fc, y)
                    &&& final(self).slot_d() == old(self).slot_d()
                },
                Some(Selected::D(z)) => {
                    &&& unfinished(old(self).slot_a(), final(self).slot_a(), fa)
                    &&& unfinished(old(self).slot_b(), final(self).slot_b(), fb)
                    &&& unfinished(old(self).slot_c(), final(self).slot_c(), fc)
                    &&& finished(old(self).slot_d(), final(self).slot_d(), fd, z)
                },
                None => {
                    &&& unfinished(old(self).slot_a(), final(self).slot_a(), fa)
                    &&& unfinished(old(self).slot_b(), final(self).slot_b(), fb)
                    &&& unfinished(old(self).slot_c(), final(self).slot_c(), fc)
                    &&& unfinished(old(self).slot_d(), final(self).slot_d(), fd)
                },
            },
            old(self).called(*final(self), SelectorCall::Select(winner(r))),
    {
        if let Some(w) = attempt_slot(&mut self.a, fa) {
            return Some(Selected::A(w));
        }
        if let Some(x) = attempt_slot(&mut self.b, fb) {
            return Some(Selected::B(x));
        }
        if let Some(y) = attempt_slot(&mut self.c, fc) {
            return Some(Selected::C(y));
        }
        if let Some(z) = attempt_slot(&mut self.d, fd) {
            return Some(Selected::D(z));
        }
        None
    }
}

/// A new selector went through these states by these calls.
pub open spec fn selector_history<A, B, C, D>(
    states: Seq<Selector<A, B, C, D>>,
    calls: Seq<SelectorCall>,
) -> bool {
    &&& states.len() == calls.len() + 1
    &&& forall|slot: Slot| !#[trigger] states[0].filled(slot)
    &&& forall|i: int|
        0 <= i < calls.len() ==> states[i].called(states[i + 1], #[trigger] calls[i])
}

/// What the `i`th call put into the slot was not found to be over since.
pub open spec fn waiting_since(calls: Seq<SelectorCall>, slot: Slot, i: int) -> bool {
    &&& 0 <= i < calls.len()
    &&& calls[i] == SelectorCall::Insert(slot)
    &&& forall|j: int|
        i < j < calls.len() ==> #[trigger] calls[j] != SelectorCall::Select(Some(slot))
}

/// A slot is filled exactly from when something is put into it until that is
/// found to be over. What happens to other slots makes no difference.
pub proof fn lemma_slot_is_filled_until_over<A, B, C, D>(
    states: Seq<Selector<A, B, C, D>>,
    calls: Seq<SelectorCall>,
    slot: Slot,
)
    requires
        selector_history(states, calls),
    ensures
        states.last().filled(slot) <==> exists|i: int| #[trigger] waiting_since(calls, slot, i),
    decreases calls.len(),
{
    if calls.len() > 0 {
        let n = calls.len() - 1;
        let earlier = calls.drop_last();
        assert forall|i: int| 0 <= i < earlier.len() implies states.drop_last()[i].called(
            states.drop_last()[i + 1],
            #[trigger] earlier[i],
        ) by {
            assert(earlier[i] == calls[i]);
        }
        assert(states.drop_last()[0] == states[0]);
        lemma_slot_is_filled_until_over(states.drop_last(), earlier, slot);
        assert(states.drop_last().last() == states[n]);
        assert(states[n].called(states[n + 1], calls[n]));
        if calls[n] == SelectorCall::Insert(slot) {
            assert(waiting_since(calls, slot, n));
        } else {
            if states[n].filled(slot) && calls[n] != SelectorCall::Select(Some(slot)) {
                let i = choose|i: int| #[trigger] waiting_since(earlier, slot, i);
                assert forall|j: int| i < j < calls.len() implies #[trigger] calls[j]
                    != SelectorCall::Select(Some(slot)) by {
                    if j < n {
                        assert(earlier[j] == calls[j]);
                    }
                }
                assert(earlier[i] == calls[i]);
                assert(waiting_since(calls, slot, i));
            }
            if exists|i: int| #[trigger] waiting_since(calls, slot, i) {
                let i = choose|i: int| #[trigger] waiting_since(calls, slot, i);
                assert(i < n);
                assert(calls[n] != SelectorCall::Select(Some(slot)));
                assert forall|j: int| i < j < earlier.len() implies #[trigger] earlier[j]
                    != SelectorCall::Select(Some(slot)) by {
                    assert(earlier[j] == calls[j]);
                }
                assert(waiting_since(earlier, slot, i));
            }
        }
    }
}

} // verus!
