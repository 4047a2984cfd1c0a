//! The socket in which smoltcp keeps one side of a connection.
use crate::wire::{address_of, error_kind, IpAddress, IpEndpoint, StackError};
use smoltcp::socket::TcpSocket;
use smoltcp::socket::TcpSocketBuffer;
use smoltcp::socket::TcpState as SmolState;
use smoltcp::wire::IpAddress as SmolAddress;
use smoltcp::wire::IpEndpoint as SmolEndpoint;
use smoltcp::Error as SmolError;
use vstd::prelude::*;

verus! {

/// `smoltcp::socket::TcpSocket`, which wrappers work on.
#[verifier::external_type_specification]
#[verifier::external_body]
pub struct ExTcpSocket<'a>(smoltcp::socket::TcpSocket<'a>);

/// The state of a connection, in terms of the TCP state machine.
#[derive(Clone, Copy, Debug, PartialEq, Eq, Structural)]
pub enum TcpState {
    Closed,
    Listen,
    SynSent,
    SynReceived,
    Established,
    FinWait1,
    FinWait2,
    CloseWait,
    Closing,
    LastAck,
    TimeWait,
}

/// What can be told of a socket without looking at packets.
pub struct SocketModel {
    /// Where the connection stands.
    pub state: TcpState,
    /// This end of the connection.
    pub local: IpEndpoint,
    /// The other end of it.
    pub remote: IpEndpoint,
    /// Bytes received in order and not read yet.
    pub rx: Seq<u8>,
    /// Bytes written and not acknowledged yet.
    pub tx: Seq<u8>,
    /// How many unread bytes there can be.
    pub rx_capacity: nat,
    /// How many unacknowledged bytes there can be.
    pub tx_capacity: nat,
    /// The other end has said that nothing more will come.
    pub fin_received: bool,
    /// How many milliseconds an acknowledgement may be put off.
    pub ack_delay: Option<u64>,
}

/// Neither an address nor a port.
pub open spec fn no_endpoint() -> IpEndpoint {
    IpEndpoint { addr: IpAddress::Unspecified, port: 0 }
}

impl SocketModel {
    /// A socket that was never used.
    pub open spec fn fresh(rx_capacity: nat, tx_capacity: nat) -> SocketModel {
        SocketModel {
            state: TcpState::Closed,
            local: no_endpoint(),
            remote: no_endpoint(),
            rx: Seq::empty(),
            tx: Seq::empty(),
            rx_capacity,
            tx_capacity,
            fin_received: false,
            ack_delay: Some(10),
        }
    }

    /// It takes part in an exchange of packets, or waits for one.
    pub open spec fn open(self) -> bool {
        !(self.state is Closed) && !(self.state is TimeWait)
    }

    /// More may be sent, now or later.
    pub open spec fn may_send(self) -> bool {
        self.state is Established || self.state is CloseWait
    }

    /// There is room for more to send.
    pub open spec fn can_send(self) -> bool {
        self.may_send() && self.tx.len() < self.tx_capacity
    }

    /// How many of `n` bytes can be written.
    pub open spec fn writable(self, n: nat) -> int {
        if self.can_send() {
            vstd::math::min(n as int, self.tx_capacity - self.tx.len())
        } else {
            0
        }
    }

    /// More may be received, now or later.
    pub open spec fn may_recv(self) -> bool {
        self.state is Established || self.state is FinWait1 || self.state is FinWait2
            || self.rx.len() > 0
    }

    /// There is something to read.
    pub open spec fn can_recv(self) -> bool {
        self.rx.len() > 0
    }

    /// Waits for a connection to `local`, all else as in a socket that was
    /// never used.
    pub open spec fn listening(self, local: IpEndpoint) -> SocketModel {
        SocketModel {
            state: TcpState::Listen,
            local,
            ..SocketModel::fresh(self.rx_capacity, self.tx_capacity)
        }
    }

    /// The first `n` unread bytes have been read.
    pub open spec fn after_reading(self, n: int) -> SocketModel {
        SocketModel { rx: self.rx.skip(n), ..self }
    }

    /// `data` has been written.
    pub open spec fn after_writing(self, data: Seq<u8>) -> SocketModel {
        SocketModel { tx: self.tx + data, ..self }
    }

    /// Nothing more will be written.
    pub open spec fn after_close(self) -> SocketModel {
        let state = match self.state {
            TcpState::Listen | TcpState::SynSent => TcpState::Closed,
            TcpState::SynReceived | TcpState::Established => TcpState::FinWait1,
            TcpState::CloseWait => TcpState::LastAck,
            other => other,
        };
        SocketModel { state, ..self }
    }

    /// The transmit half is closed: TCP knows no way back from here to a state
    /// in which something can be sent.
    pub open spec fn write_closed(self) -> bool {
        match self.state {
            TcpState::Closed
            | TcpState::FinWait1
            | TcpState::FinWait2
            | TcpState::Closing
            | TcpState::LastAck
            | TcpState::TimeWait => true,
            _ => false,
        }
    }

    /// `after` comes next: its state is the same, or that of a socket which was
    /// closed, or the transmit half stays closed.
    pub open spec fn followed_by(self, after: SocketModel) -> bool {
        ||| after.state == self.state
        ||| after.state == self.after_close().state
        ||| self.write_closed() && after.write_closed()
    }

    /// Acknowledgements are put off for at most so long.
    pub open spec fn with_ack_delay(self, ack_delay: Option<u64>) -> SocketModel {
        SocketModel { ack_delay, ..self }
    }
}

/// What a `TcpSocket` holds.
pub uninterp spec fn socket_model(s: TcpSocket<'static>) -> SocketModel;

/// Calls `TcpSocket::new` with two buffers of the given sizes, which returns a
/// socket that was never used.
#[verifier::external_body]
pub(crate) fn new_socket(rx_size: usize, tx_size: usize) -> (s: TcpSocket<'static>)
    requires
        rx_size <= 0x4000_0000,
        tx_size <= 0x4000_0000,
    ensures
        socket_model(s) == SocketModel::fresh(rx_size as nat, tx_size as nat),
{
    let rx_buffer = TcpSocketBuffer::new(vec![0; rx_size]);
    let tx_buffer = TcpSocketBuffer::new(vec![0; tx_size]);
    TcpSocket::new(rx_buffer, tx_buffer)
}

/// Calls `TcpSocket::is_open`: neither closed nor in the time that a connection
/// is waited out.
#[verifier::external_body]
pub(crate) fn is_open(s: &TcpSocket<'static>) -> (r: bool)
    ensures
        r == socket_model(*s).open(),
{
    s.is_open()
}

/// Calls `TcpSocket::listen`, which refuses the port zero, refuses a socket
/// that is open, and makes any other one wait for a connection.
#[verifier::external_body]
pub(crate) fn listen(s: &mut TcpSocket<'static>, addr: &SmolAddress, port: u16) -> (r: Result<
    (),
    SmolError,
>)
    ensures
        r is Ok <==> port != 0 && !socket_model(*old(s)).open(),
        r is Ok ==> socket_model(*final(s)) == socket_model(*old(s)).listening(
            (IpEndpoint { addr: address_of(*addr), port }),
        ),
        r is Err ==> socket_model(*final(s)) == socket_model(*old(s)) && error_kind(r->Err_0) == (
        if port == 0 {
            StackError::Unaddressable
        } else {
            StackError::Illegal
        }),
{
    s.listen(SmolEndpoint::new(*addr, port))
}

/// Calls `TcpSocket::set_ack_delay`, which sets how long acknowledgements may
/// be put off.
#[verifier::external_body]
pub(crate) fn set_ack_delay(s: &mut TcpSocket<'static>, millis: Option<u64>)
    ensures
        socket_model(*final(s)) == socket_model(*old(s)).with_ack_delay(millis),
{
    s.set_ack_delay(millis.map(smoltcp::time::Duration::from_millis))
}

/// Calls `TcpSocket::state`: each of its eleven variants has a namesake here.
#[verifier::external_body]
pub(crate) fn state(s: &TcpSocket<'static>) -> (r: TcpState)
    ensures
        r == socket_model(*s).state,
{
    match s.state() {
        SmolState::Closed => TcpState::Closed,
        SmolState::Listen => TcpState::Listen,
        SmolState::SynSent => TcpState::SynSent,
        SmolState::SynReceived => TcpState::SynReceived,
        SmolState::Established => TcpState::Established,
        SmolState::FinWait1 => TcpState::FinWait1,
        SmolState::FinWait2 => TcpState::FinWait2,
        SmolState::CloseWait => TcpState::CloseWait,
        SmolState::Closing => TcpState::Closing,
        SmolState::LastAck => TcpState::LastAck,
        SmolState::TimeWait => TcpState::TimeWait,
    }
}

/// Calls `TcpSocket::local_endpoint`: this end of the connection.
#[verifier::external_body]
pub(crate) fn local_endpoint(s: &TcpSocket<'static>) -> (r: IpEndpoint)
    ensures
        r == socket_model(*s).local,
{
    let SmolEndpoint { addr, port } = s.local_endpoint();
    let addr = match addr {
        SmolAddress::Ipv4(a) => IpAddress::Ipv4(u32::from_be_bytes(a.0)),
        SmolAddress::Ipv6(a) => IpAddress::Ipv6(u128::from_be_bytes(a.0)),
        _ => IpAddress::Unspecified,
    };
    IpEndpoint { addr, port }
}

/// Calls `TcpSocket::remote_endpoint`: the other end of the connection.
#[verifier::external_body]
pub(crate) fn remote_endpoint(s: &TcpSocket<'static>) -> (r: IpEndpoint)
    ensures
        r == socket_model(*s).remote,
{
    let SmolEndpoint { addr, port } = s.remote_endpoint();
    let addr = match addr {
        SmolAddress::Ipv4(a) => IpAddress::Ipv4(u32::from_be_bytes(a.0)),
        SmolAddress::Ipv6(a) => IpAddress::Ipv6(u128::from_be_bytes(a.0)),
        _ => IpAddress::Unspecified,
    };
    IpEndpoint { addr, port }
}

/// Calls `TcpSocket::may_send`: the transmit half of the connection is open.
#[verifier::external_body]
pub(crate) fn may_send(s: &TcpSocket<'static>) -> (r: bool)
    ensures
        r == socket_model(*s).may_send(),
{
    s.may_send()
}

/// Calls `TcpSocket::can_send`: the transmit half is open and its buffer not full.
#[verifier::external_body]
pub(crate) fn can_send(s: &TcpSocket<'static>) -> (r: bool)
    ensures
        r == socket_model(*s).can_send(),
{
    s.can_send()
}

/// Calls `TcpSocket::may_recv`: the receive half of the connection is open, or
/// its buffer not empty.
#[verifier::external_body]
pub(crate) fn may_recv(s: &TcpSocket<'static>) -> (r: bool)
    ensures
        r == socket_model(*s).may_recv(),
{
    s.may_recv()
}

/// Calls `TcpSocket::can_recv`: the receive buffer is not empty.
#[verifier::external_body]
pub(crate) fn can_recv(s: &TcpSocket<'static>) -> (r: bool)
    ensures
        r == socket_model(*s).can_recv(),
{
    s.can_recv()
}

/// Calls `TcpSocket::recv_slice`, which moves as many of the oldest unread
/// bytes as there are or fit to the start of `data`, and refuses if none can
/// come any more.
#[verifier::external_body]
pub(crate) fn recv_slice(s: &mut TcpSocket<'static>, data: &mut [u8]) -> (r: Result<
    usize,
    SmolError,
>)
    ensures
        r is Ok <==> socket_model(*old(s)).may_recv(),
        r is Ok ==> r->Ok_0 == vstd::math::min(
            old(data)@.len() as int,
            socket_model(*old(s)).rx.len() as int,
        ),
        r is Ok ==> socket_model(*final(s)) == socket_model(*old(s)).after_reading(r->Ok_0 as int),
        r is Ok ==> final(data)@ == socket_model(*old(s)).rx.take(r->Ok_0 as int) + old(
            data,
        )@.skip(r->Ok_0 as int),
        r is Err ==> socket_model(*final(s)) == socket_model(*old(s)) && final(data)@ == old(data)@,
        r is Err ==> error_kind(r->Err_0) == (if socket_model(*old(s)).fin_received {
            StackError::Finished
        } else {
            StackError::Illegal
        }),
{
    s.recv_slice(data)
}

/// Calls `TcpSocket::send_slice`, which appends as much of the start of `data`
/// as there is room for, and refuses if the transmit half is not open.
#[verifier::external_body]
pub(crate) fn send_slice(s: &mut TcpSocket<'static>, data: &[u8]) -> (r: Result<usize, SmolError>)
    ensures
        r is Ok <==> socket_model(*old(s)).may_send(),
        r is Ok ==> r->Ok_0 == vstd::math::min(
            data@.len() as int,
            socket_model(*old(s)).tx_capacity - socket_model(*old(s)).tx.len(),
        ),
        r is Ok ==> socket_model(*final(s)) == socket_model(*old(s)).after_writing(
            data@.take(r->Ok_0 as int),
        ),
        r is Err ==> socket_model(*final(s)) == socket_model(*old(s)) && error_kind(r->Err_0)
            == StackError::Illegal,
{
    s.send_slice(data)
}

/// Calls `TcpSocket::close`, which closes the transmit half of the connection.
#[verifier::external_body]
pub(crate) fn close(s: &mut TcpSocket<'static>)
    ensures
        socket_model(*final(s)) == socket_model(*old(s)).after_close(),
{
    s.close()
}

} // verus!
