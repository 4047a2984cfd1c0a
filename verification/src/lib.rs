//! A TCP library for a TUN network interface: it accepts connections to every
//! address that is routed to the interface, without binding to any of them.
use vstd::prelude::*;

pub mod bytes;
pub mod dispatch;
pub mod laws;
pub mod sockets;
pub mod stream;
pub mod time;
pub mod util;
pub mod wire;

verus! {

/// `std::io::Error`, carried but never looked into.
#[verifier::external_type_specification]
#[verifier::external_body]
pub struct ExIoError(std::io::Error);

/// What can go wrong while a listener is being set up.
#[derive(Debug)]
pub enum Error {
    /// The network interface could not be opened.
    Io { source: std::io::Error },
}

} // verus!
