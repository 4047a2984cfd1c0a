//! What the operations promise, told by what they are given and what they return.
pub mod connection;
pub mod interface;
pub mod queue;
pub mod sockets;
pub mod stream;
pub mod values;
