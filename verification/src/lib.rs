//! A small host for a datagram protocol with channels: it parses the
//! wire messages of the protocol, tracks its peers and decides what to do
//! with each datagram that arrives. Sockets and the receive loop live
//! with the caller; the library works on plain values.

pub mod address;
pub mod wire;
pub mod packet;
pub mod protocol;
