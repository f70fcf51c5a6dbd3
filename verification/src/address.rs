use vstd::prelude::*;

verus! {

/// The IP address and port of a peer, as plain values.
///
/// The variants and fields follow those of an IPv4 or IPv6 socket
/// address, so that two addresses are equal exactly when the socket
/// addresses they stand for are.
#[derive(Clone, Copy, Debug, PartialEq, Eq, Structural)]
pub enum Address {
    V4 { ipv4: u32, port: u16 },
    V6 { ipv6: u128, port: u16, flowinfo: u32, scope_id: u32 },
}

} // verus!
