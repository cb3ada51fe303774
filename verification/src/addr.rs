//! Socket addresses as plain values.

use vstd::prelude::*;

verus! {

/// An IPv4 or IPv6 address with a port. An address is its octets read as one big-endian number.
#[derive(Debug, Clone, Copy, PartialEq, Eq, Hash, Structural)]
#[allow(inconsistent_fields)]
pub enum SocketAddr {
    V4 { ip: u32, port: u16 },
    V6 { ip: u128, port: u16, flowinfo: u32, scope_id: u32 },
}

} // verus!
