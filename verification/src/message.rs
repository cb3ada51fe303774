//! The messages that the server and its clients exchange.

use vstd::prelude::*;

use crate::addr::SocketAddr;
use crate::client_id::ClientId;
use crate::show::debug_uuid;

verus! {

/// A UUID as its 16 octets read as one big-endian number.
#[derive(Clone, Copy, PartialEq, Eq, Hash, Structural)]
pub struct Uuid(pub u128);

impl std::fmt::Debug for Uuid {
    /// Writes the UUID in its usual form, and nothing else.
    fn fmt(&self, f: &mut std::fmt::Formatter<'_>) -> (shown: std::fmt::Result)
        ensures
            exists|g: &mut std::fmt::Formatter<'_>|
                {
                    &&& *g == *old(f)
                    &&& *final(g) == *final(f)
                    &&& #[trigger] call_ensures(debug_uuid, (self.0, g), shown)
                },
    {
        debug_uuid(self.0, f)
    }
}

impl Uuid {
    /// The version field says 7 and the variant field says RFC 9562.
    pub open spec fn is_v7(self) -> bool {
        &&& (self.0 >> 76u128) & 0xf == 7
        &&& (self.0 >> 62u128) & 0x3 == 2
    }

    /// Calls `uuid::Uuid::now_v7`. Trusted: the version and variant fields are those of version 7.
    /// The other bits rest on the time and on chance, and nothing is said of them; that the UUIDs
    /// of one process are ordered by their creation is not said either, for it relates calls. Where
    /// the system has no randomness to give, or a clock that stands before 1970, the call panics.
    #[verifier::external_body]
    fn now_v7() -> (id: Uuid)
        ensures
            id.is_v7(),
    {
        Uuid(uuid::Uuid::now_v7().as_u128())
    }

    /// The maker of version 7 UUIDs may give this one.
    pub closed spec fn may_be_made(self) -> bool {
        call_ensures(Uuid::now_v7, (), self)
    }

    /// A fresh version 7 UUID, made from the system time and random bits.
    pub fn fresh() -> (id: Uuid)
        ensures
            id.is_v7(),
            id.may_be_made(),
    {
        Uuid::now_v7()
    }
}

#[derive(Debug, Clone, Copy, PartialEq, Eq)]
pub enum ServerEvent {
    ClientJoin { id: ClientId, sock: SocketAddr },
    ClientLeave { id: ClientId },
    Goodbye,
}

#[derive(Debug, Clone, Copy, PartialEq, Eq)]
pub enum MessageServer2Client {
    Event(ServerEvent),
}

#[derive(Debug, Clone, Copy, PartialEq, Eq)]
pub enum ClientEvent {
    Hello { id: ClientId },
    Goodbye,
    KeepAlive,
}

#[derive(Debug, Clone, Copy, PartialEq, Eq)]
pub enum MessageClient2Server {
    Event(ClientEvent),
}

#[derive(Debug, Clone, Copy, PartialEq, Eq)]
pub enum MessageClient2Client {
    Ping(Uuid),
    Pong(Uuid),
}

#[derive(Debug, Clone, Copy, PartialEq, Eq)]
pub enum Message {
    Server2Client(MessageServer2Client),
    Client2Server(MessageClient2Server),
    Client2Client(MessageClient2Client),
}

/// A version 7 UUID has a 7 in its thirteenth hexadecimal digit, and its seventeenth is one of 8
/// to 11.
pub proof fn law_v7(id: Uuid)
    ensures
        id.is_v7() <==> {
            &&& (id.0 / 0x1000_0000_0000_0000_0000) % 16 == 7
            &&& 8 <= (id.0 / 0x1000_0000_0000_0000) % 16 < 12
        },
{
    let bits: u128 = id.0;
    assert((bits >> 76u128) & 0xf == (bits / 0x1000_0000_0000_0000_0000) % 16) by (bit_vector);
    assert((bits >> 62u128) & 0x3 == 2 <==> 8 <= (bits / 0x1000_0000_0000_0000) % 16 && (bits
        / 0x1000_0000_0000_0000) % 16 < 12) by (bit_vector);
}

/// What may be made comes from the maker of version 7 UUIDs.
proof fn law_made(id: Uuid)
    ensures
        id.may_be_made() <==> call_ensures(Uuid::now_v7, (), id),
{
}

} // verus!
