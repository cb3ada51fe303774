//! What a client does with the packets that it receives.

use vstd::prelude::*;

use crate::addr::SocketAddr;
use crate::client_id::optional_chars;
use crate::client_id::ClientId;
use crate::message::ClientEvent;
use crate::message::Message;
use crate::message::MessageClient2Client;
use crate::message::MessageClient2Server;
use crate::message::MessageServer2Client;
use crate::message::ServerEvent;
use crate::message::Uuid;
use crate::packet::RecvMessageError;

verus! {

/// What a client has to report in its log.
#[derive(Debug)]
pub enum PeerNotice {
    /// A message came that only the server can handle.
    NotForClient,
    /// No message could be received.
    Recv(RecvMessageError),
}

/// What comes of a packet.
#[derive(Debug)]
pub enum Reaction {
    Nothing,
    Send { dst: SocketAddr, message: Message },
    Report(PeerNotice),
}

/// A client: its id, and where its server is.
#[derive(Debug, Clone, Copy, PartialEq, Eq)]
pub struct Peer {
    pub id: ClientId,
    pub server_addr: SocketAddr,
}

/// The message that carries `event` to the server.
pub open spec fn to_server(event: ClientEvent) -> Message {
    Message::Client2Server(MessageClient2Server::Event(event))
}

/// The message that carries `event` to a client.
pub open spec fn to_client(event: ServerEvent) -> Message {
    Message::Server2Client(MessageServer2Client::Event(event))
}

impl Peer {
    /// What comes of `message` from `addr`, where a ping sent now is to carry `ping`: another
    /// client that joins is pinged, a goodbye of the server is answered by registering again, and
    /// a ping is answered by a pong that carries the same.
    pub open spec fn reaction(self, message: Message, addr: SocketAddr, ping: Uuid) -> Reaction {
        match message {
            Message::Server2Client(MessageServer2Client::Event(event)) => match event {
                ServerEvent::ClientJoin { id, sock } => if id == self.id {
                    Reaction::Nothing
                } else {
                    Reaction::Send {
                        dst: sock,
                        message: Message::Client2Client(MessageClient2Client::Ping(ping)),
                    }
                },
                ServerEvent::ClientLeave { .. } => Reaction::Nothing,
                ServerEvent::Goodbye => Reaction::Send {
                    dst: self.server_addr,
                    message: to_server(ClientEvent::Hello { id: self.id }),
                },
            },
            Message::Client2Client(MessageClient2Client::Ping(uuid)) => Reaction::Send {
                dst: addr,
                message: Message::Client2Client(MessageClient2Client::Pong(uuid)),
            },
            Message::Client2Client(MessageClient2Client::Pong(_)) => Reaction::Nothing,
            Message::Client2Server(_) => Reaction::Report(PeerNotice::NotForClient),
        }
    }

    /// What comes of the next item of the stream of messages.
    pub open spec fn reaction_to_received(
        self,
        item: Option<Result<(Message, SocketAddr), RecvMessageError>>,
        ping: Uuid,
    ) -> Reaction {
        match item {
            Some(Ok((message, addr))) => self.reaction(message, addr, ping),
            Some(Err(error)) => Reaction::Report(PeerNotice::Recv(error)),
            None => Reaction::Nothing,
        }
    }

    /// A client of the server at `server_addr` that goes by the id that `client_id` spells, or by
    /// a random one where it spells none.
    pub fn new(client_id: Option<&str>, server_addr: SocketAddr) -> (peer: Peer)
        ensures
            peer.server_addr == server_addr,
            match ClientId::spelt(optional_chars(client_id)) {
                Some(spelt) => peer.id == spelt,
                None => ClientId::is_drawn(peer.id.0),
            },
    {
        Peer { id: ClientId::parse_or_rand(client_id), server_addr }
    }

    /// The packet that registers the client.
    pub fn hello(&self) -> (packet: (SocketAddr, Message))
        ensures
            packet == (self.server_addr, to_server(ClientEvent::Hello { id: self.id })),
    {
        (
            self.server_addr,
            Message::Client2Server(MessageClient2Server::Event(ClientEvent::Hello { id: self.id })),
        )
    }

    /// The packet that keeps the client registered.
    pub fn keep_alive(&self) -> (packet: (SocketAddr, Message))
        ensures
            packet == (self.server_addr, to_server(ClientEvent::KeepAlive)),
    {
        (
            self.server_addr,
            Message::Client2Server(MessageClient2Server::Event(ClientEvent::KeepAlive)),
        )
    }

    /// Handles `message` from `addr`. A ping carries `ping`.
    pub fn handle_packet(&self, message: Message, addr: SocketAddr, ping: Uuid) -> (reaction:
        Reaction)
        ensures
            reaction == self.reaction(message, addr, ping),
    {
        match message {
            Message::Server2Client(MessageServer2Client::Event(event)) => match event {
                ServerEvent::ClientJoin { id, sock } => {
                    if id != self.id {
                        Reaction::Send {
                            dst: sock,
                            message: Message::Client2Client(MessageClient2Client::Ping(ping)),
                        }
                    } else {
                        Reaction::Nothing
                    }
                },
                ServerEvent::ClientLeave { .. } => Reaction::Nothing,
                ServerEvent::Goodbye => {
                    let (dst, message) = self.hello();
                    Reaction::Send { dst, message }
                },
            },
            Message::Client2Client(message) => match message {
                MessageClient2Client::Ping(uuid) => Reaction::Send {
                    dst: addr,
                    message: Message::Client2Client(MessageClient2Client::Pong(uuid)),
                },
                MessageClient2Client::Pong(_) => Reaction::Nothing,
            },
            Message::Client2Server(_) => Reaction::Report(PeerNotice::NotForClient),
        }
    }

    /// Handles the next item of the stream of messages. A ping carries `ping`.
    pub fn handle_received(
        &self,
        item: Option<Result<(Message, SocketAddr), RecvMessageError>>,
        ping: Uuid,
    ) -> (reaction: Reaction)
        ensures
            reaction == self.reaction_to_received(item, ping),
    {
        match item {
            Some(Ok((message, addr))) => self.handle_packet(message, addr, ping),
            Some(Err(error)) => Reaction::Report(PeerNotice::Recv(error)),
            None => Reaction::Nothing,
        }
    }

    /// The reaction to `item` is a ping.
    pub open spec fn pings(
        self,
        item: Option<Result<(Message, SocketAddr), RecvMessageError>>,
    ) -> bool {
        &&& item matches Some(Ok((message, _)))
        &&& message matches Message::Server2Client(MessageServer2Client::Event(event))
        &&& event matches ServerEvent::ClientJoin { id, .. }
        &&& id != self.id
    }

    /// Whether the reaction to `item` is a ping.
    pub fn will_ping(
        &self,
        item: &Option<Result<(Message, SocketAddr), RecvMessageError>>,
    ) -> (ping: bool)
        ensures
            ping == self.pings(*item),
    {
        match item {
            Some(
                Ok(
                    (
                        Message::Server2Client(
                            MessageServer2Client::Event(ServerEvent::ClientJoin { id, .. }),
                        ),
                        _,
                    ),
                ),
            ) => *id != self.id,
            _ => false,
        }
    }

    /// Handles the next item of the stream of messages. A ping carries a fresh version 7 UUID.
    pub fn receive(
        &self,
        item: Option<Result<(Message, SocketAddr), RecvMessageError>>,
    ) -> (reaction: Reaction)
        ensures
            exists|ping: Uuid|
                {
                    &&& ping.is_v7()
                    &&& self.pings(item) ==> ping.may_be_made()
                    &&& reaction == #[trigger] self.reaction_to_received(item, ping)
                },
    {
        if self.will_ping(&item) {
            return self.handle_received(item, Uuid::fresh());
        }
        // No ping is sent, so any version 7 UUID will do, and none has to be made.
        let unused: Uuid = Uuid(0x7000_8000_0000_0000_0000);
        assert(unused.is_v7()) by {
            assert((0x7000_8000_0000_0000_0000u128 >> 76u128) & 0xf == 7) by (bit_vector);
            assert((0x7000_8000_0000_0000_0000u128 >> 62u128) & 0x3 == 2) by (bit_vector);
        }
        self.handle_received(item, unused)
    }
}

} // verus!
