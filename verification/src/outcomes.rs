//! What each packet and each command comes to, said of the clients that there are before it.

use vstd::prelude::*;

use crate::addr::SocketAddr;
use crate::client_id::ClientId;
use crate::message::ClientEvent;
use crate::message::Message;
use crate::message::MessageClient2Client;
use crate::message::MessageClient2Server;
use crate::message::MessageServer2Client;
use crate::message::ServerEvent;
use crate::message::Uuid;
use crate::packet::RecvMessageError;
use crate::peer::to_client;
use crate::peer::to_server;
use crate::peer::Peer;
use crate::peer::PeerNotice;
use crate::peer::Reaction;
use crate::pool::event_to;
use crate::pool::Client;
use crate::pool::Command;
use crate::pool::PoolView;
use crate::server::greeting;
use crate::server::greetings;
use crate::server::Server;
use crate::server::ServerNotice;
use crate::server::ServerView;

verus! {

proof fn lemma_greetings_flat(known: Seq<Client>, newcomer: Client, now: u128, keep_alive: u128)
    ensures
        greetings(known, newcomer, now, keep_alive) == known.map_values(
            |one: Client| greeting(one, newcomer, now, keep_alive),
        ).flatten(),
    decreases known.len(),
{
    let each = |one: Client| greeting(one, newcomer, now, keep_alive);
    let words = known.map_values(each);
    words.lemma_flatten_and_flatten_alt_are_equivalent();
    if known.len() > 0 {
        let init = known.drop_last();
        lemma_greetings_flat(init, newcomer, now, keep_alive);
        assert(words.drop_last() =~= init.map_values(each));
        words.drop_last().lemma_flatten_and_flatten_alt_are_equivalent();
        assert(words.last() == each(known.last()));
    }
}

proof fn lemma_filter_twice<A>(s: Seq<A>, p: spec_fn(A) -> bool, q: spec_fn(A) -> bool)
    ensures
        s.filter(p).filter(q) == s.filter(|a: A| p(a) && q(a)),
    decreases s.len(),
{
    reveal(Seq::filter);
    if s.len() > 0 {
        let init = s.drop_last();
        lemma_filter_twice(init, p, q);
        if p(s.last()) {
            assert(s.filter(p).drop_last() =~= init.filter(p));
        }
    }
}

/// Of the clients with another id than `gone` has, each that is alive is sent `event` once.
proof fn lemma_broadcast_without(
    pool: PoolView,
    rest: PoolView,
    gone: ClientId,
    event: ServerEvent,
    now: u128,
    keep_alive: u128,
)
    requires
        rest.clients == pool.without(gone),
    ensures
        rest.broadcast(event, now, keep_alive) == pool.clients.filter(
            |one: Client|
                one.id != gone && 0 < keep_alive && now < one.last_update + keep_alive,
        ).map_values(
            |one: Client|
                Command::Send { dst: one.sock, message: MessageServer2Client::Event(event) },
        ),
{
    let other = |one: Client| one.id != gone;
    let live = |one: Client| one.alive(now, keep_alive);
    lemma_filter_twice(pool.clients, other, live);
    assert((|one: Client| other(one) && live(one)) =~= (|one: Client|
        one.id != gone && 0 < keep_alive && now < one.last_update + keep_alive));
    assert(rest.broadcast(event, now, keep_alive) =~= rest.clients.filter(live).map_values(
        |one: Client|
            Command::Send { dst: one.sock, message: MessageServer2Client::Event(event) },
    ));
}

/// A message that the stream hands over is handled as the message that it is, from its sender;
/// an error is only reported, and where there is nothing, nothing happens.
pub proof fn law_stream_to_server(
    server: ServerView,
    message: Message,
    sock: SocketAddr,
    error: RecvMessageError,
    now: u128,
)
    ensures
        server.received(Some(Ok((message, sock))), now) == server.packet(message, sock, now),
        server.received(Some(Err(error)), now).server == server,
        server.received(Some(Err(error)), now).commands.len() == 0,
        server.received(Some(Err(error)), now).notice == Some(ServerNotice::Recv(error)),
        server.received(None, now).server == server,
        server.received(None, now).commands.len() == 0,
        server.received(None, now).notice is None,
{
}

/// What a hello that the stream hands over comes to. Every client that was heard of less than the
/// keep-alive time ago is told of the newcomer, and the newcomer of it; every other one is to be
/// removed. After it the newcomer is registered at its address in place of any client with its
/// id, and every other client is known as before.
pub proof fn law_hello(server: ServerView, id: ClientId, sock: SocketAddr, now: u128)
    requires
        server.wf(),
    ensures
        ({
            let hello = Message::Client2Server(
                MessageClient2Server::Event(ClientEvent::Hello { id }),
            );
            let newcomer = Client { id, sock, last_update: now };
            let step = server.received(Some(Ok((hello, sock))), now);
            &&& step.notice is None
            &&& step.server.keep_alive == server.keep_alive
            &&& step.server.wf()
            &&& step.server.pool.sock_id == server.pool.sock_id.insert(sock, id)
            &&& step.server.pool.clients == server.pool.clients.filter(
                |one: Client| one.id != id,
            ).push(newcomer)
            &&& forall|one: Client| #[trigger]
                step.server.pool.clients.contains(one) <==> one == newcomer || (
                server.pool.clients.contains(one) && one.id != id)
            &&& step.commands == server.pool.clients.map_values(
                |one: Client|
                    if 0 < server.keep_alive && now < one.last_update + server.keep_alive {
                        seq![
                            Command::Send {
                                dst: one.sock,
                                message: MessageServer2Client::Event(
                                    ServerEvent::ClientJoin { id, sock },
                                ),
                            },
                            Command::Send {
                                dst: sock,
                                message: MessageServer2Client::Event(
                                    ServerEvent::ClientJoin { id: one.id, sock: one.sock },
                                ),
                            },
                        ]
                    } else {
                        seq![Command::Remove { id: one.id }]
                    },
            ).flatten()
        }),
{
    let newcomer = Client { id, sock, last_update: now };
    let clients = server.pool.clients;
    let keep_alive = server.keep_alive;
    crate::pool::law_add(server.pool, newcomer);
    lemma_greetings_flat(clients, newcomer, now, keep_alive);
    let words = |one: Client|
        if 0 < keep_alive && now < one.last_update + keep_alive {
            seq![
                Command::Send {
                    dst: one.sock,
                    message: MessageServer2Client::Event(ServerEvent::ClientJoin { id, sock }),
                },
                Command::Send {
                    dst: sock,
                    message: MessageServer2Client::Event(
                        ServerEvent::ClientJoin { id: one.id, sock: one.sock },
                    ),
                },
            ]
        } else {
            seq![Command::Remove { id: one.id }]
        };
    assert(clients.map_values(words) =~= clients.map_values(
        |one: Client| greeting(one, newcomer, now, keep_alive),
    ));
}

/// What a goodbye comes to from an address at which a client is known: the address and the client
/// are forgotten and nothing else is, and each other client that is alive is told once that this
/// one is gone.
pub proof fn law_goodbye(server: ServerView, gone: Client, sock: SocketAddr, now: u128)
    requires
        server.wf(),
        server.pool.clients.contains(gone),
        server.pool.sock_id.contains_key(sock),
        server.pool.sock_id[sock] == gone.id,
    ensures
        ({
            let goodbye = Message::Client2Server(MessageClient2Server::Event(ClientEvent::Goodbye));
            let step = server.received(Some(Ok((goodbye, sock))), now);
            &&& step.notice is None
            &&& step.server.keep_alive == server.keep_alive
            &&& step.server.wf()
            &&& step.server.pool.sock_id == server.pool.sock_id.remove(sock)
            &&& step.server.pool.clients == server.pool.clients.filter(
                |one: Client| one.id != gone.id,
            )
            &&& forall|one: Client| #[trigger]
                step.server.pool.clients.contains(one) <==> server.pool.clients.contains(one)
                    && one.id != gone.id
            &&& forall|other: ClientId|
                other != gone.id ==> #[trigger] step.server.pool.client(other)
                    == server.pool.client(other)
            &&& step.commands == server.pool.clients.filter(
                |one: Client|
                    one.id != gone.id && 0 < server.keep_alive && now < one.last_update
                        + server.keep_alive,
            ).map_values(
                |one: Client|
                    Command::Send {
                        dst: one.sock,
                        message: MessageServer2Client::Event(
                            ServerEvent::ClientLeave { id: gone.id },
                        ),
                    },
            )
        }),
{
    crate::pool::law_remove_by_sock(server.pool, sock);
    crate::pool::law_found_by_sock(server.pool, sock, gone);
    lemma_broadcast_without(
        server.pool,
        server.pool.remove_by_sock(sock),
        gone.id,
        ServerEvent::ClientLeave { id: gone.id },
        now,
        server.keep_alive,
    );
}

/// What a goodbye comes to from an address at which no client is known: nobody is told, the
/// clients stay, and the address is forgotten.
pub proof fn law_goodbye_of_nobody(server: ServerView, sock: SocketAddr, now: u128)
    requires
        server.wf(),
        forall|one: Client| #[trigger]
            server.pool.clients.contains(one) ==> !(server.pool.sock_id.contains_key(sock)
                && server.pool.sock_id[sock] == one.id),
    ensures
        ({
            let goodbye = Message::Client2Server(MessageClient2Server::Event(ClientEvent::Goodbye));
            let step = server.received(Some(Ok((goodbye, sock))), now);
            &&& step.notice is None
            &&& step.commands.len() == 0
            &&& step.server.keep_alive == server.keep_alive
            &&& step.server.pool.clients == server.pool.clients
            &&& step.server.pool.sock_id == server.pool.sock_id.remove(sock)
        }),
{
    let nobody = Client { id: server.pool.sock_id[sock], sock, last_update: now };
    crate::pool::law_found_by_sock(server.pool, sock, nobody);
    crate::pool::law_remove_by_sock(server.pool, sock);
    if !server.pool.sock_id.contains_key(sock) {
        assert(server.pool.sock_id.remove(sock) =~= server.pool.sock_id);
    }
}

/// What a keep-alive comes to from an address at which a client is known: that client counts as
/// heard of now, nothing else changes, and nothing is sent or reported.
pub proof fn law_keep_alive(server: ServerView, heard: Client, sock: SocketAddr, now: u128)
    requires
        server.wf(),
        server.pool.clients.contains(heard),
        server.pool.sock_id.contains_key(sock),
        server.pool.sock_id[sock] == heard.id,
    ensures
        ({
            let still_there = Message::Client2Server(
                MessageClient2Server::Event(ClientEvent::KeepAlive),
            );
            let noted = Client { id: heard.id, sock: heard.sock, last_update: now };
            let step = server.received(Some(Ok((still_there, sock))), now);
            &&& step.notice is None
            &&& step.commands.len() == 0
            &&& step.server.keep_alive == server.keep_alive
            &&& step.server.wf()
            &&& step.server.pool.sock_id == server.pool.sock_id
            &&& step.server.pool.clients.len() == server.pool.clients.len()
            &&& forall|i: int|
                0 <= i < server.pool.clients.len() ==> #[trigger] step.server.pool.clients[i] == (
                if server.pool.clients[i] == heard {
                    noted
                } else {
                    server.pool.clients[i]
                })
            &&& forall|one: Client| #[trigger]
                step.server.pool.clients.contains(one) <==> one == noted || (
                server.pool.clients.contains(one) && one.id != heard.id)
        }),
{
    crate::pool::law_found_by_sock(server.pool, sock, heard);
    crate::pool::law_keep_alive(server.pool, sock, now);
    let at = choose|i: int| 0 <= i < server.pool.clients.len() && server.pool.clients[i] == heard;
    assert(server.pool.clients[at].id == heard.id);
}

/// What a keep-alive comes to from an address at which no client is known: it is told goodbye
/// there, that is reported, and nothing changes.
pub proof fn law_keep_alive_of_nobody(server: ServerView, sock: SocketAddr, now: u128)
    requires
        server.wf(),
        forall|one: Client| #[trigger]
            server.pool.clients.contains(one) ==> !(server.pool.sock_id.contains_key(sock)
                && server.pool.sock_id[sock] == one.id),
    ensures
        ({
            let still_there = Message::Client2Server(
                MessageClient2Server::Event(ClientEvent::KeepAlive),
            );
            let step = server.received(Some(Ok((still_there, sock))), now);
            &&& step.notice == Some(ServerNotice::UnknownKeepAlive { sock })
            &&& step.commands == seq![
                Command::Send {
                    dst: sock,
                    message: MessageServer2Client::Event(ServerEvent::Goodbye),
                },
            ]
            &&& step.server == server
        }),
{
    let nobody = Client { id: server.pool.sock_id[sock], sock, last_update: now };
    crate::pool::law_found_by_sock(server.pool, sock, nobody);
}

/// What a message comes to that is meant for a client: it is reported, and nothing else.
pub proof fn law_not_for_server(server: ServerView, message: Message, sock: SocketAddr, now: u128)
    requires
        message is Server2Client || message is Client2Client,
    ensures
        ({
            let step = server.received(Some(Ok((message, sock))), now);
            &&& step.notice == Some(ServerNotice::NotForServer { sock })
            &&& step.commands.len() == 0
            &&& step.server == server
        }),
{
}

/// What a command to send comes to: that message for that address, and nothing else.
pub proof fn law_send(
    server: ServerView,
    dst: SocketAddr,
    message: MessageServer2Client,
    now: u128,
)
    ensures
        ({
            let step = server.command(Command::Send { dst, message }, now);
            &&& step.packet == Some((dst, Message::Server2Client(message)))
            &&& step.commands.len() == 0
            &&& step.server == server
        }),
{
}

/// What a command to remove a client comes to: the client and its address are forgotten and
/// nothing else is; it is told goodbye, and then each other client that is alive is told once
/// that it is gone.
pub proof fn law_remove(server: ServerView, gone: Client, now: u128)
    requires
        server.wf(),
        server.pool.clients.contains(gone),
    ensures
        ({
            let step = server.command(Command::Remove { id: gone.id }, now);
            &&& step.packet is None
            &&& step.server.keep_alive == server.keep_alive
            &&& step.server.wf()
            &&& step.server.pool.sock_id == server.pool.sock_id.remove(gone.sock)
            &&& step.server.pool.clients == server.pool.clients.filter(
                |one: Client| one.id != gone.id,
            )
            &&& forall|one: Client| #[trigger]
                step.server.pool.clients.contains(one) <==> server.pool.clients.contains(one)
                    && one.id != gone.id
            &&& forall|other: ClientId|
                other != gone.id ==> #[trigger] step.server.pool.client(other)
                    == server.pool.client(other)
            &&& step.commands == seq![
                Command::Send {
                    dst: gone.sock,
                    message: MessageServer2Client::Event(ServerEvent::Goodbye),
                },
            ] + server.pool.clients.filter(
                |one: Client|
                    one.id != gone.id && 0 < server.keep_alive && now < one.last_update
                        + server.keep_alive,
            ).map_values(
                |one: Client|
                    Command::Send {
                        dst: one.sock,
                        message: MessageServer2Client::Event(
                            ServerEvent::ClientLeave { id: gone.id },
                        ),
                    },
            )
        }),
{
    crate::pool::law_remove_by_id(server.pool, gone.id);
    crate::pool::law_found_by_id(server.pool, gone.id, gone);
    lemma_broadcast_without(
        server.pool,
        server.pool.remove_by_id(gone.id),
        gone.id,
        ServerEvent::ClientLeave { id: gone.id },
        now,
        server.keep_alive,
    );
}

/// What a command to remove comes to where no client has the id: nothing.
pub proof fn law_remove_nobody(server: ServerView, id: ClientId, now: u128)
    requires
        server.wf(),
        forall|one: Client| #[trigger] server.pool.clients.contains(one) ==> one.id != id,
    ensures
        ({
            let step = server.command(Command::Remove { id }, now);
            &&& step.packet is None
            &&& step.commands.len() == 0
            &&& step.server == server
        }),
{
    if server.pool.client(id) is Some {
        let found = server.pool.client(id)->0;
        crate::pool::law_found_by_id(server.pool, id, found);
    }
}

/// A message that the stream hands over is handled as the message that it is, from its sender;
/// an error is only reported, and where there is nothing, nothing happens.
pub proof fn law_stream_to_peer(
    peer: Peer,
    message: Message,
    addr: SocketAddr,
    error: RecvMessageError,
    ping: Uuid,
)
    ensures
        peer.reaction_to_received(Some(Ok((message, addr))), ping) == peer.reaction(
            message,
            addr,
            ping,
        ),
        peer.reaction_to_received(Some(Err(error)), ping) == Reaction::Report(
            PeerNotice::Recv(error),
        ),
        peer.reaction_to_received(None, ping) == Reaction::Nothing,
{
}

/// What each message of the stream comes to at a client, whoever sent it: another client that
/// joins is pinged at its address, a goodbye is answered to the server by a hello, a ping to its
/// sender by a pong that carries the same; a client that leaves, the client's own joining and a
/// pong come to nothing; and what is meant for the server is only reported.
pub proof fn law_reactions(
    peer: Peer,
    id: ClientId,
    sock: SocketAddr,
    addr: SocketAddr,
    uuid: Uuid,
    foreign: MessageClient2Server,
    ping: Uuid,
)
    ensures
        peer.reaction_to_received(
            Some(
                Ok(
                    (
                        Message::Server2Client(
                            MessageServer2Client::Event(ServerEvent::ClientJoin { id, sock }),
                        ),
                        addr,
                    ),
                ),
            ),
            ping,
        ) == (if id != peer.id {
            Reaction::Send {
                dst: sock,
                message: Message::Client2Client(MessageClient2Client::Ping(ping)),
            }
        } else {
            Reaction::Nothing
        }),
        peer.reaction_to_received(
            Some(
                Ok(
                    (
                        Message::Server2Client(
                            MessageServer2Client::Event(ServerEvent::ClientLeave { id }),
                        ),
                        addr,
                    ),
                ),
            ),
            ping,
        ) == Reaction::Nothing,
        peer.reaction_to_received(
            Some(
                Ok(
                    (
                        Message::Server2Client(MessageServer2Client::Event(ServerEvent::Goodbye)),
                        addr,
                    ),
                ),
            ),
            ping,
        ) == (Reaction::Send {
            dst: peer.server_addr,
            message: Message::Client2Server(
                MessageClient2Server::Event(ClientEvent::Hello { id: peer.id }),
            ),
        }),
        peer.reaction_to_received(
            Some(Ok((Message::Client2Client(MessageClient2Client::Ping(uuid)), addr))),
            ping,
        ) == (Reaction::Send {
            dst: addr,
            message: Message::Client2Client(MessageClient2Client::Pong(uuid)),
        }),
        peer.reaction_to_received(
            Some(Ok((Message::Client2Client(MessageClient2Client::Pong(uuid)), addr))),
            ping,
        ) == Reaction::Nothing,
        peer.reaction_to_received(Some(Ok((Message::Client2Server(foreign), addr))), ping)
            == Reaction::Report(PeerNotice::NotForClient),
{
}

/// A client pings exactly where it matters what a ping carries: two different UUIDs make for
/// different reactions to an item if and only if the reaction is a ping.
pub proof fn law_pings(
    peer: Peer,
    item: Option<Result<(Message, SocketAddr), RecvMessageError>>,
    ping: Uuid,
    other: Uuid,
)
    requires
        ping != other,
    ensures
        peer.pings(item) <==> peer.reaction_to_received(item, ping) != peer.reaction_to_received(
            item,
            other,
        ),
{
}

/// What a client sends of its own accord goes to its server: a hello that says who it is, and
/// later that it is still there.
pub proof fn law_own_packets(
    peer: Peer,
    hello: (SocketAddr, Message),
    still_there: (SocketAddr, Message),
)
    requires
        call_ensures(Peer::hello, (&peer,), hello),
        call_ensures(Peer::keep_alive, (&peer,), still_there),
    ensures
        hello == (
            peer.server_addr,
            Message::Client2Server(
                MessageClient2Server::Event(ClientEvent::Hello { id: peer.id }),
            ),
        ),
        still_there == (
            peer.server_addr,
            Message::Client2Server(MessageClient2Server::Event(ClientEvent::KeepAlive)),
        ),
{
}

/// A client goes by the id whose text it is given, at the server that it is given, and by a
/// random id where it is given none.
pub proof fn law_new_peer(
    text: &str,
    id: ClientId,
    server_addr: SocketAddr,
    named: Peer,
    nameless: Peer,
)
    requires
        text@ == id.text(),
        call_ensures(Peer::new, (Some(text), server_addr), named),
        call_ensures(Peer::new, (None, server_addr), nameless),
    ensures
        named == (Peer { id, server_addr }),
        nameless.server_addr == server_addr,
        ClientId::is_drawn(nameless.id.0),
{
    crate::client_id::law_text_round_trip(id);
}

/// The event that a message or a command carries is the one that was put into it, for the side
/// that it is meant for.
pub proof fn law_envelopes(dst: SocketAddr, for_server: ClientEvent, for_client: ServerEvent)
    ensures
        to_server(for_server) == Message::Client2Server(MessageClient2Server::Event(for_server)),
        to_client(for_client) == Message::Server2Client(MessageServer2Client::Event(for_client)),
        event_to(dst, for_client) == (Command::Send {
            dst,
            message: MessageServer2Client::Event(for_client),
        }),
{
}

/// A new server knows nobody, and for it a client is alive for as many seconds as it was given
/// after it was heard of.
pub proof fn law_new_server(keep_alive_secs: u64, server: Server, client: Client, now: u128)
    requires
        call_ensures(Server::new, (keep_alive_secs,), server),
    ensures
        server.wf(),
        server@.pool.clients.len() == 0,
        server@.pool.sock_id == Map::<SocketAddr, ClientId>::empty(),
        client.alive(now, server@.keep_alive) <==> 0 < keep_alive_secs && now < client.last_update
            + keep_alive_secs * 1_000_000_000,
{
}

} // verus!
