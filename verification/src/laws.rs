//! What the server and its clients bring about together.

use vstd::prelude::*;

use crate::addr::SocketAddr;
use crate::client_id::ClientId;
use crate::message::ClientEvent;
use crate::message::Message;
use crate::message::MessageClient2Client;
use crate::message::ServerEvent;
use crate::message::Uuid;
use crate::peer::to_client;
use crate::peer::to_server;
use crate::peer::Peer;
use crate::peer::Reaction;
use crate::pool::event_to;
use crate::pool::Client;
use crate::pool::Command;
use crate::server::greeting;
use crate::server::greetings;
use crate::server::ServerView;

verus! {

proof fn lemma_add_contains(a: Seq<Command>, b: Seq<Command>, command: Command)
    ensures
        (a + b).contains(command) <==> a.contains(command) || b.contains(command),
{
    let both = a + b;
    if a.contains(command) {
        let i = choose|i: int| 0 <= i < a.len() && a[i] == command;
        assert(both[i] == command);
    }
    if b.contains(command) {
        let i = choose|i: int| 0 <= i < b.len() && b[i] == command;
        assert(both[a.len() + i] == command);
    }
    if both.contains(command) {
        let i = choose|i: int| 0 <= i < both.len() && both[i] == command;
        if i < a.len() {
            assert(a[i] == command);
        } else {
            assert(b[i - a.len()] == command);
        }
    }
}

/// The greetings are those with each of the known clients, and nothing else.
pub proof fn law_greetings(
    known: Seq<Client>,
    newcomer: Client,
    now: u128,
    keep_alive: u128,
    command: Command,
)
    ensures
        greetings(known, newcomer, now, keep_alive).contains(command) <==> exists|i: int|
            0 <= i < known.len() && greeting(#[trigger] known[i], newcomer, now, keep_alive).contains(
                command,
            ),
    decreases known.len(),
{
    if known.len() > 0 {
        let init = known.drop_last();
        let last = known.len() - 1;
        law_greetings(init, newcomer, now, keep_alive, command);
        lemma_add_contains(
            greetings(init, newcomer, now, keep_alive),
            greeting(known.last(), newcomer, now, keep_alive),
            command,
        );
        if exists|i: int|
            0 <= i < init.len() && greeting(#[trigger] init[i], newcomer, now, keep_alive).contains(
                command,
            ) {
            let i = choose|i: int|
                0 <= i < init.len() && greeting(
                    #[trigger] init[i],
                    newcomer,
                    now,
                    keep_alive,
                ).contains(command);
            assert(known[i] == init[i]);
        }
        if exists|i: int|
            0 <= i < known.len() && greeting(
                #[trigger] known[i],
                newcomer,
                now,
                keep_alive,
            ).contains(command) {
            let i = choose|i: int|
                0 <= i < known.len() && greeting(
                    #[trigger] known[i],
                    newcomer,
                    now,
                    keep_alive,
                ).contains(command);
            if i < last {
                assert(init[i] == known[i]);
            }
        }
        assert(known[last] == known.last());
    }
}

/// Whatever message comes, from whom and when, the server stays valid and its keep-alive time the
/// same.
pub proof fn law_packet_keeps_valid(
    server: ServerView,
    message: Message,
    sock: SocketAddr,
    now: u128,
)
    requires
        server.wf(),
    ensures
        server.packet(message, sock, now).server.wf(),
        server.packet(message, sock, now).server.keep_alive == server.keep_alive,
{
    if let Message::Client2Server(crate::message::MessageClient2Server::Event(event)) = message {
        match event {
            ClientEvent::Hello { id } => crate::pool::law_add(
                server.pool,
                Client { id, sock, last_update: now },
            ),
            ClientEvent::Goodbye => crate::pool::law_remove_by_sock(server.pool, sock),
            ClientEvent::KeepAlive => {
                if server.pool.get_by_sock(sock) is Some {
                    crate::pool::law_keep_alive(server.pool, sock, now);
                }
            },
        }
    }
}

/// Whatever command is handled, the server stays valid and its keep-alive time the same.
pub proof fn law_command_keeps_valid(server: ServerView, command: Command, now: u128)
    requires
        server.wf(),
    ensures
        server.command(command, now).server.wf(),
        server.command(command, now).server.keep_alive == server.keep_alive,
{
    if let Command::Remove { id } = command {
        crate::pool::law_remove_by_id(server.pool, id);
    }
}

/// A client that says hello is known after it, under its id and at its address, as heard of at
/// that time: as such it counts as alive until the keep-alive time has passed.
pub proof fn law_hello_registers(
    server: ServerView,
    id: ClientId,
    sock: SocketAddr,
    now: u128,
    later: u128,
)
    requires
        server.wf(),
        now <= later,
    ensures
        ({
            let newcomer = Client { id, sock, last_update: now };
            let pool = server.packet(to_server(ClientEvent::Hello { id }), sock, now).server.pool;
            &&& pool.client(id) == Some(newcomer)
            &&& pool.get_by_sock(sock) == Some(newcomer)
            &&& newcomer.alive(later, server.keep_alive) <==> later - now < server.keep_alive
        }),
{
    crate::pool::law_add(server.pool, Client { id, sock, last_update: now });
}

/// A hello makes the newcomer and every live client known to each other, has every other client
/// removed, and does nothing else: a command comes of it exactly if it does one of these for one
/// of the clients.
pub proof fn law_hello_introduces(
    server: ServerView,
    id: ClientId,
    sock: SocketAddr,
    now: u128,
    command: Command,
)
    ensures
        server.packet(
            to_server(ClientEvent::Hello { id }),
            sock,
            now,
        ).commands.contains(command) <==> exists|i: int|
            {
                let known = #[trigger] server.pool.clients[i];
                &&& 0 <= i < server.pool.clients.len()
                &&& if known.alive(now, server.keep_alive) {
                    ||| command == event_to(known.sock, ServerEvent::ClientJoin { id, sock })
                    ||| command == event_to(
                        sock,
                        ServerEvent::ClientJoin { id: known.id, sock: known.sock },
                    )
                } else {
                    command == (Command::Remove { id: known.id })
                }
            },
{
    let newcomer = Client { id, sock, last_update: now };
    let clients = server.pool.clients;
    law_greetings(clients, newcomer, now, server.keep_alive, command);
    assert forall|i: int| 0 <= i < clients.len() implies (greeting(
        #[trigger] clients[i],
        newcomer,
        now,
        server.keep_alive,
    ).contains(command) <==> if clients[i].alive(now, server.keep_alive) {
        ||| command == event_to(clients[i].sock, ServerEvent::ClientJoin { id, sock })
        ||| command == event_to(
            sock,
            ServerEvent::ClientJoin { id: clients[i].id, sock: clients[i].sock },
        )
    } else {
        command == (Command::Remove { id: clients[i].id })
    }) by {
        let words = greeting(clients[i], newcomer, now, server.keep_alive);
        if clients[i].alive(now, server.keep_alive) {
            assert(words[0] == event_to(clients[i].sock, ServerEvent::ClientJoin { id, sock }));
            assert(words[1] == event_to(
                sock,
                ServerEvent::ClientJoin { id: clients[i].id, sock: clients[i].sock },
            ));
            assert(words.len() == 2);
        } else {
            assert(words[0] == (Command::Remove { id: clients[i].id }));
            assert(words.len() == 1);
        }
    }
}

/// After a goodbye the server knows no client at the address and none with the id that it knew
/// there; exactly the live clients that are left are told.
pub proof fn law_goodbye_forgets(
    server: ServerView,
    sock: SocketAddr,
    now: u128,
    command: Command,
)
    requires
        server.wf(),
    ensures
        ({
            let step = server.packet(to_server(ClientEvent::Goodbye), sock, now);
            &&& step.server.pool.get_by_sock(sock) is None
            &&& match server.pool.get_by_sock(sock) {
                Some(gone) => {
                    &&& step.server.pool.client(gone.id) is None
                    &&& step.commands.contains(command) <==> exists|i: int|
                        0 <= i < step.server.pool.clients.len() && (
                        #[trigger] step.server.pool.clients[i]).alive(now, server.keep_alive)
                            && command == event_to(
                            step.server.pool.clients[i].sock,
                            ServerEvent::ClientLeave { id: gone.id },
                        )
                },
                None => step.commands == Seq::<Command>::empty(),
            }
        }),
{
    crate::pool::law_remove_by_sock(server.pool, sock);
    if let Some(gone) = server.pool.get_by_sock(sock) {
        crate::pool::law_broadcast(
            server.pool.remove_by_sock(sock),
            ServerEvent::ClientLeave { id: gone.id },
            now,
            server.keep_alive,
            command,
        );
    }
}

/// A goodbye right after a hello leaves the server as it was, where neither the id nor the
/// address was known before.
pub proof fn law_goodbye_undoes_hello(
    server: ServerView,
    id: ClientId,
    sock: SocketAddr,
    now: u128,
    later: u128,
)
    requires
        server.wf(),
        server.pool.client(id) is None,
        !server.pool.sock_id.contains_key(sock),
    ensures
        server.packet(to_server(ClientEvent::Hello { id }), sock, now).server.packet(
            to_server(ClientEvent::Goodbye),
            sock,
            later,
        ).server == server,
{
    crate::pool::law_remove_undoes_add(server.pool, Client { id, sock, last_update: now });
}

/// A keep-alive from a known address counts as hearing of the client there, and nothing is sent.
pub proof fn law_keep_alive_is_noted(
    server: ServerView,
    sock: SocketAddr,
    now: u128,
    later: u128,
)
    requires
        server.wf(),
        server.pool.get_by_sock(sock) is Some,
        now <= later,
    ensures
        ({
            let step = server.packet(to_server(ClientEvent::KeepAlive), sock, now);
            &&& step.commands == Seq::<Command>::empty()
            &&& step.notice is None
            &&& step.server.pool.get_by_sock(sock) matches Some(client) && {
                &&& client.id == server.pool.get_by_sock(sock)->0.id
                &&& client.sock == server.pool.get_by_sock(sock)->0.sock
                &&& client.alive(later, server.keep_alive) <==> later - now < server.keep_alive
            }
        }),
{
    crate::pool::law_keep_alive(server.pool, sock, now);
}

/// A client that the server has forgotten is registered again by way of its next keep-alive: the
/// server answers with a goodbye and nothing else, the client answers that with a hello, and the
/// hello registers it at the address from which both came.
pub proof fn law_forgotten_client_registers_again(
    server: ServerView,
    peer: Peer,
    sock: SocketAddr,
    from: SocketAddr,
    ping: Uuid,
    now: u128,
    later: u128,
)
    requires
        server.wf(),
        server.pool.get_by_sock(sock) is None,
    ensures
        ({
            let refused = server.packet(to_server(ClientEvent::KeepAlive), sock, now);
            let goodbye = event_to(sock, ServerEvent::Goodbye);
            let hello = to_server(ClientEvent::Hello { id: peer.id });
            &&& refused.server == server
            &&& refused.commands == seq![goodbye]
            &&& server.command(goodbye, later).packet == Some(
                (sock, to_client(ServerEvent::Goodbye)),
            )
            &&& peer.reaction(to_client(ServerEvent::Goodbye), from, ping) == (Reaction::Send {
                dst: peer.server_addr,
                message: hello,
            })
            &&& server.packet(hello, sock, later).server.pool.get_by_sock(sock) == Some(
                Client { id: peer.id, sock, last_update: later },
            )
        }),
{
    law_hello_registers(server, peer.id, sock, later, later);
}

/// Removing a client by command leaves none with its id; it is told goodbye first, and then
/// exactly the live clients that are left are told that it is gone. Where the id is not known,
/// nothing happens; so a second removal does nothing.
pub proof fn law_remove_evicts(
    server: ServerView,
    id: ClientId,
    now: u128,
    later: u128,
    command: Command,
)
    requires
        server.wf(),
    ensures
        ({
            let step = server.command(Command::Remove { id }, now);
            let again = step.server.command(Command::Remove { id }, later);
            &&& step.server.pool.client(id) is None
            &&& step.packet is None
            &&& match server.pool.client(id) {
                Some(gone) => {
                    &&& step.commands.len() > 0
                    &&& step.commands[0] == event_to(gone.sock, ServerEvent::Goodbye)
                    &&& step.commands.skip(1).contains(command) <==> exists|i: int|
                        0 <= i < step.server.pool.clients.len() && (
                        #[trigger] step.server.pool.clients[i]).alive(now, server.keep_alive)
                            && command == event_to(
                            step.server.pool.clients[i].sock,
                            ServerEvent::ClientLeave { id },
                        )
                },
                None => step.commands == Seq::<Command>::empty() && step.server == server,
            }
            &&& again.server == step.server
            &&& again.commands == Seq::<Command>::empty()
            &&& again.packet is None
        }),
{
    crate::pool::law_remove_by_id(server.pool, id);
    let step = server.command(Command::Remove { id }, now);
    let pool = server.pool.remove_by_id(id);
    crate::pool::law_broadcast(
        pool,
        ServerEvent::ClientLeave { id },
        now,
        server.keep_alive,
        command,
    );
    if server.pool.client(id) is Some {
        assert(step.commands.skip(1) =~= pool.broadcast(
            ServerEvent::ClientLeave { id },
            now,
            server.keep_alive,
        ));
    }
}

/// A client that has been silent for the keep-alive time is thrown out at the next hello of
/// another one: the hello has it removed, it is still known until then, and the removal forgets it.
pub proof fn law_silent_client_is_evicted(
    server: ServerView,
    silent: Client,
    id: ClientId,
    sock: SocketAddr,
    now: u128,
    later: u128,
)
    requires
        server.wf(),
        server.pool.clients.contains(silent),
        !silent.alive(now, server.keep_alive),
        id != silent.id,
    ensures
        ({
            let hello = server.packet(to_server(ClientEvent::Hello { id }), sock, now);
            let remove = Command::Remove { id: silent.id };
            let removed = hello.server.command(remove, later);
            &&& hello.commands.contains(remove)
            &&& hello.server.pool.client(silent.id) == Some(silent)
            &&& removed.server.pool.client(silent.id) is None
            &&& removed.commands.len() > 0
            &&& removed.commands[0] == event_to(silent.sock, ServerEvent::Goodbye)
        }),
{
    let i = choose|i: int| 0 <= i < server.pool.clients.len() && server.pool.clients[i] == silent;
    let remove = Command::Remove { id: silent.id };
    law_hello_introduces(server, id, sock, now, remove);
    crate::pool::law_client(server.pool, i);
    crate::pool::law_add(server.pool, Client { id, sock, last_update: now });
    let hello = server.packet(to_server(ClientEvent::Hello { id }), sock, now);
    law_remove_evicts(hello.server, silent.id, later, later, remove);
}

/// A client that has been silent for the keep-alive time and then says hello itself is registered
/// and thrown out again: its hello has its own id removed, it is known until then, and the removal
/// forgets it and tells it goodbye at its new address.
pub proof fn law_returning_silent_client_is_evicted(
    server: ServerView,
    silent: Client,
    sock: SocketAddr,
    now: u128,
    later: u128,
)
    requires
        server.wf(),
        server.pool.clients.contains(silent),
        !silent.alive(now, server.keep_alive),
    ensures
        ({
            let hello = server.packet(
                to_server(ClientEvent::Hello { id: silent.id }),
                sock,
                now,
            );
            let newcomer = Client { id: silent.id, sock, last_update: now };
            let remove = Command::Remove { id: silent.id };
            let removed = hello.server.command(remove, later);
            &&& hello.commands.contains(remove)
            &&& hello.server.pool.client(silent.id) == Some(newcomer)
            &&& hello.server.pool.get_by_sock(sock) == Some(newcomer)
            &&& removed.server.pool.client(silent.id) is None
            &&& removed.server.pool.get_by_sock(sock) is None
            &&& removed.commands.len() > 0
            &&& removed.commands[0] == event_to(sock, ServerEvent::Goodbye)
        }),
{
    let i = choose|i: int| 0 <= i < server.pool.clients.len() && server.pool.clients[i] == silent;
    let remove = Command::Remove { id: silent.id };
    law_hello_introduces(server, silent.id, sock, now, remove);
    law_hello_registers(server, silent.id, sock, now, now);
    let message = to_server(ClientEvent::Hello { id: silent.id });
    law_packet_keeps_valid(server, message, sock, now);
    let hello = server.packet(message, sock, now);
    law_remove_evicts(hello.server, silent.id, later, later, remove);
    crate::pool::law_remove_by_id(hello.server.pool, silent.id);
}

/// A message that only a client can handle changes nothing on the server and is only reported.
pub proof fn law_server_ignores_foreign(
    server: ServerView,
    message: Message,
    sock: SocketAddr,
    now: u128,
)
    requires
        !(message is Client2Server),
    ensures
        server.packet(message, sock, now).server == server,
        server.packet(message, sock, now).commands == Seq::<Command>::empty(),
        server.packet(message, sock, now).notice == Some(
            crate::server::ServerNotice::NotForServer { sock },
        ),
{
}

/// A command that sends leads to exactly that message, to the address that it names, and to
/// nothing else.
pub proof fn law_send_is_carried_out(
    server: ServerView,
    dst: SocketAddr,
    event: ServerEvent,
    now: u128,
)
    ensures
        server.command(event_to(dst, event), now).server == server,
        server.command(event_to(dst, event), now).commands == Seq::<Command>::empty(),
        server.command(event_to(dst, event), now).packet == Some((dst, to_client(event))),
{
}

/// What the server is for: when a client says hello, it and every other client that is alive are
/// each sent the other's address, and each of the two pings the other there.
pub proof fn law_clients_meet(
    server: ServerView,
    known: Client,
    old_peer: Peer,
    new_peer: Peer,
    sock: SocketAddr,
    from: SocketAddr,
    ping: Uuid,
    now: u128,
    later: u128,
)
    requires
        server.pool.clients.contains(known),
        known.alive(now, server.keep_alive),
        old_peer.id == known.id,
        new_peer.id != known.id,
    ensures
        ({
            let hello = to_server(ClientEvent::Hello { id: new_peer.id });
            let commands = server.packet(hello, sock, now).commands;
            let newcomer_joins = ServerEvent::ClientJoin { id: new_peer.id, sock };
            let known_joins = ServerEvent::ClientJoin { id: known.id, sock: known.sock };
            let pinging = Message::Client2Client(MessageClient2Client::Ping(ping));
            &&& commands.contains(event_to(known.sock, newcomer_joins))
            &&& commands.contains(event_to(sock, known_joins))
            &&& server.command(event_to(known.sock, newcomer_joins), later).packet == Some(
                (known.sock, to_client(newcomer_joins)),
            )
            &&& server.command(event_to(sock, known_joins), later).packet == Some(
                (sock, to_client(known_joins)),
            )
            &&& old_peer.reaction(to_client(newcomer_joins), from, ping) == (Reaction::Send {
                dst: sock,
                message: pinging,
            })
            &&& new_peer.reaction(to_client(known_joins), from, ping) == (Reaction::Send {
                dst: known.sock,
                message: pinging,
            })
        }),
{
    let i = choose|i: int| 0 <= i < server.pool.clients.len() && server.pool.clients[i] == known;
    let id = new_peer.id;
    law_hello_introduces(
        server,
        id,
        sock,
        now,
        event_to(known.sock, ServerEvent::ClientJoin { id, sock }),
    );
    law_hello_introduces(
        server,
        id,
        sock,
        now,
        event_to(sock, ServerEvent::ClientJoin { id: known.id, sock: known.sock }),
    );
}

/// A ping is answered to its sender by a pong that carries the same, and a pong is not answered:
/// the exchange ends there.
pub proof fn law_ping_pong(
    pinged: Peer,
    pinger: Peer,
    pinger_addr: SocketAddr,
    pinged_addr: SocketAddr,
    uuid: Uuid,
    ping: Uuid,
)
    ensures
        pinged.reaction(
            Message::Client2Client(MessageClient2Client::Ping(uuid)),
            pinger_addr,
            ping,
        ) == (Reaction::Send {
            dst: pinger_addr,
            message: Message::Client2Client(MessageClient2Client::Pong(uuid)),
        }),
        pinger.reaction(
            Message::Client2Client(MessageClient2Client::Pong(uuid)),
            pinged_addr,
            ping,
        ) == Reaction::Nothing,
{
}

/// A client does not ping itself: it makes nothing of hearing that it joined.
pub proof fn law_own_join_is_ignored(
    peer: Peer,
    sock: SocketAddr,
    addr: SocketAddr,
    ping: Uuid,
)
    ensures
        peer.reaction(
            to_client(ServerEvent::ClientJoin { id: peer.id, sock }),
            addr,
            ping,
        ) == Reaction::Nothing,
{
}

} // verus!
