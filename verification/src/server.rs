//! What the server does with the packets that it receives and the commands that it has queued.

use vstd::prelude::*;

use crate::addr::SocketAddr;
use crate::client_id::ClientId;
use crate::clock::Clock;
use crate::message::ClientEvent;
use crate::message::Message;
use crate::message::MessageClient2Server;
use crate::message::MessageServer2Client;
use crate::message::ServerEvent;
use crate::packet::RecvMessageError;
use crate::pool::event_to;
use crate::pool::Client;
use crate::pool::ClientPool;
use crate::pool::Command;
use crate::pool::PoolView;

verus! {

/// What the server has to report in its log.
#[derive(Debug)]
pub enum ServerNotice {
    /// A keep-alive came from an address at which no client is known.
    UnknownKeepAlive { sock: SocketAddr },
    /// A message came that only a client can handle.
    NotForServer { sock: SocketAddr },
    /// No message could be received.
    Recv(RecvMessageError),
}

/// The server as its clients and the time after which a silent one counts as gone.
pub struct ServerView {
    pub pool: PoolView,
    pub keep_alive: u128,
}

/// What comes of a packet: the server after it, the commands to queue, and what to report.
pub struct PacketStep {
    pub server: ServerView,
    pub commands: Seq<Command>,
    pub notice: Option<ServerNotice>,
}

/// What comes of a command: the server after it, the commands to queue, and the message to send.
pub struct CommandStep {
    pub server: ServerView,
    pub commands: Seq<Command>,
    pub packet: Option<(SocketAddr, Message)>,
}

/// The commands that make `newcomer` and `known` aware of each other if `known` is alive at `now`,
/// and that have `known` removed if it is not.
pub open spec fn greeting(known: Client, newcomer: Client, now: u128, keep_alive: u128) -> Seq<
    Command,
> {
    if known.alive(now, keep_alive) {
        seq![
            event_to(
                known.sock,
                ServerEvent::ClientJoin { id: newcomer.id, sock: newcomer.sock },
            ),
            event_to(newcomer.sock, ServerEvent::ClientJoin { id: known.id, sock: known.sock }),
        ]
    } else {
        seq![Command::Remove { id: known.id }]
    }
}

/// The greetings of `newcomer` with each of `known` in turn.
pub open spec fn greetings(
    known: Seq<Client>,
    newcomer: Client,
    now: u128,
    keep_alive: u128,
) -> Seq<Command>
    decreases known.len(),
{
    if known.len() == 0 {
        Seq::empty()
    } else {
        greetings(known.drop_last(), newcomer, now, keep_alive) + greeting(
            known.last(),
            newcomer,
            now,
            keep_alive,
        )
    }
}

impl ServerView {
    pub open spec fn wf(self) -> bool {
        self.pool.wf()
    }

    pub open spec fn with_pool(self, pool: PoolView) -> ServerView {
        ServerView { pool, ..self }
    }

    /// A client says hello: it and the clients that are alive learn of each other, those that are
    /// not are to be removed, and it is registered.
    pub open spec fn hello(self, id: ClientId, sock: SocketAddr, now: u128) -> PacketStep {
        let newcomer = Client { id, sock, last_update: now };
        PacketStep {
            server: self.with_pool(self.pool.add(newcomer)),
            commands: greetings(self.pool.clients, newcomer, now, self.keep_alive),
            notice: None,
        }
    }

    /// A client says goodbye: it is forgotten, and the live clients learn of it.
    pub open spec fn goodbye(self, sock: SocketAddr, now: u128) -> PacketStep {
        let pool = self.pool.remove_by_sock(sock);
        PacketStep {
            server: self.with_pool(pool),
            commands: match self.pool.get_by_sock(sock) {
                Some(gone) => pool.broadcast(
                    ServerEvent::ClientLeave { id: gone.id },
                    now,
                    self.keep_alive,
                ),
                None => Seq::empty(),
            },
            notice: None,
        }
    }

    /// A client says that it is still there: that is noted, or, if no client is known at this
    /// address, answered by a goodbye.
    pub open spec fn still_there(self, sock: SocketAddr, now: u128) -> PacketStep {
        match self.pool.get_by_sock(sock) {
            Some(_) => PacketStep {
                server: self.with_pool(self.pool.keep_alive(sock, now)),
                commands: Seq::empty(),
                notice: None,
            },
            None => PacketStep {
                server: self,
                commands: seq![event_to(sock, ServerEvent::Goodbye)],
                notice: Some(ServerNotice::UnknownKeepAlive { sock }),
            },
        }
    }

    /// What comes of `message` from `sock`.
    pub open spec fn packet(self, message: Message, sock: SocketAddr, now: u128) -> PacketStep {
        match message {
            Message::Client2Server(MessageClient2Server::Event(event)) => match event {
                ClientEvent::Hello { id } => self.hello(id, sock, now),
                ClientEvent::Goodbye => self.goodbye(sock, now),
                ClientEvent::KeepAlive => self.still_there(sock, now),
            },
            _ => PacketStep {
                server: self,
                commands: Seq::empty(),
                notice: Some(ServerNotice::NotForServer { sock }),
            },
        }
    }

    /// What comes of the next item of the stream of messages.
    pub open spec fn received(
        self,
        item: Option<Result<(Message, SocketAddr), RecvMessageError>>,
        now: u128,
    ) -> PacketStep {
        match item {
            Some(Ok((message, sock))) => self.packet(message, sock, now),
            Some(Err(error)) => PacketStep {
                server: self,
                commands: Seq::empty(),
                notice: Some(ServerNotice::Recv(error)),
            },
            None => PacketStep { server: self, commands: Seq::empty(), notice: None },
        }
    }

    /// What comes of a queued command.
    pub open spec fn command(self, command: Command, now: u128) -> CommandStep {
        match command {
            Command::Send { dst, message } => CommandStep {
                server: self,
                commands: Seq::empty(),
                packet: Some((dst, Message::Server2Client(message))),
            },
            Command::Remove { id } => {
                let pool = self.pool.remove_by_id(id);
                CommandStep {
                    server: self.with_pool(pool),
                    commands: match self.pool.client(id) {
                        Some(removed) => seq![event_to(removed.sock, ServerEvent::Goodbye)]
                            + pool.broadcast(
                            ServerEvent::ClientLeave { id },
                            now,
                            self.keep_alive,
                        ),
                        None => Seq::empty(),
                    },
                    packet: None,
                }
            },
        }
    }
}

/// The server's state.
pub struct Server {
    clients: ClientPool,
    keep_alive: u128,
}

impl View for Server {
    type V = ServerView;

    closed spec fn view(&self) -> ServerView {
        ServerView { pool: self.clients@, keep_alive: self.keep_alive }
    }
}

impl Server {
    pub open spec fn wf(&self) -> bool {
        self@.wf() && self.parts_wf()
    }

    pub closed spec fn parts_wf(&self) -> bool {
        self.clients.wf()
    }

    /// A server without clients, for which a client counts as gone after `keep_alive_secs` seconds
    /// of silence.
    pub fn new(keep_alive_secs: u64) -> (server: Server)
        ensures
            server.wf(),
            server@.pool == (PoolView { clients: Seq::empty(), sock_id: Map::empty() }),
            server@.keep_alive == keep_alive_secs * 1_000_000_000,
    {
        Server {
            clients: ClientPool::default(),
            keep_alive: keep_alive_secs as u128 * 1_000_000_000,
        }
    }

    /// The clients that the server knows.
    pub fn clients(&self) -> (clients: &ClientPool)
        requires
            self.wf(),
        ensures
            clients.wf(),
            clients@ == self@.pool,
    {
        &self.clients
    }

    fn greet_all(&self, newcomer: &Client, now: u128, tx: &mut Vec<Command>)
        ensures
            final(tx)@ == old(tx)@ + greetings(
                self@.pool.clients,
                *newcomer,
                now,
                self@.keep_alive,
            ),
    {
        let known = self.clients.iter();
        let mut i: usize = 0;
        assert(known@.take(0) =~= Seq::empty());
        while i < known.len()
            invariant
                i <= known@.len(),
                tx@ =~= old(tx)@ + greetings(
                    known@.take(i as int),
                    *newcomer,
                    now,
                    self.keep_alive,
                ),
            decreases known@.len() - i,
        {
            let client = &known[i];
            assert(known@.take(i + 1).drop_last() =~= known@.take(i as int));
            if client.is_alive(now, self.keep_alive) {
                client.send(
                    MessageServer2Client::Event(
                        ServerEvent::ClientJoin { id: newcomer.id, sock: newcomer.sock },
                    ),
                    tx,
                );
                newcomer.send(
                    MessageServer2Client::Event(
                        ServerEvent::ClientJoin { id: client.id, sock: client.sock },
                    ),
                    tx,
                );
            } else {
                tx.push(Command::Remove { id: client.id });
            }
            i += 1;
        }
        assert(known@.take(known@.len() as int) =~= known@);
    }

    /// Handles `message`, which came from `sock` at `now`. The commands that come of it are added
    /// to `tx`.
    pub fn handle_packet(
        &mut self,
        message: Message,
        sock: SocketAddr,
        now: u128,
        tx: &mut Vec<Command>,
    ) -> (notice: Option<ServerNotice>)
        requires
            old(self).wf(),
        ensures
            final(self).wf(),
            final(self)@ == old(self)@.packet(message, sock, now).server,
            final(tx)@ == old(tx)@ + old(self)@.packet(message, sock, now).commands,
            notice == old(self)@.packet(message, sock, now).notice,
    {
        match message {
            Message::Client2Server(MessageClient2Server::Event(event)) => match event {
                ClientEvent::Hello { id } => {
                    let newcomer = Client::new(id, sock, now);
                    self.greet_all(&newcomer, now, tx);
                    self.clients.add(newcomer);
                    None
                },
                ClientEvent::Goodbye => {
                    if let Some(removed) = self.clients.remove_by_sock(&sock) {
                        self.clients.broadcast(
                            ServerEvent::ClientLeave { id: removed.id },
                            now,
                            self.keep_alive,
                            tx,
                        );
                    }
                    None
                },
                ClientEvent::KeepAlive => {
                    if self.clients.keep_alive(&sock, now) {
                        None
                    } else {
                        tx.push(
                            Command::Send {
                                dst: sock,
                                message: MessageServer2Client::Event(ServerEvent::Goodbye),
                            },
                        );
                        Some(ServerNotice::UnknownKeepAlive { sock })
                    }
                },
            },
            Message::Server2Client(_) | Message::Client2Client(_) => {
                Some(ServerNotice::NotForServer { sock })
            },
        }
    }

    /// Handles the next item of the stream of messages, which came at `now`.
    pub fn handle_received(
        &mut self,
        item: Option<Result<(Message, SocketAddr), RecvMessageError>>,
        now: u128,
        tx: &mut Vec<Command>,
    ) -> (notice: Option<ServerNotice>)
        requires
            old(self).wf(),
        ensures
            final(self).wf(),
            final(self)@ == old(self)@.received(item, now).server,
            final(tx)@ == old(tx)@ + old(self)@.received(item, now).commands,
            notice == old(self)@.received(item, now).notice,
    {
        match item {
            Some(Ok((message, sock))) => self.handle_packet(message, sock, now, tx),
            Some(Err(error)) => Some(ServerNotice::Recv(error)),
            None => None,
        }
    }

    /// Handles the next item of the stream of messages. The clock is read once, so all clients
    /// are judged by the same time, whatever the clock reads.
    pub fn receive(
        &mut self,
        item: Option<Result<(Message, SocketAddr), RecvMessageError>>,
        clock: &Clock,
        tx: &mut Vec<Command>,
    ) -> (notice: Option<ServerNotice>)
        requires
            old(self).wf(),
        ensures
            final(self).wf(),
            exists|now: u128|
                {
                    let step = #[trigger] old(self)@.received(item, now);
                    &&& clock.may_read(now)
                    &&& final(self)@ == step.server
                    &&& final(tx)@ == old(tx)@ + step.commands
                    &&& notice == step.notice
                },
    {
        self.handle_received(item, clock.now(), tx)
    }

    /// Handles a queued command at `now`. The commands that come of it are added to `tx`; a
    /// message that is to be sent is returned.
    pub fn handle_command(&mut self, command: Command, now: u128, tx: &mut Vec<Command>) -> (packet:
        Option<(SocketAddr, Message)>)
        requires
            old(self).wf(),
        ensures
            final(self).wf(),
            final(self)@ == old(self)@.command(command, now).server,
            final(tx)@ == old(tx)@ + old(self)@.command(command, now).commands,
            packet == old(self)@.command(command, now).packet,
    {
        match command {
            Command::Send { dst, message } => Some((dst, Message::Server2Client(message))),
            Command::Remove { id } => {
                if let Some(removed) = self.clients.remove_by_id(&id) {
                    removed.send(MessageServer2Client::Event(ServerEvent::Goodbye), tx);
                    self.clients.broadcast(
                        ServerEvent::ClientLeave { id },
                        now,
                        self.keep_alive,
                        tx,
                    );
                }
                None
            },
        }
    }

    /// Handles a queued command. The clock is read once, so all clients are judged by the same
    /// time, whatever the clock reads.
    pub fn execute(&mut self, command: Command, clock: &Clock, tx: &mut Vec<Command>) -> (packet:
        Option<(SocketAddr, Message)>)
        requires
            old(self).wf(),
        ensures
            final(self).wf(),
            exists|now: u128|
                {
                    let step = #[trigger] old(self)@.command(command, now);
                    &&& clock.may_read(now)
                    &&& final(self)@ == step.server
                    &&& final(tx)@ == old(tx)@ + step.commands
                    &&& packet == step.packet
                },
    {
        self.handle_command(command, clock.now(), tx)
    }
}

} // verus!
