use p2p_test::clock::Clock;
use p2p_test::pool::{Client, Command};
use p2p_test::server::{Server, ServerNotice};
use p2p_test::{
    ClientEvent, ClientId, Message, MessageClient2Client, MessageClient2Server,
    MessageServer2Client, RecvMessageError, ServerEvent, SocketAddr, Uuid,
};

const SECOND: u128 = 1_000_000_000;

fn id(n: u8) -> ClientId {
    ClientId([n; 32])
}

fn sock(port: u16) -> SocketAddr {
    SocketAddr::V4 { ip: 0x0a00_0001, port }
}

fn from_client(event: ClientEvent) -> Message {
    Message::Client2Server(MessageClient2Server::Event(event))
}

fn send(port: u16, event: ServerEvent) -> Command {
    Command::Send { dst: sock(port), message: MessageServer2Client::Event(event) }
}

fn join(n: u8, port: u16) -> ServerEvent {
    ServerEvent::ClientJoin { id: id(n), sock: sock(port) }
}

fn packet(server: &mut Server, event: ClientEvent, port: u16, now: u128) -> Vec<Command> {
    let mut tx = Vec::new();
    let notice = server.handle_packet(from_client(event), sock(port), now, &mut tx);
    assert!(notice.is_none());
    tx
}

fn hello(server: &mut Server, n: u8, port: u16, now: u128) -> Vec<Command> {
    packet(server, ClientEvent::Hello { id: id(n) }, port, now)
}

#[test]
fn hello_registers_and_introduces() {
    let mut server = Server::new(10);
    assert!(hello(&mut server, 1, 1, 0).is_empty());
    assert_eq!(hello(&mut server, 2, 2, SECOND), vec![send(1, join(2, 2)), send(2, join(1, 1))]);
    assert_eq!(
        hello(&mut server, 3, 3, 2 * SECOND),
        vec![
            send(1, join(3, 3)),
            send(3, join(1, 1)),
            send(2, join(3, 3)),
            send(3, join(2, 2)),
        ]
    );
    assert_eq!(
        server.clients().get_by_sock(&sock(3)),
        Some(&Client { id: id(3), sock: sock(3), last_update: 2 * SECOND })
    );
}

#[test]
fn keep_alive_time_is_in_seconds() {
    let mut server = Server::new(10);
    hello(&mut server, 1, 1, 0);
    assert_eq!(hello(&mut server, 2, 2, 10 * SECOND - 1).len(), 2);
    let mut server = Server::new(10);
    hello(&mut server, 1, 1, 0);
    assert_eq!(hello(&mut server, 2, 2, 10 * SECOND), vec![Command::Remove { id: id(1) }]);
    let mut server = Server::new(u64::MAX);
    hello(&mut server, 1, 1, 0);
    assert_eq!(hello(&mut server, 2, 2, u64::MAX as u128 * SECOND - 1).len(), 2);
}

#[test]
fn silent_client_is_evicted() {
    let mut server = Server::new(10);
    hello(&mut server, 1, 1, 0);
    hello(&mut server, 2, 2, 5 * SECOND);
    let tx = hello(&mut server, 3, 3, 12 * SECOND);
    assert_eq!(
        tx,
        vec![Command::Remove { id: id(1) }, send(2, join(3, 3)), send(3, join(2, 2))]
    );
    let mut more = Vec::new();
    let sent = server.handle_command(tx[0], 12 * SECOND, &mut more);
    assert_eq!(sent, None);
    let leave = ServerEvent::ClientLeave { id: id(1) };
    assert_eq!(more, vec![send(1, ServerEvent::Goodbye), send(2, leave), send(3, leave)]);
    assert_eq!(server.clients().get_by_sock(&sock(1)), None);
    let mut again = Vec::new();
    assert_eq!(server.handle_command(tx[0], 12 * SECOND, &mut again), None);
    assert!(again.is_empty());
}

#[test]
fn returning_client_is_told_of_itself_or_has_itself_removed() {
    let mut server = Server::new(10);
    hello(&mut server, 1, 1, 0);
    assert_eq!(hello(&mut server, 1, 2, SECOND), vec![send(1, join(1, 2)), send(2, join(1, 1))]);
    let tx = hello(&mut server, 1, 3, 20 * SECOND);
    assert_eq!(tx, vec![Command::Remove { id: id(1) }]);
    assert_eq!(
        server.clients().iter(),
        &[Client { id: id(1), sock: sock(3), last_update: 20 * SECOND }]
    );
    let mut more = Vec::new();
    assert_eq!(server.handle_command(tx[0], 20 * SECOND, &mut more), None);
    assert_eq!(more, vec![send(3, ServerEvent::Goodbye)]);
    assert!(server.clients().iter().is_empty());
    assert_eq!(server.clients().get_by_sock(&sock(3)), None);
}

#[test]
fn goodbye_is_passed_on_to_the_others() {
    let mut server = Server::new(10);
    hello(&mut server, 1, 1, 0);
    hello(&mut server, 2, 2, 0);
    hello(&mut server, 3, 3, 5 * SECOND);
    let leave = ServerEvent::ClientLeave { id: id(3) };
    let tx = packet(&mut server, ClientEvent::Goodbye, 3, 6 * SECOND);
    assert_eq!(tx, vec![send(1, leave), send(2, leave)]);
    assert_eq!(server.clients().get_by_sock(&sock(3)), None);
    assert!(packet(&mut server, ClientEvent::Goodbye, 3, 6 * SECOND).is_empty());
    let tx = packet(&mut server, ClientEvent::Goodbye, 2, 11 * SECOND);
    assert!(tx.is_empty());
}

#[test]
fn goodbye_undoes_hello() {
    let mut server = Server::new(10);
    hello(&mut server, 1, 1, 0);
    let before = server.clients().iter().to_vec();
    hello(&mut server, 2, 2, 1);
    packet(&mut server, ClientEvent::Goodbye, 2, 2);
    assert_eq!(server.clients().iter(), before.as_slice());
    assert_eq!(server.clients().get_by_sock(&sock(2)), None);
}

#[test]
fn keep_alive_keeps_a_client_alive() {
    let mut server = Server::new(10);
    hello(&mut server, 1, 1, 0);
    assert!(packet(&mut server, ClientEvent::KeepAlive, 1, 9 * SECOND).is_empty());
    assert_eq!(
        hello(&mut server, 2, 2, 18 * SECOND),
        vec![send(1, join(2, 2)), send(2, join(1, 1))]
    );
}

#[test]
fn keep_alive_of_an_unknown_client_is_answered_by_goodbye() {
    let mut server = Server::new(10);
    let mut tx = Vec::new();
    let notice =
        server.handle_packet(from_client(ClientEvent::KeepAlive), sock(4), 0, &mut tx);
    assert!(matches!(notice, Some(ServerNotice::UnknownKeepAlive { sock: s }) if s == sock(4)));
    assert_eq!(tx, vec![send(4, ServerEvent::Goodbye)]);
    assert!(server.clients().iter().is_empty());
}

#[test]
fn messages_for_clients_are_only_reported() {
    let mut server = Server::new(10);
    hello(&mut server, 1, 1, 0);
    for message in [
        Message::Server2Client(MessageServer2Client::Event(ServerEvent::Goodbye)),
        Message::Client2Client(MessageClient2Client::Ping(Uuid(1))),
        Message::Client2Client(MessageClient2Client::Pong(Uuid(1))),
    ] {
        let mut tx = Vec::new();
        let notice = server.handle_packet(message, sock(1), 5, &mut tx);
        assert!(matches!(notice, Some(ServerNotice::NotForServer { sock: s }) if s == sock(1)));
        assert!(tx.is_empty());
        assert_eq!(server.clients().iter().len(), 1);
    }
}

#[test]
fn send_command_gives_the_packet_to_send() {
    let mut server = Server::new(10);
    let mut tx = Vec::new();
    let sent = server.handle_command(send(7, join(1, 1)), 0, &mut tx);
    let message = Message::Server2Client(MessageServer2Client::Event(join(1, 1)));
    assert_eq!(sent, Some((sock(7), message)));
    assert!(tx.is_empty());
}

#[test]
fn stream_items_are_told_apart() {
    let mut server = Server::new(10);
    let mut tx = Vec::new();
    assert!(server.handle_received(None, 0, &mut tx).is_none());
    let error = RecvMessageError::Check("bad".to_string());
    let notice = server.handle_received(Some(Err(error)), 0, &mut tx);
    assert!(matches!(
        notice,
        Some(ServerNotice::Recv(RecvMessageError::Check(text))) if text == "bad"
    ));
    assert!(tx.is_empty());
    let item = Some(Ok((from_client(ClientEvent::Hello { id: id(1) }), sock(1))));
    assert!(server.handle_received(item, 0, &mut tx).is_none());
    assert_eq!(server.clients().iter().len(), 1);
}

#[test]
fn commands_are_added_behind_those_that_wait() {
    let mut server = Server::new(10);
    let mut tx = vec![Command::Remove { id: id(9) }];
    server.handle_packet(from_client(ClientEvent::KeepAlive), sock(4), 0, &mut tx);
    assert_eq!(tx, vec![Command::Remove { id: id(9) }, send(4, ServerEvent::Goodbye)]);
}

#[test]
fn clock_runs_forward() {
    let clock = Clock::start();
    let first = clock.now();
    let start = std::time::Instant::now();
    while start.elapsed() < std::time::Duration::from_millis(5) {}
    let second = clock.now();
    assert!(second >= first + 5_000_000);
    assert!(second < first + 15 * SECOND);
}

#[test]
fn server_runs_by_the_clock() {
    let clock = Clock::start();
    let mut server = Server::new(3600);
    let mut tx = Vec::new();
    let item = |n: u8| Some(Ok((from_client(ClientEvent::Hello { id: id(n) }), sock(n as u16))));
    assert!(server.receive(item(1), &clock, &mut tx).is_none());
    assert!(server.receive(item(2), &clock, &mut tx).is_none());
    assert_eq!(tx, vec![send(1, join(2, 2)), send(2, join(1, 1))]);
    assert!(server.clients().iter()[0].last_update <= server.clients().iter()[1].last_update);
    let mut more = Vec::new();
    assert_eq!(server.execute(Command::Remove { id: id(1) }, &clock, &mut more), None);
    assert_eq!(
        more,
        vec![send(1, ServerEvent::Goodbye), send(2, ServerEvent::ClientLeave { id: id(1) })]
    );
    let mut server = Server::new(0);
    let mut tx = Vec::new();
    server.receive(item(1), &clock, &mut tx);
    server.receive(item(2), &clock, &mut tx);
    assert_eq!(tx, vec![Command::Remove { id: id(1) }]);
}
