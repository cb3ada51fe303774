use p2p_test::peer::{Peer, PeerNotice, Reaction};
use p2p_test::pool::Client;
use p2p_test::server::Server;
use p2p_test::{
    ClientEvent, ClientId, Message, MessageClient2Client, MessageClient2Server,
    MessageServer2Client, RecvMessageError, ServerEvent, SocketAddr, Uuid,
};

fn id(n: u8) -> ClientId {
    ClientId([n; 32])
}

fn sock(port: u16) -> SocketAddr {
    SocketAddr::V4 { ip: 0x0a00_0001, port }
}

fn peer(n: u8) -> Peer {
    Peer { id: id(n), server_addr: sock(9999) }
}

fn from_server(event: ServerEvent) -> Message {
    Message::Server2Client(MessageServer2Client::Event(event))
}

fn hello(n: u8) -> Message {
    Message::Client2Server(MessageClient2Server::Event(ClientEvent::Hello { id: id(n) }))
}

fn sent(reaction: Reaction) -> (SocketAddr, Message) {
    match reaction {
        Reaction::Send { dst, message } => (dst, message),
        other => panic!("{:?}", other),
    }
}

#[test]
fn debug_shows_uuids_in_their_usual_form() {
    let ping = MessageClient2Client::Ping(Uuid(0xa1a2a3a4_b1b2_71c2_91d2_d3d4d5d6d7d8));
    assert_eq!(format!("{:?}", ping), "Ping(a1a2a3a4-b1b2-71c2-91d2-d3d4d5d6d7d8)");
}

#[test]
fn packets_of_its_own_go_to_the_server() {
    assert_eq!(peer(1).hello(), (sock(9999), hello(1)));
    let keep_alive =
        Message::Client2Server(MessageClient2Server::Event(ClientEvent::KeepAlive));
    assert_eq!(peer(1).keep_alive(), (sock(9999), keep_alive));
}

#[test]
fn id_is_the_given_one_or_random() {
    let text: String = id(3).into();
    assert_eq!(Peer::new(Some(text.as_str()), sock(1)), Peer { id: id(3), server_addr: sock(1) });
    let a = Peer::new(Some("no id"), sock(1));
    let b = Peer::new(None, sock(1));
    assert_eq!(a.server_addr, sock(1));
    assert_ne!(a.id, b.id);
}

#[test]
fn another_client_that_joins_is_pinged() {
    let join = from_server(ServerEvent::ClientJoin { id: id(2), sock: sock(2) });
    let reaction = peer(1).handle_packet(join, sock(9999), Uuid(77));
    let ping = Message::Client2Client(MessageClient2Client::Ping(Uuid(77)));
    assert_eq!(sent(reaction), (sock(2), ping));
}

#[test]
fn own_join_and_leaving_clients_are_ignored() {
    let join = from_server(ServerEvent::ClientJoin { id: id(1), sock: sock(2) });
    assert!(matches!(peer(1).handle_packet(join, sock(9999), Uuid(77)), Reaction::Nothing));
    let leave = from_server(ServerEvent::ClientLeave { id: id(2) });
    assert!(matches!(peer(1).handle_packet(leave, sock(9999), Uuid(77)), Reaction::Nothing));
}

#[test]
fn goodbye_is_answered_by_hello_to_the_server() {
    let goodbye = from_server(ServerEvent::Goodbye);
    let reaction = peer(1).handle_packet(goodbye, sock(5), Uuid(77));
    assert_eq!(sent(reaction), (sock(9999), hello(1)));
}

#[test]
fn ping_is_answered_by_pong_and_pong_by_nothing() {
    let ping = Message::Client2Client(MessageClient2Client::Ping(Uuid(5)));
    let pong = Message::Client2Client(MessageClient2Client::Pong(Uuid(5)));
    assert_eq!(sent(peer(1).handle_packet(ping, sock(2), Uuid(77))), (sock(2), pong));
    assert!(matches!(peer(2).handle_packet(pong, sock(1), Uuid(77)), Reaction::Nothing));
}

#[test]
fn messages_for_the_server_are_only_reported() {
    let reaction = peer(1).handle_packet(hello(2), sock(2), Uuid(77));
    assert!(matches!(reaction, Reaction::Report(PeerNotice::NotForClient)));
}

#[test]
fn client_tells_stream_items_apart() {
    assert!(matches!(peer(1).handle_received(None, Uuid(77)), Reaction::Nothing));
    let error = RecvMessageError::Check("bad".to_string());
    assert!(matches!(
        peer(1).handle_received(Some(Err(error)), Uuid(77)),
        Reaction::Report(PeerNotice::Recv(RecvMessageError::Check(text))) if text == "bad"
    ));
    let item = Some(Ok((from_server(ServerEvent::Goodbye), sock(5))));
    assert_eq!(sent(peer(1).handle_received(item, Uuid(77))), (sock(9999), hello(1)));
}

#[test]
fn pings_carry_fresh_version_7_uuids() {
    let join =
        || Some(Ok((from_server(ServerEvent::ClientJoin { id: id(2), sock: sock(2) }), sock(9))));
    assert!(peer(1).will_ping(&join()));
    assert!(!peer(2).will_ping(&join()));
    let mut last = 0u128;
    for _ in 0..10 {
        let (dst, message) = sent(peer(1).receive(join()));
        assert_eq!(dst, sock(2));
        let uuid = match message {
            Message::Client2Client(MessageClient2Client::Ping(uuid)) => uuid,
            other => panic!("{:?}", other),
        };
        assert_eq!(uuid::Uuid::from_u128(uuid.0).get_version_num(), 7);
        assert_eq!(uuid::Uuid::from_u128(uuid.0).get_variant(), uuid::Variant::RFC4122);
        assert!(uuid.0 > last);
        last = uuid.0;
    }
    assert!(matches!(peer(2).receive(join()), Reaction::Nothing));
    let ping = Some(Ok((Message::Client2Client(MessageClient2Client::Ping(Uuid(5))), sock(3))));
    let pong = Message::Client2Client(MessageClient2Client::Pong(Uuid(5)));
    assert_eq!(sent(peer(1).receive(ping)), (sock(3), pong));
}

#[test]
fn forgotten_client_registers_again() {
    let mut server = Server::new(10);
    let client = peer(1);
    let mut tx = Vec::new();
    let (_, keep_alive) = client.keep_alive();
    assert!(server.handle_packet(keep_alive, sock(1), 0, &mut tx).is_some());
    assert_eq!(tx.len(), 1);
    let (dst, goodbye) = server.handle_command(tx[0], 1, &mut Vec::new()).unwrap();
    assert_eq!(dst, sock(1));
    let (dst, again) = sent(client.handle_packet(goodbye, sock(9999), Uuid(77)));
    assert_eq!(dst, sock(9999));
    assert!(server.handle_packet(again, sock(1), 2, &mut Vec::new()).is_none());
    assert_eq!(
        server.clients().get_by_sock(&sock(1)),
        Some(&Client { id: id(1), sock: sock(1), last_update: 2 })
    );
}

#[test]
fn clients_meet() {
    let mut server = Server::new(10);
    let (first, second) = (peer(1), peer(2));
    server.handle_packet(first.hello().1, sock(1), 0, &mut Vec::new());
    let mut tx = Vec::new();
    server.handle_packet(second.hello().1, sock(2), 1, &mut tx);
    assert_eq!(tx.len(), 2);
    let to_first = server.handle_command(tx[0], 2, &mut Vec::new()).unwrap();
    let to_second = server.handle_command(tx[1], 2, &mut Vec::new()).unwrap();
    assert_eq!((to_first.0, to_second.0), (sock(1), sock(2)));
    let ping = Message::Client2Client(MessageClient2Client::Ping(Uuid(77)));
    assert_eq!(sent(first.handle_packet(to_first.1, sock(9999), Uuid(77))), (sock(2), ping));
    assert_eq!(sent(second.handle_packet(to_second.1, sock(9999), Uuid(77))), (sock(1), ping));
}
