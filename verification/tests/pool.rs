use p2p_test::pool::{Client, ClientPool, Command};
use p2p_test::sock_table::SockTable;
use p2p_test::{ClientId, MessageServer2Client, ServerEvent, SocketAddr};

fn id(n: u8) -> ClientId {
    ClientId([n; 32])
}

fn sock(port: u16) -> SocketAddr {
    SocketAddr::V4 { ip: 0x0a00_0001, port }
}

fn pool(clients: &[Client]) -> ClientPool {
    let mut pool = ClientPool::default();
    for client in clients {
        pool.add(*client);
    }
    pool
}

fn send(port: u16, event: ServerEvent) -> Command {
    Command::Send { dst: sock(port), message: MessageServer2Client::Event(event) }
}

#[test]
fn client_is_alive_until_the_time_is_up() {
    let mut client = Client::new(id(1), sock(1), 100);
    assert!(client.is_alive(100, 10));
    assert!(client.is_alive(109, 10));
    assert!(!client.is_alive(110, 10));
    assert!(client.is_alive(50, 10));
    assert!(!client.is_alive(100, 0));
    assert!(!client.is_alive(50, 0));
    client.keep_alive(110);
    assert!(client.is_alive(119, 10));
    assert!(!client.is_alive(120, 10));
    assert_eq!(client, Client { id: id(1), sock: sock(1), last_update: 110 });
}

#[test]
fn message_to_a_client_goes_to_its_address() {
    let mut tx = vec![Command::Remove { id: id(9) }];
    let client = Client::new(id(1), sock(1), 0);
    client.send(MessageServer2Client::Event(ServerEvent::Goodbye), &mut tx);
    assert_eq!(tx, vec![Command::Remove { id: id(9) }, send(1, ServerEvent::Goodbye)]);
}

#[test]
fn added_client_is_known_at_its_address() {
    let mut pool = ClientPool::default();
    let client = Client::new(id(1), sock(1), 5);
    assert_eq!(pool.get_by_sock(&sock(1)), None);
    assert_eq!(pool.add(client), None);
    assert_eq!(pool.get_by_sock(&sock(1)), Some(&client));
    assert_eq!(pool.get_by_sock(&sock(2)), None);
    assert_eq!(pool.iter(), &[client]);
}

#[test]
fn adding_the_same_id_replaces_the_client() {
    let first = Client::new(id(1), sock(1), 5);
    let second = Client::new(id(1), sock(2), 6);
    let mut pool = pool(&[first]);
    assert_eq!(pool.add(second), Some(first));
    assert_eq!(pool.iter(), &[second]);
    assert_eq!(pool.get_by_sock(&sock(2)), Some(&second));
    assert_eq!(pool.get_by_sock(&sock(1)), Some(&second));
}

#[test]
fn removing_by_a_former_address_removes_the_client() {
    let first = Client::new(id(1), sock(1), 5);
    let second = Client::new(id(1), sock(2), 6);
    let mut pool = pool(&[first, second]);
    assert_eq!(pool.remove_by_sock(&sock(1)), Some(second));
    assert!(pool.iter().is_empty());
    assert_eq!(pool.get_by_sock(&sock(2)), None);
    assert_eq!(pool.remove_by_sock(&sock(2)), None);
}

#[test]
fn two_ids_at_one_address() {
    let first = Client::new(id(1), sock(1), 5);
    let second = Client::new(id(2), sock(1), 6);
    let mut pool = pool(&[first, second]);
    assert_eq!(pool.get_by_sock(&sock(1)), Some(&second));
    assert_eq!(pool.remove_by_sock(&sock(1)), Some(second));
    assert_eq!(pool.get_by_sock(&sock(1)), None);
    assert_eq!(pool.iter(), &[first]);
    assert_eq!(pool.remove_by_id(&id(1)), Some(first));
    assert!(pool.iter().is_empty());
}

#[test]
fn removing_by_id_forgets_the_address() {
    let first = Client::new(id(1), sock(1), 5);
    let second = Client::new(id(2), sock(2), 6);
    let mut pool = pool(&[first, second]);
    assert_eq!(pool.remove_by_id(&id(1)), Some(first));
    assert_eq!(pool.remove_by_id(&id(1)), None);
    assert_eq!(pool.get_by_sock(&sock(1)), None);
    assert_eq!(pool.get_by_sock(&sock(2)), Some(&second));
    assert_eq!(pool.iter(), &[second]);
}

#[test]
fn keep_alive_is_noted_with_the_client_at_the_address() {
    let first = Client::new(id(1), sock(1), 5);
    let second = Client::new(id(2), sock(2), 6);
    let mut pool = pool(&[first, second]);
    assert!(pool.keep_alive(&sock(2), 50));
    assert_eq!(pool.iter(), &[first, Client { last_update: 50, ..second }]);
    assert!(!pool.keep_alive(&sock(3), 60));
    assert_eq!(pool.iter(), &[first, Client { last_update: 50, ..second }]);
}

#[test]
fn broadcast_reaches_the_live_clients() {
    let pool = pool(&[
        Client::new(id(1), sock(1), 10),
        Client::new(id(2), sock(2), 0),
        Client::new(id(3), sock(3), 15),
    ]);
    let live = pool.iter_alive(15, 10);
    assert_eq!(live.iter().map(|c| c.id).collect::<Vec<_>>(), vec![id(1), id(3)]);
    let mut tx = Vec::new();
    let event = ServerEvent::ClientLeave { id: id(9) };
    pool.broadcast(event, 15, 10, &mut tx);
    assert_eq!(tx, vec![send(1, event), send(3, event)]);
}

#[test]
fn table_holds_one_id_per_address() {
    let mut table = SockTable::new();
    assert_eq!(table.get(&sock(1)), None);
    assert_eq!(table.insert(sock(1), id(1)), None);
    assert_eq!(table.insert(sock(2), id(1)), None);
    assert_eq!(table.insert(sock(1), id(2)), Some(id(1)));
    assert_eq!(table.get(&sock(1)), Some(id(2)));
    assert_eq!(table.remove(&sock(1)), Some(id(2)));
    assert_eq!(table.remove(&sock(1)), None);
    assert_eq!(table.get(&sock(2)), Some(id(1)));
}

#[test]
fn addresses_differ_in_every_field() {
    let base = SocketAddr::V6 { ip: 1, port: 1, flowinfo: 1, scope_id: 1 };
    let mut table = SockTable::new();
    table.insert(base, id(1));
    for other in [
        SocketAddr::V6 { ip: 2, port: 1, flowinfo: 1, scope_id: 1 },
        SocketAddr::V6 { ip: 1, port: 2, flowinfo: 1, scope_id: 1 },
        SocketAddr::V6 { ip: 1, port: 1, flowinfo: 2, scope_id: 1 },
        SocketAddr::V6 { ip: 1, port: 1, flowinfo: 1, scope_id: 2 },
        SocketAddr::V4 { ip: 1, port: 1 },
    ] {
        assert_eq!(table.get(&other), None);
    }
    assert_eq!(table.get(&base), Some(id(1)));
}
