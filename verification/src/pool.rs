//! The clients that the server knows.

use vstd::prelude::*;

use crate::addr::SocketAddr;
use crate::client_id::ClientId;
use crate::message::MessageServer2Client;
use crate::message::ServerEvent;
use crate::sock_table::lookup;
use crate::sock_table::SockTable;

verus! {

/// What the server has still to do.
#[derive(Debug, Clone, Copy, PartialEq, Eq)]
pub enum Command {
    Send { dst: SocketAddr, message: MessageServer2Client },
    Remove { id: ClientId },
}

/// A registered client. Times are in nanoseconds since a start that all of them share.
#[derive(Debug, Clone, Copy, PartialEq, Eq)]
pub struct Client {
    pub id: ClientId,
    pub sock: SocketAddr,
    pub last_update: u128,
}

/// How long it has been at `now` since `then`: nothing, if `then` is still to come.
pub open spec fn elapsed(then: u128, now: u128) -> nat {
    if then <= now {
        (now - then) as nat
    } else {
        0
    }
}

/// The command that sends `event` to `dst`.
pub open spec fn event_to(dst: SocketAddr, event: ServerEvent) -> Command {
    Command::Send { dst, message: MessageServer2Client::Event(event) }
}

impl Client {
    /// The client was heard of less than `keep_alive` before `now`.
    pub open spec fn alive(self, now: u128, keep_alive: u128) -> bool {
        elapsed(self.last_update, now) < keep_alive
    }

    /// A client that is heard of at `now` for the first time.
    pub fn new(id: ClientId, sock: SocketAddr, now: u128) -> (client: Client)
        ensures
            client == (Client { id, sock, last_update: now }),
    {
        Client { id, sock, last_update: now }
    }

    /// Queues `message` for this client.
    pub fn send(&self, message: MessageServer2Client, tx: &mut Vec<Command>)
        ensures
            final(tx)@ == old(tx)@.push(Command::Send { dst: self.sock, message }),
    {
        tx.push(Command::Send { dst: self.sock, message });
    }

    /// Whether the client was heard of less than `keep_alive` before `now`.
    pub fn is_alive(&self, now: u128, keep_alive: u128) -> (alive: bool)
        ensures
            alive == self.alive(now, keep_alive),
    {
        if self.last_update <= now {
            now - self.last_update < keep_alive
        } else {
            0 < keep_alive
        }
    }

    /// Notes that the client was heard of at `now`.
    pub fn keep_alive(&mut self, now: u128)
        ensures
            *final(self) == (Client { last_update: now, ..*old(self) }),
    {
        self.last_update = now;
    }
}

pub open spec fn holds(clients: Seq<Client>, id: ClientId, i: int) -> bool {
    0 <= i < clients.len() && clients[i].id == id
}

/// The client with this id among `clients`.
pub open spec fn client_in(clients: Seq<Client>, id: ClientId) -> Option<Client> {
    if exists|i: int| holds(clients, id, i) {
        Some(clients[choose|i: int| holds(clients, id, i)])
    } else {
        None
    }
}

/// The clients, in the order in which they registered, and the id that each address was last
/// registered for. An address may name an id that is gone, and a client's address may name
/// another client or none.
pub struct PoolView {
    pub clients: Seq<Client>,
    pub sock_id: Map<SocketAddr, ClientId>,
}

impl PoolView {
    /// No id is registered twice.
    pub open spec fn wf(self) -> bool {
        forall|i: int, j: int|
            0 <= i < j < self.clients.len() ==> (#[trigger] self.clients[i]).id != (
            #[trigger] self.clients[j]).id
    }

    /// The client with this id.
    pub open spec fn client(self, id: ClientId) -> Option<Client> {
        client_in(self.clients, id)
    }

    /// The clients with any other id.
    pub open spec fn without(self, id: ClientId) -> Seq<Client> {
        self.clients.filter(|client: Client| client.id != id)
    }

    /// The clients that are alive.
    pub open spec fn alive(self, now: u128, keep_alive: u128) -> Seq<Client> {
        self.clients.filter(|client: Client| client.alive(now, keep_alive))
    }

    pub open spec fn add(self, client: Client) -> PoolView {
        PoolView {
            clients: self.without(client.id).push(client),
            sock_id: self.sock_id.insert(client.sock, client.id),
        }
    }

    pub open spec fn remove_by_sock(self, sock: SocketAddr) -> PoolView {
        match lookup(self.sock_id, sock) {
            Some(id) => PoolView {
                clients: self.without(id),
                sock_id: self.sock_id.remove(sock),
            },
            None => self,
        }
    }

    pub open spec fn remove_by_id(self, id: ClientId) -> PoolView {
        match self.client(id) {
            Some(client) => PoolView {
                clients: self.without(id),
                sock_id: self.sock_id.remove(client.sock),
            },
            None => self,
        }
    }

    /// The client that `sock` was last registered for, if it is still there.
    pub open spec fn get_by_sock(self, sock: SocketAddr) -> Option<Client> {
        match lookup(self.sock_id, sock) {
            Some(id) => self.client(id),
            None => None,
        }
    }

    /// The pool after the client at `sock`, if there is one, was heard of at `now`.
    pub open spec fn keep_alive(self, sock: SocketAddr, now: u128) -> PoolView {
        match self.get_by_sock(sock) {
            Some(heard) => PoolView {
                clients: self.clients.map_values(
                    |client: Client|
                        if client.id == heard.id {
                            Client { last_update: now, ..client }
                        } else {
                            client
                        },
                ),
                sock_id: self.sock_id,
            },
            None => self,
        }
    }

    /// The commands that tell every live client of `event`.
    pub open spec fn broadcast(self, event: ServerEvent, now: u128, keep_alive: u128) -> Seq<
        Command,
    > {
        self.alive(now, keep_alive).map_values(|client: Client| event_to(client.sock, event))
    }

    proof fn lemma_without_absent(self, id: ClientId)
        requires
            self.client(id) is None,
        ensures
            self.without(id) == self.clients,
    {
        assert forall|i: int| 0 <= i < self.clients.len() implies (#[trigger] self.clients[i]).id
            != id by {
            assert(!holds(self.clients, id, i));
        }
        lemma_filter_all(self.clients, |client: Client| client.id != id);
    }

    proof fn lemma_without_present(self, i: int)
        requires
            self.wf(),
            0 <= i < self.clients.len(),
        ensures
            self.without(self.clients[i].id) == self.clients.remove(i),
    {
        let id = self.clients[i].id;
        let keep = |client: Client| client.id != id;
        let before = self.clients.take(i);
        let here = seq![self.clients[i]];
        let after = self.clients.skip(i + 1);
        assert(self.clients =~= (before + here) + after);
        Seq::filter_distributes_over_add(before + here, after, keep);
        Seq::filter_distributes_over_add(before, here, keep);
        lemma_filter_all(before, keep);
        lemma_filter_all(after, keep);
        assert(here.filter(keep) =~= Seq::empty()) by {
            reveal_with_fuel(Seq::filter, 2);
            assert(here.drop_last() =~= Seq::empty());
        }
        assert(self.clients.remove(i) =~= before + after);
        assert(before + Seq::<Client>::empty() =~= before);
    }
}

/// In a valid pool every client is the one with its id.
pub proof fn law_client(pool: PoolView, i: int)
    requires
        pool.wf(),
        0 <= i < pool.clients.len(),
    ensures
        pool.client(pool.clients[i].id) == Some(pool.clients[i]),
{
    let id = pool.clients[i].id;
    assert(holds(pool.clients, id, i));
    let j = choose|j: int| holds(pool.clients, id, j);
    assert(pool.clients[i].id == pool.clients[j].id);
    assert(i == j);
}

proof fn lemma_filter_all<A>(s: Seq<A>, keep: spec_fn(A) -> bool)
    requires
        forall|i: int| 0 <= i < s.len() ==> keep(#[trigger] s[i]),
    ensures
        s.filter(keep) == s,
    decreases s.len(),
{
    reveal(Seq::filter);
    if s.len() > 0 {
        assert forall|i: int| 0 <= i < s.drop_last().len() implies keep(
            #[trigger] s.drop_last()[i],
        ) by {
            assert(keep(s[i]));
        }
        lemma_filter_all(s.drop_last(), keep);
        assert(keep(s[s.len() - 1]));
        assert(s =~= s.drop_last().push(s.last()));
    }
}

/// The server's table of clients.
pub struct ClientPool {
    clients: Vec<Client>,
    sock_id: SockTable,
}

impl View for ClientPool {
    type V = PoolView;

    closed spec fn view(&self) -> PoolView {
        PoolView { clients: self.clients@, sock_id: self.sock_id@ }
    }
}

impl Default for ClientPool {
    /// A pool of no clients.
    fn default() -> (pool: ClientPool)
        ensures
            pool.wf(),
            pool@ == (PoolView { clients: Seq::empty(), sock_id: Map::empty() }),
    {
        ClientPool { clients: Vec::new(), sock_id: SockTable::new() }
    }
}

impl ClientPool {
    pub open spec fn wf(&self) -> bool {
        self@.wf() && self.parts_wf()
    }

    pub closed spec fn parts_wf(&self) -> bool {
        self.sock_id.wf()
    }

    fn position(&self, id: &ClientId) -> (at: Option<usize>)
        requires
            self.wf(),
        ensures
            match at {
                Some(i) => {
                    &&& i < self.clients@.len()
                    &&& self.clients@[i as int].id == *id
                    &&& self@.client(*id) == Some(self.clients@[i as int])
                },
                None => self@.client(*id) is None,
            },
    {
        let mut i: usize = 0;
        while i < self.clients.len()
            invariant
                self.wf(),
                i <= self.clients@.len(),
                forall|j: int| 0 <= j < i ==> (#[trigger] self.clients@[j]).id != *id,
            decreases self.clients@.len() - i,
        {
            if self.clients[i].id == *id {
                proof {
                    law_client(self@, i as int);
                }
                return Some(i);
            }
            i += 1;
        }
        None
    }

    /// Takes the client with this id out of the list of clients.
    fn take(&mut self, id: &ClientId) -> (taken: Option<Client>)
        requires
            old(self).wf(),
        ensures
            final(self).wf(),
            final(self)@ == (PoolView { clients: old(self)@.without(*id), ..old(self)@ }),
            final(self)@.client(*id) is None,
            taken == old(self)@.client(*id),
    {
        match self.position(id) {
            Some(i) => {
                proof {
                    self@.lemma_without_present(i as int);
                }
                let taken = self.clients.remove(i);
                proof {
                    lemma_removed(old(self)@, self@, i as int);
                }
                Some(taken)
            },
            None => {
                proof {
                    self@.lemma_without_absent(*id);
                }
                None
            },
        }
    }

    /// Registers `client` at its address, in place of the client with the same id.
    pub fn add(&mut self, client: Client) -> (replaced: Option<Client>)
        requires
            old(self).wf(),
        ensures
            final(self).wf(),
            final(self)@ == old(self)@.add(client),
            replaced == old(self)@.client(client.id),
    {
        self.sock_id.insert(client.sock, client.id);
        let replaced = self.take(&client.id);
        proof {
            lemma_pushed(self@, client);
        }
        self.clients.push(client);
        replaced
    }

    /// Forgets the address `sock` and the client that it was last registered for.
    pub fn remove_by_sock(&mut self, sock: &SocketAddr) -> (removed: Option<Client>)
        requires
            old(self).wf(),
        ensures
            final(self).wf(),
            final(self)@ == old(self)@.remove_by_sock(*sock),
            removed == old(self)@.get_by_sock(*sock),
    {
        match self.sock_id.remove(sock) {
            Some(id) => self.take(&id),
            None => {
                assert(self.sock_id@ =~= old(self).sock_id@);
                None
            },
        }
    }

    /// Forgets the client with this id, and its address.
    pub fn remove_by_id(&mut self, id: &ClientId) -> (removed: Option<Client>)
        requires
            old(self).wf(),
        ensures
            final(self).wf(),
            final(self)@ == old(self)@.remove_by_id(*id),
            removed == old(self)@.client(*id),
    {
        let removed = self.take(id);
        match removed {
            Some(client) => {
                self.sock_id.remove(&client.sock);
            },
            None => {
                proof {
                    old(self)@.lemma_without_absent(*id);
                }
            },
        }
        removed
    }

    /// The client that `sock` was last registered for.
    pub fn get_by_sock(&self, sock: &SocketAddr) -> (client: Option<&Client>)
        requires
            self.wf(),
        ensures
            match client {
                Some(client) => self@.get_by_sock(*sock) == Some(*client),
                None => self@.get_by_sock(*sock) is None,
            },
    {
        match self.sock_id.get(sock) {
            Some(id) => match self.position(&id) {
                Some(i) => Some(&self.clients[i]),
                None => None,
            },
            None => None,
        }
    }

    /// Notes that the client at `sock` was heard of at `now`; says whether there is one.
    pub fn keep_alive(&mut self, sock: &SocketAddr, now: u128) -> (known: bool)
        requires
            old(self).wf(),
        ensures
            final(self).wf(),
            final(self)@ == old(self)@.keep_alive(*sock, now),
            known == (old(self)@.get_by_sock(*sock) is Some),
    {
        let id = match self.sock_id.get(sock) {
            Some(id) => id,
            None => return false,
        };
        match self.position(&id) {
            Some(i) => {
                let mut client = self.clients[i];
                client.keep_alive(now);
                self.clients.set(i, client);
                proof {
                    lemma_updated(old(self)@, self@, i as int, now);
                    assert(self@.clients =~= old(self)@.keep_alive(*sock, now).clients);
                }
                true
            },
            None => false,
        }
    }

    /// The clients, in the order in which they registered.
    pub fn iter(&self) -> (clients: &[Client])
        ensures
            clients@ == self@.clients,
    {
        self.clients.as_slice()
    }

    /// The clients that are alive, in the order in which they registered.
    pub fn iter_alive(&self, now: u128, keep_alive: u128) -> (clients: Vec<&Client>)
        ensures
            clients@.unref() == self@.alive(now, keep_alive),
    {
        let ghost alive = |client: Client| client.alive(now, keep_alive);
        let all = self.iter();
        let mut clients: Vec<&Client> = Vec::new();
        let mut i: usize = 0;
        assert(clients@.unref() =~= all@.take(0).filter(alive)) by {
            reveal(Seq::filter);
        }
        while i < all.len()
            invariant
                i <= all@.len(),
                alive == (|client: Client| client.alive(now, keep_alive)),
                clients@.unref() == all@.take(i as int).filter(alive),
            decreases all@.len() - i,
        {
            let client = &all[i];
            proof {
                lemma_filter_step(all@, alive, i as int);
            }
            let ghost before = clients@;
            if client.is_alive(now, keep_alive) {
                clients.push(client);
                assert(clients@.unref() =~= before.unref().push(*client));
            }
            i += 1;
        }
        assert(all@.take(all@.len() as int) =~= all@);
        clients
    }

    /// Queues `event` for every live client.
    pub fn broadcast(&self, event: ServerEvent, now: u128, keep_alive: u128, tx: &mut Vec<Command>)
        ensures
            final(tx)@ == old(tx)@ + self@.broadcast(event, now, keep_alive),
    {
        let clients = self.iter_alive(now, keep_alive);
        let ghost sent = self@.broadcast(event, now, keep_alive);
        let mut i: usize = 0;
        while i < clients.len()
            invariant
                i <= clients@.len(),
                clients@.unref() == self@.alive(now, keep_alive),
                sent == self@.broadcast(event, now, keep_alive),
                tx@ == old(tx)@ + sent.take(i as int),
            decreases clients@.len() - i,
        {
            assert(*clients@[i as int] == clients@.unref()[i as int]);
            assert(sent.take(i + 1) =~= sent.take(i as int).push(sent[i as int]));
            clients[i].send(MessageServer2Client::Event(event), tx);
            i += 1;
        }
        assert(sent.take(sent.len() as int) =~= sent);
    }
}

proof fn lemma_filter_step<A>(s: Seq<A>, keep: spec_fn(A) -> bool, i: int)
    requires
        0 <= i < s.len(),
    ensures
        s.take(i + 1).filter(keep) == if keep(s[i]) {
            s.take(i).filter(keep).push(s[i])
        } else {
            s.take(i).filter(keep)
        },
{
    reveal(Seq::filter);
    assert(s.take(i + 1).drop_last() =~= s.take(i));
}

proof fn lemma_removed(before: PoolView, after: PoolView, i: int)
    requires
        before.wf(),
        0 <= i < before.clients.len(),
        after.clients == before.clients.remove(i),
    ensures
        after.wf(),
        after.client(before.clients[i].id) is None,
{
    let id = before.clients[i].id;
    assert forall|j: int, k: int| 0 <= j < k < after.clients.len() implies (
    #[trigger] after.clients[j]).id != (#[trigger] after.clients[k]).id by {
        let j0 = if j < i { j } else { j + 1 };
        let k0 = if k < i { k } else { k + 1 };
        assert(after.clients[j] == before.clients[j0] && after.clients[k] == before.clients[k0]);
    }
    assert forall|j: int| !holds(after.clients, id, j) by {
        if 0 <= j < after.clients.len() {
            let j0 = if j < i { j } else { j + 1 };
            assert(after.clients[j] == before.clients[j0]);
            assert(before.clients[i].id != before.clients[j0].id);
        }
    }
}

proof fn lemma_pushed(before: PoolView, client: Client)
    requires
        before.wf(),
        before.client(client.id) is None,
    ensures
        (PoolView { clients: before.clients.push(client), ..before }).wf(),
{
    let after = PoolView { clients: before.clients.push(client), ..before };
    assert forall|j: int, k: int| 0 <= j < k < after.clients.len() implies (
    #[trigger] after.clients[j]).id != (#[trigger] after.clients[k]).id by {
        assert(!holds(before.clients, client.id, j));
    }
}

proof fn lemma_updated(before: PoolView, after: PoolView, i: int, now: u128)
    requires
        before.wf(),
        0 <= i < before.clients.len(),
        after.clients == before.clients.update(
            i,
            Client { last_update: now, ..before.clients[i] },
        ),
    ensures
        after.wf(),
{
    assert forall|j: int, k: int| 0 <= j < k < after.clients.len() implies (
    #[trigger] after.clients[j]).id != (#[trigger] after.clients[k]).id by {
        assert(after.clients[j].id == before.clients[j].id);
        assert(after.clients[k].id == before.clients[k].id);
    }
}

/// Taking out one id leaves no client with it and every other client as it was.
proof fn lemma_without(view: PoolView, id: ClientId, rest: PoolView)
    requires
        view.wf(),
        rest.clients == view.without(id),
    ensures
        rest.wf(),
        rest.client(id) is None,
        forall|other: ClientId| other != id ==> #[trigger] rest.client(other) == view.client(other),
{
    if view.client(id) is None {
        view.lemma_without_absent(id);
    } else {
        let i = choose|i: int| holds(view.clients, id, i);
        view.lemma_without_present(i);
        lemma_removed(view, rest, i);
        assert forall|other: ClientId| other != id implies #[trigger] rest.client(other)
            == view.client(other) by {
            if exists|j: int| holds(rest.clients, other, j) {
                let j = choose|j: int| holds(rest.clients, other, j);
                let j0 = if j < i { j } else { j + 1 };
                assert(rest.clients[j] == view.clients[j0]);
                law_client(rest, j);
                law_client(view, j0);
            } else if exists|j: int| holds(view.clients, other, j) {
                let j0 = choose|j: int| holds(view.clients, other, j);
                let j = if j0 < i { j0 } else { j0 - 1 };
                assert(rest.clients[j] == view.clients[j0]);
                assert(holds(rest.clients, other, j));
            }
        }
    }
}

/// A client that is alive was alive at every time before, back to when it was heard of.
pub proof fn law_alive_before(client: Client, earlier: u128, later: u128, keep_alive: u128)
    requires
        earlier <= later,
        client.alive(later, keep_alive),
    ensures
        client.alive(earlier, keep_alive),
{
}

/// Registering a client keeps the pool valid, makes the client known under its id and at its
/// address, and changes neither what is known under other ids nor what other addresses name.
pub proof fn law_add(pool: PoolView, client: Client)
    requires
        pool.wf(),
    ensures
        pool.add(client).wf(),
        pool.add(client).client(client.id) == Some(client),
        pool.add(client).get_by_sock(client.sock) == Some(client),
        forall|id: ClientId|
            id != client.id ==> #[trigger] pool.add(client).client(id) == pool.client(id),
        forall|sock: SocketAddr|
            sock != client.sock ==> #[trigger] lookup(pool.add(client).sock_id, sock) == lookup(
                pool.sock_id,
                sock,
            ),
        forall|one: Client| #[trigger]
            pool.add(client).clients.contains(one) <==> one == client || (pool.clients.contains(one)
                && one.id != client.id),
        pool.add(client).clients == pool.clients.filter(
            |one: Client| one.id != client.id,
        ).push(client),
        pool.add(client).sock_id == pool.sock_id.insert(client.sock, client.id),
{
    let rest = PoolView { clients: pool.without(client.id), ..pool };
    let after = pool.add(client);
    assert forall|one: Client| #[trigger] after.clients.contains(one) <==> one == client || (
    pool.clients.contains(one) && one.id != client.id) by {
        lemma_filter_contains(pool.clients, |c: Client| c.id != client.id);
        lemma_push_contains(pool.without(client.id), client, one);
    }
    lemma_without(pool, client.id, rest);
    lemma_pushed(rest, client);
    assert(PoolView { clients: rest.clients.push(client), ..rest }.clients == after.clients);
    assert(after.wf());
    let last = rest.clients.len() as int;
    assert(holds(after.clients, client.id, last));
    law_client(after, last);
    assert forall|id: ClientId| id != client.id implies #[trigger] after.client(id) == pool.client(
        id,
    ) by {
        assert(rest.client(id) == pool.client(id));
        if exists|i: int| holds(after.clients, id, i) {
            let i = choose|i: int| holds(after.clients, id, i);
            assert(after.clients[i] == rest.clients[i]);
            law_client(after, i);
            law_client(rest, i);
        } else if exists|i: int| holds(rest.clients, id, i) {
            let i = choose|i: int| holds(rest.clients, id, i);
            assert(after.clients[i] == rest.clients[i]);
            assert(holds(after.clients, id, i));
        }
    }
}

/// Removing by address keeps the pool valid, leaves no client known at the address, forgets the
/// client that was, and changes nothing that is known under other ids.
pub proof fn law_remove_by_sock(pool: PoolView, sock: SocketAddr)
    requires
        pool.wf(),
    ensures
        pool.remove_by_sock(sock).wf(),
        pool.remove_by_sock(sock).get_by_sock(sock) is None,
        match pool.get_by_sock(sock) {
            Some(gone) => {
                &&& pool.remove_by_sock(sock).client(gone.id) is None
                &&& forall|id: ClientId|
                    id != gone.id ==> #[trigger] pool.remove_by_sock(sock).client(id)
                        == pool.client(id)
            },
            None => pool.remove_by_sock(sock).clients == pool.clients,
        },
        if pool.sock_id.contains_key(sock) {
            &&& pool.remove_by_sock(sock).sock_id == pool.sock_id.remove(sock)
            &&& pool.remove_by_sock(sock).clients == pool.clients.filter(
                |one: Client| one.id != pool.sock_id[sock],
            )
            &&& forall|one: Client| #[trigger]
                pool.remove_by_sock(sock).clients.contains(one) <==> pool.clients.contains(one)
                    && one.id != pool.sock_id[sock]
        } else {
            pool.remove_by_sock(sock) == pool
        },
{
    if let Some(id) = lookup(pool.sock_id, sock) {
        lemma_filter_contains(pool.clients, |c: Client| c.id != id);
        lemma_without(pool, id, pool.remove_by_sock(sock));
        if pool.client(id) is None {
            pool.lemma_without_absent(id);
        } else {
            let i = choose|i: int| holds(pool.clients, id, i);
            law_client(pool, i);
        }
    }
}

/// Removing by id keeps the pool valid, leaves no client with that id, changes nothing that is
/// known under other ids, and does nothing where the id is not known.
pub proof fn law_remove_by_id(pool: PoolView, id: ClientId)
    requires
        pool.wf(),
    ensures
        pool.remove_by_id(id).wf(),
        pool.remove_by_id(id).client(id) is None,
        forall|other: ClientId|
            other != id ==> #[trigger] pool.remove_by_id(id).client(other) == pool.client(other),
        pool.client(id) matches Some(gone) ==> pool.remove_by_id(id).get_by_sock(gone.sock) is None,
        pool.client(id) is None ==> pool.remove_by_id(id) == pool,
        pool.client(id) matches Some(gone) ==> {
            &&& pool.remove_by_id(id).sock_id == pool.sock_id.remove(gone.sock)
            &&& pool.remove_by_id(id).clients == pool.clients.filter(|one: Client| one.id != id)
            &&& forall|one: Client| #[trigger]
                pool.remove_by_id(id).clients.contains(one) <==> pool.clients.contains(one)
                    && one.id != id
        },
{
    if pool.client(id) is Some {
        lemma_filter_contains(pool.clients, |c: Client| c.id != id);
        lemma_without(pool, id, pool.remove_by_id(id));
    }
}

/// Removing a client right after it was registered, by its address or by its id, undoes the
/// registration, where neither its id nor its address was known before.
pub proof fn law_remove_undoes_add(pool: PoolView, client: Client)
    requires
        pool.wf(),
        pool.client(client.id) is None,
        !pool.sock_id.contains_key(client.sock),
    ensures
        pool.add(client).remove_by_sock(client.sock) == pool,
        pool.add(client).remove_by_id(client.id) == pool,
{
    let after = pool.add(client);
    assert(after.wf() && after.client(client.id) == Some(client)) by {
        law_add(pool, client);
    }
    let last = pool.clients.len() as int;
    assert(after.clients == pool.clients.push(client)) by {
        pool.lemma_without_absent(client.id);
    }
    assert(after.without(client.id) == pool.clients) by {
        after.lemma_without_present(last);
        assert(after.clients.remove(last) =~= pool.clients);
    }
    assert(after.sock_id.remove(client.sock) =~= pool.sock_id);
}

/// Hearing of a known client keeps the pool valid, notes the time with that client, under its id
/// and at the address, and changes nothing that is known under other ids.
pub proof fn law_keep_alive(pool: PoolView, sock: SocketAddr, now: u128)
    requires
        pool.wf(),
        pool.get_by_sock(sock) is Some,
    ensures
        pool.keep_alive(sock, now).wf(),
        pool.get_by_sock(sock) matches Some(heard) && {
            let noted = Client { last_update: now, ..heard };
            &&& pool.keep_alive(sock, now).get_by_sock(sock) == Some(noted)
            &&& pool.keep_alive(sock, now).client(heard.id) == Some(noted)
            &&& forall|id: ClientId|
                id != heard.id ==> #[trigger] pool.keep_alive(sock, now).client(id)
                    == pool.client(id)
            &&& forall|one: Client| #[trigger]
                pool.keep_alive(sock, now).clients.contains(one) <==> one == noted || (
                pool.clients.contains(one) && one.id != heard.id)
            &&& pool.keep_alive(sock, now).sock_id == pool.sock_id
        },
{
    let after = pool.keep_alive(sock, now);
    let id = lookup(pool.sock_id, sock).unwrap();
    let at = choose|i: int| holds(pool.clients, id, i);
    law_client(pool, at);
    assert forall|i: int| 0 <= i < pool.clients.len() implies (#[trigger] after.clients[i]).id
        == pool.clients[i].id by {}
    assert(after.wf()) by {
        assert forall|i: int, j: int| 0 <= i < j < after.clients.len() implies (
        #[trigger] after.clients[i]).id != (#[trigger] after.clients[j]).id by {
            assert(pool.clients[i].id != pool.clients[j].id);
        }
    }
    assert(holds(after.clients, id, at));
    law_client(after, at);
    let noted = Client { last_update: now, ..pool.clients[at] };
    assert forall|one: Client| #[trigger] after.clients.contains(one) <==> one == noted || (
    pool.clients.contains(one) && one.id != id) by {
        assert(after.clients[at] == noted);
        if after.clients.contains(one) && one != noted {
            let i = choose|i: int| 0 <= i < after.clients.len() && after.clients[i] == one;
            assert(pool.clients[i].id != id);
            assert(pool.clients[i] == one);
        }
        if pool.clients.contains(one) && one.id != id {
            let i = choose|i: int| 0 <= i < pool.clients.len() && pool.clients[i] == one;
            assert(after.clients[i] == one);
        }
    }
    assert forall|other: ClientId| other != id implies #[trigger] after.client(other)
        == pool.client(other) by {
        if exists|i: int| holds(after.clients, other, i) {
            let i = choose|i: int| holds(after.clients, other, i);
            assert(after.clients[i].id == pool.clients[i].id);
            law_client(after, i);
            law_client(pool, i);
        } else if exists|i: int| holds(pool.clients, other, i) {
            let i = choose|i: int| holds(pool.clients, other, i);
            assert(after.clients[i].id == pool.clients[i].id);
            assert(holds(after.clients, other, i));
        }
    }
}

/// A broadcast reaches the addresses of the live clients and no others, with the event and
/// nothing else.
pub proof fn law_broadcast(
    pool: PoolView,
    event: ServerEvent,
    now: u128,
    keep_alive: u128,
    command: Command,
)
    ensures
        pool.broadcast(event, now, keep_alive).contains(command) <==> exists|i: int|
            0 <= i < pool.clients.len() && (#[trigger] pool.clients[i]).alive(now, keep_alive)
                && command == event_to(pool.clients[i].sock, event),
{
    let live = |client: Client| client.alive(now, keep_alive);
    let alive = pool.alive(now, keep_alive);
    let sent = pool.broadcast(event, now, keep_alive);
    lemma_filter_contains(pool.clients, live);
    if sent.contains(command) {
        let j = choose|j: int| 0 <= j < sent.len() && sent[j] == command;
        assert(alive.contains(alive[j]));
        let i = choose|i: int| 0 <= i < pool.clients.len() && pool.clients[i] == alive[j];
        assert(pool.clients[i].alive(now, keep_alive));
        assert(command == event_to(pool.clients[i].sock, event));
    }
    if exists|i: int|
        0 <= i < pool.clients.len() && (#[trigger] pool.clients[i]).alive(now, keep_alive)
            && command == event_to(pool.clients[i].sock, event) {
        let i = choose|i: int|
            0 <= i < pool.clients.len() && (#[trigger] pool.clients[i]).alive(now, keep_alive)
                && command == event_to(pool.clients[i].sock, event);
        assert(pool.clients.contains(pool.clients[i]));
        assert(alive.contains(pool.clients[i]));
        let j = choose|j: int| 0 <= j < alive.len() && alive[j] == pool.clients[i];
        assert(sent[j] == command);
    }
}

proof fn lemma_filter_contains<A>(s: Seq<A>, keep: spec_fn(A) -> bool)
    ensures
        forall|a: A| #[trigger] s.filter(keep).contains(a) <==> s.contains(a) && keep(a),
    decreases s.len(),
{
    reveal(Seq::filter);
    if s.len() > 0 {
        let init = s.drop_last();
        lemma_filter_contains(init, keep);
        assert forall|a: A| #[trigger] s.filter(keep).contains(a) <==> s.contains(a) && keep(a) by {
            assert(s =~= init.push(s.last()));
            assert(init.push(s.last()).contains(a) <==> init.contains(a) || a == s.last()) by {
                lemma_push_contains(init, s.last(), a);
            }
            lemma_push_contains(init.filter(keep), s.last(), a);
        }
    }
}

proof fn lemma_push_contains<A>(s: Seq<A>, last: A, a: A)
    ensures
        s.push(last).contains(a) <==> s.contains(a) || a == last,
{
    let more = s.push(last);
    if s.contains(a) {
        let i = choose|i: int| 0 <= i < s.len() && s[i] == a;
        assert(more[i] == a);
    }
    assert(more[s.len() as int] == last);
    if more.contains(a) && a != last {
        let i = choose|i: int| 0 <= i < more.len() && more[i] == a;
        assert(s[i] == a);
    }
}

/// A client is alive while less than the keep-alive time has passed since it was heard of, and
/// never where that time is nothing.
pub proof fn law_alive(client: Client, now: u128, keep_alive: u128)
    ensures
        client.alive(now, keep_alive) <==> 0 < keep_alive && now < client.last_update + keep_alive,
{
}

/// Looking an address up finds what the table has under it, and nothing else.
pub proof fn law_lookup(table: Map<SocketAddr, ClientId>, sock: SocketAddr, id: ClientId)
    ensures
        lookup(table, sock) == Some(id) <==> table.contains_key(sock) && table[sock] == id,
        lookup(table, sock) is None <==> !table.contains_key(sock),
{
}

/// The client with an id is the registered one that has it, and there is none exactly if no
/// registered client has it.
pub proof fn law_found_by_id(pool: PoolView, id: ClientId, client: Client)
    requires
        pool.wf(),
    ensures
        pool.client(id) == Some(client) <==> pool.clients.contains(client) && client.id == id,
        pool.client(id) is None <==> forall|one: Client| #[trigger]
            pool.clients.contains(one) ==> one.id != id,
{
    if pool.clients.contains(client) && client.id == id {
        let i = choose|i: int| 0 <= i < pool.clients.len() && pool.clients[i] == client;
        law_client(pool, i);
    }
    if pool.client(id) is Some {
        let i = choose|i: int| holds(pool.clients, id, i);
        law_client(pool, i);
        assert(pool.clients.contains(pool.clients[i]));
    } else {
        assert forall|one: Client| #[trigger] pool.clients.contains(one) implies one.id != id by {
            let i = choose|i: int| 0 <= i < pool.clients.len() && pool.clients[i] == one;
            assert(!holds(pool.clients, id, i));
        }
    }
}

/// The client at an address is the registered one whose id the address was last registered for,
/// and there is none exactly if there is no such id or no client that has it.
pub proof fn law_found_by_sock(pool: PoolView, sock: SocketAddr, client: Client)
    requires
        pool.wf(),
    ensures
        pool.get_by_sock(sock) == Some(client) <==> {
            &&& pool.sock_id.contains_key(sock)
            &&& pool.sock_id[sock] == client.id
            &&& pool.clients.contains(client)
        },
        pool.get_by_sock(sock) is None <==> forall|one: Client| #[trigger]
            pool.clients.contains(one) ==> !(pool.sock_id.contains_key(sock) && pool.sock_id[sock]
                == one.id),
{
    if pool.sock_id.contains_key(sock) {
        law_found_by_id(pool, pool.sock_id[sock], client);
    }
}

proof fn lemma_filter_no_duplicates<A>(s: Seq<A>, keep: spec_fn(A) -> bool)
    requires
        s.no_duplicates(),
    ensures
        s.filter(keep).no_duplicates(),
    decreases s.len(),
{
    reveal(Seq::filter);
    if s.len() > 0 {
        let init = s.drop_last();
        lemma_filter_no_duplicates(init, keep);
        lemma_filter_contains(init, keep);
        let kept = init.filter(keep);
        if keep(s.last()) {
            assert forall|i: int| 0 <= i < kept.len() implies kept[i] != s.last() by {
                assert(kept.contains(kept[i]));
                let j = choose|j: int| 0 <= j < init.len() && init[j] == kept[i];
                assert(s[j] != s[s.len() - 1]);
            }
        }
    }
}

/// A pool is valid exactly if any two of its places hold clients with different ids.
pub proof fn law_valid(pool: PoolView)
    ensures
        pool.wf() <==> forall|i: int, j: int|
            0 <= i < pool.clients.len() && 0 <= j < pool.clients.len() && i != j ==> (
            #[trigger] pool.clients[i]).id != (#[trigger] pool.clients[j]).id,
{
    if pool.wf() {
        assert forall|i: int, j: int|
            0 <= i < pool.clients.len() && 0 <= j < pool.clients.len() && i != j implies (
        #[trigger] pool.clients[i]).id != (#[trigger] pool.clients[j]).id by {
            if j < i {
                assert(pool.clients[j].id != pool.clients[i].id);
            }
        }
    }
}

/// No client stands twice in a valid pool.
pub proof fn law_no_client_twice(pool: PoolView)
    requires
        pool.wf(),
    ensures
        pool.clients.no_duplicates(),
{
    assert forall|i: int, j: int|
        0 <= i < pool.clients.len() && 0 <= j < pool.clients.len() && i
            != j implies pool.clients[i] != pool.clients[j] by {
        if i < j {
            assert(pool.clients[i].id != pool.clients[j].id);
        } else {
            assert(pool.clients[j].id != pool.clients[i].id);
        }
    }
}

/// The live clients are those of the registered ones that were heard of less than the keep-alive
/// time ago, each once.
pub proof fn law_live_clients(pool: PoolView, now: u128, keep_alive: u128)
    requires
        pool.wf(),
    ensures
        pool.alive(now, keep_alive) == pool.clients.filter(
            |one: Client| 0 < keep_alive && now < one.last_update + keep_alive,
        ),
        pool.alive(now, keep_alive).no_duplicates(),
        forall|one: Client| #[trigger]
            pool.alive(now, keep_alive).contains(one) <==> {
                &&& pool.clients.contains(one)
                &&& 0 < keep_alive
                &&& now < one.last_update + keep_alive
            },
{
    let live = |client: Client| client.alive(now, keep_alive);
    law_no_client_twice(pool);
    lemma_filter_no_duplicates(pool.clients, live);
    lemma_filter_contains(pool.clients, live);
    assert(live =~= (|one: Client| 0 < keep_alive && now < one.last_update + keep_alive));
}

/// A broadcast is one message for each live client, at its address.
pub proof fn law_broadcast_once_each(
    pool: PoolView,
    event: ServerEvent,
    now: u128,
    keep_alive: u128,
)
    requires
        pool.wf(),
    ensures
        exists|live: Seq<Client>|
            {
                &&& #[trigger] live.no_duplicates()
                &&& forall|one: Client| #[trigger]
                    live.contains(one) <==> {
                        &&& pool.clients.contains(one)
                        &&& 0 < keep_alive
                        &&& now < one.last_update + keep_alive
                    }
                &&& pool.broadcast(event, now, keep_alive) == live.map_values(
                    |one: Client|
                        Command::Send {
                            dst: one.sock,
                            message: MessageServer2Client::Event(event),
                        },
                )
            },
{
    let live = pool.alive(now, keep_alive);
    law_live_clients(pool, now, keep_alive);
    assert(live.no_duplicates());
    assert(pool.broadcast(event, now, keep_alive) =~= live.map_values(
        |one: Client|
            Command::Send { dst: one.sock, message: MessageServer2Client::Event(event) },
    ));
}

} // verus!
