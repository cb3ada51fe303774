//! Which client was last heard of under which socket address.

use vstd::prelude::*;

use crate::addr::SocketAddr;
use crate::client_id::ClientId;

verus! {

/// A map from addresses to ids, kept as a list of entries in which no address occurs twice.
pub struct SockTable {
    entries: Vec<(SocketAddr, ClientId)>,
}

spec fn holds(entries: Seq<(SocketAddr, ClientId)>, sock: SocketAddr, i: int) -> bool {
    0 <= i < entries.len() && entries[i].0 == sock
}

spec fn map_of(entries: Seq<(SocketAddr, ClientId)>) -> Map<SocketAddr, ClientId> {
    Map::new(
        |sock: SocketAddr| exists|i: int| holds(entries, sock, i),
        |sock: SocketAddr| entries[choose|i: int| holds(entries, sock, i)].1,
    )
}

spec fn unique(entries: Seq<(SocketAddr, ClientId)>) -> bool {
    forall|i: int, j: int|
        0 <= i < j < entries.len() ==> (#[trigger] entries[i]).0 != (#[trigger] entries[j]).0
}

proof fn lemma_map_of(entries: Seq<(SocketAddr, ClientId)>, i: int)
    requires
        unique(entries),
        0 <= i < entries.len(),
    ensures
        map_of(entries).contains_key(entries[i].0),
        map_of(entries)[entries[i].0] == entries[i].1,
{
    assert(holds(entries, entries[i].0, i));
    let j = choose|j: int| holds(entries, entries[i].0, j);
    assert(entries[j].0 == entries[i].0);
    assert(i == j);
}

proof fn lemma_remove(entries: Seq<(SocketAddr, ClientId)>, i: int)
    requires
        unique(entries),
        0 <= i < entries.len(),
    ensures
        unique(entries.remove(i)),
        map_of(entries.remove(i)) == map_of(entries).remove(entries[i].0),
{
    let sock = entries[i].0;
    let rest = entries.remove(i);
    assert(unique(rest)) by {
        assert forall|j: int, k: int| 0 <= j < k < rest.len() implies (#[trigger] rest[j]).0 != (
        #[trigger] rest[k]).0 by {
            let j0 = if j < i { j } else { j + 1 };
            let k0 = if k < i { k } else { k + 1 };
            assert(rest[j] == entries[j0] && rest[k] == entries[k0]);
        }
    }
    assert forall|other: SocketAddr|
        #![trigger map_of(rest).contains_key(other)]
        map_of(rest).contains_key(other) == map_of(entries).remove(sock).contains_key(other) && (
        map_of(rest).contains_key(other) ==> map_of(rest)[other] == map_of(entries)[other]) by {
        if map_of(rest).contains_key(other) {
            let j = choose|j: int| holds(rest, other, j);
            let j0 = if j < i { j } else { j + 1 };
            assert(rest[j] == entries[j0]);
            lemma_map_of(rest, j);
            lemma_map_of(entries, j0);
            assert(other != sock) by {
                assert(entries[i].0 != entries[j0].0);
            }
        } else if map_of(entries).contains_key(other) && other != sock {
            let j0 = choose|j: int| holds(entries, other, j);
            let j = if j0 < i { j0 } else { j0 - 1 };
            assert(rest[j] == entries[j0]);
            assert(holds(rest, other, j));
        }
    }
    assert(map_of(rest) =~= map_of(entries).remove(sock));
}

proof fn lemma_push(entries: Seq<(SocketAddr, ClientId)>, sock: SocketAddr, id: ClientId)
    requires
        unique(entries),
        !map_of(entries).contains_key(sock),
    ensures
        unique(entries.push((sock, id))),
        map_of(entries.push((sock, id))) == map_of(entries).insert(sock, id),
{
    let more = entries.push((sock, id));
    assert(unique(more)) by {
        assert forall|j: int, k: int| 0 <= j < k < more.len() implies (#[trigger] more[j]).0 != (
        #[trigger] more[k]).0 by {
            if k == entries.len() {
                assert(!holds(entries, sock, j));
            }
        }
    }
    lemma_map_of(more, entries.len() as int);
    assert forall|other: SocketAddr|
        #![trigger map_of(more).contains_key(other)]
        map_of(more).contains_key(other) == map_of(entries).insert(sock, id).contains_key(other) && (
        map_of(more).contains_key(other) ==> map_of(more)[other] == map_of(entries).insert(
            sock,
            id,
        )[other]) by {
        if map_of(more).contains_key(other) {
            let j = choose|j: int| holds(more, other, j);
            lemma_map_of(more, j);
            if j < entries.len() {
                lemma_map_of(entries, j);
            }
        } else if map_of(entries).contains_key(other) {
            let j = choose|j: int| holds(entries, other, j);
            assert(holds(more, other, j));
        } else {
            assert(other != sock);
        }
    }
    assert(map_of(more) =~= map_of(entries).insert(sock, id));
}

impl View for SockTable {
    type V = Map<SocketAddr, ClientId>;

    closed spec fn view(&self) -> Map<SocketAddr, ClientId> {
        map_of(self.entries@)
    }
}

/// The value under `sock`, if there is one.
pub open spec fn lookup(table: Map<SocketAddr, ClientId>, sock: SocketAddr) -> Option<ClientId> {
    if table.contains_key(sock) {
        Some(table[sock])
    } else {
        None
    }
}

impl SockTable {
    pub closed spec fn wf(&self) -> bool {
        unique(self.entries@)
    }

    pub fn new() -> (table: SockTable)
        ensures
            table.wf(),
            table@ == Map::<SocketAddr, ClientId>::empty(),
    {
        let table = SockTable { entries: Vec::new() };
        assert(table@ =~= Map::<SocketAddr, ClientId>::empty());
        table
    }

    fn position(&self, sock: &SocketAddr) -> (at: Option<usize>)
        requires
            self.wf(),
        ensures
            match at {
                Some(i) => i < self.entries@.len() && self.entries@[i as int].0 == *sock,
                None => !self@.contains_key(*sock),
            },
    {
        let mut i: usize = 0;
        while i < self.entries.len()
            invariant
                i <= self.entries@.len(),
                forall|j: int| 0 <= j < i ==> self.entries@[j].0 != *sock,
            decreases self.entries@.len() - i,
        {
            if self.entries[i].0 == *sock {
                return Some(i);
            }
            i += 1;
        }
        None
    }

    /// The id under `sock`.
    pub fn get(&self, sock: &SocketAddr) -> (id: Option<ClientId>)
        requires
            self.wf(),
        ensures
            id == lookup(self@, *sock),
    {
        match self.position(sock) {
            Some(i) => {
                proof {
                    lemma_map_of(self.entries@, i as int);
                }
                Some(self.entries[i].1)
            },
            None => None,
        }
    }

    /// Takes the entry under `sock` out.
    pub fn remove(&mut self, sock: &SocketAddr) -> (id: Option<ClientId>)
        requires
            old(self).wf(),
        ensures
            final(self).wf(),
            final(self)@ == old(self)@.remove(*sock),
            id == lookup(old(self)@, *sock),
    {
        match self.position(sock) {
            Some(i) => {
                proof {
                    lemma_map_of(self.entries@, i as int);
                    lemma_remove(self.entries@, i as int);
                }
                let (_, id) = self.entries.remove(i);
                Some(id)
            },
            None => {
                assert(self@ =~= self@.remove(*sock));
                None
            },
        }
    }

    /// Puts `id` under `sock`, in place of what was there.
    pub fn insert(&mut self, sock: SocketAddr, id: ClientId) -> (replaced: Option<ClientId>)
        requires
            old(self).wf(),
        ensures
            final(self).wf(),
            final(self)@ == old(self)@.insert(sock, id),
            replaced == lookup(old(self)@, sock),
    {
        let replaced = self.remove(&sock);
        proof {
            lemma_push(self.entries@, sock, id);
        }
        self.entries.push((sock, id));
        assert(self@ =~= old(self)@.insert(sock, id));
        replaced
    }
}

} // verus!
