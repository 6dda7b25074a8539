//! The server's registry of clients.  A client is known by its address
//! (`ip:port`).  A client that sends a packet for the first time becomes
//! pending; once the user accepts it, it is connected, and its packets are
//! forwarded through the channel stored for it to the worker that drives its
//! virtual joystick.

use vstd::prelude::*;
use std::sync::mpsc::SyncSender;

verus! {

broadcast use {vstd::set::group_set_axioms, vstd::map::group_map_axioms};

#[verifier::external_type_specification]
#[verifier::external_body]
#[verifier::reject_recursive_types(T)]
pub struct ExSyncSender<T>(SyncSender<T>);

/// The addresses held in `v`.
pub open spec fn names_of(v: Seq<String>) -> Set<Seq<char>> {
    Set::new(|k: Seq<char>| exists|i: int| 0 <= i < v.len() && v[i]@ == k)
}

/// No address occurs twice in `v`.
pub open spec fn distinct_names(v: Seq<String>) -> bool {
    forall|i: int, j: int| 0 <= i < j < v.len() ==> v[i]@ != v[j]@
}

/// The addresses of the entries of `v`.
pub open spec fn entry_names<T>(v: Seq<(String, T)>) -> Seq<String> {
    v.map_values(|e: (String, T)| e.0)
}

/// The map from address to value that the entries of `v` stand for; a
/// later entry for an address wins over an earlier one.
pub open spec fn entry_map<T>(v: Seq<(String, T)>) -> Map<Seq<char>, T>
    decreases v.len(),
{
    if v.len() == 0 {
        Map::empty()
    } else {
        entry_map(v.drop_last()).insert(v.last().0@, v.last().1)
    }
}

/// The addresses of the map are those of the entries.
pub proof fn lemma_entry_map_dom<T>(v: Seq<(String, T)>)
    ensures
        forall|k: Seq<char>| #[trigger]
            entry_map(v).dom().contains(k) <==> exists|i: int|
                0 <= i < v.len() && v[i].0@ == k,
    decreases v.len(),
{
    if v.len() > 0 {
        let u = v.drop_last();
        lemma_entry_map_dom(u);
        assert forall|k: Seq<char>| #[trigger]
            entry_map(v).dom().contains(k) <==> exists|i: int|
                0 <= i < v.len() && v[i].0@ == k by {
            assert(entry_map(v) == entry_map(u).insert(v.last().0@, v.last().1));
            if entry_map(v).dom().contains(k) && k != v.last().0@ {
                assert(entry_map(u).dom().contains(k));
                let i = choose|i: int| 0 <= i < u.len() && u[i].0@ == k;
                assert(v[i] == u[i]);
            }
            if entry_map(v).dom().contains(k) && k == v.last().0@ {
                assert(v[v.len() - 1].0@ == k);
            }
            if exists|i: int| 0 <= i < v.len() && v[i].0@ == k {
                let i = choose|i: int| 0 <= i < v.len() && v[i].0@ == k;
                if i < u.len() {
                    assert(v[i] == u[i]);
                    assert(entry_map(u).dom().contains(k));
                }
            }
        }
    }
}

/// The entry at `j` is what the map holds for its address.
pub proof fn lemma_entry_map_at<T>(v: Seq<(String, T)>, j: int)
    requires
        distinct_names(entry_names(v)),
        0 <= j < v.len(),
    ensures
        entry_map(v).dom().contains(v[j].0@),
        entry_map(v)[v[j].0@] == v[j].1,
    decreases v.len(),
{
    lemma_entry_map_dom(v);
    if j < v.len() - 1 {
        let u = v.drop_last();
        assert(entry_names(v)[j] == v[j].0);
        assert(entry_names(v)[v.len() - 1] == v[v.len() - 1].0);
        assert(v[j].0@ != v.last().0@);
        assert forall|a: int, b: int| 0 <= a < b < u.len() implies entry_names(u)[a]@
            != entry_names(u)[b]@ by {
            assert(entry_names(u)[a] == entry_names(v)[a]);
            assert(entry_names(u)[b] == entry_names(v)[b]);
        }
        assert(u[j] == v[j]);
        lemma_entry_map_at(u, j);
    }
}

/// A sequence of entries whose addresses are distinct stays so with the
/// entry at `j` removed.
proof fn lemma_distinct_remove<T>(v: Seq<(String, T)>, j: int)
    requires
        distinct_names(entry_names(v)),
        0 <= j < v.len(),
    ensures
        distinct_names(entry_names(v.remove(j))),
{
    let w = v.remove(j);
    assert forall|a: int, b: int| 0 <= a < b < w.len() implies entry_names(w)[a]@
        != entry_names(w)[b]@ by {
        let a2 = if a < j { a } else { a + 1 };
        let b2 = if b < j { b } else { b + 1 };
        assert(entry_names(w)[a] == entry_names(v)[a2]);
        assert(entry_names(w)[b] == entry_names(v)[b2]);
    }
}

/// Removing the entry at `j` removes its address from the map.
pub proof fn lemma_entry_map_remove<T>(v: Seq<(String, T)>, j: int)
    requires
        distinct_names(entry_names(v)),
        0 <= j < v.len(),
    ensures
        distinct_names(entry_names(v.remove(j))),
        entry_map(v.remove(j)) =~= entry_map(v).remove(v[j].0@),
{
    let w = v.remove(j);
    lemma_distinct_remove(v, j);
    lemma_entry_map_dom(v);
    lemma_entry_map_dom(w);
    let k = v[j].0@;
    assert forall|key: Seq<char>| #[trigger] entry_map(w).dom().contains(key) <==> entry_map(
        v,
    ).remove(k).dom().contains(key) by {
        if entry_map(w).dom().contains(key) {
            let i = choose|i: int| 0 <= i < w.len() && w[i].0@ == key;
            let i2 = if i < j { i } else { i + 1 };
            assert(w[i] == v[i2]);
            assert(entry_names(v)[i2] == v[i2].0);
            assert(entry_names(v)[j] == v[j].0);
        }
        if entry_map(v).remove(k).dom().contains(key) {
            let i = choose|i: int| 0 <= i < v.len() && v[i].0@ == key;
            let i2 = if i < j { i } else { i - 1 };
            assert(w[i2] == v[i]);
        }
    }
    assert forall|key: Seq<char>| #[trigger] entry_map(w).dom().contains(key) implies entry_map(
        w,
    )[key] == entry_map(v).remove(k)[key] by {
        let i = choose|i: int| 0 <= i < w.len() && w[i].0@ == key;
        let i2 = if i < j { i } else { i + 1 };
        assert(w[i] == v[i2]);
        lemma_entry_map_at(w, i);
        lemma_entry_map_at(v, i2);
    }
}

/// Appending an entry adds its address to the map.
pub proof fn lemma_entry_map_push<T>(v: Seq<(String, T)>, e: (String, T))
    requires
        distinct_names(entry_names(v)),
        !entry_map(v).dom().contains(e.0@),
    ensures
        distinct_names(entry_names(v.push(e))),
        entry_map(v.push(e)) =~= entry_map(v).insert(e.0@, e.1),
{
    let w = v.push(e);
    lemma_entry_map_dom(v);
    assert(w.drop_last() =~= v);
    assert forall|a: int, b: int| 0 <= a < b < w.len() implies entry_names(w)[a]@
        != entry_names(w)[b]@ by {
        assert(entry_names(w)[a] == w[a].0);
        assert(entry_names(w)[b] == w[b].0);
        assert(w[a] == v[a]);
        if b < v.len() {
            assert(w[b] == v[b]);
            assert(entry_names(v)[a] == v[a].0);
            assert(entry_names(v)[b] == v[b].0);
        }
    }
}

/// Replacing the entry at `j` by one with the same address replaces the
/// value in the map.
pub proof fn lemma_entry_map_update<T>(v: Seq<(String, T)>, j: int, e: (String, T))
    requires
        distinct_names(entry_names(v)),
        0 <= j < v.len(),
        e.0@ == v[j].0@,
    ensures
        distinct_names(entry_names(v.update(j, e))),
        entry_map(v.update(j, e)) =~= entry_map(v).insert(e.0@, e.1),
{
    let w = v.update(j, e);
    lemma_entry_map_dom(v);
    lemma_entry_map_dom(w);
    assert forall|a: int, b: int| 0 <= a < b < w.len() implies entry_names(w)[a]@
        != entry_names(w)[b]@ by {
        assert(entry_names(w)[a] == w[a].0);
        assert(entry_names(w)[b] == w[b].0);
        assert(entry_names(v)[a] == v[a].0);
        assert(entry_names(v)[b] == v[b].0);
    }
    assert forall|key: Seq<char>| #[trigger] entry_map(w).dom().contains(key) <==> entry_map(
        v,
    ).insert(e.0@, e.1).dom().contains(key) by {
        if entry_map(w).dom().contains(key) {
            let i = choose|i: int| 0 <= i < w.len() && w[i].0@ == key;
            if i != j {
                assert(w[i] == v[i]);
            }
        }
        if entry_map(v).dom().contains(key) {
            let i = choose|i: int| 0 <= i < v.len() && v[i].0@ == key;
            if i != j {
                assert(w[i] == v[i]);
            } else {
                assert(w[j] == e);
            }
        }
        if key == e.0@ {
            assert(w[j] == e);
        }
    }
    assert forall|key: Seq<char>| #[trigger] entry_map(w).dom().contains(key) implies entry_map(
        w,
    )[key] == entry_map(v).insert(e.0@, e.1)[key] by {
        let i = choose|i: int| 0 <= i < w.len() && w[i].0@ == key;
        lemma_entry_map_at(w, i);
        if i != j {
            assert(w[i] == v[i]);
            lemma_entry_map_at(v, i);
            assert(entry_names(w)[i] == w[i].0);
            assert(entry_names(w)[j] == w[j].0);
            assert(w[j] == e);
            if i < j {
                assert(entry_names(w)[i]@ != entry_names(w)[j]@);
            } else {
                assert(entry_names(w)[j]@ != entry_names(w)[i]@);
            }
        } else {
            assert(w[j] == e);
        }
    }
}

/// The position of the entry for `client` in `v`, if there is one.
pub fn entry_index<T>(v: &Vec<(String, T)>, client: &String) -> (r: Option<usize>)
    ensures
        match r {
            Some(i) => i < v.len() && v@[i as int].0@ == client@,
            None => forall|i: int| 0 <= i < v.len() ==> v@[i].0@ != client@,
        },
{
    let mut i: usize = 0;
    while i < v.len()
        invariant
            i <= v.len(),
            forall|j: int| 0 <= j < i ==> v@[j].0@ != client@,
        decreases v.len() - i,
    {
        if v[i].0 == *client {
            return Some(i);
        }
        i = i + 1;
    }
    None
}

/// The position of `client` in `v`, if it is there.
pub fn name_index(v: &Vec<String>, client: &String) -> (r: Option<usize>)
    ensures
        match r {
            Some(i) => i < v.len() && v@[i as int]@ == client@,
            None => forall|i: int| 0 <= i < v.len() ==> v@[i]@ != client@,
        },
{
    let mut i: usize = 0;
    while i < v.len()
        invariant
            i <= v.len(),
            forall|j: int| 0 <= j < i ==> v@[j]@ != client@,
        decreases v.len() - i,
    {
        if v[i] == *client {
            return Some(i);
        }
        i = i + 1;
    }
    None
}


/// The registry of clients: the addresses waiting to be accepted, and the
/// accepted ones with the channel to the worker of each.
pub struct Server {
    connected_clients: Vec<(String, SyncSender<[u8; 4]>)>,
    potential_clients: Vec<String>,
}

/// What the server does with a packet from an address.
#[derive(Clone, Copy, Debug, PartialEq, Eq, Structural)]
pub enum PacketRoute {
    /// The address was unknown: it is now pending, and the list of clients
    /// shown to the user changes.
    NewClient,
    /// The address is connected: the packet goes to its worker.
    Forward,
    /// The address is pending but not connected: the packet is dropped.
    Ignore,
}

impl Server {
    /// No address is stored twice.
    pub closed spec fn wf(self) -> bool {
        &&& distinct_names(self.potential_clients@)
        &&& distinct_names(entry_names(self.connected_clients@))
    }

    /// The addresses waiting to be accepted.
    pub closed spec fn pending(self) -> Set<Seq<char>> {
        names_of(self.potential_clients@)
    }

    /// The accepted addresses, each with the sending end of its worker's
    /// channel.
    pub closed spec fn connected(self) -> Map<Seq<char>, SyncSender<[u8; 4]>> {
        entry_map(self.connected_clients@)
    }

    /// Where a packet from `source` goes: to the worker of a connected
    /// address, nowhere for an address that is only pending, and an unknown
    /// address becomes pending.
    pub open spec fn route(self, source: Seq<char>) -> PacketRoute {
        if self.connected().contains_key(source) {
            PacketRoute::Forward
        } else if self.pending().contains(source) {
            PacketRoute::Ignore
        } else {
            PacketRoute::NewClient
        }
    }

    /// An empty registry.
    pub fn new() -> (s: Server)
        ensures
            s.wf(),
            s.pending() == Set::<Seq<char>>::empty(),
            s.connected() == Map::<Seq<char>, SyncSender<[u8; 4]>>::empty(),
    {
        let s = Server { connected_clients: Vec::new(), potential_clients: Vec::new() };
        assert(s.pending() =~= Set::<Seq<char>>::empty());
        s
    }

    /// Adds `client_information` to the pending addresses; adding one that
    /// is already pending changes nothing.
    pub fn add_client(&mut self, client_information: String)
        requires
            old(self).wf(),
        ensures
            final(self).wf(),
            final(self).pending() == old(self).pending().insert(client_information@),
            final(self).connected() == old(self).connected(),
    {
        match name_index(&self.potential_clients, &client_information) {
            Some(i) => {
                assert(self.pending() =~= self.pending().insert(client_information@));
            },
            None => {
                let ghost before = self.potential_clients@;
                self.potential_clients.push(client_information);
                let ghost after = self.potential_clients@;
                assert forall|a: int, b: int| 0 <= a < b < after.len() implies after[a]@
                    != after[b]@ by {
                    assert(after[a] == before[a]);
                    if b < before.len() {
                        assert(after[b] == before[b]);
                    }
                }
                assert forall|k: Seq<char>| names_of(after).contains(k) <==> names_of(
                    before,
                ).insert(client_information@).contains(k) by {
                    if names_of(after).contains(k) {
                        let i = choose|i: int| 0 <= i < after.len() && after[i]@ == k;
                        if i < before.len() {
                            assert(after[i] == before[i]);
                        }
                    }
                    if names_of(before).contains(k) {
                        let i = choose|i: int| 0 <= i < before.len() && before[i]@ == k;
                        assert(after[i] == before[i]);
                    }
                    if k == client_information@ {
                        assert(after[before.len() as int]@ == k);
                    }
                }
                assert(names_of(after) =~= names_of(before).insert(client_information@));
            },
        }
    }

    /// Removes `client_information` from the pending addresses; removing
    /// one that is not pending changes nothing.
    pub fn remove_client(&mut self, client_information: String)
        requires
            old(self).wf(),
        ensures
            final(self).wf(),
            final(self).pending() == old(self).pending().remove(client_information@),
            final(self).connected() == old(self).connected(),
    {
        match name_index(&self.potential_clients, &client_information) {
            Some(i) => {
                let ghost before = self.potential_clients@;
                self.potential_clients.remove(i);
                let ghost after = self.potential_clients@;
                assert(after =~= before.remove(i as int));
                assert forall|a: int, b: int| 0 <= a < b < after.len() implies after[a]@
                    != after[b]@ by {
                    let a2 = if a < i { a } else { a + 1 };
                    let b2 = if b < i { b } else { b + 1 };
                    assert(after[a] == before[a2]);
                    assert(after[b] == before[b2]);
                }
                assert forall|k: Seq<char>| names_of(after).contains(k) <==> names_of(
                    before,
                ).remove(client_information@).contains(k) by {
                    if names_of(after).contains(k) {
                        let j = choose|j: int| 0 <= j < after.len() && after[j]@ == k;
                        let j2 = if j < i { j } else { j + 1 };
                        assert(after[j] == before[j2]);
                        if j2 < i {
                            assert(before[j2]@ != before[i as int]@);
                        } else {
                            assert(before[i as int]@ != before[j2]@);
                        }
                    }
                    if names_of(before).contains(k) && k != client_information@ {
                        let j = choose|j: int| 0 <= j < before.len() && before[j]@ == k;
                        let j2 = if j < i { j } else { j - 1 };
                        assert(after[j2] == before[j]);
                    }
                }
                assert(names_of(after) =~= names_of(before).remove(client_information@));
            },
            None => {
                assert(self.pending() =~= self.pending().remove(client_information@));
            },
        }
    }

    /// The pending addresses, each once.
    pub fn get_clients(&self) -> (clients: Vec<String>)
        requires
            self.wf(),
        ensures
            distinct_names(clients@),
            names_of(clients@) == self.pending(),
    {
        self.potential_clients.clone()
    }

    /// The stored pending address equal to `client_information`, if it is
    /// pending.
    pub fn find_client(&self, client_information: String) -> (found: Option<&String>)
        ensures
            match found {
                Some(c) => self.pending().contains(client_information@) && c@
                    == client_information@,
                None => !self.pending().contains(client_information@),
            },
    {
        match name_index(&self.potential_clients, &client_information) {
            Some(i) => {
                assert(names_of(self.potential_clients@).contains(client_information@));
                Some(&self.potential_clients[i])
            },
            None => None,
        }
    }

    /// Connects `client_information`, whose packets from now on go to
    /// `sender`; a sender stored before for it is replaced.  Whether the
    /// address is pending does not change.
    pub fn connect_client(&mut self, client_information: String, sender: SyncSender<[u8; 4]>)
        requires
            old(self).wf(),
        ensures
            final(self).wf(),
            final(self).connected() == old(self).connected().insert(client_information@, sender),
            final(self).pending() == old(self).pending(),
    {
        let ghost key = client_information@;
        match entry_index(&self.connected_clients, &client_information) {
            Some(i) => {
                let ghost before = self.connected_clients@;
                proof {
                    lemma_entry_map_update(before, i as int, (client_information, sender));
                }
                self.connected_clients.set(i, (client_information, sender));
            },
            None => {
                let ghost before = self.connected_clients@;
                proof {
                    lemma_entry_map_dom(before);
                    lemma_entry_map_push(before, (client_information, sender));
                }
                self.connected_clients.push((client_information, sender));
            },
        }
    }

    /// Disconnects `client_information`: its sender is dropped, which ends
    /// its worker.  Disconnecting an address that is not connected changes
    /// nothing.
    pub fn disconnect_client(&mut self, client_information: String)
        requires
            old(self).wf(),
        ensures
            final(self).wf(),
            final(self).connected() == old(self).connected().remove(client_information@),
            final(self).pending() == old(self).pending(),
    {
        match entry_index(&self.connected_clients, &client_information) {
            Some(i) => {
                let ghost before = self.connected_clients@;
                proof {
                    lemma_entry_map_remove(before, i as int);
                }
                let _removed = self.connected_clients.remove(i);
            },
            None => {
                proof {
                    lemma_entry_map_dom(self.connected_clients@);
                }
                assert(self.connected() =~= self.connected().remove(client_information@));
            },
        }
    }

    /// The sender of connected `client_information`, if it is connected.
    pub fn find_connected_client(&self, client_information: String) -> (found: Option<
        &SyncSender<[u8; 4]>,
    >)
        requires
            self.wf(),
        ensures
            match found {
                Some(s) => self.connected().contains_key(client_information@) && *s
                    == self.connected()[client_information@],
                None => !self.connected().contains_key(client_information@),
            },
    {
        proof {
            lemma_entry_map_dom(self.connected_clients@);
        }
        match entry_index(&self.connected_clients, &client_information) {
            Some(i) => {
                proof {
                    lemma_entry_map_at(self.connected_clients@, i as int);
                }
                Some(&self.connected_clients[i].1)
            },
            None => None,
        }
    }

    /// The connected addresses, each once, with the sender of each.
    pub fn get_connected_clients(&self) -> (clients: &Vec<(String, SyncSender<[u8; 4]>)>)
        requires
            self.wf(),
        ensures
            distinct_names(entry_names(clients@)),
            entry_map(clients@) == self.connected(),
    {
        &self.connected_clients
    }

    /// Routes a packet that arrived from `source`: an address neither
    /// pending nor connected becomes pending; a connected one has its packet
    /// forwarded; a pending one that is not connected has it dropped.
    pub fn receive_from(&mut self, source: String) -> (route: PacketRoute)
        requires
            old(self).wf(),
        ensures
            final(self).wf(),
            final(self).connected() == old(self).connected(),
            route == old(self).route(source@),
            final(self).pending() == (if route == PacketRoute::NewClient {
                old(self).pending().insert(source@)
            } else {
                old(self).pending()
            }),
    {
        let connected = self.find_connected_client(source.clone()).is_some();
        let potential = self.find_client(source.clone()).is_some();
        if !potential && !connected {
            self.add_client(source);
            PacketRoute::NewClient
        } else if connected {
            PacketRoute::Forward
        } else {
            PacketRoute::Ignore
        }
    }
}

/// The address part of a client's `ip:port`: what comes before the first
/// `:`, or `None` when there is no `:`.
pub open spec fn spec_client_host(client: Seq<char>) -> Option<Seq<char>> {
    let c = crate::client::colon_from(client, 0);
    if c < client.len() {
        Some(client.subrange(0, c))
    } else {
        None
    }
}

/// The address of a client without its port, which names its virtual
/// joystick; `None` when the client has no `:` in it.
pub fn client_host(client_information: &str) -> (host: Option<String>)
    ensures
        match host {
            Some(h) => spec_client_host(client_information@) == Some(h@),
            None => spec_client_host(client_information@).is_none(),
        },
{
    let n: usize = client_information.unicode_len();
    let c: usize = crate::client::first_colon(client_information);
    if c < n {
        Some(String::from_str(client_information.substring_char(0, c)))
    } else {
        None
    }
}

} // verus!
