use crate::ids::{
    Multiaddr, PeerId, ProtocolId, ProtocolName, RecordKey, contains_name, names_view, peers_view,
    position_of_peer,
};
use std::time::Duration;
use vstd::prelude::*;

verus! {

/// One discovery namespace: the DHT of a protocol id, spoken under a protocol
/// name of its own.
#[derive(Clone, Debug, PartialEq, Eq)]
pub struct Namespace {
    pub id: ProtocolId,
    pub protocol_name: ProtocolName,
}

/// Occupancy of one namespace's routing table and record store, as last
/// reported by the DHT.
#[derive(Clone, Debug, PartialEq, Eq)]
pub struct NamespaceStats {
    /// Number of entries of each k-bucket, by the base-2 logarithm of the
    /// bucket's lower bound.
    pub kbuckets: Vec<(u32, usize)>,
    pub num_records: usize,
    pub records_total_size: usize,
}

/// How to build the discovery protocol.
#[derive(Clone, Debug)]
pub struct DiscoveryConfig {
    pub namespaces: Vec<Namespace>,
    /// Addresses that never expire, known from the start.
    pub permanent_addresses: Vec<(PeerId, Multiaddr)>,
}

/// A DHT operation that the transport has to start.
#[derive(Clone, Debug, PartialEq, Eq)]
pub enum DhtQuery {
    Get(RecordKey),
    Put(RecordKey, Vec<u8>),
}

pub enum DhtQueryView {
    Get(Seq<u8>),
    Put(Seq<u8>, Seq<u8>),
}

impl View for DhtQuery {
    type V = DhtQueryView;

    open spec fn view(&self) -> DhtQueryView {
        match self {
            DhtQuery::Get(k) => DhtQueryView::Get(k@),
            DhtQuery::Put(k, v) => DhtQueryView::Put(k@, v@),
        }
    }
}

/// What the discovery protocol reports.
pub enum DiscoveryOut {
    /// A peer was found whose addresses are unknown.
    UnroutablePeer(PeerId),
    /// A new peer was found.
    Discovered(PeerId),
    /// The records found for a key, and how long the lookup took.
    ValueFound(Vec<(RecordKey, Vec<u8>)>, Duration),
    ValueNotFound(RecordKey, Duration),
    ValuePut(RecordKey, Duration),
    ValuePutFailed(RecordKey, Duration),
    /// A random walk started in each of these namespaces.
    RandomKademliaStarted(Vec<ProtocolId>),
}

pub struct NamespaceView {
    pub id: Seq<char>,
    pub protocol_name: Seq<char>,
    pub kbuckets: Seq<(u32, usize)>,
    pub num_records: usize,
    pub records_total_size: usize,
}

/// A namespace with its last reported occupancy.
struct NamespaceState {
    namespace: Namespace,
    stats: NamespaceStats,
}

/// An address a peer reported for itself, entered in one namespace.
pub struct RoutingEntry {
    pub peer: Seq<u8>,
    pub namespace: Seq<char>,
    pub addr: Seq<u8>,
}

pub struct DiscoveryView {
    pub namespaces: Seq<NamespaceView>,
    pub permanent_addresses: Seq<(Seq<u8>, Seq<u8>)>,
    pub routing: Seq<RoutingEntry>,
    pub queries: Seq<DhtQueryView>,
}

impl View for Discovery {
    type V = DiscoveryView;

    open spec fn view(&self) -> DiscoveryView {
        DiscoveryView {
            namespaces: self.namespaces(),
            permanent_addresses: self.permanent_addresses(),
            routing: self.routing(),
            queries: self.queries(),
        }
    }
}

/// The discovery protocol, as far as the behaviour drives it: its
/// namespaces, the addresses it knows, and the DHT operations waiting to be
/// started.
pub struct Discovery {
    namespaces: Vec<NamespaceState>,
    permanent: Vec<(PeerId, Multiaddr)>,
    routing: Vec<(PeerId, ProtocolId, Multiaddr)>,
    queries: Vec<DhtQuery>,
}

pub open spec fn address_pairs(list: Seq<(PeerId, Multiaddr)>) -> Seq<(Seq<u8>, Seq<u8>)> {
    list.map_values(|e: (PeerId, Multiaddr)| (e.0@, e.1@))
}

/// The routing entries that a peer's self-reported `addr` makes in the first
/// `n` namespaces: one in each namespace whose protocol name the peer
/// supports.
pub open spec fn reported_entries(
    namespaces: Seq<NamespaceView>,
    supported: Seq<Seq<char>>,
    peer: Seq<u8>,
    addr: Seq<u8>,
    n: int,
) -> Seq<RoutingEntry>
    decreases n,
{
    if n <= 0 {
        Seq::empty()
    } else {
        let before = reported_entries(namespaces, supported, peer, addr, n - 1);
        if supported.contains(namespaces[n - 1].protocol_name) {
            before.push(RoutingEntry { peer, namespace: namespaces[n - 1].id, addr })
        } else {
            before
        }
    }
}

spec fn namespace_views(states: Seq<NamespaceState>) -> Seq<NamespaceView> {
    states.map_values(
        |s: NamespaceState|
            NamespaceView {
                id: s.namespace.id@,
                protocol_name: s.namespace.protocol_name@,
                kbuckets: s.stats.kbuckets@,
                num_records: s.stats.num_records,
                records_total_size: s.stats.records_total_size,
            },
    )
}

/// What a namespace of the configuration looks like before the DHT has
/// reported anything.
pub open spec fn fresh_namespace(n: Namespace) -> NamespaceView {
    NamespaceView {
        id: n.id@,
        protocol_name: n.protocol_name@,
        kbuckets: Seq::empty(),
        num_records: 0,
        records_total_size: 0,
    }
}

pub open spec fn fresh_namespaces(namespaces: Seq<Namespace>) -> Seq<NamespaceView> {
    namespaces.map_values(|n: Namespace| fresh_namespace(n))
}

impl DiscoveryConfig {
    /// Builds the discovery protocol: the configured namespaces with nothing
    /// reported yet, and the permanent addresses.
    pub fn finish(self) -> (r: Discovery)
        ensures
            r.namespaces() == fresh_namespaces(self.namespaces@),
            r.permanent_addresses() == address_pairs(self.permanent_addresses@),
            r.routing() == Seq::<RoutingEntry>::empty(),
            r.queries() == Seq::<DhtQueryView>::empty(),
    {
        let ghost target = fresh_namespaces(self.namespaces@);
        let mut states: Vec<NamespaceState> = Vec::new();
        let mut i: usize = 0;
        while i < self.namespaces.len()
            invariant
                i <= self.namespaces@.len(),
                target == fresh_namespaces(self.namespaces@),
                states@.len() == i,
                namespace_views(states@) == target.subrange(0, i as int),
            decreases self.namespaces@.len() - i,
        {
            let n = &self.namespaces[i];
            let state = NamespaceState {
                namespace: Namespace { id: n.id.clone(), protocol_name: n.protocol_name.clone() },
                stats: NamespaceStats { kbuckets: Vec::new(), num_records: 0, records_total_size: 0 },
            };
            proof {
                assert(state.stats.kbuckets@ =~= Seq::<(u32, usize)>::empty());
                assert(target[i as int] == fresh_namespace(self.namespaces@[i as int]));
            }
            let ghost before = states@;
            states.push(state);
            proof {
                assert(namespace_views(states@)[i as int] == target[i as int]);
                assert(namespace_views(states@).subrange(0, i as int) =~= namespace_views(before));
            }
            i = i + 1;
            proof {
                assert(namespace_views(states@) =~= target.subrange(0, i as int));
            }
        }
        let d = Discovery {
            namespaces: states,
            permanent: self.permanent_addresses,
            routing: Vec::new(),
            queries: Vec::new(),
        };
        proof {
            assert(d.namespaces() =~= target.subrange(0, i as int));
            assert(target.subrange(0, i as int) =~= target);
            assert(d.routing() =~= Seq::<RoutingEntry>::empty());
            assert(d.queries() =~= Seq::<DhtQueryView>::empty());
        }
        d
    }
}

impl Discovery {
    pub closed spec fn namespaces(&self) -> Seq<NamespaceView> {
        namespace_views(self.namespaces@)
    }

    /// Addresses that never expire, in the order they were given.
    pub closed spec fn permanent_addresses(&self) -> Seq<(Seq<u8>, Seq<u8>)> {
        address_pairs(self.permanent@)
    }

    /// Self-reported addresses entered in the routing tables, oldest first.
    pub closed spec fn routing(&self) -> Seq<RoutingEntry> {
        self.routing@.map_values(
            |e: (PeerId, ProtocolId, Multiaddr)| RoutingEntry { peer: e.0@, namespace: e.1@, addr: e.2@ },
        )
    }

    /// DHT operations waiting to be started, oldest first.
    pub closed spec fn queries(&self) -> Seq<DhtQueryView> {
        self.queries@.map_values(|q: DhtQuery| q@)
    }

    /// Every peer of which an address is known, permanent ones first, with
    /// repetitions.
    pub open spec fn address_owners(&self) -> Seq<Seq<u8>> {
        self.permanent_addresses().map_values(|e: (Seq<u8>, Seq<u8>)| e.0)
            + self.routing().map_values(|e: RoutingEntry| e.peer)
    }

    pub open spec fn known_peer_set(&self) -> Set<Seq<u8>> {
        self.address_owners().to_set()
    }

    /// The peers of which an address is known, each once.
    pub fn known_peers(&self) -> (r: Vec<PeerId>)
        ensures
            peers_view(r@).no_duplicates(),
            peers_view(r@).to_set() == self.known_peer_set(),
    {
        let ghost owners_p = self.permanent_addresses().map_values(|e: (Seq<u8>, Seq<u8>)| e.0);
        let ghost owners_r = self.routing().map_values(|e: RoutingEntry| e.peer);
        let mut out: Vec<PeerId> = Vec::new();
        proof {
            assert(peers_view(out@) =~= Seq::<Seq<u8>>::empty());
            assert(owners_p.subrange(0, 0) =~= Seq::<Seq<u8>>::empty());
        }
        let mut i: usize = 0;
        while i < self.permanent.len()
            invariant
                i <= self.permanent@.len(),
                owners_p == self.permanent_addresses().map_values(|e: (Seq<u8>, Seq<u8>)| e.0),
                peers_view(out@).no_duplicates(),
                peers_view(out@).to_set() == owners_p.subrange(0, i as int).to_set(),
            decreases self.permanent@.len() - i,
        {
            insert_unique(&mut out, &self.permanent[i].0);
            proof {
                assert(owners_p[i as int] == self.permanent@[i as int].0@);
                assert(owners_p.subrange(0, i + 1) =~= owners_p.subrange(0, i as int).push(owners_p[i as int]));
                owners_p.subrange(0, i as int).lemma_push_to_set_commute(owners_p[i as int]);
            }
            i = i + 1;
        }
        proof {
            assert(owners_p.subrange(0, i as int) =~= owners_p);
            assert(owners_p + owners_r.subrange(0, 0) =~= owners_p);
        }
        let mut i: usize = 0;
        while i < self.routing.len()
            invariant
                i <= self.routing@.len(),
                owners_r == self.routing().map_values(|e: RoutingEntry| e.peer),
                peers_view(out@).no_duplicates(),
                peers_view(out@).to_set() == (owners_p + owners_r.subrange(0, i as int)).to_set(),
            decreases self.routing@.len() - i,
        {
            insert_unique(&mut out, &self.routing[i].0);
            proof {
                assert(owners_r[i as int] == self.routing@[i as int].0@);
                assert(owners_p + owners_r.subrange(0, i + 1) =~= (owners_p + owners_r.subrange(0, i as int)).push(
                    owners_r[i as int],
                ));
                (owners_p + owners_r.subrange(0, i as int)).lemma_push_to_set_commute(owners_r[i as int]);
            }
            i = i + 1;
        }
        proof {
            assert(owners_r.subrange(0, i as int) =~= owners_r);
        }
        out
    }

    /// Adds an address for `peer` that never expires.
    pub fn add_known_address(&mut self, peer: PeerId, addr: Multiaddr)
        ensures
            final(self).permanent_addresses() == old(self).permanent_addresses().push((peer@, addr@)),
            final(self).namespaces() == old(self).namespaces(),
            final(self).routing() == old(self).routing(),
            final(self).queries() == old(self).queries(),
    {
        self.permanent.push((peer, addr));
        proof {
            assert(self.permanent_addresses() =~= old(self).permanent_addresses().push((peer@, addr@)));
        }
    }

    /// Enters the address that `peer` reported for itself in the routing
    /// table of every namespace whose protocol it supports.
    pub fn add_self_reported_address(&mut self, peer: &PeerId, supported_protocols: &Vec<ProtocolName>, addr: &Multiaddr)
        ensures
            final(self).routing() == old(self).routing() + reported_entries(
                old(self).namespaces(),
                names_view(supported_protocols@),
                peer@,
                addr@,
                old(self).namespaces().len() as int,
            ),
            final(self).namespaces() == old(self).namespaces(),
            final(self).permanent_addresses() == old(self).permanent_addresses(),
            final(self).queries() == old(self).queries(),
    {
        let ghost supported = names_view(supported_protocols@);
        proof {
            assert(old(self).routing() + reported_entries(self.namespaces(), supported, peer@, addr@, 0)
                =~= old(self).routing());
        }
        let mut i: usize = 0;
        while i < self.namespaces.len()
            invariant
                i <= self.namespaces@.len(),
                supported == names_view(supported_protocols@),
                self.namespaces() == old(self).namespaces(),
                self.permanent_addresses() == old(self).permanent_addresses(),
                self.queries() == old(self).queries(),
                self.routing() == old(self).routing() + reported_entries(
                    old(self).namespaces(),
                    supported,
                    peer@,
                    addr@,
                    i as int,
                ),
            decreases self.namespaces@.len() - i,
        {
            let ghost ns = self.namespaces()[i as int];
            assert(ns.protocol_name == self.namespaces@[i as int].namespace.protocol_name@);
            if contains_name(supported_protocols, &self.namespaces[i].namespace.protocol_name) {
                let id = self.namespaces[i].namespace.id.clone();
                let ghost before = self.routing();
                self.routing.push((peer.duplicate(), id, addr.duplicate()));
                proof {
                    assert(self.routing() =~= before.push(RoutingEntry { peer: peer@, namespace: ns.id, addr: addr@ }));
                    assert(old(self).routing() + reported_entries(old(self).namespaces(), supported, peer@, addr@, i + 1)
                        =~= before.push(RoutingEntry { peer: peer@, namespace: ns.id, addr: addr@ }));
                }
            }
            i = i + 1;
        }
    }

    /// Starts looking up the records of `key`.
    pub fn get_value(&mut self, key: RecordKey)
        ensures
            final(self).queries() == old(self).queries().push(DhtQueryView::Get(key@)),
            final(self).namespaces() == old(self).namespaces(),
            final(self).permanent_addresses() == old(self).permanent_addresses(),
            final(self).routing() == old(self).routing(),
    {
        let ghost k = key@;
        self.queries.push(DhtQuery::Get(key));
        proof {
            assert(self.queries() =~= old(self).queries().push(DhtQueryView::Get(k)));
        }
    }

    /// Starts storing `value` under `key`.
    pub fn put_value(&mut self, key: RecordKey, value: Vec<u8>)
        ensures
            final(self).queries() == old(self).queries().push(DhtQueryView::Put(key@, value@)),
            final(self).namespaces() == old(self).namespaces(),
            final(self).permanent_addresses() == old(self).permanent_addresses(),
            final(self).routing() == old(self).routing(),
    {
        let ghost q = DhtQueryView::Put(key@, value@);
        self.queries.push(DhtQuery::Put(key, value));
        proof {
            assert(self.queries() =~= old(self).queries().push(q));
        }
    }

    /// Hands the DHT operations to start over to the transport, oldest first.
    pub fn take_queries(&mut self) -> (r: Vec<DhtQuery>)
        ensures
            r@.map_values(|q: DhtQuery| q@) == old(self).queries(),
            final(self).queries() == Seq::<DhtQueryView>::empty(),
            final(self).namespaces() == old(self).namespaces(),
            final(self).permanent_addresses() == old(self).permanent_addresses(),
            final(self).routing() == old(self).routing(),
    {
        let mut taken: Vec<DhtQuery> = Vec::new();
        std::mem::swap(&mut taken, &mut self.queries);
        proof {
            assert(self.queries() =~= Seq::<DhtQueryView>::empty());
        }
        taken
    }

    /// Records what the DHT reports of the occupancy of namespace `index`.
    pub fn record_stats(&mut self, index: usize, stats: NamespaceStats)
        requires
            index < old(self).namespaces().len(),
        ensures
            final(self).namespaces() == old(self).namespaces().update(
                index as int,
                NamespaceView {
                    kbuckets: stats.kbuckets@,
                    num_records: stats.num_records,
                    records_total_size: stats.records_total_size,
                    ..old(self).namespaces()[index as int]
                },
            ),
            final(self).permanent_addresses() == old(self).permanent_addresses(),
            final(self).routing() == old(self).routing(),
            final(self).queries() == old(self).queries(),
    {
        let n = &self.namespaces[index].namespace;
        let namespace = Namespace { id: n.id.clone(), protocol_name: n.protocol_name.clone() };
        let ghost v = NamespaceView {
            kbuckets: stats.kbuckets@,
            num_records: stats.num_records,
            records_total_size: stats.records_total_size,
            ..old(self).namespaces()[index as int]
        };
        self.namespaces.set(index, NamespaceState { namespace, stats });
        proof {
            assert(self.namespaces() =~= old(self).namespaces().update(index as int, v));
        }
    }

    /// The number of entries of each k-bucket, for each namespace.
    pub fn num_entries_per_kbucket(&self) -> (r: Vec<(ProtocolId, Vec<(u32, usize)>)>)
        ensures
            r@.len() == self.namespaces().len(),
            forall|i: int|
                0 <= i < r@.len() ==> #[trigger] r@[i].0@ == self.namespaces()[i].id && r@[i].1@
                    == self.namespaces()[i].kbuckets,
    {
        let mut out: Vec<(ProtocolId, Vec<(u32, usize)>)> = Vec::new();
        let mut i: usize = 0;
        while i < self.namespaces.len()
            invariant
                i <= self.namespaces@.len(),
                out@.len() == i,
                forall|k: int|
                    0 <= k < i ==> #[trigger] out@[k].0@ == self.namespaces()[k].id && out@[k].1@
                        == self.namespaces()[k].kbuckets,
            decreases self.namespaces@.len() - i,
        {
            let state = &self.namespaces[i];
            let mut buckets: Vec<(u32, usize)> = Vec::new();
            let mut j: usize = 0;
            while j < state.stats.kbuckets.len()
                invariant
                    j <= state.stats.kbuckets@.len(),
                    buckets@ == state.stats.kbuckets@.subrange(0, j as int),
                decreases state.stats.kbuckets@.len() - j,
            {
                buckets.push(state.stats.kbuckets[j]);
                j = j + 1;
                assert(buckets@ =~= state.stats.kbuckets@.subrange(0, j as int));
            }
            assert(buckets@ =~= state.stats.kbuckets@);
            out.push((state.namespace.id.clone(), buckets));
            i = i + 1;
        }
        out
    }

    /// The number of records in the record store, for each namespace.
    pub fn num_kademlia_records(&self) -> (r: Vec<(ProtocolId, usize)>)
        ensures
            r@.len() == self.namespaces().len(),
            forall|i: int|
                0 <= i < r@.len() ==> #[trigger] r@[i].0@ == self.namespaces()[i].id && r@[i].1
                    == self.namespaces()[i].num_records,
    {
        let mut out: Vec<(ProtocolId, usize)> = Vec::new();
        let mut i: usize = 0;
        while i < self.namespaces.len()
            invariant
                i <= self.namespaces@.len(),
                out@.len() == i,
                forall|k: int|
                    0 <= k < i ==> #[trigger] out@[k].0@ == self.namespaces()[k].id && out@[k].1
                        == self.namespaces()[k].num_records,
            decreases self.namespaces@.len() - i,
        {
            let state = &self.namespaces[i];
            out.push((state.namespace.id.clone(), state.stats.num_records));
            i = i + 1;
        }
        out
    }

    /// The total size in bytes of the records in the record store, for each
    /// namespace.
    pub fn kademlia_records_total_size(&self) -> (r: Vec<(ProtocolId, usize)>)
        ensures
            r@.len() == self.namespaces().len(),
            forall|i: int|
                0 <= i < r@.len() ==> #[trigger] r@[i].0@ == self.namespaces()[i].id && r@[i].1
                    == self.namespaces()[i].records_total_size,
    {
        let mut out: Vec<(ProtocolId, usize)> = Vec::new();
        let mut i: usize = 0;
        while i < self.namespaces.len()
            invariant
                i <= self.namespaces@.len(),
                out@.len() == i,
                forall|k: int|
                    0 <= k < i ==> #[trigger] out@[k].0@ == self.namespaces()[k].id && out@[k].1
                        == self.namespaces()[k].records_total_size,
            decreases self.namespaces@.len() - i,
        {
            let state = &self.namespaces[i];
            out.push((state.namespace.id.clone(), state.stats.records_total_size));
            i = i + 1;
        }
        out
    }
}

/// Adds `p` to `out` unless a peer of the same identity is there already.
fn insert_unique(out: &mut Vec<PeerId>, p: &PeerId)
    requires
        peers_view(old(out)@).no_duplicates(),
    ensures
        peers_view(final(out)@).no_duplicates(),
        peers_view(final(out)@).to_set() == peers_view(old(out)@).to_set().insert(p@),
{
    match position_of_peer(out, p) {
        Some(k) => {
            proof {
                assert(peers_view(out@)[k as int] == p@);
                assert(peers_view(out@).to_set() =~= peers_view(out@).to_set().insert(p@));
            }
        },
        None => {
            let ghost before = peers_view(out@);
            proof {
                assert(!before.contains(p@)) by {
                    if before.contains(p@) {
                        let k = choose|k: int| 0 <= k < before.len() && before[k] == p@;
                        assert(out@[k]@ == p@);
                    }
                };
            }
            out.push(p.duplicate());
            proof {
                assert(peers_view(out@) =~= before.push(p@));
                before.lemma_push_to_set_commute(p@);
                assert forall|a: int, b: int| 0 <= a < b < peers_view(out@).len() implies peers_view(out@)[a]
                    != peers_view(out@)[b] by {
                    if b == before.len() {
                        assert(before[a] != p@);
                    }
                };
            }
        },
    }
}

} // verus!
