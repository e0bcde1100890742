use crate::ids::{Multiaddr, PeerId, peers_view};
use vstd::prelude::*;

verus! {

/// What a peer says of itself when identified.
#[derive(Clone, Debug, PartialEq, Eq)]
pub struct IdentifyInfo {
    pub public_key: Vec<u8>,
    pub protocol_version: String,
    pub agent_version: String,
    pub listen_addrs: Vec<Multiaddr>,
    pub protocols: Vec<String>,
    pub observed_addr: Multiaddr,
}

/// What the peer-info protocol reports.
pub enum PeerInfoEvent {
    /// A peer has been identified.
    Identified { peer_id: PeerId, info: IdentifyInfo },
}

/// What is known of one peer.
#[derive(Clone, Debug, PartialEq, Eq)]
pub struct Node {
    /// The client the peer runs, as it announced it.
    pub client_version: Option<String>,
    /// Whether a connection to the peer is open.
    pub connected: bool,
}

pub struct NodeView {
    pub client_version: Option<Seq<char>>,
    pub connected: bool,
}

impl View for Node {
    type V = NodeView;

    open spec fn view(&self) -> NodeView {
        NodeView {
            client_version: match self.client_version {
                Some(s) => Some(s@),
                None => None,
            },
            connected: self.connected,
        }
    }
}

/// The peer-info protocol, as far as the behaviour drives it: how this node
/// identifies itself, and a cache of what it learned of each peer it has
/// seen. Entries are never dropped.
pub struct PeerInfo {
    user_agent: String,
    local_public_key: Vec<u8>,
    nodes: Vec<(PeerId, Node)>,
}

/// The client version in what is known of a peer, if anything is.
pub open spec fn known_version(n: Option<NodeView>) -> Option<Seq<char>> {
    match n {
        Some(n) => n.client_version,
        None => None,
    }
}

impl PeerInfo {
    pub closed spec fn user_agent_view(&self) -> Seq<char> {
        self.user_agent@
    }

    pub closed spec fn local_public_key_view(&self) -> Seq<u8> {
        self.local_public_key@
    }

    /// The peers seen, in the order first seen, each once.
    pub closed spec fn peers(&self) -> Seq<Seq<u8>> {
        peers_view(self.nodes@.map_values(|e: (PeerId, Node)| e.0))
    }

    /// What is known of each peer of `peers()`, at the same position.
    pub closed spec fn infos(&self) -> Seq<NodeView> {
        self.nodes@.map_values(|e: (PeerId, Node)| e.1@)
    }

    /// What is known of `peer`, if it was ever seen.
    pub open spec fn node_spec(&self, peer: Seq<u8>) -> Option<NodeView> {
        if self.peers().contains(peer) {
            Some(self.infos()[self.peers().index_of(peer)])
        } else {
            None
        }
    }

    pub closed spec fn wf(&self) -> bool {
        &&& self.peers().no_duplicates()
        &&& self.peers().len() == self.infos().len()
    }

    pub fn new(user_agent: String, local_public_key: Vec<u8>) -> (r: PeerInfo)
        ensures
            r.wf(),
            r.user_agent_view() == user_agent@,
            r.local_public_key_view() == local_public_key@,
            forall|p: Seq<u8>| r.node_spec(p) is None,
    {
        let r = PeerInfo { user_agent, local_public_key, nodes: Vec::new() };
        assert(r.peers() =~= Seq::<Seq<u8>>::empty());
        r
    }

    proof fn lemma_index(&self, k: int)
        requires
            self.wf(),
            0 <= k < self.peers().len(),
        ensures
            self.peers().index_of(self.peers()[k]) == k,
            self.node_spec(self.peers()[k]) == Some(self.infos()[k]),
    {
        let p = self.peers()[k];
        assert(self.peers().contains(p));
        let j = self.peers().index_of(p);
        assert(self.peers()[j] == p);
    }

    fn find(&self, peer: &PeerId) -> (r: Option<usize>)
        requires
            self.wf(),
        ensures
            match r {
                Some(k) => k < self.peers().len() && self.peers()[k as int] == peer@,
                None => !self.peers().contains(peer@),
            },
    {
        let mut i: usize = 0;
        while i < self.nodes.len()
            invariant
                self.wf(),
                i <= self.nodes@.len(),
                forall|k: int| 0 <= k < i ==> self.peers()[k] != peer@,
            decreases self.nodes@.len() - i,
        {
            assert(self.peers()[i as int] == self.nodes@[i as int].0@);
            if self.nodes[i].0.same_as(peer) {
                return Some(i);
            }
            i = i + 1;
        }
        None
    }

    /// What is known of `peer`: `None` only for a peer never seen.
    pub fn node(&self, peer: &PeerId) -> (r: Option<Node>)
        requires
            self.wf(),
        ensures
            match r {
                Some(n) => self.node_spec(peer@) == Some(n@),
                None => self.node_spec(peer@) is None,
            },
    {
        match self.find(peer) {
            Some(k) => {
                proof {
                    self.lemma_index(k as int);
                    assert(self.infos()[k as int] == self.nodes@[k as int].1@);
                }
                let n = &self.nodes[k].1;
                let version = match &n.client_version {
                    Some(v) => Some(v.clone()),
                    None => None,
                };
                Some(Node { client_version: version, connected: n.connected })
            },
            None => None,
        }
    }

    /// Makes `node` what is known of `peer`.
    fn set_entry(&mut self, peer: &PeerId, node: Node)
        requires
            old(self).wf(),
        ensures
            final(self).wf(),
            final(self).node_spec(peer@) == Some(node@),
            forall|q: Seq<u8>| q != peer@ ==> final(self).node_spec(q) == old(self).node_spec(q),
            final(self).user_agent_view() == old(self).user_agent_view(),
            final(self).local_public_key_view() == old(self).local_public_key_view(),
    {
        let ghost v = node@;
        match self.find(peer) {
            Some(k) => {
                self.nodes.set(k, (peer.duplicate(), node));
                proof {
                    assert(self.peers() =~= old(self).peers());
                    assert(self.infos() =~= old(self).infos().update(k as int, v));
                    self.lemma_index(k as int);
                    assert forall|q: Seq<u8>| q != peer@ implies self.node_spec(q) == old(self).node_spec(q) by {
                        if self.peers().contains(q) {
                            let j = self.peers().index_of(q);
                            assert(self.peers()[j] == q);
                        }
                    };
                }
            },
            None => {
                self.nodes.push((peer.duplicate(), node));
                proof {
                    assert(self.peers() =~= old(self).peers().push(peer@));
                    assert(self.infos() =~= old(self).infos().push(v));
                    assert forall|a: int, b: int| 0 <= a < b < self.peers().len() implies self.peers()[a]
                        != self.peers()[b] by {
                        if b == old(self).peers().len() {
                            assert(old(self).peers()[a] != peer@);
                        }
                    };
                    self.lemma_index(old(self).peers().len() as int);
                    assert forall|q: Seq<u8>| q != peer@ implies self.node_spec(q) == old(self).node_spec(q) by {
                        if old(self).peers().contains(q) {
                            let j = old(self).peers().index_of(q);
                            assert(old(self).peers()[j] == q);
                            old(self).lemma_index(j);
                            self.lemma_index(j);
                        }
                        if self.peers().contains(q) {
                            let j = choose|j: int| 0 <= j < self.peers().len() && self.peers()[j] == q;
                            assert(old(self).peers()[j] == q);
                        }
                    };
                }
            },
        }
    }

    /// A connection to `peer` was opened.
    pub fn on_connected(&mut self, peer: &PeerId)
        requires
            old(self).wf(),
        ensures
            final(self).wf(),
            final(self).node_spec(peer@) == Some(
                NodeView { client_version: known_version(old(self).node_spec(peer@)), connected: true },
            ),
            forall|q: Seq<u8>| q != peer@ ==> final(self).node_spec(q) == old(self).node_spec(q),
            final(self).user_agent_view() == old(self).user_agent_view(),
            final(self).local_public_key_view() == old(self).local_public_key_view(),
    {
        let version = match self.node(peer) {
            Some(n) => n.client_version,
            None => None,
        };
        self.set_entry(peer, Node { client_version: version, connected: true });
    }

    /// The last connection to `peer` was closed; what is known of it stays.
    pub fn on_disconnected(&mut self, peer: &PeerId)
        requires
            old(self).wf(),
        ensures
            final(self).wf(),
            final(self).node_spec(peer@) == match old(self).node_spec(peer@) {
                Some(n) => Some(NodeView { connected: false, ..n }),
                None => None,
            },
            forall|q: Seq<u8>| q != peer@ ==> final(self).node_spec(q) == old(self).node_spec(q),
            final(self).user_agent_view() == old(self).user_agent_view(),
            final(self).local_public_key_view() == old(self).local_public_key_view(),
    {
        match self.node(peer) {
            Some(n) => {
                self.set_entry(peer, Node { client_version: n.client_version, connected: false });
            },
            None => {},
        }
    }

    /// `peer` identified itself with `info`: the client it announced is
    /// recorded, and the identification is reported.
    pub fn on_identified(&mut self, peer: PeerId, info: IdentifyInfo) -> (r: PeerInfoEvent)
        requires
            old(self).wf(),
        ensures
            final(self).wf(),
            final(self).node_spec(peer@) == Some(
                NodeView {
                    client_version: Some(info.agent_version@),
                    connected: match old(self).node_spec(peer@) {
                        Some(n) => n.connected,
                        None => true,
                    },
                },
            ),
            forall|q: Seq<u8>| q != peer@ ==> final(self).node_spec(q) == old(self).node_spec(q),
            final(self).user_agent_view() == old(self).user_agent_view(),
            final(self).local_public_key_view() == old(self).local_public_key_view(),
            r == (PeerInfoEvent::Identified { peer_id: peer, info }),
    {
        let connected = match self.node(&peer) {
            Some(n) => n.connected,
            None => true,
        };
        self.set_entry(&peer, Node { client_version: Some(info.agent_version.clone()), connected });
        PeerInfoEvent::Identified { peer_id: peer, info }
    }
}

} // verus!
