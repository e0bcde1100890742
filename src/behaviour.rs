use crate::chain_sync::{
    BlockOrigin, ChainSync, CustomMessageOutcome, IncomingBlock, Justification, NotificationsSink,
    OpaqueBlockRequest, OpaqueStateRequest, SinkView, WarpProofRequest, with_sink, without_pair,
};
use crate::discovery::{
    DhtQuery, DhtQueryView, Discovery, DiscoveryConfig, DiscoveryOut, DiscoveryView, NamespaceStats,
    NamespaceView,
    address_pairs, fresh_namespaces, reported_entries,
};
use crate::ids::{Multiaddr, PeerId, ProtocolId, ProtocolName, RecordKey, names_view, peers_view};
use crate::peer_info::{IdentifyInfo, Node, NodeView, PeerInfo, PeerInfoEvent};
use crate::reply::{Reply, ReplyChannel, RequestFailure, ResponseFailure};
use crate::request_responses::{
    Event as RequestEvent, IfDisconnected, OutboundRequest, PeersetHandle,
    ProtocolConfig, RegisterError, ReputationChange, RequestResponses, RequestResponsesView,
    registration_result, response_outcome, send_outcome,
};
use crate::role::{ObservedRole, observed_role_of, reported_roles_to_observed_role};
use std::collections::VecDeque;
use std::time::Duration;
use vstd::prelude::*;

verus! {

/// Outcome of a DHT operation.
#[derive(Clone, Debug, PartialEq, Eq)]
pub enum DhtEvent {
    /// The records found under a key.
    ValueFound(Vec<(RecordKey, Vec<u8>)>),
    ValueNotFound(RecordKey),
    ValuePut(RecordKey),
    ValuePutFailed(RecordKey),
}

/// Event generated by `Behaviour`.
pub enum BehaviourOut {
    BlockImport(BlockOrigin, Vec<IncomingBlock>),
    /// Origin peer, block hash, block number and the justifications to import.
    JustificationImport(PeerId, Vec<u8>, u64, Vec<Justification>),
    /// Started a random walk of the DHT of this namespace.
    RandomKademliaStarted(ProtocolId),
    /// A request from `peer` was answered, after the time given, or not.
    InboundRequest { peer: PeerId, protocol: ProtocolName, result: Result<Duration, ResponseFailure> },
    /// A request sent to `peer` is over.
    RequestFinished {
        peer: PeerId,
        protocol: ProtocolName,
        duration: Duration,
        result: Result<(), RequestFailure>,
    },
    /// A request protocol handler asks for reputation changes of `peer`.
    ReputationChanges { peer: PeerId, changes: Vec<ReputationChange> },
    /// A notifications stream with `remote` was opened on `protocol`.
    NotificationStreamOpened {
        remote: PeerId,
        protocol: ProtocolName,
        /// The name actually negotiated, where it is not the main one.
        negotiated_fallback: Option<ProtocolName>,
        notifications_sink: NotificationsSink,
        role: ObservedRole,
    },
    /// The sink of a stream is replaced by a new one, in a new session.
    NotificationStreamReplaced { remote: PeerId, protocol: ProtocolName, notifications_sink: NotificationsSink },
    /// A stream opened before is closed.
    NotificationStreamClosed { remote: PeerId, protocol: ProtocolName },
    /// Messages received from `remote`, each with its protocol.
    NotificationsReceived { remote: PeerId, messages: Vec<(ProtocolName, bytes::Bytes)> },
    /// A block request must be sent; its answer goes to `pending_response`.
    BlockRequest { target: PeerId, request: OpaqueBlockRequest, pending_response: ReplyChannel },
    /// A state request must be sent; its answer goes to `pending_response`.
    StateRequest { target: PeerId, request: OpaqueStateRequest, pending_response: ReplyChannel },
    /// A warp-sync request must be sent; its answer goes to `pending_response`.
    WarpSyncRequest { target: PeerId, request: WarpProofRequest, pending_response: ReplyChannel },
    /// Now connected to a peer for syncing.
    SyncConnected(PeerId),
    /// No longer connected to a peer for syncing.
    SyncDisconnected(PeerId),
    /// A peer identified itself.
    PeerIdentify { peer_id: PeerId, info: IdentifyInfo },
    /// Outcome of a DHT operation, and how long it took.
    Dht(DhtEvent, Duration),
    /// An event of a sub-protocol that is deliberately not passed on.
    Ignored,
}

/// The output event that a chain-sync outcome becomes.
pub open spec fn sync_output(event: CustomMessageOutcome) -> BehaviourOut {
    match event {
        CustomMessageOutcome::BlockImport(origin, blocks) => BehaviourOut::BlockImport(origin, blocks),
        CustomMessageOutcome::JustificationImport(origin, hash, number, justifications) =>
            BehaviourOut::JustificationImport(origin, hash, number, justifications),
        CustomMessageOutcome::BlockRequest { target, request, pending_response } =>
            BehaviourOut::BlockRequest { target, request, pending_response },
        CustomMessageOutcome::StateRequest { target, request, pending_response } =>
            BehaviourOut::StateRequest { target, request, pending_response },
        CustomMessageOutcome::WarpSyncRequest { target, request, pending_response } =>
            BehaviourOut::WarpSyncRequest { target, request, pending_response },
        CustomMessageOutcome::NotificationStreamOpened {
            remote,
            protocol,
            negotiated_fallback,
            roles,
            notifications_sink,
        } => BehaviourOut::NotificationStreamOpened {
            remote,
            protocol,
            negotiated_fallback,
            notifications_sink,
            role: observed_role_of(roles),
        },
        CustomMessageOutcome::NotificationStreamReplaced { remote, protocol, notifications_sink } =>
            BehaviourOut::NotificationStreamReplaced { remote, protocol, notifications_sink },
        CustomMessageOutcome::NotificationStreamClosed { remote, protocol } =>
            BehaviourOut::NotificationStreamClosed { remote, protocol },
        CustomMessageOutcome::NotificationsReceived { remote, messages } =>
            BehaviourOut::NotificationsReceived { remote, messages },
        CustomMessageOutcome::PeerNewBest(_, _) => BehaviourOut::Ignored,
        CustomMessageOutcome::SyncConnected(peer) => BehaviourOut::SyncConnected(peer),
        CustomMessageOutcome::SyncDisconnected(peer) => BehaviourOut::SyncDisconnected(peer),
        CustomMessageOutcome::Ignored => BehaviourOut::Ignored,
    }
}

/// The live sinks once a chain-sync outcome has gone through the behaviour.
pub open spec fn sink_update(sinks: Seq<SinkView>, event: CustomMessageOutcome) -> Seq<SinkView> {
    match event {
        CustomMessageOutcome::NotificationStreamOpened { notifications_sink, .. } => with_sink(
            sinks,
            notifications_sink@,
        ),
        CustomMessageOutcome::NotificationStreamReplaced { notifications_sink, .. } => with_sink(
            sinks,
            notifications_sink@,
        ),
        CustomMessageOutcome::NotificationStreamClosed { remote, protocol } => without_pair(
            sinks,
            remote@,
            protocol@,
        ),
        _ => sinks,
    }
}

/// The output event that a request/response event becomes.
pub open spec fn request_output(event: RequestEvent) -> BehaviourOut {
    match event {
        RequestEvent::InboundRequest { peer, protocol, result } =>
            BehaviourOut::InboundRequest { peer, protocol, result },
        RequestEvent::RequestFinished { peer, protocol, duration, result } =>
            BehaviourOut::RequestFinished { peer, protocol, duration, result },
        RequestEvent::ReputationChanges { peer, changes } => BehaviourOut::ReputationChanges { peer, changes },
    }
}

/// The output event that a peer-info event becomes.
pub open spec fn peer_info_output(event: PeerInfoEvent) -> BehaviourOut {
    match event {
        PeerInfoEvent::Identified { peer_id, info } => BehaviourOut::PeerIdentify { peer_id, info },
    }
}

/// The output events that a discovery event becomes, in order: one per
/// namespace of a random walk, one for a DHT outcome, none otherwise.
pub open spec fn discovery_outputs(event: DiscoveryOut) -> Seq<BehaviourOut> {
    match event {
        DiscoveryOut::UnroutablePeer(_) => Seq::empty(),
        DiscoveryOut::Discovered(_) => Seq::empty(),
        DiscoveryOut::ValueFound(results, d) => seq![BehaviourOut::Dht(DhtEvent::ValueFound(results), d)],
        DiscoveryOut::ValueNotFound(key, d) => seq![BehaviourOut::Dht(DhtEvent::ValueNotFound(key), d)],
        DiscoveryOut::ValuePut(key, d) => seq![BehaviourOut::Dht(DhtEvent::ValuePut(key), d)],
        DiscoveryOut::ValuePutFailed(key, d) => seq![BehaviourOut::Dht(DhtEvent::ValuePutFailed(key), d)],
        DiscoveryOut::RandomKademliaStarted(namespaces) => walk_events(namespaces@),
    }
}

/// One `RandomKademliaStarted` event per namespace, in the same order.
pub open spec fn walk_events(namespaces: Seq<ProtocolId>) -> Seq<BehaviourOut> {
    namespaces.map_values(|n: ProtocolId| BehaviourOut::RandomKademliaStarted(n))
}

fn push_walk_events(events: &mut VecDeque<BehaviourOut>, namespaces: &Vec<ProtocolId>)
    ensures
        final(events)@ == old(events)@ + walk_events(namespaces@),
{
    let mut i: usize = 0;
    while i < namespaces.len()
        invariant
            i <= namespaces@.len(),
            events@ == old(events)@ + walk_events(namespaces@.subrange(0, i as int)),
        decreases namespaces@.len() - i,
    {
        let ghost before = events@;
        events.push_back(BehaviourOut::RandomKademliaStarted(namespaces[i].clone()));
        proof {
            assert(walk_events(namespaces@.subrange(0, i + 1)) =~= walk_events(namespaces@.subrange(0, i as int)).push(
                BehaviourOut::RandomKademliaStarted(namespaces@[i as int]),
            ));
        }
        i = i + 1;
    }
    assert(namespaces@.subrange(0, i as int) =~= namespaces@);
}

/// The peers that a discovery event hands to the chain-sync peer set.
pub open spec fn discovery_forwards(event: DiscoveryOut) -> Seq<Seq<u8>> {
    match event {
        DiscoveryOut::Discovered(peer) => seq![peer@],
        _ => Seq::empty(),
    }
}

impl From<CustomMessageOutcome> for BehaviourOut {
    fn from(event: CustomMessageOutcome) -> (r: BehaviourOut) {
        match event {
            CustomMessageOutcome::BlockImport(origin, blocks) => BehaviourOut::BlockImport(origin, blocks),
            CustomMessageOutcome::JustificationImport(origin, hash, number, justifications) =>
                BehaviourOut::JustificationImport(origin, hash, number, justifications),
            CustomMessageOutcome::BlockRequest { target, request, pending_response } =>
                BehaviourOut::BlockRequest { target, request, pending_response },
            CustomMessageOutcome::StateRequest { target, request, pending_response } =>
                BehaviourOut::StateRequest { target, request, pending_response },
            CustomMessageOutcome::WarpSyncRequest { target, request, pending_response } =>
                BehaviourOut::WarpSyncRequest { target, request, pending_response },
            CustomMessageOutcome::NotificationStreamOpened {
                remote,
                protocol,
                negotiated_fallback,
                roles,
                notifications_sink,
            } => BehaviourOut::NotificationStreamOpened {
                remote,
                protocol,
                negotiated_fallback,
                notifications_sink,
                role: reported_roles_to_observed_role(roles),
            },
            CustomMessageOutcome::NotificationStreamReplaced { remote, protocol, notifications_sink } =>
                BehaviourOut::NotificationStreamReplaced { remote, protocol, notifications_sink },
            CustomMessageOutcome::NotificationStreamClosed { remote, protocol } =>
                BehaviourOut::NotificationStreamClosed { remote, protocol },
            CustomMessageOutcome::NotificationsReceived { remote, messages } =>
                BehaviourOut::NotificationsReceived { remote, messages },
            CustomMessageOutcome::PeerNewBest(_peer, _number) => BehaviourOut::Ignored,
            CustomMessageOutcome::SyncConnected(peer) => BehaviourOut::SyncConnected(peer),
            CustomMessageOutcome::SyncDisconnected(peer) => BehaviourOut::SyncDisconnected(peer),
            CustomMessageOutcome::Ignored => BehaviourOut::Ignored,
        }
    }
}

impl vstd::std_specs::convert::FromSpecImpl<CustomMessageOutcome> for BehaviourOut {
    open spec fn obeys_from_spec() -> bool {
        true
    }

    open spec fn from_spec(v: CustomMessageOutcome) -> BehaviourOut {
        sync_output(v)
    }
}

impl From<RequestEvent> for BehaviourOut {
    fn from(event: RequestEvent) -> (r: BehaviourOut) {
        match event {
            RequestEvent::InboundRequest { peer, protocol, result } =>
                BehaviourOut::InboundRequest { peer, protocol, result },
            RequestEvent::RequestFinished { peer, protocol, duration, result } =>
                BehaviourOut::RequestFinished { peer, protocol, duration, result },
            RequestEvent::ReputationChanges { peer, changes } =>
                BehaviourOut::ReputationChanges { peer, changes },
        }
    }
}

impl vstd::std_specs::convert::FromSpecImpl<RequestEvent> for BehaviourOut {
    open spec fn obeys_from_spec() -> bool {
        true
    }

    open spec fn from_spec(v: RequestEvent) -> BehaviourOut {
        request_output(v)
    }
}

impl From<PeerInfoEvent> for BehaviourOut {
    fn from(event: PeerInfoEvent) -> (r: BehaviourOut) {
        let PeerInfoEvent::Identified { peer_id, info } = event;
        BehaviourOut::PeerIdentify { peer_id, info }
    }
}

impl vstd::std_specs::convert::FromSpecImpl<PeerInfoEvent> for BehaviourOut {
    open spec fn obeys_from_spec() -> bool {
        true
    }

    open spec fn from_spec(v: PeerInfoEvent) -> BehaviourOut {
        peer_info_output(v)
    }
}

/// The content-exchange protocol: serves block data to peers that ask for
/// it, under its protocol name. It reports nothing to the behaviour.
#[derive(Clone, Debug, PartialEq, Eq)]
pub struct ContentExchange {
    pub protocol: ProtocolName,
}

/// What one call of `poll` gives.
pub enum BehaviourPoll {
    /// The oldest event waiting.
    Ready(BehaviourOut),
    /// No event is waiting.
    Pending,
}

/// One poll of the output queue: the oldest event leaves it, or, when it is
/// empty, nothing happens and nothing is ready.
pub open spec fn poll_step(before: Seq<BehaviourOut>, r: BehaviourPoll, after: Seq<BehaviourOut>) -> bool {
    if before.len() > 0 {
        r == BehaviourPoll::Ready(before[0]) && after == before.drop_first()
    } else {
        r == BehaviourPoll::Pending && after == before
    }
}

/// The request/response protocols in the order they are registered: the
/// generic ones, then warp sync (if any), block, state and light-client
/// requests.
pub open spec fn registration_order(
    generic: Seq<ProtocolConfig>,
    block: ProtocolConfig,
    state: ProtocolConfig,
    warp: Option<ProtocolConfig>,
    light: ProtocolConfig,
) -> Seq<ProtocolConfig> {
    let with_warp = match warp {
        Some(w) => generic.push(w),
        None => generic,
    };
    with_warp.push(block).push(state).push(light)
}

/// General behaviour of the network: owns each sub-protocol once, passes
/// their events on through one first-in first-out queue, and delegates its
/// control surface to them.
pub struct Behaviour {
    /// The chain-sync protocol.
    substrate: ChainSync,
    /// Identifies connected peers and caches what it learns of them.
    peer_info: PeerInfo,
    /// Discovers peers and runs the DHT.
    discovery: Discovery,
    /// Content exchange, when enabled.
    bitswap: Option<ContentExchange>,
    /// Generic request/response protocols.
    request_responses: RequestResponses,
    /// Events waiting to be polled, oldest first.
    events: VecDeque<BehaviourOut>,
}

/// None of the sub-protocols differs between `a` and `b`.
pub open spec fn sub_protocols_unchanged(a: Behaviour, b: Behaviour) -> bool {
    &&& b.chain_sync() == a.chain_sync()
    &&& b.peer_info_state() == a.peer_info_state()
    &&& b.discovery_state() == a.discovery_state()
    &&& b.content_exchange() == a.content_exchange()
    &&& b.request_responses_state() == a.request_responses_state()
}

/// `b` differs from `a` in its discovery protocol at most.
pub open spec fn only_discovery_changed(a: Behaviour, b: Behaviour) -> bool {
    &&& b.chain_sync() == a.chain_sync()
    &&& b.peer_info_state() == a.peer_info_state()
    &&& b.content_exchange() == a.content_exchange()
    &&& b.request_responses_state() == a.request_responses_state()
    &&& b.queue() == a.queue()
}

impl Behaviour {
    pub closed spec fn chain_sync(&self) -> ChainSync {
        self.substrate
    }

    pub closed spec fn peer_info_state(&self) -> PeerInfo {
        self.peer_info
    }

    pub closed spec fn discovery_state(&self) -> Discovery {
        self.discovery
    }

    pub closed spec fn content_exchange(&self) -> Option<ContentExchange> {
        self.bitswap
    }

    pub closed spec fn request_responses_state(&self) -> RequestResponses {
        self.request_responses
    }

    /// The events waiting to be polled, oldest first.
    pub closed spec fn queue(&self) -> Seq<BehaviourOut> {
        self.events@
    }

    /// The peer-info cache is well formed and holds a record of every peer
    /// with an open connection.
    pub open spec fn wf(&self) -> bool {
        &&& self.peer_info_state().wf()
        &&& forall|p: Seq<u8>| #[trigger]
            self.request_responses_state().is_connected_spec(p) ==> self.peer_info_state().node_spec(p) is Some
    }

    /// Builds the behaviour, registering the generic request/response
    /// protocols followed by those of warp sync (if any), block, state and
    /// light-client requests; fails if two of them share a name.
    pub fn new(
        substrate: ChainSync,
        user_agent: String,
        local_public_key: Vec<u8>,
        disco_config: DiscoveryConfig,
        block_request_protocol_config: ProtocolConfig,
        state_request_protocol_config: ProtocolConfig,
        warp_sync_protocol_config: Option<ProtocolConfig>,
        bitswap: Option<ContentExchange>,
        light_client_request_protocol_config: ProtocolConfig,
        request_response_protocols: Vec<ProtocolConfig>,
        peerset: PeersetHandle,
    ) -> (r: Result<Behaviour, RegisterError>)
        ensures
            match r {
                Ok(b) => {
                    &&& b.wf()
                    &&& b.queue() == Seq::<BehaviourOut>::empty()
                    &&& b.chain_sync() == substrate
                    &&& b.content_exchange() == bitswap
                    &&& b.peer_info_state().user_agent_view() == user_agent@
                    &&& b.peer_info_state().local_public_key_view() == local_public_key@
                    &&& forall|p: Seq<u8>| b.peer_info_state().node_spec(p) is None
                    &&& b.discovery_state()@ == DiscoveryView {
                        namespaces: fresh_namespaces(disco_config.namespaces@),
                        permanent_addresses: address_pairs(disco_config.permanent_addresses@),
                        routing: Seq::empty(),
                        queries: Seq::empty(),
                    }
                    &&& registration_result(
                        registration_order(
                            request_response_protocols@,
                            block_request_protocol_config,
                            state_request_protocol_config,
                            warp_sync_protocol_config,
                            light_client_request_protocol_config,
                        ),
                        Ok(b.request_responses_state()),
                    )
                },
                Err(e) => registration_result(
                    registration_order(
                        request_response_protocols@,
                        block_request_protocol_config,
                        state_request_protocol_config,
                        warp_sync_protocol_config,
                        light_client_request_protocol_config,
                    ),
                    Err(e),
                ),
            },
    {
        let ghost order = registration_order(
            request_response_protocols@,
            block_request_protocol_config,
            state_request_protocol_config,
            warp_sync_protocol_config,
            light_client_request_protocol_config,
        );
        let mut list = request_response_protocols;
        if let Some(config) = warp_sync_protocol_config {
            list.push(config);
        }
        list.push(block_request_protocol_config);
        list.push(state_request_protocol_config);
        list.push(light_client_request_protocol_config);
        assert(list@ == order);
        let peer_info = PeerInfo::new(user_agent, local_public_key);
        let discovery = disco_config.finish();
        let request_responses = match RequestResponses::new(list, peerset) {
            Ok(rr) => rr,
            Err(e) => {
                return Err(e);
            },
        };
        let b = Behaviour {
            substrate,
            peer_info,
            discovery,
            bitswap,
            request_responses,
            events: VecDeque::new(),
        };
        assert forall|p: Seq<u8>| #[trigger] b.request_responses_state().is_connected_spec(p) implies b.peer_info_state().node_spec(
            p,
        ) is Some by {
            assert(b.request_responses_state().connections().len() == 0);
        };
        Ok(b)
    }

    /// The peers of which discovery knows an address, each once.
    pub fn known_peers(&self) -> (r: Vec<PeerId>)
        ensures
            peers_view(r@).no_duplicates(),
            peers_view(r@).to_set() == self.discovery_state().known_peer_set(),
    {
        self.discovery.known_peers()
    }

    /// Adds an address for `peer_id` that never expires.
    pub fn add_known_address(&mut self, peer_id: PeerId, addr: Multiaddr)
        ensures
            final(self).discovery_state()@ == (DiscoveryView {
                permanent_addresses: old(self).discovery_state()@.permanent_addresses.push((peer_id@, addr@)),
                ..old(self).discovery_state()@
            }),
            only_discovery_changed(*old(self), *final(self)),
    {
        self.discovery.add_known_address(peer_id, addr)
    }

    /// The number of entries of each k-bucket, for each discovery namespace.
    pub fn num_entries_per_kbucket(&self) -> (r: Vec<(ProtocolId, Vec<(u32, usize)>)>)
        ensures
            r@.len() == self.discovery_state().namespaces().len(),
            forall|i: int|
                0 <= i < r@.len() ==> #[trigger] r@[i].0@ == self.discovery_state().namespaces()[i].id
                    && r@[i].1@ == self.discovery_state().namespaces()[i].kbuckets,
    {
        self.discovery.num_entries_per_kbucket()
    }

    /// The number of records in the record store, for each discovery
    /// namespace.
    pub fn num_kademlia_records(&self) -> (r: Vec<(ProtocolId, usize)>)
        ensures
            r@.len() == self.discovery_state().namespaces().len(),
            forall|i: int|
                0 <= i < r@.len() ==> #[trigger] r@[i].0@ == self.discovery_state().namespaces()[i].id
                    && r@[i].1 == self.discovery_state().namespaces()[i].num_records,
    {
        self.discovery.num_kademlia_records()
    }

    /// The total size in bytes of the records in the record store, for each
    /// discovery namespace.
    pub fn kademlia_records_total_size(&self) -> (r: Vec<(ProtocolId, usize)>)
        ensures
            r@.len() == self.discovery_state().namespaces().len(),
            forall|i: int|
                0 <= i < r@.len() ==> #[trigger] r@[i].0@ == self.discovery_state().namespaces()[i].id
                    && r@[i].1 == self.discovery_state().namespaces()[i].records_total_size,
    {
        self.discovery.kademlia_records_total_size()
    }

    /// Records what the DHT reports of the occupancy of discovery namespace
    /// `index`.
    pub fn record_discovery_stats(&mut self, index: usize, stats: NamespaceStats)
        requires
            index < old(self).discovery_state().namespaces().len(),
        ensures
            final(self).discovery_state()@ == (DiscoveryView {
                namespaces: old(self).discovery_state()@.namespaces.update(
                    index as int,
                    NamespaceView {
                        kbuckets: stats.kbuckets@,
                        num_records: stats.num_records,
                        records_total_size: stats.records_total_size,
                        ..old(self).discovery_state()@.namespaces[index as int]
                    },
                ),
                ..old(self).discovery_state()@
            }),
            only_discovery_changed(*old(self), *final(self)),
    {
        self.discovery.record_stats(index, stats);
    }

    /// What is known of `peer_id`: `None` only for a peer never seen, so
    /// never for a connected one.
    pub fn node(&self, peer_id: &PeerId) -> (r: Option<Node>)
        requires
            self.wf(),
        ensures
            match r {
                Some(n) => self.peer_info_state().node_spec(peer_id@) == Some(n@),
                None => self.peer_info_state().node_spec(peer_id@) is None,
            },
    {
        self.peer_info.node(peer_id)
    }

    /// Starts a request to `target` on `protocol`; its answer goes to
    /// `pending_response`. Returns the request's id, or the failure with
    /// which `pending_response` was answered at once.
    pub fn send_request(
        &mut self,
        target: &PeerId,
        protocol: &str,
        request: Vec<u8>,
        pending_response: ReplyChannel,
        connect: IfDisconnected,
    ) -> (r: Result<u64, RequestFailure>)
        requires
            old(self).request_responses_state().next_request_id() < u64::MAX,
        ensures
            send_outcome(
                old(self).request_responses_state(),
                target@,
                protocol@,
                request@,
                pending_response.is_resolved(),
                connect,
                r,
                final(self).request_responses_state(),
            ),
            final(self).chain_sync() == old(self).chain_sync(),
            final(self).peer_info_state() == old(self).peer_info_state(),
            final(self).discovery_state() == old(self).discovery_state(),
            final(self).content_exchange() == old(self).content_exchange(),
            final(self).queue() == old(self).queue(),
            old(self).wf() ==> final(self).wf(),
    {
        let r = self.request_responses.send_request(target, protocol, request, pending_response, connect);
        proof {
            if old(self).wf() {
                assert forall|p: Seq<u8>| #[trigger] self.request_responses_state().is_connected_spec(p) implies self.peer_info_state().node_spec(
                    p,
                ) is Some by {
                    assert(old(self).request_responses_state().is_connected_spec(p));
                };
            }
        }
        r
    }

    /// The chain-sync protocol.
    pub fn user_protocol(&self) -> (r: &ChainSync)
        ensures
            *r == self.chain_sync(),
    {
        &self.substrate
    }

    /// The chain-sync protocol, to change it.
    pub fn user_protocol_mut(&mut self) -> (r: &mut ChainSync)
        ensures
            *r == old(self).chain_sync(),
            final(self).chain_sync() == *final(r),
            final(self).peer_info_state() == old(self).peer_info_state(),
            final(self).discovery_state() == old(self).discovery_state(),
            final(self).content_exchange() == old(self).content_exchange(),
            final(self).request_responses_state() == old(self).request_responses_state(),
            final(self).queue() == old(self).queue(),
    {
        &mut self.substrate
    }

    /// Enters the address that `peer_id` reported for itself in the DHT of
    /// every namespace whose protocol it supports.
    pub fn add_self_reported_address(
        &mut self,
        peer_id: &PeerId,
        supported_protocols: &Vec<ProtocolName>,
        addr: &Multiaddr,
    )
        ensures
            final(self).discovery_state()@ == (DiscoveryView {
                routing: old(self).discovery_state()@.routing + reported_entries(
                    old(self).discovery_state()@.namespaces,
                    names_view(supported_protocols@),
                    peer_id@,
                    addr@,
                    old(self).discovery_state()@.namespaces.len() as int,
                ),
                ..old(self).discovery_state()@
            }),
            only_discovery_changed(*old(self), *final(self)),
    {
        self.discovery.add_self_reported_address(peer_id, supported_protocols, addr);
    }

    /// Starts looking up the records of `key` in the DHT; the outcome comes
    /// later as a `ValueFound` or `ValueNotFound` event.
    pub fn get_value(&mut self, key: RecordKey)
        ensures
            final(self).discovery_state()@ == (DiscoveryView {
                queries: old(self).discovery_state()@.queries.push(DhtQueryView::Get(key@)),
                ..old(self).discovery_state()@
            }),
            only_discovery_changed(*old(self), *final(self)),
    {
        self.discovery.get_value(key);
    }

    /// Starts storing `value` under `key` in the DHT; the outcome comes later
    /// as a `ValuePut` or `ValuePutFailed` event.
    pub fn put_value(&mut self, key: RecordKey, value: Vec<u8>)
        ensures
            final(self).discovery_state()@ == (DiscoveryView {
                queries: old(self).discovery_state()@.queries.push(DhtQueryView::Put(key@, value@)),
                ..old(self).discovery_state()@
            }),
            only_discovery_changed(*old(self), *final(self)),
    {
        self.discovery.put_value(key, value);
    }

    /// Queues the output event of a chain-sync outcome.
    ///
    /// A stream opened or replaced makes its sink the live one of the stream,
    /// and a stream closed leaves no live sink: sends through a sink that is
    /// no longer live fail.
    pub fn inject_sync_outcome(&mut self, event: CustomMessageOutcome)
        ensures
            final(self).queue() == old(self).queue().push(sync_output(event)),
            final(self).chain_sync().live_sinks() == sink_update(old(self).chain_sync().live_sinks(), event),
            final(self).chain_sync().discovered_view() == old(self).chain_sync().discovered_view(),
            final(self).chain_sync().sent_view() == old(self).chain_sync().sent_view(),
            final(self).peer_info_state() == old(self).peer_info_state(),
            final(self).discovery_state() == old(self).discovery_state(),
            final(self).content_exchange() == old(self).content_exchange(),
            final(self).request_responses_state() == old(self).request_responses_state(),
    {
        match &event {
            CustomMessageOutcome::NotificationStreamOpened { notifications_sink, .. } => {
                self.substrate.bind_sink(notifications_sink);
            },
            CustomMessageOutcome::NotificationStreamReplaced { notifications_sink, .. } => {
                self.substrate.bind_sink(notifications_sink);
            },
            CustomMessageOutcome::NotificationStreamClosed { remote, protocol } => {
                self.substrate.close_stream(remote, protocol);
            },
            _ => {},
        }
        self.events.push_back(BehaviourOut::from(event));
    }

    /// Queues the output event of a request/response event.
    pub fn inject_request_response_event(&mut self, event: RequestEvent)
        ensures
            final(self).queue() == old(self).queue().push(request_output(event)),
            sub_protocols_unchanged(*old(self), *final(self)),
    {
        self.events.push_back(BehaviourOut::from(event));
    }

    /// Queues the output event of a peer-info event.
    pub fn inject_peer_info_event(&mut self, event: PeerInfoEvent)
        ensures
            final(self).queue() == old(self).queue().push(peer_info_output(event)),
            sub_protocols_unchanged(*old(self), *final(self)),
    {
        self.events.push_back(BehaviourOut::from(event));
    }

    /// Takes in a discovery event: DHT outcomes are queued, a random walk
    /// queues one event per namespace, a discovered peer is offered to the
    /// chain-sync peer set, and an unroutable peer is left to peer
    /// identification.
    pub fn inject_event(&mut self, out: DiscoveryOut)
        ensures
            final(self).queue() == old(self).queue() + discovery_outputs(out),
            final(self).chain_sync().discovered_view() == old(self).chain_sync().discovered_view()
                + discovery_forwards(out),
            final(self).chain_sync().live_sinks() == old(self).chain_sync().live_sinks(),
            final(self).chain_sync().sent_view() == old(self).chain_sync().sent_view(),
            !(out is Discovered) ==> final(self).chain_sync() == old(self).chain_sync(),
            final(self).peer_info_state() == old(self).peer_info_state(),
            final(self).discovery_state() == old(self).discovery_state(),
            final(self).content_exchange() == old(self).content_exchange(),
            final(self).request_responses_state() == old(self).request_responses_state(),
    {
        let ghost q = self.events@;
        let ghost outputs = discovery_outputs(out);
        match out {
            DiscoveryOut::UnroutablePeer(_peer_id) => {
                // Finding addresses of unroutable peers is the business of
                // peer identification, which reports them to discovery.
            },
            DiscoveryOut::Discovered(peer_id) => {
                let ghost p = peer_id@;
                let peers = vec![peer_id];
                assert(peers_view(peers@) =~= seq![p]);
                self.substrate.add_default_set_discovered_nodes(peers);
            },
            DiscoveryOut::ValueFound(results, duration) => {
                self.events.push_back(BehaviourOut::Dht(DhtEvent::ValueFound(results), duration));
            },
            DiscoveryOut::ValueNotFound(key, duration) => {
                self.events.push_back(BehaviourOut::Dht(DhtEvent::ValueNotFound(key), duration));
            },
            DiscoveryOut::ValuePut(key, duration) => {
                self.events.push_back(BehaviourOut::Dht(DhtEvent::ValuePut(key), duration));
            },
            DiscoveryOut::ValuePutFailed(key, duration) => {
                self.events.push_back(BehaviourOut::Dht(DhtEvent::ValuePutFailed(key), duration));
            },
            DiscoveryOut::RandomKademliaStarted(protocols) => {
                push_walk_events(&mut self.events, &protocols);
            },
        }
        assert(self.events@ =~= q + outputs);
        assert(self.substrate.discovered_view() =~= old(self).substrate.discovered_view() + discovery_forwards(out));
    }

    /// A connection to `peer` was opened: peer info and the request/response
    /// multiplexer take note.
    pub fn inject_connection_established(&mut self, peer: &PeerId)
        requires
            old(self).wf(),
        ensures
            final(self).wf(),
            final(self).peer_info_state().node_spec(peer@) == Some(
                NodeView {
                    client_version: crate::peer_info::known_version(old(self).peer_info_state().node_spec(peer@)),
                    connected: true,
                },
            ),
            forall|q: Seq<u8>|
                q != peer@ ==> final(self).peer_info_state().node_spec(q) == old(self).peer_info_state().node_spec(q),
            final(self).request_responses_state()@ == (RequestResponsesView {
                connections: old(self).request_responses_state()@.connections.push(peer@),
                ..old(self).request_responses_state()@
            }),
            final(self).chain_sync() == old(self).chain_sync(),
            final(self).discovery_state() == old(self).discovery_state(),
            final(self).content_exchange() == old(self).content_exchange(),
            final(self).queue() == old(self).queue(),
    {
        self.peer_info.on_connected(peer);
        self.request_responses.on_connected(peer.duplicate());
        assert forall|p: Seq<u8>| #[trigger] self.request_responses_state().is_connected_spec(p) implies self.peer_info_state().node_spec(
            p,
        ) is Some by {
            if p != peer@ {
                let c = old(self).request_responses_state().connections();
                let k = choose|k: int| 0 <= k < c.push(peer@).len() && c.push(peer@)[k] == p;
                assert(c[k] == p);
                assert(old(self).request_responses_state().is_connected_spec(p));
            }
        };
    }

    /// A connection to `peer` was closed: peer info and the request/response
    /// multiplexer take note.
    pub fn inject_connection_closed(&mut self, peer: &PeerId)
        requires
            old(self).wf(),
        ensures
            final(self).wf(),
            final(self).peer_info_state().node_spec(peer@) == match old(self).peer_info_state().node_spec(peer@) {
                Some(n) => Some(NodeView { connected: false, ..n }),
                None => None,
            },
            forall|q: Seq<u8>|
                q != peer@ ==> final(self).peer_info_state().node_spec(q) == old(self).peer_info_state().node_spec(q),
            !old(self).request_responses_state().is_connected_spec(peer@)
                ==> final(self).request_responses_state()@ == old(self).request_responses_state()@,
            old(self).request_responses_state().is_connected_spec(peer@) ==> exists|k: int|
                crate::ids::first_index_of(old(self).request_responses_state().connections(), peer@, k)
                    && final(self).request_responses_state()@ == (RequestResponsesView {
                    connections: old(self).request_responses_state().connections().remove(k),
                    ..old(self).request_responses_state()@
                }),
            final(self).chain_sync() == old(self).chain_sync(),
            final(self).discovery_state() == old(self).discovery_state(),
            final(self).content_exchange() == old(self).content_exchange(),
            final(self).queue() == old(self).queue(),
    {
        self.peer_info.on_disconnected(peer);
        self.request_responses.on_disconnected(peer);
        assert forall|p: Seq<u8>| #[trigger] self.request_responses_state().is_connected_spec(p) implies self.peer_info_state().node_spec(
            p,
        ) is Some by {
            let c = old(self).request_responses_state().connections();
            let after = self.request_responses_state().connections();
            let j = choose|j: int| 0 <= j < after.len() && after[j] == p;
            if c.contains(peer@) {
                let k = choose|k: int|
                    crate::ids::first_index_of(c, peer@, k) && after == c.remove(k);
                if j < k {
                    assert(c[j] == p);
                } else {
                    assert(c[j + 1] == p);
                }
            } else {
                assert(c[j] == p);
            }
            assert(old(self).request_responses_state().is_connected_spec(p));
        };
    }

    /// `peer` identified itself with `info`: peer info records it and the
    /// identification is queued.
    pub fn inject_identified(&mut self, peer: PeerId, info: IdentifyInfo)
        requires
            old(self).wf(),
        ensures
            final(self).wf(),
            final(self).peer_info_state().node_spec(peer@) == Some(
                NodeView {
                    client_version: Some(info.agent_version@),
                    connected: match old(self).peer_info_state().node_spec(peer@) {
                        Some(n) => n.connected,
                        None => true,
                    },
                },
            ),
            forall|q: Seq<u8>|
                q != peer@ ==> final(self).peer_info_state().node_spec(q) == old(self).peer_info_state().node_spec(q),
            final(self).queue() == old(self).queue().push(BehaviourOut::PeerIdentify { peer_id: peer, info }),
            final(self).chain_sync() == old(self).chain_sync(),
            final(self).discovery_state() == old(self).discovery_state(),
            final(self).content_exchange() == old(self).content_exchange(),
            final(self).request_responses_state() == old(self).request_responses_state(),
    {
        let ghost id = peer@;
        let event = self.peer_info.on_identified(peer, info);
        self.events.push_back(BehaviourOut::from(event));
        assert forall|p: Seq<u8>| #[trigger] self.request_responses_state().is_connected_spec(p) implies self.peer_info_state().node_spec(
            p,
        ) is Some by {
            assert(old(self).request_responses_state().is_connected_spec(p));
        };
    }

    /// Hands the requests to send over to the transport, oldest first.
    pub fn take_outbound_requests(&mut self) -> (r: Vec<OutboundRequest>)
        ensures
            r@.map_values(|o: OutboundRequest| o@) == old(self).request_responses_state().outbox(),
            final(self).request_responses_state()@ == (RequestResponsesView {
                outbox: Seq::empty(),
                ..old(self).request_responses_state()@
            }),
            final(self).chain_sync() == old(self).chain_sync(),
            final(self).peer_info_state() == old(self).peer_info_state(),
            final(self).discovery_state() == old(self).discovery_state(),
            final(self).content_exchange() == old(self).content_exchange(),
            final(self).queue() == old(self).queue(),
            old(self).wf() ==> final(self).wf(),
    {
        let r = self.request_responses.take_outbound();
        proof {
            if old(self).wf() {
                assert forall|p: Seq<u8>| #[trigger] self.request_responses_state().is_connected_spec(p) implies self.peer_info_state().node_spec(
                    p,
                ) is Some by {
                    assert(old(self).request_responses_state().is_connected_spec(p));
                };
            }
        }
        r
    }

    /// Hands the DHT operations to start over to the transport, oldest first.
    pub fn take_dht_queries(&mut self) -> (r: Vec<DhtQuery>)
        ensures
            r@.map_values(|q: DhtQuery| q@) == old(self).discovery_state().queries(),
            final(self).discovery_state()@ == (DiscoveryView {
                queries: Seq::empty(),
                ..old(self).discovery_state()@
            }),
            only_discovery_changed(*old(self), *final(self)),
    {
        self.discovery.take_queries()
    }

    /// The transport finished request `id`, `duration` after it was started:
    /// `result` goes to the request's initiator, and the finished request is
    /// queued as an event. An id not in flight changes nothing.
    pub fn inject_request_outcome(&mut self, id: u64, result: Reply, duration: Duration)
        ensures
            exists|ev: Option<RequestEvent>|
                {
                    &&& response_outcome(
                        old(self).request_responses_state(),
                        id,
                        result,
                        duration,
                        ev,
                        final(self).request_responses_state(),
                    )
                    &&& final(self).queue() == match ev {
                        Some(e) => old(self).queue().push(request_output(e)),
                        None => old(self).queue(),
                    }
                },
            final(self).chain_sync() == old(self).chain_sync(),
            final(self).peer_info_state() == old(self).peer_info_state(),
            final(self).discovery_state() == old(self).discovery_state(),
            final(self).content_exchange() == old(self).content_exchange(),
            old(self).wf() ==> final(self).wf(),
    {
        let outcome = self.request_responses.on_response(id, result, duration);
        let ghost ev = outcome;
        match outcome {
            Some(event) => {
                self.events.push_back(BehaviourOut::from(event));
            },
            None => {},
        }
        assert(response_outcome(
            old(self).request_responses_state(),
            id,
            result,
            duration,
            ev,
            self.request_responses_state(),
        ));
        proof {
            if old(self).wf() {
                assert forall|p: Seq<u8>| #[trigger] self.request_responses_state().is_connected_spec(p) implies self.peer_info_state().node_spec(
                    p,
                ) is Some by {
                    assert(old(self).request_responses_state().is_connected_spec(p));
                };
            }
        }
    }

    /// Hands out the oldest waiting event, or tells that none is waiting.
    pub fn poll(&mut self) -> (r: BehaviourPoll)
        ensures
            poll_step(old(self).queue(), r, final(self).queue()),
            sub_protocols_unchanged(*old(self), *final(self)),
    {
        if let Some(event) = self.events.pop_front() {
            return BehaviourPoll::Ready(event);
        }
        BehaviourPoll::Pending
    }

    /// Polls until nothing is ready, and returns the events handed out, in
    /// the order the polls gave them: exactly the waiting events, oldest
    /// first, leaving the queue empty.
    pub fn drain_events(&mut self) -> (r: Vec<BehaviourOut>)
        ensures
            r@ == old(self).queue(),
            final(self).queue() == Seq::<BehaviourOut>::empty(),
            sub_protocols_unchanged(*old(self), *final(self)),
    {
        let mut out: Vec<BehaviourOut> = Vec::new();
        loop
            invariant
                out@ + self.queue() == old(self).queue(),
                sub_protocols_unchanged(*old(self), *self),
            decreases self.queue().len(),
        {
            let ghost before = self.queue();
            match self.poll() {
                BehaviourPoll::Ready(event) => {
                    let ghost prefix = out@;
                    out.push(event);
                    assert(out@ + self.queue() =~= prefix + before);
                },
                BehaviourPoll::Pending => {
                    assert(out@ =~= out@ + self.queue());
                    return out;
                },
            }
        }
    }
}

} // verus!
