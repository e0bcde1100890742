use futures::channel::oneshot;
use network_behaviour::behaviour::{Behaviour, BehaviourOut, BehaviourPoll, ContentExchange, DhtEvent};
use network_behaviour::chain_sync::{
    BlockOrigin, ChainSync, CustomMessageOutcome, IncomingBlock, NotificationSendError, NotificationsSink,
    OpaqueBlockRequest,
};
use network_behaviour::discovery::{
    DhtQuery, DiscoveryConfig, DiscoveryOut, Namespace, NamespaceStats,
};
use network_behaviour::ids::{Multiaddr, PeerId, RecordKey};
use network_behaviour::peer_info::{IdentifyInfo, PeerInfoEvent};
use network_behaviour::reply::{Reply, ReplyChannel, RequestFailure, OutboundFailure};
use network_behaviour::request_responses::{
    Event as RequestEvent, IfDisconnected, PeersetHandle, ProtocolConfig, RegisterError, RequestResponses,
};
use network_behaviour::role::{
    reported_roles_to_observed_role, ObservedRole, Roles, ROLE_AUTHORITY, ROLE_FULL, ROLE_LIGHT,
};
use std::time::Duration;

fn peer(b: u8) -> PeerId {
    PeerId::from_bytes(vec![0x12, 0x20, b])
}

fn addr(b: u8) -> Multiaddr {
    Multiaddr { bytes: vec![4, 127, 0, 0, b] }
}

fn config(name: &str) -> ProtocolConfig {
    ProtocolConfig {
        name: name.to_string(),
        fallback_names: Vec::new(),
        max_request_size: 1024,
        max_response_size: 16 * 1024 * 1024,
        request_timeout: Duration::from_secs(20),
    }
}

fn disco_config() -> DiscoveryConfig {
    DiscoveryConfig {
        namespaces: vec![
            Namespace { id: "dot".to_string(), protocol_name: "/dot/kad".to_string() },
            Namespace { id: "ksm".to_string(), protocol_name: "/ksm/kad".to_string() },
        ],
        permanent_addresses: vec![(peer(1), addr(1))],
    }
}

fn build_with(generic: Vec<ProtocolConfig>, warp: Option<ProtocolConfig>) -> Result<Behaviour, RegisterError> {
    Behaviour::new(
        ChainSync::new(),
        "node/1.0".to_string(),
        vec![1, 2, 3],
        disco_config(),
        config("/sync/2"),
        config("/state/2"),
        warp,
        None,
        config("/light/2"),
        generic,
        PeersetHandle { set_id: 0 },
    )
}

fn build() -> Behaviour {
    match build_with(Vec::new(), None) {
        Ok(b) => b,
        Err(_) => panic!("registration failed"),
    }
}

fn ready(b: &mut Behaviour) -> BehaviourOut {
    match b.poll() {
        BehaviourPoll::Ready(e) => e,
        BehaviourPoll::Pending => panic!("expected an event"),
    }
}

fn is_pending(b: &mut Behaviour) -> bool {
    matches!(b.poll(), BehaviourPoll::Pending)
}

#[test]
fn poll_on_fresh_behaviour_is_pending() {
    let mut b = build();
    assert!(is_pending(&mut b));
    assert!(is_pending(&mut b));
}

#[test]
fn events_come_out_in_the_order_they_went_in() {
    let mut b = build();
    b.inject_sync_outcome(CustomMessageOutcome::SyncConnected(peer(1)));
    b.inject_request_response_event(RequestEvent::ReputationChanges { peer: peer(2), changes: Vec::new() });
    b.inject_event(DiscoveryOut::ValuePut(RecordKey { bytes: vec![9] }, Duration::from_millis(7)));
    b.inject_sync_outcome(CustomMessageOutcome::SyncDisconnected(peer(3)));
    match ready(&mut b) {
        BehaviourOut::SyncConnected(p) => assert_eq!(p, peer(1)),
        _ => panic!("wrong first event"),
    }
    match ready(&mut b) {
        BehaviourOut::ReputationChanges { peer: p, changes } => {
            assert_eq!(p, peer(2));
            assert!(changes.is_empty());
        },
        _ => panic!("wrong second event"),
    }
    match ready(&mut b) {
        BehaviourOut::Dht(DhtEvent::ValuePut(k), d) => {
            assert_eq!(k.bytes, vec![9]);
            assert_eq!(d, Duration::from_millis(7));
        },
        _ => panic!("wrong third event"),
    }
    match ready(&mut b) {
        BehaviourOut::SyncDisconnected(p) => assert_eq!(p, peer(3)),
        _ => panic!("wrong fourth event"),
    }
    assert!(is_pending(&mut b));
}

#[test]
fn random_walk_fans_out_one_event_per_namespace() {
    let mut b = build();
    b.inject_event(DiscoveryOut::RandomKademliaStarted(vec!["A".to_string(), "B".to_string(), "C".to_string()]));
    for expected in ["A", "B", "C"] {
        match ready(&mut b) {
            BehaviourOut::RandomKademliaStarted(id) => assert_eq!(id, expected),
            _ => panic!("expected a random walk event"),
        }
    }
    assert!(is_pending(&mut b));
}

#[test]
fn random_walk_without_namespaces_yields_nothing() {
    let mut b = build();
    b.inject_event(DiscoveryOut::RandomKademliaStarted(Vec::new()));
    assert!(is_pending(&mut b));
}

#[test]
fn new_best_block_and_no_op_are_ignored() {
    let mut b = build();
    b.inject_sync_outcome(CustomMessageOutcome::PeerNewBest(peer(4), 1000));
    b.inject_sync_outcome(CustomMessageOutcome::Ignored);
    assert!(matches!(ready(&mut b), BehaviourOut::Ignored));
    assert!(matches!(ready(&mut b), BehaviourOut::Ignored));
    assert!(is_pending(&mut b));
}

#[test]
fn role_classification_follows_precedence() {
    let cases: [(u8, ObservedRole); 8] = [
        (0, ObservedRole::Light),
        (ROLE_LIGHT, ObservedRole::Light),
        (ROLE_FULL, ObservedRole::Full),
        (ROLE_FULL | ROLE_LIGHT, ObservedRole::Full),
        (ROLE_AUTHORITY, ObservedRole::Authority),
        (ROLE_AUTHORITY | ROLE_LIGHT, ObservedRole::Authority),
        (ROLE_AUTHORITY | ROLE_FULL, ObservedRole::Authority),
        (ROLE_AUTHORITY | ROLE_FULL | ROLE_LIGHT, ObservedRole::Authority),
    ];
    for (bits, expected) in cases {
        assert_eq!(reported_roles_to_observed_role(Roles::new(bits)), expected);
    }
    assert!(Roles::new(ROLE_AUTHORITY).is_full());
    assert!(Roles::new(ROLE_LIGHT).is_light());
}

#[test]
fn stream_opened_carries_observed_role() {
    let mut b = build();
    let sink = NotificationsSink::new(peer(5), "/block-announces/1".to_string(), 1);
    b.inject_sync_outcome(CustomMessageOutcome::NotificationStreamOpened {
        remote: peer(5),
        protocol: "/block-announces/1".to_string(),
        negotiated_fallback: None,
        roles: Roles::new(ROLE_AUTHORITY | ROLE_FULL),
        notifications_sink: sink,
    });
    match ready(&mut b) {
        BehaviourOut::NotificationStreamOpened { remote, protocol, role, notifications_sink, negotiated_fallback } => {
            assert_eq!(remote, peer(5));
            assert_eq!(protocol, "/block-announces/1");
            assert_eq!(role, ObservedRole::Authority);
            assert_eq!(notifications_sink.generation, 1);
            assert!(negotiated_fallback.is_none());
        },
        _ => panic!("expected a stream opened event"),
    }
}

#[test]
fn reply_channel_delivers_only_the_first_answer() {
    let (tx, mut rx) = oneshot::channel::<Reply>();
    let mut reply = ReplyChannel::new(tx);
    assert!(!reply.resolved());
    assert!(reply.resolve(Ok(vec![1, 2, 3])));
    assert!(reply.resolved());
    assert!(!reply.resolve(Err(RequestFailure::Refused)));
    assert_eq!(rx.try_recv(), Ok(Some(Ok(vec![1, 2, 3]))));
}

#[test]
fn reply_channel_survives_a_dropped_receiver() {
    let (tx, rx) = oneshot::channel::<Reply>();
    drop(rx);
    let mut reply = ReplyChannel::new(tx);
    assert!(reply.resolve(Err(RequestFailure::Obsolete)));
    assert!(!reply.resolve(Err(RequestFailure::Obsolete)));
}

#[test]
fn block_request_channel_is_forwarded_unresolved() {
    let mut b = build();
    let (tx, mut rx) = oneshot::channel::<Reply>();
    b.inject_sync_outcome(CustomMessageOutcome::BlockRequest {
        target: peer(6),
        request: OpaqueBlockRequest { bytes: vec![7] },
        pending_response: ReplyChannel::new(tx),
    });
    match ready(&mut b) {
        BehaviourOut::BlockRequest { target, request, mut pending_response } => {
            assert_eq!(target, peer(6));
            assert_eq!(request.bytes, vec![7]);
            assert!(!pending_response.resolved());
            assert_eq!(rx.try_recv(), Ok(None));
            assert!(pending_response.resolve(Ok(vec![8])));
            assert_eq!(rx.try_recv(), Ok(Some(Ok(vec![8]))));
        },
        _ => panic!("expected a block request"),
    }
}

#[test]
fn duplicate_generic_protocols_are_refused() {
    let r = build_with(vec![config("/x/1"), config("/y/1"), config("/x/1")], None);
    match r {
        Err(RegisterError::DuplicateProtocol(name)) => assert_eq!(name, "/x/1"),
        Ok(_) => panic!("registration should fail"),
    }
}

#[test]
fn generic_protocol_clashing_with_block_requests_is_refused() {
    let r = build_with(vec![config("/sync/2")], Some(config("/warp/1")));
    match r {
        Err(RegisterError::DuplicateProtocol(name)) => assert_eq!(name, "/sync/2"),
        Ok(_) => panic!("registration should fail"),
    }
}

#[test]
fn registration_reports_first_repeated_name() {
    let r = RequestResponses::new(
        vec![config("/a"), config("/b"), config("/b"), config("/a")],
        PeersetHandle { set_id: 1 },
    );
    match r {
        Err(RegisterError::DuplicateProtocol(name)) => assert_eq!(name, "/b"),
        Ok(_) => panic!("registration should fail"),
    }
    assert!(RequestResponses::new(vec![config("/a"), config("/b")], PeersetHandle { set_id: 1 }).is_ok());
}

#[test]
fn dht_value_not_found_scenario() {
    let mut b = build();
    let key = RecordKey { bytes: b"K".to_vec() };
    b.get_value(key.clone());
    let queries = b.take_dht_queries();
    assert_eq!(queries, vec![DhtQuery::Get(key.clone())]);
    assert!(b.take_dht_queries().is_empty());
    b.inject_event(DiscoveryOut::ValueNotFound(key.clone(), Duration::from_millis(50)));
    match ready(&mut b) {
        BehaviourOut::Dht(DhtEvent::ValueNotFound(k), d) => {
            assert_eq!(k, key);
            assert_eq!(d, Duration::from_millis(50));
        },
        _ => panic!("expected a value-not-found event"),
    }
    assert!(is_pending(&mut b));
}

#[test]
fn put_value_is_queued_for_the_transport() {
    let mut b = build();
    b.put_value(RecordKey { bytes: vec![1] }, vec![2, 3]);
    assert_eq!(b.take_dht_queries(), vec![DhtQuery::Put(RecordKey { bytes: vec![1] }, vec![2, 3])]);
    b.inject_event(DiscoveryOut::ValuePutFailed(RecordKey { bytes: vec![1] }, Duration::from_millis(3)));
    assert!(matches!(ready(&mut b), BehaviourOut::Dht(DhtEvent::ValuePutFailed(_), _)));
}

#[test]
fn request_to_disconnected_peer_fails_fast() {
    let mut b = build();
    let (tx, mut rx) = oneshot::channel::<Reply>();
    let r = b.send_request(&peer(7), "/sync/2", vec![1], ReplyChannel::new(tx), IfDisconnected::ImmediateError);
    assert_eq!(r, Err(RequestFailure::NotConnected));
    assert_eq!(rx.try_recv(), Ok(Some(Err(RequestFailure::NotConnected))));
    assert!(b.take_outbound_requests().is_empty());
    assert!(is_pending(&mut b));
}

#[test]
fn request_on_unknown_protocol_fails() {
    let mut b = build();
    let (tx, mut rx) = oneshot::channel::<Reply>();
    let r = b.send_request(&peer(7), "/nope/1", vec![1], ReplyChannel::new(tx), IfDisconnected::TryConnect);
    assert_eq!(r, Err(RequestFailure::UnknownProtocol));
    assert_eq!(rx.try_recv(), Ok(Some(Err(RequestFailure::UnknownProtocol))));
    assert!(is_pending(&mut b));
}

#[test]
fn request_round_trip() {
    let mut b = build();
    let (tx1, mut rx1) = oneshot::channel::<Reply>();
    let (tx2, mut rx2) = oneshot::channel::<Reply>();
    let id1 = b.send_request(&peer(8), "/state/2", vec![1], ReplyChannel::new(tx1), IfDisconnected::TryConnect);
    assert_eq!(id1, Ok(0));
    b.inject_connection_established(&peer(9));
    let id2 = b.send_request(&peer(9), "/sync/2", vec![2], ReplyChannel::new(tx2), IfDisconnected::ImmediateError);
    assert_eq!(id2, Ok(1));
    let out = b.take_outbound_requests();
    assert_eq!(out.len(), 2);
    assert_eq!((out[0].id, out[0].target.clone(), out[0].protocol.as_str(), out[0].dial), (0, peer(8), "/state/2", true));
    assert_eq!((out[1].id, out[1].target.clone(), out[1].protocol.as_str(), out[1].dial), (1, peer(9), "/sync/2", false));
    assert_eq!(out[1].payload, vec![2]);
    assert_eq!(rx1.try_recv(), Ok(None));

    b.inject_request_outcome(1, Ok(vec![42]), Duration::from_millis(12));
    assert_eq!(rx2.try_recv(), Ok(Some(Ok(vec![42]))));
    match ready(&mut b) {
        BehaviourOut::RequestFinished { peer: p, protocol, duration, result } => {
            assert_eq!(p, peer(9));
            assert_eq!(protocol, "/sync/2");
            assert_eq!(duration, Duration::from_millis(12));
            assert_eq!(result, Ok(()));
        },
        _ => panic!("expected a finished request"),
    }
    b.inject_request_outcome(0, Err(RequestFailure::Network(OutboundFailure::Timeout)), Duration::from_secs(20));
    assert_eq!(rx1.try_recv(), Ok(Some(Err(RequestFailure::Network(OutboundFailure::Timeout)))));
    match ready(&mut b) {
        BehaviourOut::RequestFinished { result, .. } => {
            assert_eq!(result, Err(RequestFailure::Network(OutboundFailure::Timeout)));
        },
        _ => panic!("expected a finished request"),
    }
    b.inject_request_outcome(0, Ok(vec![]), Duration::from_millis(1));
    assert!(is_pending(&mut b));
}

#[test]
fn closing_the_last_connection_disconnects() {
    let mut b = build();
    b.inject_connection_established(&peer(9));
    b.inject_connection_established(&peer(9));
    b.inject_connection_closed(&peer(9));
    let (tx, _rx) = oneshot::channel::<Reply>();
    assert_eq!(
        b.send_request(&peer(9), "/sync/2", vec![], ReplyChannel::new(tx), IfDisconnected::ImmediateError),
        Ok(0)
    );
    b.inject_connection_closed(&peer(9));
    let (tx, _rx) = oneshot::channel::<Reply>();
    assert_eq!(
        b.send_request(&peer(9), "/sync/2", vec![], ReplyChannel::new(tx), IfDisconnected::ImmediateError),
        Err(RequestFailure::NotConnected)
    );
}

#[test]
fn node_info_is_cached_after_disconnection() {
    let mut b = build();
    assert!(b.node(&peer(10)).is_none());
    b.inject_connection_established(&peer(10));
    let n = b.node(&peer(10)).unwrap();
    assert!(n.connected);
    assert_eq!(n.client_version, None);
    let info = IdentifyInfo {
        public_key: vec![1],
        protocol_version: "/substrate/1.0".to_string(),
        agent_version: "client/2.0".to_string(),
        listen_addrs: vec![addr(10)],
        protocols: vec!["/dot/kad".to_string()],
        observed_addr: addr(11),
    };
    b.inject_identified(peer(10), info.clone());
    match ready(&mut b) {
        BehaviourOut::PeerIdentify { peer_id, info: got } => {
            assert_eq!(peer_id, peer(10));
            assert_eq!(got, info);
        },
        _ => panic!("expected an identification"),
    }
    b.inject_connection_closed(&peer(10));
    let n = b.node(&peer(10)).unwrap();
    assert!(!n.connected);
    assert_eq!(n.client_version, Some("client/2.0".to_string()));
    assert!(b.node(&peer(11)).is_none());
}

#[test]
fn peer_info_event_becomes_peer_identify() {
    let mut b = build();
    let info = IdentifyInfo {
        public_key: vec![],
        protocol_version: String::new(),
        agent_version: "x".to_string(),
        listen_addrs: Vec::new(),
        protocols: Vec::new(),
        observed_addr: addr(0),
    };
    b.inject_peer_info_event(PeerInfoEvent::Identified { peer_id: peer(12), info });
    assert!(matches!(ready(&mut b), BehaviourOut::PeerIdentify { .. }));
}

#[test]
fn known_peers_lists_each_peer_once() {
    let mut b = build();
    b.add_known_address(peer(1), addr(2));
    b.add_known_address(peer(2), addr(3));
    b.add_self_reported_address(&peer(3), &vec!["/ksm/kad".to_string(), "/other".to_string()], &addr(4));
    b.add_self_reported_address(&peer(2), &vec!["/dot/kad".to_string()], &addr(5));
    let mut known = b.known_peers();
    known.sort_by(|a, b| a.bytes.cmp(&b.bytes));
    assert_eq!(known, vec![peer(1), peer(2), peer(3)]);
}

#[test]
fn self_reported_address_needs_a_supported_namespace() {
    let mut b = build();
    b.add_self_reported_address(&peer(20), &vec!["/unrelated/1".to_string()], &addr(1));
    assert!(!b.known_peers().contains(&peer(20)));
}

#[test]
fn namespace_statistics_are_reported_per_namespace() {
    let b = build();
    let buckets = b.num_entries_per_kbucket();
    assert_eq!(buckets.len(), 2);
    assert_eq!(buckets[0].0, "dot");
    assert_eq!(buckets[1].0, "ksm");
    assert!(buckets[0].1.is_empty());
    assert_eq!(b.num_kademlia_records(), vec![("dot".to_string(), 0), ("ksm".to_string(), 0)]);
    assert_eq!(b.kademlia_records_total_size(), vec![("dot".to_string(), 0), ("ksm".to_string(), 0)]);

    let mut d = disco_config().finish();
    d.record_stats(1, NamespaceStats { kbuckets: vec![(255, 3), (254, 1)], num_records: 4, records_total_size: 96 });
    assert_eq!(d.num_entries_per_kbucket()[1].1, vec![(255, 3), (254, 1)]);
    assert_eq!(d.num_kademlia_records(), vec![("dot".to_string(), 0), ("ksm".to_string(), 4)]);
    assert_eq!(d.kademlia_records_total_size(), vec![("dot".to_string(), 0), ("ksm".to_string(), 96)]);
}

#[test]
fn discovered_peer_goes_to_chain_sync() {
    let mut b = build();
    b.inject_event(DiscoveryOut::Discovered(peer(30)));
    b.inject_event(DiscoveryOut::UnroutablePeer(peer(31)));
    assert_eq!(b.user_protocol().discovered_nodes(), &vec![peer(30)]);
    assert!(is_pending(&mut b));
}

#[test]
fn value_found_is_forwarded() {
    let mut b = build();
    let results = vec![(RecordKey { bytes: vec![1] }, vec![5, 6])];
    b.inject_event(DiscoveryOut::ValueFound(results.clone(), Duration::from_millis(9)));
    match ready(&mut b) {
        BehaviourOut::Dht(DhtEvent::ValueFound(r), d) => {
            assert_eq!(r, results);
            assert_eq!(d, Duration::from_millis(9));
        },
        _ => panic!("expected a value-found event"),
    }
}

#[test]
fn block_import_is_forwarded() {
    let mut b = build();
    let block = IncomingBlock {
        hash: vec![0xaa],
        header: Some(vec![1]),
        body: None,
        justifications: None,
        origin: Some(peer(40)),
        allow_missing_state: false,
        import_existing: false,
    };
    b.inject_sync_outcome(CustomMessageOutcome::BlockImport(BlockOrigin::NetworkBroadcast, vec![block.clone()]));
    match ready(&mut b) {
        BehaviourOut::BlockImport(origin, blocks) => {
            assert_eq!(origin, BlockOrigin::NetworkBroadcast);
            assert_eq!(blocks, vec![block]);
        },
        _ => panic!("expected a block import"),
    }
}

#[test]
fn stale_sinks_fail_to_send() {
    let mut b = build();
    let proto = "/block-announces/1".to_string();
    let first = NotificationsSink::new(peer(50), proto.clone(), 1);
    let second = NotificationsSink::new(peer(50), proto.clone(), 2);
    assert_eq!(
        b.user_protocol_mut().send_notification(&first, bytes::Bytes::from_static(b"early")),
        Err(NotificationSendError::Closed)
    );
    b.inject_sync_outcome(CustomMessageOutcome::NotificationStreamOpened {
        remote: peer(50),
        protocol: proto.clone(),
        negotiated_fallback: None,
        roles: Roles::new(ROLE_FULL),
        notifications_sink: first.clone(),
    });
    assert_eq!(b.user_protocol_mut().send_notification(&first, bytes::Bytes::from_static(b"a")), Ok(()));
    b.inject_sync_outcome(CustomMessageOutcome::NotificationStreamReplaced {
        remote: peer(50),
        protocol: proto.clone(),
        notifications_sink: second.clone(),
    });
    assert_eq!(
        b.user_protocol_mut().send_notification(&first, bytes::Bytes::from_static(b"b")),
        Err(NotificationSendError::Closed)
    );
    assert_eq!(b.user_protocol_mut().send_notification(&second, bytes::Bytes::from_static(b"c")), Ok(()));
    b.inject_sync_outcome(CustomMessageOutcome::NotificationStreamClosed { remote: peer(50), protocol: proto.clone() });
    assert_eq!(
        b.user_protocol_mut().send_notification(&second, bytes::Bytes::from_static(b"d")),
        Err(NotificationSendError::Closed)
    );
    let sent = b.user_protocol_mut().take_sent();
    assert_eq!(sent.len(), 2);
    assert_eq!(sent[0].message, bytes::Bytes::from_static(b"a"));
    assert_eq!(sent[1].message, bytes::Bytes::from_static(b"c"));
    assert_eq!(sent[1].remote, peer(50));
    assert_eq!(sent[1].protocol, proto);
    assert!(b.user_protocol_mut().take_sent().is_empty());
}

#[test]
fn notifications_received_are_forwarded() {
    let mut b = build();
    b.inject_sync_outcome(CustomMessageOutcome::NotificationsReceived {
        remote: peer(60),
        messages: vec![("/tx/1".to_string(), bytes::Bytes::from_static(b"m"))],
    });
    match ready(&mut b) {
        BehaviourOut::NotificationsReceived { remote, messages } => {
            assert_eq!(remote, peer(60));
            assert_eq!(messages, vec![("/tx/1".to_string(), bytes::Bytes::from_static(b"m"))]);
        },
        _ => panic!("expected received notifications"),
    }
}

#[test]
fn content_exchange_can_be_enabled() {
    let b = Behaviour::new(
        ChainSync::new(),
        "node".to_string(),
        vec![],
        disco_config(),
        config("/sync/2"),
        config("/state/2"),
        None,
        Some(ContentExchange { protocol: "/ipfs/bitswap/1.2.0".to_string() }),
        config("/light/2"),
        Vec::new(),
        PeersetHandle { set_id: 0 },
    );
    assert!(b.is_ok());
}

#[test]
fn reported_occupancy_reaches_the_behaviour_queries() {
    let mut b = build();
    b.record_discovery_stats(0, NamespaceStats { kbuckets: vec![(253, 2)], num_records: 5, records_total_size: 120 });
    assert_eq!(b.num_entries_per_kbucket()[0].1, vec![(253, 2)]);
    assert!(b.num_entries_per_kbucket()[1].1.is_empty());
    assert_eq!(b.num_kademlia_records(), vec![("dot".to_string(), 5), ("ksm".to_string(), 0)]);
    assert_eq!(b.kademlia_records_total_size(), vec![("dot".to_string(), 120), ("ksm".to_string(), 0)]);
}

#[test]
fn draining_returns_every_waiting_event_in_order() {
    let mut b = build();
    assert!(b.drain_events().is_empty());
    b.inject_sync_outcome(CustomMessageOutcome::SyncConnected(peer(70)));
    b.inject_event(DiscoveryOut::RandomKademliaStarted(vec!["A".to_string(), "B".to_string()]));
    b.inject_sync_outcome(CustomMessageOutcome::SyncDisconnected(peer(71)));
    let events = b.drain_events();
    assert_eq!(events.len(), 4);
    assert!(matches!(&events[0], BehaviourOut::SyncConnected(p) if *p == peer(70)));
    assert!(matches!(&events[1], BehaviourOut::RandomKademliaStarted(id) if id == "A"));
    assert!(matches!(&events[2], BehaviourOut::RandomKademliaStarted(id) if id == "B"));
    assert!(matches!(&events[3], BehaviourOut::SyncDisconnected(p) if *p == peer(71)));
    assert!(is_pending(&mut b));
}

#[test]
fn unroutable_peer_changes_nothing() {
    let mut b = build();
    b.inject_event(DiscoveryOut::UnroutablePeer(peer(72)));
    assert!(b.user_protocol().discovered_nodes().is_empty());
    assert!(b.known_peers() == vec![peer(1)]);
    assert!(is_pending(&mut b));
}
