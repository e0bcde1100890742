use crate::ids::{PeerId, ProtocolName, peers_view};
use crate::reply::ReplyChannel;
use crate::role::Roles;
use vstd::prelude::*;

verus! {

/// `bytes::Bytes`, the payload of a notification: carried through unread.
#[verifier::external_type_specification]
#[verifier::external_body]
pub struct ExBytes(bytes::Bytes);

/// Where a block to import comes from.
#[derive(Clone, Copy, Debug, PartialEq, Eq, Structural)]
pub enum BlockOrigin {
    Genesis,
    NetworkInitialSync,
    NetworkBroadcast,
    ConsensusBroadcast,
    Own,
    File,
}

/// A finality proof of one consensus engine, in its own encoding.
#[derive(Clone, Debug, PartialEq, Eq)]
pub struct Justification {
    pub engine_id: [u8; 4],
    pub data: Vec<u8>,
}

/// A block received from the network and handed to the import queue, with
/// its parts in their encoded form.
#[derive(Clone, Debug, PartialEq, Eq)]
pub struct IncomingBlock {
    pub hash: Vec<u8>,
    pub header: Option<Vec<u8>>,
    pub body: Option<Vec<Vec<u8>>>,
    pub justifications: Option<Vec<Justification>>,
    pub origin: Option<PeerId>,
    pub allow_missing_state: bool,
    pub import_existing: bool,
}

/// A block request in the encoding of the chain-sync protocol.
#[derive(Clone, Debug, PartialEq, Eq)]
pub struct OpaqueBlockRequest {
    pub bytes: Vec<u8>,
}

/// A state request in the encoding of the chain-sync protocol.
#[derive(Clone, Debug, PartialEq, Eq)]
pub struct OpaqueStateRequest {
    pub bytes: Vec<u8>,
}

/// Asks for a warp-sync proof starting at the block of hash `begin`.
#[derive(Clone, Debug, PartialEq, Eq)]
pub struct WarpProofRequest {
    pub begin: Vec<u8>,
}

/// Capability to send notifications to one peer on one protocol, within one
/// transport session; `generation` tells sessions of the same pair apart.
#[derive(Clone, Debug, PartialEq, Eq)]
pub struct NotificationsSink {
    pub remote: PeerId,
    pub protocol: ProtocolName,
    pub generation: u64,
}

pub struct SinkView {
    pub remote: Seq<u8>,
    pub protocol: Seq<char>,
    pub generation: u64,
}

impl View for NotificationsSink {
    type V = SinkView;

    open spec fn view(&self) -> SinkView {
        SinkView { remote: self.remote@, protocol: self.protocol@, generation: self.generation }
    }
}

impl NotificationsSink {
    pub fn new(remote: PeerId, protocol: ProtocolName, generation: u64) -> (r: NotificationsSink)
        ensures
            r@ == (SinkView { remote: remote@, protocol: protocol@, generation }),
    {
        NotificationsSink { remote, protocol, generation }
    }

    fn duplicate(&self) -> (r: NotificationsSink)
        ensures
            r@ == self@,
    {
        NotificationsSink {
            remote: self.remote.duplicate(),
            protocol: self.protocol.clone(),
            generation: self.generation,
        }
    }
}

/// Why a notification was not sent.
#[derive(Clone, Copy, Debug, PartialEq, Eq, Structural)]
pub enum NotificationSendError {
    /// The sink's stream was closed, or replaced by one of another session.
    Closed,
}

/// A notification handed to the transport.
#[derive(Debug)]
pub struct SentNotification {
    pub remote: PeerId,
    pub protocol: ProtocolName,
    pub message: bytes::Bytes,
}

/// The sinks in `sinks` that belong to another (peer, protocol) pair than
/// `remote` and `protocol`, among the first `n`.
pub open spec fn other_pairs(sinks: Seq<SinkView>, remote: Seq<u8>, protocol: Seq<char>, n: int) -> Seq<SinkView>
    decreases n,
{
    if n <= 0 {
        Seq::empty()
    } else {
        let before = other_pairs(sinks, remote, protocol, n - 1);
        if sinks[n - 1].remote == remote && sinks[n - 1].protocol == protocol {
            before
        } else {
            before.push(sinks[n - 1])
        }
    }
}

/// The live sinks once the stream of `remote` on `protocol` is closed.
pub open spec fn without_pair(sinks: Seq<SinkView>, remote: Seq<u8>, protocol: Seq<char>) -> Seq<SinkView> {
    other_pairs(sinks, remote, protocol, sinks.len() as int)
}

/// The live sinks once `sink` is the one of its stream.
pub open spec fn with_sink(sinks: Seq<SinkView>, sink: SinkView) -> Seq<SinkView> {
    without_pair(sinks, sink.remote, sink.protocol).push(sink)
}

/// What the chain-sync protocol reports to the behaviour that owns it.
pub enum CustomMessageOutcome {
    BlockImport(BlockOrigin, Vec<IncomingBlock>),
    /// Origin peer, block hash, block number and the justifications to import.
    JustificationImport(PeerId, Vec<u8>, u64, Vec<Justification>),
    BlockRequest { target: PeerId, request: OpaqueBlockRequest, pending_response: ReplyChannel },
    StateRequest { target: PeerId, request: OpaqueStateRequest, pending_response: ReplyChannel },
    WarpSyncRequest { target: PeerId, request: WarpProofRequest, pending_response: ReplyChannel },
    NotificationStreamOpened {
        remote: PeerId,
        protocol: ProtocolName,
        negotiated_fallback: Option<ProtocolName>,
        roles: Roles,
        notifications_sink: NotificationsSink,
    },
    NotificationStreamReplaced {
        remote: PeerId,
        protocol: ProtocolName,
        notifications_sink: NotificationsSink,
    },
    NotificationStreamClosed { remote: PeerId, protocol: ProtocolName },
    NotificationsReceived { remote: PeerId, messages: Vec<(ProtocolName, bytes::Bytes)> },
    /// A peer announced a new best block, of the given number.
    PeerNewBest(PeerId, u64),
    SyncConnected(PeerId),
    SyncDisconnected(PeerId),
    /// Nothing worth reporting.
    Ignored,
}

/// The chain-sync protocol, as far as the behaviour drives it: the peers
/// that discovery has offered to its default peer set, in the order offered;
/// the live sink of each open notifications stream; and the notifications
/// sent through them that the transport has still to carry.
pub struct ChainSync {
    discovered: Vec<PeerId>,
    sinks: Vec<NotificationsSink>,
    sent: Vec<SentNotification>,
}

impl ChainSync {
    pub closed spec fn discovered_view(&self) -> Seq<Seq<u8>> {
        peers_view(self.discovered@)
    }

    /// The sink of each open stream.
    pub closed spec fn live_sinks(&self) -> Seq<SinkView> {
        self.sinks@.map_values(|s: NotificationsSink| s@)
    }

    /// Notifications waiting for the transport, oldest first, with their
    /// peer and protocol.
    pub closed spec fn sent_view(&self) -> Seq<(Seq<u8>, Seq<char>, bytes::Bytes)> {
        self.sent@.map_values(|n: SentNotification| (n.remote@, n.protocol@, n.message))
    }

    pub fn new() -> (r: ChainSync)
        ensures
            r.discovered_view() == Seq::<Seq<u8>>::empty(),
            r.live_sinks() == Seq::<SinkView>::empty(),
            r.sent_view() == Seq::<(Seq<u8>, Seq<char>, bytes::Bytes)>::empty(),
    {
        let r = ChainSync { discovered: Vec::new(), sinks: Vec::new(), sent: Vec::new() };
        assert(r.discovered_view() =~= Seq::<Seq<u8>>::empty());
        assert(r.live_sinks() =~= Seq::<SinkView>::empty());
        assert(r.sent_view() =~= Seq::<(Seq<u8>, Seq<char>, bytes::Bytes)>::empty());
        r
    }

    /// Offers newly discovered peers to the default peer set.
    pub fn add_default_set_discovered_nodes(&mut self, peers: Vec<PeerId>)
        ensures
            final(self).discovered_view() == old(self).discovered_view() + peers_view(peers@),
            final(self).live_sinks() == old(self).live_sinks(),
            final(self).sent_view() == old(self).sent_view(),
    {
        let mut peers = peers;
        let ghost before = self.discovered@;
        let ghost added = peers@;
        self.discovered.append(&mut peers);
        proof {
            assert(self.discovered@ == before + added);
            assert(peers_view(before + added) =~= peers_view(before) + peers_view(added));
        }
    }

    /// The peers offered to the default peer set so far, oldest first.
    pub fn discovered_nodes(&self) -> (r: &Vec<PeerId>)
        ensures
            peers_view(r@) == self.discovered_view(),
    {
        &self.discovered
    }

    /// Closes the stream of `remote` on `protocol`: its sink, if any, stops
    /// being live.
    pub fn close_stream(&mut self, remote: &PeerId, protocol: &ProtocolName)
        ensures
            final(self).live_sinks() == without_pair(old(self).live_sinks(), remote@, protocol@),
            final(self).discovered_view() == old(self).discovered_view(),
            final(self).sent_view() == old(self).sent_view(),
    {
        let mut kept: Vec<NotificationsSink> = Vec::new();
        let mut i: usize = 0;
        while i < self.sinks.len()
            invariant
                i <= self.sinks@.len(),
                self.discovered_view() == old(self).discovered_view(),
                self.sent_view() == old(self).sent_view(),
                self.live_sinks() == old(self).live_sinks(),
                kept@.map_values(|s: NotificationsSink| s@) == other_pairs(
                    old(self).live_sinks(),
                    remote@,
                    protocol@,
                    i as int,
                ),
            decreases self.sinks@.len() - i,
        {
            let sink = &self.sinks[i];
            assert(self.live_sinks()[i as int] == sink@);
            if !(sink.remote.same_as(remote) && sink.protocol == *protocol) {
                let ghost before = kept@;
                kept.push(sink.duplicate());
                assert(kept@.map_values(|s: NotificationsSink| s@) =~= before.map_values(
                    |s: NotificationsSink| s@,
                ).push(sink@));
            }
            i = i + 1;
        }
        self.sinks = kept;
    }

    /// Makes `sink` the live sink of its stream; an earlier sink of the same
    /// peer and protocol stops being live.
    pub fn bind_sink(&mut self, sink: &NotificationsSink)
        ensures
            final(self).live_sinks() == with_sink(old(self).live_sinks(), sink@),
            final(self).discovered_view() == old(self).discovered_view(),
            final(self).sent_view() == old(self).sent_view(),
    {
        self.close_stream(&sink.remote, &sink.protocol);
        let ghost before = self.live_sinks();
        self.sinks.push(sink.duplicate());
        assert(self.live_sinks() =~= before.push(sink@));
    }

    /// Sends `message` through `sink`, which fails unless `sink` is the live
    /// sink of its stream.
    pub fn send_notification(&mut self, sink: &NotificationsSink, message: bytes::Bytes) -> (r: Result<
        (),
        NotificationSendError,
    >)
        ensures
            r is Ok <==> old(self).live_sinks().contains(sink@),
            r is Ok ==> final(self).sent_view() == old(self).sent_view().push(
                (sink.remote@, sink.protocol@, message),
            ),
            r is Err ==> final(self).sent_view() == old(self).sent_view(),
            final(self).live_sinks() == old(self).live_sinks(),
            final(self).discovered_view() == old(self).discovered_view(),
    {
        let mut i: usize = 0;
        while i < self.sinks.len()
            invariant
                i <= self.sinks@.len(),
                *self == *old(self),
                forall|k: int| 0 <= k < i ==> self.live_sinks()[k] != sink@,
            decreases self.sinks@.len() - i,
        {
            let s = &self.sinks[i];
            assert(self.live_sinks()[i as int] == s@);
            if s.remote.same_as(&sink.remote) && s.protocol == sink.protocol && s.generation == sink.generation {
                assert(self.live_sinks()[i as int] == sink@);
                let ghost before = self.sent_view();
                self.sent.push(
                    SentNotification { remote: sink.remote.duplicate(), protocol: sink.protocol.clone(), message },
                );
                assert(self.sent_view() =~= before.push((sink.remote@, sink.protocol@, message)));
                return Ok(());
            }
            i = i + 1;
        }
        Err(NotificationSendError::Closed)
    }

    /// Hands the notifications sent so far over to the transport, oldest
    /// first.
    pub fn take_sent(&mut self) -> (r: Vec<SentNotification>)
        ensures
            r@.map_values(|n: SentNotification| (n.remote@, n.protocol@, n.message)) == old(self).sent_view(),
            final(self).sent_view() == Seq::<(Seq<u8>, Seq<char>, bytes::Bytes)>::empty(),
            final(self).live_sinks() == old(self).live_sinks(),
            final(self).discovered_view() == old(self).discovered_view(),
    {
        let mut taken: Vec<SentNotification> = Vec::new();
        std::mem::swap(&mut taken, &mut self.sent);
        assert(self.sent_view() =~= Seq::<(Seq<u8>, Seq<char>, bytes::Bytes)>::empty());
        taken
    }
}

} // verus!
