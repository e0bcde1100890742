use crate::ids::{PeerId, ProtocolName, first_index_of, peers_view, position_of_peer};
use crate::reply::{Reply, ReplyChannel, RequestFailure, ResponseFailure};
use std::time::Duration;
use vstd::prelude::*;

verus! {

/// Description of one request/response protocol.
#[derive(Debug)]
pub struct ProtocolConfig {
    /// Main name of the protocol, which identifies it.
    pub name: ProtocolName,
    /// Older names that a remote may still negotiate.
    pub fallback_names: Vec<ProtocolName>,
    /// Largest request accepted, in bytes.
    pub max_request_size: u64,
    /// Largest response accepted, in bytes.
    pub max_response_size: u64,
    /// How long a request may go unanswered.
    pub request_timeout: Duration,
}

/// Why a set of protocols cannot be registered.
#[derive(Clone, Debug, PartialEq, Eq)]
pub enum RegisterError {
    /// Two protocols carry this name.
    DuplicateProtocol(ProtocolName),
}

/// What to do when a request is sent to a peer that is not connected.
#[derive(Clone, Copy, Debug, PartialEq, Eq, Structural)]
pub enum IfDisconnected {
    /// Dial the peer and send the request once connected.
    TryConnect,
    /// Answer the request with `RequestFailure::NotConnected` at once.
    ImmediateError,
}

impl IfDisconnected {
    pub fn should_connect(&self) -> (r: bool)
        ensures
            r == (*self == IfDisconnected::TryConnect),
    {
        match self {
            IfDisconnected::TryConnect => true,
            IfDisconnected::ImmediateError => false,
        }
    }
}

/// A change of a peer's reputation, with the reason for it.
#[derive(Clone, Debug, PartialEq, Eq)]
pub struct ReputationChange {
    pub value: i32,
    pub reason: String,
}

/// Handle to the registry of peer reputations, kept by the multiplexer.
#[derive(Clone, Debug)]
pub struct PeersetHandle {
    pub set_id: u64,
}

/// What the request/response multiplexer reports.
pub enum Event {
    /// A request from `peer` was answered (with the time it took) or not.
    InboundRequest { peer: PeerId, protocol: ProtocolName, result: Result<Duration, ResponseFailure> },
    /// A request sent to `peer` is over.
    RequestFinished {
        peer: PeerId,
        protocol: ProtocolName,
        duration: Duration,
        result: Result<(), RequestFailure>,
    },
    /// A protocol handler asks for reputation changes of `peer`.
    ReputationChanges { peer: PeerId, changes: Vec<ReputationChange> },
}

/// A request that the transport must now carry to its target.
#[derive(Debug)]
pub struct OutboundRequest {
    pub id: u64,
    pub target: PeerId,
    pub protocol: ProtocolName,
    pub payload: Vec<u8>,
    /// Whether the target has to be dialed first.
    pub dial: bool,
}

pub struct OutboundRequestView {
    pub id: u64,
    pub target: Seq<u8>,
    pub protocol: Seq<char>,
    pub payload: Seq<u8>,
    pub dial: bool,
}

impl View for OutboundRequest {
    type V = OutboundRequestView;

    open spec fn view(&self) -> OutboundRequestView {
        OutboundRequestView {
            id: self.id,
            target: self.target@,
            protocol: self.protocol@,
            payload: self.payload@,
            dial: self.dial,
        }
    }
}

/// A request in flight, with the handle that will carry its answer.
struct PendingRequest {
    id: u64,
    target: PeerId,
    protocol: ProtocolName,
    reply: ReplyChannel,
}

/// What is known of a request in flight: its id, target and protocol, and
/// whether its reply channel had an answer already when it was handed in.
pub struct PendingView {
    pub id: u64,
    pub target: Seq<u8>,
    pub protocol: Seq<char>,
    pub reply_resolved: bool,
}

/// The log of answers once a channel went from `before` to `after`: it grows
/// by the answer the channel delivered, if it delivered one in between.
spec fn logged_answer(log: Seq<Reply>, before: ReplyChannel, after: ReplyChannel) -> Seq<Reply> {
    if !before.is_resolved() && after.resolution() is Some {
        log.push(after.resolution()->Some_0)
    } else {
        log
    }
}

/// The log of answers once `reply` is offered to a channel: it grows only
/// when the channel had no answer yet.
pub open spec fn answer_log(before: Seq<Reply>, channel_was_resolved: bool, reply: Reply) -> Seq<Reply> {
    if channel_was_resolved {
        before
    } else {
        before.push(reply)
    }
}

pub open spec fn protocol_names(list: Seq<ProtocolConfig>) -> Seq<Seq<char>> {
    list.map_values(|c: ProtocolConfig| c.name@)
}

/// The name at `j` occurs earlier in `names`.
pub open spec fn duplicated_before(names: Seq<Seq<char>>, j: int) -> bool {
    exists|i: int| 0 <= i < j && names[i] == names[j]
}

pub open spec fn all_distinct(names: Seq<Seq<char>>) -> bool {
    forall|j: int| 0 <= j < names.len() ==> !duplicated_before(names, j)
}

/// `j` is the first position whose name was seen before.
pub open spec fn first_duplicate(names: Seq<Seq<char>>, j: int) -> bool {
    &&& 0 <= j < names.len()
    &&& duplicated_before(names, j)
    &&& forall|k: int| 0 <= k < j ==> !duplicated_before(names, k)
}

/// What registering the protocols `list` yields: success exactly when their
/// names are distinct, else the first name that repeats an earlier one.
pub open spec fn registration_result(list: Seq<ProtocolConfig>, r: Result<RequestResponses, RegisterError>) -> bool {
    let names = protocol_names(list);
    match r {
        Ok(rr) => {
            &&& all_distinct(names)
            &&& rr.names() == names
            &&& rr.connections() == Seq::<Seq<u8>>::empty()
            &&& rr.outbox() == Seq::<OutboundRequestView>::empty()
            &&& rr.pending() == Seq::<PendingView>::empty()
            &&& rr.answered() == Seq::<Reply>::empty()
            &&& rr.next_request_id() == 0
        },
        Err(RegisterError::DuplicateProtocol(n)) => exists|j: int|
            first_duplicate(names, j) && #[trigger] names[j] == n@,
    }
}

pub struct RequestResponsesView {
    pub names: Seq<Seq<char>>,
    pub connections: Seq<Seq<u8>>,
    pub outbox: Seq<OutboundRequestView>,
    pub pending: Seq<PendingView>,
    pub next_request_id: u64,
    pub answered: Seq<Reply>,
}

impl View for RequestResponses {
    type V = RequestResponsesView;

    open spec fn view(&self) -> RequestResponsesView {
        RequestResponsesView {
            names: self.names(),
            connections: self.connections(),
            outbox: self.outbox(),
            pending: self.pending(),
            next_request_id: self.next_request_id(),
            answered: self.answered(),
        }
    }
}

/// Multiplexes the generic request/response protocols: keeps the registered
/// protocols, the connected peers, the requests the transport has to carry
/// and those awaiting an answer.
pub struct RequestResponses {
    protocols: Vec<ProtocolConfig>,
    connected: Vec<PeerId>,
    outbox: Vec<OutboundRequest>,
    pending: Vec<PendingRequest>,
    next_id: u64,
    peerset: PeersetHandle,
    answered: Ghost<Seq<Reply>>,
}

impl RequestResponses {
    /// Names of the registered protocols, in registration order.
    pub closed spec fn names(&self) -> Seq<Seq<char>> {
        protocol_names(self.protocols@)
    }

    /// One entry per open connection, in the order they were opened.
    pub closed spec fn connections(&self) -> Seq<Seq<u8>> {
        peers_view(self.connected@)
    }

    pub open spec fn is_connected_spec(&self, peer: Seq<u8>) -> bool {
        self.connections().contains(peer)
    }

    /// Requests handed out to the transport by the next `take_outbound`.
    pub closed spec fn outbox(&self) -> Seq<OutboundRequestView> {
        self.outbox@.map_values(|r: OutboundRequest| r@)
    }

    /// Requests awaiting their answer, oldest first.
    pub closed spec fn pending(&self) -> Seq<PendingView> {
        self.pending@.map_values(
            |p: PendingRequest|
                PendingView {
                    id: p.id,
                    target: p.target@,
                    protocol: p.protocol@,
                    reply_resolved: p.reply.is_resolved(),
                },
        )
    }

    /// Every answer delivered so far to the reply channel of a request
    /// handed to this multiplexer, oldest first.
    pub closed spec fn answered(&self) -> Seq<Reply> {
        self.answered@
    }

    /// The id that the next request will get.
    pub closed spec fn next_request_id(&self) -> u64 {
        self.next_id
    }

    /// Registers `list`, refusing it when two of its protocols share a name.
    pub fn new(list: Vec<ProtocolConfig>, peerset: PeersetHandle) -> (r: Result<RequestResponses, RegisterError>)
        ensures
            registration_result(list@, r),
    {
        let ghost names = protocol_names(list@);
        let mut j: usize = 0;
        while j < list.len()
            invariant
                j <= list@.len(),
                names == protocol_names(list@),
                forall|k: int| 0 <= k < j ==> !duplicated_before(names, k),
            decreases list@.len() - j,
        {
            let mut i: usize = 0;
            while i < j
                invariant
                    i <= j < list@.len(),
                    names == protocol_names(list@),
                    names.len() == list@.len(),
                    forall|k: int| 0 <= k < j ==> !duplicated_before(names, k),
                    forall|k: int| 0 <= k < i ==> names[k] != names[j as int],
                decreases j - i,
            {
                if list[i].name == list[j].name {
                    assert(names[i as int] == list@[i as int].name@);
                    assert(names[j as int] == list@[j as int].name@);
                    assert(duplicated_before(names, j as int));
                    let name = list[j].name.clone();
                    assert(first_duplicate(names, j as int));
                    assert(names[j as int] == name@);
                    return Err(RegisterError::DuplicateProtocol(name));
                }
                assert(names[i as int] == list@[i as int].name@);
                assert(names[j as int] == list@[j as int].name@);
                i = i + 1;
            }
            j = j + 1;
        }
        let rr = RequestResponses {
            protocols: list,
            connected: Vec::new(),
            outbox: Vec::new(),
            pending: Vec::new(),
            next_id: 0,
            peerset,
            answered: Ghost(Seq::empty()),
        };
        assert(rr.connections() =~= Seq::<Seq<u8>>::empty());
        assert(rr.outbox() =~= Seq::<OutboundRequestView>::empty());
        assert(rr.pending() =~= Seq::<PendingView>::empty());
        Ok(rr)
    }

    pub fn is_connected(&self, peer: &PeerId) -> (r: bool)
        ensures
            r == self.is_connected_spec(peer@),
    {
        let found = position_of_peer(&self.connected, peer);
        proof {
            if self.connections().contains(peer@) {
                let k = self.connections().index_of(peer@);
                assert(self.connected@[k]@ == peer@);
            }
            if let Some(k) = found {
                assert(self.connections()[k as int] == peer@);
            }
        }
        found.is_some()
    }

    fn is_registered(&self, protocol: &String) -> (r: bool)
        ensures
            r == self.names().contains(protocol@),
    {
        let mut i: usize = 0;
        while i < self.protocols.len()
            invariant
                i <= self.protocols@.len(),
                forall|k: int| 0 <= k < i ==> self.names()[k] != protocol@,
            decreases self.protocols@.len() - i,
        {
            assert(self.names()[i as int] == self.protocols@[i as int].name@);
            if self.protocols[i].name == *protocol {
                return true;
            }
            i = i + 1;
        }
        false
    }

    /// A connection to `peer` was opened.
    pub fn on_connected(&mut self, peer: PeerId)
        ensures
            final(self).connections() == old(self).connections().push(peer@),
            unchanged_but_connections(*old(self), *final(self)),
    {
        self.connected.push(peer);
        proof {
            assert(self.connections() =~= old(self).connections().push(peer@));
        }
    }

    /// A connection to `peer` was closed: the oldest one still counted for
    /// it is dropped.
    pub fn on_disconnected(&mut self, peer: &PeerId)
        ensures
            !old(self).is_connected_spec(peer@) ==> final(self).connections() == old(self).connections(),
            old(self).is_connected_spec(peer@) ==> exists|k: int|
                first_index_of(old(self).connections(), peer@, k)
                    && final(self).connections() == old(self).connections().remove(k),
            unchanged_but_connections(*old(self), *final(self)),
    {
        let found = position_of_peer(&self.connected, peer);
        match found {
            Some(k) => {
                proof {
                    assert(self.connections()[k as int] == peer@);
                    assert forall|i: int| 0 <= i < k implies self.connections()[i] != peer@ by {
                        assert(self.connected@[i]@ != peer@);
                    };
                    assert(first_index_of(self.connections(), peer@, k as int));
                }
                let _ = self.connected.remove(k);
                proof {
                    assert(self.connections() =~= old(self).connections().remove(k as int));
                }
            },
            None => {
                proof {
                    if self.connections().contains(peer@) {
                        let f = self.connections().index_of(peer@);
                        assert(self.connected@[f]@ == peer@);
                    }
                }
            },
        }
    }

    /// Starts a request to `target` on `protocol`, or answers `pending_response`
    /// at once with the failure that is returned.
    pub fn send_request(
        &mut self,
        target: &PeerId,
        protocol: &str,
        request: Vec<u8>,
        pending_response: ReplyChannel,
        connect: IfDisconnected,
    ) -> (r: Result<u64, RequestFailure>)
        requires
            old(self).next_request_id() < u64::MAX,
        ensures
            send_outcome(
                *old(self),
                target@,
                protocol@,
                request@,
                pending_response.is_resolved(),
                connect,
                r,
                *final(self),
            ),
    {
        let name = protocol.to_owned();
        let mut reply = pending_response;
        let ghost reply_resolved = reply.is_resolved();
        if !self.is_registered(&name) {
            let ghost handed = reply;
            let _ = reply.resolve(Err(RequestFailure::UnknownProtocol));
            proof {
                self.answered = Ghost(logged_answer(self.answered@, handed, reply));
            }
            return Err(RequestFailure::UnknownProtocol);
        }
        let connected = self.is_connected(target);
        if !connected && !connect.should_connect() {
            let ghost handed = reply;
            let _ = reply.resolve(Err(RequestFailure::NotConnected));
            proof {
                self.answered = Ghost(logged_answer(self.answered@, handed, reply));
            }
            return Err(RequestFailure::NotConnected);
        }
        let id = self.next_id;
        self.next_id = id + 1;
        let ghost payload = request@;
        self.outbox.push(
            OutboundRequest { id, target: target.duplicate(), protocol: protocol.to_owned(), payload: request, dial: !connected },
        );
        self.pending.push(PendingRequest { id, target: target.duplicate(), protocol: name, reply });
        proof {
            assert(self.outbox() =~= old(self).outbox().push(
                OutboundRequestView { id, target: target@, protocol: protocol@, payload, dial: !connected },
            ));
            assert(self.pending() =~= old(self).pending().push(
                PendingView { id, target: target@, protocol: protocol@, reply_resolved },
            ));
            assert(self.connections() =~= old(self).connections());
            assert(self.names() =~= old(self).names());
        }
        Ok(id)
    }

    /// Hands the requests to carry over to the transport, oldest first.
    pub fn take_outbound(&mut self) -> (r: Vec<OutboundRequest>)
        ensures
            r@.map_values(|o: OutboundRequest| o@) == old(self).outbox(),
            final(self).outbox() == Seq::<OutboundRequestView>::empty(),
            final(self).names() == old(self).names(),
            final(self).connections() == old(self).connections(),
            final(self).pending() == old(self).pending(),
            final(self).next_request_id() == old(self).next_request_id(),
            final(self).answered() == old(self).answered(),
    {
        let mut taken: Vec<OutboundRequest> = Vec::new();
        std::mem::swap(&mut taken, &mut self.outbox);
        proof {
            assert(self.outbox() =~= Seq::<OutboundRequestView>::empty());
        }
        taken
    }

    /// The transport finished the request `id`, `duration` after it was
    /// started: `result` goes to its initiator and the outcome is reported.
    /// An id that is not in flight changes nothing.
    pub fn on_response(&mut self, id: u64, result: Reply, duration: Duration) -> (r: Option<Event>)
        ensures
            response_outcome(*old(self), id, result, duration, r, *final(self)),
    {
        let found = self.position_of_request(id);
        if found.is_none() {
            return None;
        }
        let k = found.unwrap();
        let ghost pv = self.pending()[k as int];
        let ghost before = self.pending();
        let entry = self.pending.remove(k);
        proof {
            assert(self.pending() =~= before.remove(k as int));
        }
        let status: Result<(), RequestFailure> = match &result {
            Ok(_) => Ok(()),
            Err(e) => Err(*e),
        };
        let PendingRequest { id: _, target, protocol, reply } = entry;
        let mut reply = reply;
        let ghost handed = reply;
        let _ = reply.resolve(result);
        proof {
            self.answered = Ghost(logged_answer(self.answered@, handed, reply));
        }
        let ev = Event::RequestFinished { peer: target, protocol, duration, result: status };
        proof {
            assert(before[k as int].id == id);
            assert(self.pending() == before.remove(k as int));
        }
        Some(ev)
    }

    fn position_of_request(&self, id: u64) -> (r: Option<usize>)
        ensures
            match r {
                Some(k) => {
                    &&& k < self.pending().len()
                    &&& self.pending()[k as int].id == id
                    &&& forall|i: int| 0 <= i < k ==> #[trigger] self.pending()[i].id != id
                },
                None => forall|i: int| 0 <= i < self.pending().len() ==> #[trigger] self.pending()[i].id != id,
            },
    {
        let mut k: usize = 0;
        while k < self.pending.len()
            invariant
                k <= self.pending@.len(),
                forall|i: int| 0 <= i < k ==> #[trigger] self.pending()[i].id != id,
            decreases self.pending@.len() - k,
        {
            if self.pending[k].id == id {
                return Some(k);
            }
            k = k + 1;
        }
        None
    }
}

/// Everything of `after` but its connections is as in `before`.
pub open spec fn unchanged_but_connections(before: RequestResponses, after: RequestResponses) -> bool {
    &&& after.names() == before.names()
    &&& after.outbox() == before.outbox()
    &&& after.pending() == before.pending()
    &&& after.next_request_id() == before.next_request_id()
    &&& after.answered() == before.answered()
}

/// What `send_request` does: an unknown protocol, or a peer that is not
/// connected and may not be dialed, fails the request at once: the handed-in
/// channel (`reply_resolved` says whether it had an answer already) is
/// answered with that failure, and nothing else changes. Otherwise the
/// request gets the next id, is queued for the transport (to be dialed first
/// if the peer is not connected) and awaits its answer with its channel.
pub open spec fn send_outcome(
    before: RequestResponses,
    target: Seq<u8>,
    protocol: Seq<char>,
    payload: Seq<u8>,
    reply_resolved: bool,
    connect: IfDisconnected,
    r: Result<u64, RequestFailure>,
    after: RequestResponses,
) -> bool {
    let connected = before.is_connected_spec(target);
    &&& after.names() == before.names()
    &&& after.connections() == before.connections()
    &&& if !before.names().contains(protocol) {
        &&& r == Err::<u64, RequestFailure>(RequestFailure::UnknownProtocol)
        &&& after.answered() == answer_log(before.answered(), reply_resolved, Err(RequestFailure::UnknownProtocol))
        &&& after.outbox() == before.outbox()
        &&& after.pending() == before.pending()
        &&& after.next_request_id() == before.next_request_id()
    } else if !connected && connect == IfDisconnected::ImmediateError {
        &&& r == Err::<u64, RequestFailure>(RequestFailure::NotConnected)
        &&& after.answered() == answer_log(before.answered(), reply_resolved, Err(RequestFailure::NotConnected))
        &&& after.outbox() == before.outbox()
        &&& after.pending() == before.pending()
        &&& after.next_request_id() == before.next_request_id()
    } else {
        let id = before.next_request_id();
        &&& r == Ok::<u64, RequestFailure>(id)
        &&& after.next_request_id() == id + 1
        &&& after.outbox() == before.outbox().push(
            OutboundRequestView { id, target, protocol, payload, dial: !connected },
        )
        &&& after.pending() == before.pending().push(PendingView { id, target, protocol, reply_resolved })
        &&& after.answered() == before.answered()
    }
}

/// The outcome reported for a request whose answer is `result`.
pub open spec fn finished_status(result: Reply) -> Result<(), RequestFailure> {
    match result {
        Ok(_) => Ok(()),
        Err(e) => Err(e),
    }
}

/// What `on_response` does: the first request in flight with id `id` leaves
/// the pending list, `result` is delivered to its reply channel (unless that
/// had an answer when it was handed in), and the request is reported
/// finished with its peer, protocol, `duration` and the status of `result`;
/// without such a request nothing changes.
pub open spec fn response_outcome(
    before: RequestResponses,
    id: u64,
    result: Reply,
    duration: Duration,
    r: Option<Event>,
    after: RequestResponses,
) -> bool {
    &&& after.names() == before.names()
    &&& after.connections() == before.connections()
    &&& after.outbox() == before.outbox()
    &&& after.next_request_id() == before.next_request_id()
    &&& match r {
        None => {
            &&& forall|i: int| 0 <= i < before.pending().len() ==> #[trigger] before.pending()[i].id != id
            &&& after.pending() == before.pending()
            &&& after.answered() == before.answered()
        },
        Some(ev) => exists|k: int|
            {
                &&& 0 <= k < before.pending().len()
                &&& #[trigger] before.pending()[k].id == id
                &&& forall|i: int| 0 <= i < k ==> #[trigger] before.pending()[i].id != id
                &&& after.pending() == before.pending().remove(k)
                &&& after.answered() == answer_log(before.answered(), before.pending()[k].reply_resolved, result)
                &&& ev matches Event::RequestFinished { peer, protocol, duration: d, result: status }
                &&& peer@ == before.pending()[k].target
                &&& protocol@ == before.pending()[k].protocol
                &&& d == duration
                &&& status == finished_status(result)
            },
    }
}

} // verus!
