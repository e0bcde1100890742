use crate::behaviour::{
    Behaviour, BehaviourOut, BehaviourPoll, discovery_outputs, poll_step, registration_order, sync_output,
};
use crate::chain_sync::{CustomMessageOutcome, SinkView, other_pairs, with_sink, without_pair};
use crate::discovery::DiscoveryOut;
use crate::reply::{Reply, ReplyChannel, resolves};
use crate::request_responses::{
    ProtocolConfig, RegisterError, all_distinct, duplicated_before, protocol_names,
    registration_result,
};
use crate::role::{ObservedRole, ROLE_AUTHORITY, ROLE_FULL, Roles, has_flag, observed_role_of};
use vstd::prelude::*;

verus! {

proof fn lemma_enqueued(events: Seq<BehaviourOut>, queues: Seq<Seq<BehaviourOut>>, n: int)
    requires
        queues.len() > events.len(),
        queues[0] == Seq::<BehaviourOut>::empty(),
        forall|i: int| 0 <= i < events.len() ==> #[trigger] queues[i + 1] == queues[i].push(events[i]),
        0 <= n <= events.len(),
    ensures
        queues[n] == events.subrange(0, n),
    decreases n,
{
    if n == 0 {
        assert(events.subrange(0, 0) =~= Seq::<BehaviourOut>::empty());
    } else {
        lemma_enqueued(events, queues, n - 1);
        assert(queues[n] == queues[n - 1].push(events[n - 1]));
        assert(events.subrange(0, n) =~= events.subrange(0, n - 1).push(events[n - 1]));
    }
}

proof fn lemma_drained(
    events: Seq<BehaviourOut>,
    queues: Seq<Seq<BehaviourOut>>,
    results: Seq<BehaviourPoll>,
    n: int,
)
    requires
        queues.len() == 2 * events.len() + 2,
        results.len() == events.len() + 1,
        queues[events.len() as int] == events,
        forall|i: int|
            0 <= i <= events.len() ==> #[trigger] poll_step(
                queues[events.len() + i],
                results[i],
                queues[events.len() + i + 1],
            ),
        0 <= n <= events.len(),
    ensures
        queues[events.len() + n] == events.subrange(n, events.len() as int),
        forall|i: int| 0 <= i < n ==> #[trigger] results[i] == BehaviourPoll::Ready(events[i]),
    decreases n,
{
    let len = events.len() as int;
    if n == 0 {
        assert(events.subrange(0, len) =~= events);
    } else {
        lemma_drained(events, queues, results, n - 1);
        assert(poll_step(queues[len + (n - 1)], results[n - 1], queues[len + (n - 1) + 1]));
        assert(queues[len + (n - 1)][0] == events[n - 1]);
        assert(queues[len + n] =~= events.subrange(n, len));
    }
}

/// Events enqueued one after another into an empty queue come out of as many
/// successive polls in the order they went in; the poll after that finds
/// the queue empty and gives nothing.
///
/// `queues[i]` is the queue after `i` steps: `events.len()` enqueues, then
/// `events.len() + 1` polls whose results are `results`.
pub proof fn lemma_fifo(events: Seq<BehaviourOut>, queues: Seq<Seq<BehaviourOut>>, results: Seq<BehaviourPoll>)
    requires
        queues.len() == 2 * events.len() + 2,
        results.len() == events.len() + 1,
        queues[0] == Seq::<BehaviourOut>::empty(),
        forall|i: int| 0 <= i < events.len() ==> #[trigger] queues[i + 1] == queues[i].push(events[i]),
        forall|i: int|
            0 <= i <= events.len() ==> #[trigger] poll_step(
                queues[events.len() + i],
                results[i],
                queues[events.len() + i + 1],
            ),
    ensures
        forall|i: int| 0 <= i < events.len() ==> #[trigger] results[i] == BehaviourPoll::Ready(events[i]),
        results[events.len() as int] == BehaviourPoll::Pending,
        queues[2 * events.len() + 1int] == Seq::<BehaviourOut>::empty(),
{
    let len = events.len() as int;
    lemma_enqueued(events, queues, len);
    assert(events.subrange(0, len) =~= events);
    lemma_drained(events, queues, results, len);
    assert(events.subrange(len, len) =~= Seq::<BehaviourOut>::empty());
    assert(poll_step(queues[len + len], results[len], queues[len + len + 1]));
}

/// A random walk started in several namespaces becomes exactly one event per
/// namespace, the `i`-th event naming the `i`-th namespace.
pub proof fn lemma_walk_fan_out(out: DiscoveryOut)
    requires
        out is RandomKademliaStarted,
    ensures
        discovery_outputs(out).len() == out->RandomKademliaStarted_0@.len(),
        forall|i: int|
            0 <= i < discovery_outputs(out).len() ==> #[trigger] discovery_outputs(out)[i]
                == BehaviourOut::RandomKademliaStarted(out->RandomKademliaStarted_0@[i]),
{
}

/// A peer's new best block and an explicit no-op of chain sync both become
/// the ignored event, and nothing else.
pub proof fn lemma_swallowed_outcomes(event: CustomMessageOutcome)
    requires
        event is PeerNewBest || event is Ignored,
    ensures
        sync_output(event) == BehaviourOut::Ignored,
{
}

/// Whatever the declared flags, the role is the authority role when the
/// authority flag is set, else the full role when the full-node flag is set,
/// else the light role.
pub proof fn lemma_role_precedence(roles: Roles)
    ensures
        has_flag(roles.bits, ROLE_AUTHORITY) ==> observed_role_of(roles) == ObservedRole::Authority,
        !has_flag(roles.bits, ROLE_AUTHORITY) && has_flag(roles.bits, ROLE_FULL) ==> observed_role_of(roles)
            == ObservedRole::Full,
        !has_flag(roles.bits, ROLE_AUTHORITY) && !has_flag(roles.bits, ROLE_FULL) ==> observed_role_of(roles)
            == ObservedRole::Light,
{
}

/// The reply channel of a block, state or warp-sync request reaches the
/// output event unchanged.
pub proof fn lemma_request_channel_forwarded(event: CustomMessageOutcome)
    ensures
        event matches CustomMessageOutcome::BlockRequest { pending_response, .. } ==> sync_output(event) matches BehaviourOut::BlockRequest { pending_response: c, .. } && c == pending_response,
        event matches CustomMessageOutcome::StateRequest { pending_response, .. } ==> sync_output(event) matches BehaviourOut::StateRequest { pending_response: c, .. } && c == pending_response,
        event matches CustomMessageOutcome::WarpSyncRequest { pending_response, .. } ==> sync_output(event) matches BehaviourOut::WarpSyncRequest { pending_response: c, .. } && c == pending_response,
{
}

/// A reply channel delivers one answer: the first offer to an unresolved
/// channel goes through, and a second offer is dropped, leaving the first
/// answer in place.
pub proof fn lemma_reply_resolved_once(
    c0: ReplyChannel,
    r1: Reply,
    first1: bool,
    c1: ReplyChannel,
    r2: Reply,
    first2: bool,
    c2: ReplyChannel,
)
    requires
        !c0.is_resolved(),
        resolves(c0, r1, first1, c1),
        resolves(c1, r2, first2, c2),
    ensures
        first1,
        !first2,
        c1.resolution() == Some(r1),
        c2.resolution() == Some(r1),
        c2.is_resolved(),
{
}

/// Two generic request/response protocols of the same name make building
/// the behaviour fail with a registration error, whatever the other
/// protocols are: no behaviour comes out.
pub proof fn lemma_duplicate_names_refused(
    generic: Seq<ProtocolConfig>,
    block: ProtocolConfig,
    state: ProtocolConfig,
    warp: Option<ProtocolConfig>,
    light: ProtocolConfig,
    i: int,
    j: int,
    r: Result<Behaviour, RegisterError>,
)
    requires
        0 <= i < j < generic.len(),
        generic[i].name@ == generic[j].name@,
        match r {
            Ok(b) => registration_result(
                registration_order(generic, block, state, warp, light),
                Ok(b.request_responses_state()),
            ),
            Err(e) => registration_result(registration_order(generic, block, state, warp, light), Err(e)),
        },
    ensures
        r is Err,
{
    let order = registration_order(generic, block, state, warp, light);
    let names = protocol_names(order);
    let with_warp = match warp {
        Some(w) => generic.push(w),
        None => generic,
    };
    assert(order[i] == generic[i] && order[j] == generic[j]) by {
        assert(with_warp[i] == generic[i] && with_warp[j] == generic[j]);
    };
    assert(names[i] == names[j]);
    assert(duplicated_before(names, j));
    assert(!all_distinct(names));
}

proof fn lemma_other_pairs(sinks: Seq<SinkView>, remote: Seq<u8>, protocol: Seq<char>, n: int)
    requires
        0 <= n <= sinks.len(),
    ensures
        forall|x: SinkView|
            #[trigger] other_pairs(sinks, remote, protocol, n).contains(x) ==> !(x.remote == remote
                && x.protocol == protocol),
    decreases n,
{
    if n > 0 {
        lemma_other_pairs(sinks, remote, protocol, n - 1);
        let before = other_pairs(sinks, remote, protocol, n - 1);
        let now = other_pairs(sinks, remote, protocol, n);
        let last = sinks[n - 1];
        assert forall|x: SinkView| #[trigger] now.contains(x) implies !(x.remote == remote && x.protocol
            == protocol) by {
            if last.remote == remote && last.protocol == protocol {
                assert(now == before);
                assert(before.contains(x));
            } else {
                assert(now == before.push(last));
                if x != last {
                    let k = choose|k: int| 0 <= k < now.len() && now[k] == x;
                    assert(k < before.len());
                    assert(before[k] == x);
                    assert(before.contains(x));
                }
            }
        };
    }
}

/// Once a stream is closed, no sink of its peer and protocol is live; once a
/// stream is replaced by `sink`, `sink` is the only live sink of its peer and
/// protocol, and an earlier one of another session is stale.
pub proof fn lemma_stale_sinks(sinks: Seq<SinkView>, sink: SinkView, other: SinkView)
    requires
        other.remote == sink.remote,
        other.protocol == sink.protocol,
    ensures
        !without_pair(sinks, sink.remote, sink.protocol).contains(other),
        with_sink(sinks, sink).contains(sink),
        other != sink ==> !with_sink(sinks, sink).contains(other),
{
    lemma_other_pairs(sinks, sink.remote, sink.protocol, sinks.len() as int);
    let w = with_sink(sinks, sink);
    assert(w[w.len() - 1] == sink);
    if other != sink && w.contains(other) {
        let k = choose|k: int| 0 <= k < w.len() && w[k] == other;
        assert(without_pair(sinks, sink.remote, sink.protocol).contains(other)) by {
            assert(without_pair(sinks, sink.remote, sink.protocol)[k] == other);
        };
    }
}

} // verus!
