use futures::channel::oneshot;
use vstd::prelude::*;

verus! {

/// Why a request sent by this node got no response.
#[derive(Clone, Copy, Debug, PartialEq, Eq, Structural)]
pub enum OutboundFailure {
    DialFailure,
    Timeout,
    ConnectionClosed,
    UnsupportedProtocols,
}

/// Why a request received by this node was not answered.
#[derive(Clone, Copy, Debug, PartialEq, Eq, Structural)]
pub enum InboundFailure {
    Timeout,
    ConnectionClosed,
    UnsupportedProtocols,
    ResponseOmission,
}

/// Failure of an outbound request, as handed to the one who sent it.
#[derive(Clone, Copy, Debug, PartialEq, Eq, Structural)]
pub enum RequestFailure {
    /// The target peer is not connected and the caller asked not to dial it.
    NotConnected,
    /// No request/response protocol of that name is registered.
    UnknownProtocol,
    /// The remote refused to answer.
    Refused,
    /// The response arrived after the request had become irrelevant.
    Obsolete,
    /// The transport failed.
    Network(OutboundFailure),
}

/// Failure to answer an inbound request.
#[derive(Clone, Copy, Debug, PartialEq, Eq, Structural)]
pub enum ResponseFailure {
    Network(InboundFailure),
}

/// What the initiator of a request eventually learns: the response bytes, or
/// why there are none.
pub type Reply = Result<Vec<u8>, RequestFailure>;

/// futures' `oneshot::Sender`, held by a reply channel until it delivers.
#[verifier::external_type_specification]
#[verifier::external_body]
#[verifier::reject_recursive_types(T)]
pub struct ExOneshotSender<T>(oneshot::Sender<T>);

/// Relies on futures' `oneshot::Sender::send`: it consumes the sender, and
/// when the receiving half is gone it hands the value back unchanged.
pub assume_specification<T>[ oneshot::Sender::<T>::send ](
    sender: oneshot::Sender<T>,
    t: T,
) -> (r: Result<(), T>)
    ensures
        r matches Err(back) ==> back == t,
;

/// Single-use handle through which the answer to one request is delivered to
/// whoever awaits it.
///
/// The first `resolve` delivers its value; every later one is discarded.
/// Dropping the handle unresolved tells the receiver that no answer will
/// come.
pub struct ReplyChannel {
    sender: Option<oneshot::Sender<Reply>>,
    delivered: Ghost<Option<Reply>>,
}

impl ReplyChannel {
    /// Whether an answer has gone through this handle.
    pub closed spec fn is_resolved(&self) -> bool {
        self.sender is None
    }

    /// The value this handle delivered, if it delivered one.
    pub closed spec fn resolution(&self) -> Option<Reply> {
        self.delivered@
    }

    /// Wraps the sending half of a one-shot channel.
    pub fn new(sender: oneshot::Sender<Reply>) -> (r: ReplyChannel)
        ensures
            !r.is_resolved(),
            r.resolution() is None,
    {
        ReplyChannel { sender: Some(sender), delivered: Ghost(None) }
    }

    /// Whether the answer has been delivered already.
    pub fn resolved(&self) -> (r: bool)
        ensures
            r == self.is_resolved(),
    {
        self.sender.is_none()
    }

    /// Delivers `reply` unless an answer was delivered before, in which case
    /// nothing happens. Returns whether this call delivered.
    ///
    /// A receiver that has gone away does not make this fail: the value is
    /// then dropped.
    pub fn resolve(&mut self, reply: Reply) -> (first: bool)
        ensures
            resolves(*old(self), reply, first, *final(self)),
    {
        let taken = self.sender.take();
        match taken {
            Some(sender) => {
                proof {
                    self.delivered = Ghost(Some(reply));
                }
                let _ = sender.send(reply);
                true
            },
            None => {
                false
            },
        }
    }
}

/// `after` is `before` once `reply` has been offered to it, and `first` says
/// whether that offer was delivered: only an unresolved handle takes it.
pub open spec fn resolves(before: ReplyChannel, reply: Reply, first: bool, after: ReplyChannel) -> bool {
    &&& first == !before.is_resolved()
    &&& after.is_resolved()
    &&& first ==> after.resolution() == Some(reply)
    &&& !first ==> after.resolution() == before.resolution()
}

} // verus!
