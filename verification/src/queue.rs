//! The transport's queue of pending requests, specified over what it holds.

use lsp_server::{Incoming, Outgoing, ReqQueue, Request, RequestId};
use vstd::prelude::*;

verus! {

/// The requests of the client that are in flight, each with a payload.
#[verifier::external_type_specification]
#[verifier::external_body]
#[verifier::reject_recursive_types(I)]
pub struct ExIncoming<I>(Incoming<I>);

/// The requests to the client that wait for a response, each with a payload.
#[verifier::external_type_specification]
#[verifier::external_body]
#[verifier::reject_recursive_types(O)]
pub struct ExOutgoing<O>(Outgoing<O>);

/// The two queues together.
#[verifier::external_type_specification]
#[verifier::reject_recursive_types(I)]
#[verifier::reject_recursive_types(O)]
pub struct ExReqQueue<I, O>(ReqQueue<I, O>);

/// What a request sent to the client waits for.
#[derive(Clone, Copy, Debug, PartialEq, Eq, Structural)]
pub enum Pending {
    /// The configuration was asked for.
    Configuration { then_load_flake: bool },
}

/// The identifiers of the client's requests that are still in flight.
pub uninterp spec fn incoming_ids(q: Incoming<()>) -> Set<RequestId>;

/// The server's own requests that wait for a response.
pub uninterp spec fn outgoing_pending(q: Outgoing<Pending>) -> Map<RequestId, Pending>;

/// The number that the next request of the server gets.
pub uninterp spec fn outgoing_next(q: Outgoing<Pending>) -> int;

/// The identifier that `RequestId::from` makes of a number.
pub uninterp spec fn number_id(n: i32) -> RequestId;

/// `ReqQueue::default`: nothing pending, numbering starts at zero.
#[verifier::external_body]
pub(crate) fn new_queue() -> (queue: ReqQueue<(), Pending>)
    ensures
        incoming_ids(queue.incoming) == Set::<RequestId>::empty(),
        outgoing_pending(queue.outgoing).dom() == Set::<RequestId>::empty(),
        outgoing_next(queue.outgoing) == 0,
{
    ReqQueue::default()
}

/// `Incoming::register` on a queue without payload: the identifier is pending afterwards.
#[verifier::external_body]
pub(crate) fn incoming_register(q: &mut Incoming<()>, id: RequestId)
    ensures
        incoming_ids(*final(q)) == incoming_ids(*old(q)).insert(id),
{
    q.register(id, ())
}

/// `Incoming::complete`: says whether the identifier was pending and removes it.
#[verifier::external_body]
pub(crate) fn incoming_complete(q: &mut Incoming<()>, id: &RequestId) -> (was_pending: bool)
    ensures
        was_pending == incoming_ids(*old(q)).contains(*id),
        incoming_ids(*final(q)) == incoming_ids(*old(q)).remove(*id),
{
    q.complete(id).is_some()
}

/// `Outgoing::register`: the request gets the next number as its identifier
/// and the given method and parameters; the payload waits under that identifier.
#[verifier::external_body]
pub(crate) fn outgoing_register(
    q: &mut Outgoing<Pending>,
    method: String,
    params: serde_json::Value,
    data: Pending,
) -> (req: Request)
    requires
        outgoing_next(*old(q)) < i32::MAX,
    ensures
        req.id == number_id(outgoing_next(*old(q)) as i32),
        req.method == method,
        req.params == params,
        outgoing_pending(*final(q)) == outgoing_pending(*old(q)).insert(req.id, data),
        outgoing_next(*final(q)) == outgoing_next(*old(q)) + 1,
{
    q.register(method, params, data)
}

/// `Outgoing::complete`: hands out what waited under the identifier, if anything.
#[verifier::external_body]
pub(crate) fn outgoing_complete(q: &mut Outgoing<Pending>, id: RequestId) -> (data: Option<Pending>)
    ensures
        data == (if outgoing_pending(*old(q)).contains_key(id) {
            Some(outgoing_pending(*old(q))[id])
        } else {
            None
        }),
        outgoing_pending(*final(q)) == outgoing_pending(*old(q)).remove(id),
        outgoing_next(*final(q)) == outgoing_next(*old(q)),
{
    q.complete(id)
}

} // verus!
