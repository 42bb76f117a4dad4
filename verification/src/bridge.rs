//! The thread-affine task bridge.
//!
//! The external, multi-threaded request layer reaches reactor-affine
//! work through exactly two contracts: `rpc_call` blocks on the
//! reactor until the operation resolves and maps its outcome, and
//! `rpc_submit` enqueues the operation and immediately hands back a
//! single-use completion channel, or fails with resource exhaustion
//! when the queue is full.  After a successful mutation the
//! configuration must be exported; `sync_config` turns a failed export
//! into a data-loss status even though the mutation itself stands.

use vstd::prelude::*;
use futures::channel::oneshot::Receiver;
use crate::reactor::{QueuedTask, Reactor, TaskFuture};
use crate::status::{NexusBdevError, Status, StatusCode, ToStatus};

verus! {

/// A successful operation's payload, as handed back to the request
/// layer.
#[derive(Debug)]
pub struct Response<T> {
    pub value: T,
}

impl<T> Response<T> {
    pub fn new(value: T) -> (r: Response<T>)
        ensures
            r.value == value,
    {
        Response { value }
    }

    pub fn into_inner(self) -> (r: T)
        ensures
            r == self.value,
    {
        self.value
    }
}

/// What every bridged operation reports back: a response, or a status.
pub type GrpcResult<T> = Result<Response<T>, Status>;

/// Run the given future on the reactor and block until it resolves,
/// polling queued reactor work meanwhile.
///
/// A future that is already resolved comes back without one reactor
/// poll; a resolved error comes back as exactly the status its kind
/// maps to.
pub fn rpc_call<T, L: ToStatus>(reactor: &mut Reactor, future: TaskFuture<T, L>) -> (r: GrpcResult<
    T,
>)
    requires
        old(reactor).wf(),
        old(reactor).state is Running,
    ensures
        final(reactor).wf(),
        final(reactor).core == old(reactor).core,
        final(reactor).state == old(reactor).state,
        final(reactor).capacity == old(reactor).capacity,
        future.outcome matches Ok(v) ==> r matches Ok(resp) && resp.value == v,
        future.outcome matches Err(e) ==> r matches Err(s) && s.code == e.spec_status_code()
            && s.message@ == e.spec_message(),
        future.polls == 0 ==> *final(reactor) == *old(reactor),
{
    match reactor.block_on(future) {
        Err(e) => {
            proof {
                assert(false);
            }
            Err(e.into_status())
        },
        Ok(Ok(v)) => Ok(Response::new(v)),
        Ok(Err(e)) => Err(e.into_status()),
    }
}

/// Enqueue the given future onto the reactor and hand back its
/// single-use completion channel at once; the caller awaits the
/// channel on its own scheduler.
///
/// When the queue cannot admit more work the submission fails
/// immediately with a resource-exhaustion status, distinct from any
/// failure of the operation itself, and the reactor is untouched.
pub fn rpc_submit(reactor: &mut Reactor, future: TaskFuture<u64, NexusBdevError>) -> (r: Result<
    Receiver<Result<u64, Status>>,
    Status,
>)
    requires
        old(reactor).wf(),
    ensures
        final(reactor).wf(),
        final(reactor).core == old(reactor).core,
        final(reactor).state == old(reactor).state,
        final(reactor).capacity == old(reactor).capacity,
        old(reactor).queue@.len() >= old(reactor).capacity ==> *final(reactor) == *old(reactor)
            && (r matches Err(s) && s.code == StatusCode::ResourceExhausted && s.message@
            == "ENOMEM"@),
        old(reactor).queue@.len() < old(reactor).capacity ==> r is Ok
            && final(reactor).queue@.len() == old(reactor).queue@.len() + 1
            && (forall|j: int|
                0 <= j < old(reactor).queue@.len()
                    ==> final(reactor).queue@[j] == old(reactor).queue@[j])
            && final(reactor).queue@.last().fut == future,
{
    if reactor.queue.len() >= reactor.capacity {
        return Err(Status::resource_exhausted(String::from_str("ENOMEM")));
    }
    let (tx, rx) = futures::channel::oneshot::channel();
    match reactor.spawn_local(QueuedTask { fut: future, tx }) {
        Ok(_) => Ok(rx),
        Err(_) => {
            proof {
                assert(false);
            }
            Err(Status::resource_exhausted(String::from_str("ENOMEM")))
        },
    }
}

/// Poll a completion channel without blocking: the delivered result,
/// or nothing while the operation is still in flight (or its sender
/// is gone).
pub fn completion_try_recv(rx: &mut Receiver<Result<u64, Status>>) -> (r: Option<
    Result<u64, Status>,
>) {
    match rx.try_recv() {
        Ok(Some(v)) => Some(v),
        Ok(None) => None,
        Err(_) => None,
    }
}

/// Combine a mutating operation's outcome with the outcome of the
/// configuration export that must follow its success.
///
/// A failed operation is reported as it is; a successful operation
/// whose export failed is reported as data loss, so the caller treats
/// the whole call as non-committed and retries (the mutation is
/// idempotent); only when both succeeded does the response stand.
pub fn sync_config<T>(result: GrpcResult<T>, export: Result<(), String>) -> (r: GrpcResult<T>)
    ensures
        result is Err ==> r == result,
        result is Ok && export is Ok ==> r == result,
        result is Ok && export is Err ==> (r matches Err(s) && s.code == StatusCode::DataLoss
            && s.message@ == "Failed to export config"@),
{
    if result.is_ok() {
        if export.is_err() {
            return Err(Status::data_loss(String::from_str("Failed to export config")));
        }
    }
    result
}

} // verus!
