//! The cooperative reactor and its task queue.
//!
//! One reactor owns all device state of a core and runs queued tasks
//! to completion or suspension, one poll at a time.  A task is modeled
//! as a future that suspends a known number of times before it
//! resolves to its outcome; a completed task's result is delivered
//! through a single-use completion channel.  Foreign threads drive the
//! reactor only through `block_on` or by enqueueing work.

use vstd::prelude::*;
use futures::channel::oneshot::{Canceled, Receiver, Sender};
use crate::status::{CoreError, NexusBdevError, Status, ToStatus};

verus! {

/// Declares futures' oneshot `Sender` so completion channels can be
/// stored and handed around; the type stays opaque.
#[verifier::external_type_specification]
#[verifier::external_body]
#[verifier::reject_recursive_types(T)]
pub struct ExSender<T>(Sender<T>);

/// Declares futures' oneshot `Receiver`, the completion channel the
/// bridge hands back to callers.
#[verifier::external_type_specification]
#[verifier::external_body]
#[verifier::reject_recursive_types(T)]
pub struct ExReceiver<T>(Receiver<T>);

/// Declares futures' `Canceled`, the error a dropped sender leaves in
/// its channel.
#[verifier::external_type_specification]
#[verifier::external_body]
pub struct ExCanceled(Canceled);

/// Relies on futures' oneshot channel constructor: a fresh single-use
/// sender/receiver pair.
pub assume_specification<T>[ futures::channel::oneshot::channel::<T> ]() -> (r: (
    Sender<T>,
    Receiver<T>,
));

/// Relies on futures' `Sender::send`: the value is enqueued for the
/// receiver, or handed back unchanged if the receiver was dropped.
pub assume_specification<T>[ Sender::<T>::send ](tx: Sender<T>, t: T) -> (r: Result<(), T>)
    ensures
        r matches Err(v) ==> v == t,
;

/// Relies on futures' `Receiver::try_recv`: the sent value if one is
/// pending, nothing if none was sent yet, or an error after the
/// sender was dropped.
pub assume_specification<T>[ Receiver::<T>::try_recv ](rx: &mut Receiver<T>) -> (r: Result<
    Option<T>,
    Canceled,
>);

/// Lifecycle of a reactor.
#[derive(Clone, Copy, Debug, PartialEq, Eq, Structural)]
pub enum ReactorState {
    Running,
    Shutdown,
}

/// A reactor-affine future: it suspends `polls` times and then
/// resolves to its outcome.
pub struct TaskFuture<T, L> {
    /// Suspension points left before the future resolves.
    pub polls: u64,
    /// What the future resolves to.
    pub outcome: Result<T, L>,
}

/// One queued unit of reactor work, with its completion channel.
pub struct QueuedTask {
    pub fut: TaskFuture<u64, NexusBdevError>,
    pub tx: Sender<Result<u64, Status>>,
}

/// Map a completed task's outcome to what its completion channel
/// carries: the value, or the error as a status.
pub fn map_completion(outcome: Result<u64, NexusBdevError>) -> (r: Result<u64, Status>)
    ensures
        outcome matches Ok(v) ==> r == Ok::<u64, Status>(v),
        outcome matches Err(e) ==> r matches Err(s) && s.code == e.spec_status_code()
            && s.message@ == e.spec_message(),
{
    match outcome {
        Ok(v) => Ok(v),
        Err(e) => Err(e.into_status()),
    }
}

/// A single-threaded cooperative event loop bound to one core.  It
/// owns a FIFO queue of local tasks with a fixed admission capacity.
pub struct Reactor {
    /// Logical core this reactor is bound to.
    pub core: u32,
    pub state: ReactorState,
    /// Local task queue, FIFO.
    pub queue: Vec<QueuedTask>,
    /// Admission capacity of the queue.
    pub capacity: usize,
}

impl Reactor {
    pub open spec fn wf(self) -> bool {
        self.queue@.len() <= self.capacity
    }

    pub fn new(core: u32, capacity: usize) -> (r: Reactor)
        ensures
            r.core == core,
            r.capacity == capacity,
            r.state is Running,
            r.queue@.len() == 0,
            r.wf(),
    {
        Reactor { core, state: ReactorState::Running, queue: Vec::new(), capacity }
    }

    /// Stop the reactor; it makes no further progress.
    pub fn shutdown(&mut self)
        ensures
            *final(self) == (Reactor { state: ReactorState::Shutdown, ..*old(self) }),
    {
        self.state = ReactorState::Shutdown;
    }

    /// Run the head task for one step: deliver its result through its
    /// completion channel if it resolves, else let it suspend and
    /// requeue it behind the others.
    pub fn poll_once(&mut self)
        requires
            old(self).wf(),
        ensures
            final(self).wf(),
            final(self).core == old(self).core,
            final(self).state == old(self).state,
            final(self).capacity == old(self).capacity,
            old(self).queue@.len() == 0 ==> *final(self) == *old(self),
            old(self).queue@.len() > 0 && old(self).queue@[0].fut.polls == 0
                ==> final(self).queue@ == old(self).queue@.drop_first(),
            old(self).queue@.len() > 0 && old(self).queue@[0].fut.polls > 0 ==> final(self).queue@
                == old(self).queue@.drop_first().push(
                QueuedTask {
                    fut: TaskFuture {
                        polls: (old(self).queue@[0].fut.polls - 1) as u64,
                        outcome: old(self).queue@[0].fut.outcome,
                    },
                    tx: old(self).queue@[0].tx,
                },
            ),
    {
        if self.queue.len() == 0 {
            return ;
        }
        let task = self.queue.remove(0);
        proof {
            assert(self.queue@ =~= old(self).queue@.drop_first());
        }
        if task.fut.polls == 0 {
            let result = map_completion(task.fut.outcome);
            let _ = task.tx.send(result);
        } else {
            self.queue.push(
                QueuedTask {
                    fut: TaskFuture { polls: task.fut.polls - 1, outcome: task.fut.outcome },
                    tx: task.tx,
                },
            );
        }
    }

    /// Drive the reactor until the given future resolves, returning
    /// its outcome; while the future is suspended, queued local work
    /// keeps running.  A shut-down reactor cannot make progress and
    /// reports a scheduling error; a future that is already resolved
    /// comes back without one reactor poll.
    pub fn block_on<T, L: ToStatus>(&mut self, future: TaskFuture<T, L>) -> (r: Result<
        Result<T, L>,
        CoreError,
    >)
        requires
            old(self).wf(),
        ensures
            final(self).wf(),
            final(self).core == old(self).core,
            final(self).state == old(self).state,
            final(self).capacity == old(self).capacity,
            old(self).state is Shutdown ==> r == Err::<Result<T, L>, CoreError>(
                CoreError::ReactorShutdown,
            ) && *final(self) == *old(self),
            old(self).state is Running ==> (r matches Ok(o) && o == future.outcome),
            old(self).state is Running && future.polls == 0 ==> *final(self) == *old(self),
    {
        match self.state {
            ReactorState::Shutdown => {
                return Err(CoreError::ReactorShutdown);
            },
            ReactorState::Running => {},
        }
        let mut k = future.polls;
        while k > 0
            invariant
                self.wf(),
                k <= future.polls,
                self.core == old(self).core,
                self.state == old(self).state,
                self.capacity == old(self).capacity,
                future.polls == 0 ==> *self == *old(self),
            decreases k,
        {
            self.poll_once();
            k -= 1;
        }
        Ok(future.outcome)
    }

    /// Enqueue one unit of local work, if the queue admits more.
    pub fn spawn_local(&mut self, task: QueuedTask) -> (r: Result<(), QueuedTask>)
        requires
            old(self).wf(),
        ensures
            final(self).wf(),
            final(self).core == old(self).core,
            final(self).state == old(self).state,
            final(self).capacity == old(self).capacity,
            old(self).queue@.len() >= old(self).capacity ==> *final(self) == *old(self)
                && (r matches Err(t) && t == task),
            old(self).queue@.len() < old(self).capacity ==> r is Ok && final(self).queue@ == old(
                self,
            ).queue@.push(task),
    {
        if self.queue.len() >= self.capacity {
            return Err(task);
        }
        self.queue.push(task);
        Ok(())
    }
}

} // verus!
