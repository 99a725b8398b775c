//! What the worker pool decides without a thread: whether a pool size is
//! acceptable, and in which order jobs go from the submitter to the
//! workers.
//!
//! The queue is unbounded and first-in, first-out. The pool shares one
//! queue between its workers behind a lock, so that its operations happen
//! one at a time: every run of the pool is a sequence of the operations
//! below, whichever worker makes each claim.

use std::collections::VecDeque;
use vstd::prelude::*;

verus! {

/// Why a pool could not be created.
#[derive(Debug, Clone, Copy, PartialEq, Eq, Structural)]
pub enum PoolError {
    /// A pool needs at least one worker.
    InvalidPoolSize,
}

impl PoolError {
    /// The text of the diagnostic.
    pub open spec fn text(self) -> Seq<char> {
        "The ThreadPool size should be more than 0."@
    }

    /// A diagnostic for the log.
    pub fn message(&self) -> (m: &'static str)
        ensures
            m@ == self.text(),
    {
        "The ThreadPool size should be more than 0."
    }
}

/// Accepts a pool size of at least one, and refuses zero.
pub fn checked_pool_size(size: usize) -> (r: Result<usize, PoolError>)
    ensures
        size >= 1 ==> r == Ok::<usize, PoolError>(size),
        size == 0 ==> r == Err::<usize, PoolError>(PoolError::InvalidPoolSize),
{
    if size == 0 {
        Err(PoolError::InvalidPoolSize)
    } else {
        Ok(size)
    }
}

/// The jobs that wait for a worker, oldest first.
pub struct JobQueue<T> {
    jobs: VecDeque<T>,
    open: bool,
}

/// What a queue holds: the waiting jobs, oldest first, and whether it
/// still takes new ones.
pub struct QueueView<T> {
    pub pending: Seq<T>,
    pub open: bool,
}

/// What a worker gets when it asks for a job.
#[derive(Debug, PartialEq, Eq)]
pub enum Claim<T> {
    /// The oldest waiting job, now the worker's own.
    Job(T),
    /// No job waits; one may come.
    Empty,
    /// No job waits and none will come.
    Closed,
}

impl<T> View for JobQueue<T> {
    type V = QueueView<T>;

    closed spec fn view(&self) -> QueueView<T> {
        QueueView { pending: self.jobs@, open: self.open }
    }
}

/// An open queue without jobs.
pub open spec fn empty_queue<T>() -> QueueView<T> {
    QueueView { pending: Seq::empty(), open: true }
}

/// The queue after a job was submitted: an open queue takes it as its
/// newest, a closed one is unchanged.
pub open spec fn submitted<T>(queue: QueueView<T>, job: T) -> QueueView<T> {
    if queue.open {
        QueueView { pending: queue.pending.push(job), open: true }
    } else {
        queue
    }
}

/// The queue after a claim: without its oldest job, if it had one.
pub open spec fn claimed<T>(queue: QueueView<T>) -> QueueView<T> {
    if queue.pending.len() > 0 {
        QueueView { pending: queue.pending.skip(1), open: queue.open }
    } else {
        queue
    }
}

/// What a claim hands out.
pub open spec fn claim_of<T>(queue: QueueView<T>) -> Claim<T> {
    if queue.pending.len() > 0 {
        Claim::Job(queue.pending[0])
    } else if queue.open {
        Claim::Empty
    } else {
        Claim::Closed
    }
}

impl<T> JobQueue<T> {
    /// An open queue without jobs.
    pub fn new() -> (queue: JobQueue<T>)
        ensures
            queue@ == empty_queue::<T>(),
    {
        JobQueue { jobs: VecDeque::new(), open: true }
    }

    /// Puts `job` behind the jobs that wait. A closed queue takes no job
    /// and hands it back.
    pub fn submit(&mut self, job: T) -> (r: Result<(), T>)
        ensures
            final(self)@ == submitted(old(self)@, job),
            old(self)@.open ==> r == Ok::<(), T>(()),
            !old(self)@.open ==> r == Err::<(), T>(job),
    {
        if self.open {
            self.jobs.push_back(job);
            Ok(())
        } else {
            Err(job)
        }
    }

    /// Takes the oldest waiting job out of the queue.
    pub fn claim(&mut self) -> (r: Claim<T>)
        ensures
            final(self)@ == claimed(old(self)@),
            r == claim_of(old(self)@),
    {
        match self.jobs.pop_front() {
            Some(job) => {
                assert(self.jobs@ =~= old(self).jobs@.skip(1));
                Claim::Job(job)
            },
            None => {
                if self.open {
                    Claim::Empty
                } else {
                    Claim::Closed
                }
            },
        }
    }

    /// Stops the queue from taking new jobs. The jobs that wait stay.
    pub fn close(&mut self)
        ensures
            final(self)@ == (QueueView { pending: old(self)@.pending, open: false }),
    {
        self.open = false;
    }

    /// The number of jobs that wait.
    pub fn len(&self) -> (n: usize)
        ensures
            n == self@.pending.len(),
    {
        self.jobs.len()
    }

    /// Whether the queue still takes new jobs.
    pub fn is_open(&self) -> (r: bool)
        ensures
            r == self@.open,
    {
        self.open
    }
}

/// One operation on the shared queue.
pub enum Operation<T> {
    /// The server submits a job.
    Submit(T),
    /// A worker asks for a job.
    Claim,
    /// The queue is closed.
    Close,
}

/// A queue together with what has gone into it and what has come out.
pub struct History<T> {
    /// The queue as it stands.
    pub queue: QueueView<T>,
    /// The jobs that the queue took, in the order of their submission.
    pub accepted: Seq<T>,
    /// The jobs that workers got, in the order of the claims.
    pub delivered: Seq<T>,
}

/// A history after one more operation.
pub open spec fn record<T>(history: History<T>, operation: Operation<T>) -> History<T> {
    match operation {
        Operation::Submit(job) => History {
            queue: submitted(history.queue, job),
            accepted: if history.queue.open {
                history.accepted.push(job)
            } else {
                history.accepted
            },
            delivered: history.delivered,
        },
        Operation::Claim => History {
            queue: claimed(history.queue),
            accepted: history.accepted,
            delivered: match claim_of(history.queue) {
                Claim::Job(job) => history.delivered.push(job),
                _ => history.delivered,
            },
        },
        Operation::Close => History {
            queue: QueueView { pending: history.queue.pending, open: false },
            accepted: history.accepted,
            delivered: history.delivered,
        },
    }
}

/// The history of a new queue after `operations`, in their order.
pub open spec fn replay<T>(operations: Seq<Operation<T>>) -> History<T>
    decreases operations.len(),
{
    if operations.len() == 0 {
        History { queue: empty_queue(), accepted: Seq::empty(), delivered: Seq::empty() }
    } else {
        record(replay(operations.drop_last()), operations.last())
    }
}

/// The jobs that `operations` submit, in their order.
pub open spec fn submissions<T>(operations: Seq<Operation<T>>) -> Seq<T>
    decreases operations.len(),
{
    if operations.len() == 0 {
        Seq::empty()
    } else {
        match operations.last() {
            Operation::Submit(job) => submissions(operations.drop_last()).push(job),
            _ => submissions(operations.drop_last()),
        }
    }
}

/// Whether one of `operations` closes the queue.
pub open spec fn closes<T>(operations: Seq<Operation<T>>) -> bool {
    exists|i: int| 0 <= i < operations.len() && #[trigger] operations[i] is Close
}

/// However submissions, claims and closing interleave, each job that the
/// queue took is delivered at most once and none is lost: the jobs
/// delivered so far, followed by those that wait, are the jobs taken, in
/// the order of their submission. Once no job waits, every job taken has
/// been delivered exactly once.
pub proof fn law_each_job_once<T>(operations: Seq<Operation<T>>)
    ensures
        replay(operations).delivered + replay(operations).queue.pending == replay(
            operations,
        ).accepted,
        replay(operations).queue.pending.len() == 0 ==> replay(operations).delivered == replay(
            operations,
        ).accepted,
    decreases operations.len(),
{
    if operations.len() > 0 {
        let before = replay(operations.drop_last());
        let after = replay(operations);
        law_each_job_once(operations.drop_last());
        assert(after.delivered + after.queue.pending =~= after.accepted);
    }
    assert(replay(operations).queue.pending.len() == 0 ==> replay(operations).delivered
        =~= replay(operations).delivered + replay(operations).queue.pending);
}

/// While the queue is not closed, it takes every job that is submitted:
/// the jobs taken are the jobs submitted.
pub proof fn law_open_queue_takes_all<T>(operations: Seq<Operation<T>>)
    requires
        !closes(operations),
    ensures
        replay(operations).queue.open,
        replay(operations).accepted == submissions(operations),
    decreases operations.len(),
{
    if operations.len() > 0 {
        let earlier = operations.drop_last();
        assert forall|i: int| 0 <= i < earlier.len() implies !(#[trigger] earlier[i] is Close) by {
            assert(earlier[i] == operations[i]);
        }
        law_open_queue_takes_all(earlier);
        assert(!(operations[operations.len() - 1] is Close));
    }
}

/// Whatever the number of workers that claim: if the queue was never closed
/// and no job waits any more, the jobs delivered are the jobs submitted,
/// each once and in the order of submission.
pub proof fn law_drained_queue_delivered_all<T>(operations: Seq<Operation<T>>)
    requires
        !closes(operations),
        replay(operations).queue.pending.len() == 0,
    ensures
        replay(operations).delivered == submissions(operations),
{
    law_each_job_once(operations);
    law_open_queue_takes_all(operations);
}

} // verus!
