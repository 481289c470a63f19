use vstd::prelude::*;

use std::collections::VecDeque;
use std::time::Duration;

use crate::error::QueueError;
use crate::queue_adapters::{EnqueuedJob, JobQueue, JobView, NoJobDequeued};

verus! {

/// Relies on std's Duration::from_millis: a duration of the given number of milliseconds.
#[verifier::external_body]
fn millis(ms: u64) -> (r: Duration) {
    Duration::from_millis(ms)
}

/// The settings of an in-memory queue: how long a dequeue may wait for a job. Queues are
/// made from it with `MemoryQueue::new`; a `MemoryQueue` belongs to one owner, and sharing
/// one between threads, with a dequeue that blocks, is left to the code around the library.
#[derive(Debug, Clone, Copy)]
pub struct MemoryQueueConfig {
    timeout: Duration,
}

impl MemoryQueueConfig {
    /// Create a config whose queues wait at most `timeout` for a job.
    pub fn new(timeout: Duration) -> (r: MemoryQueueConfig)
        ensures
            r.spec_timeout() == timeout,
    {
        MemoryQueueConfig { timeout }
    }

    /// How long a dequeue waits for a job.
    pub closed spec fn spec_timeout(&self) -> Duration {
        self.timeout
    }

    /// How long a dequeue waits for a job.
    pub fn timeout(&self) -> (r: Duration)
        ensures
            r == self.spec_timeout(),
    {
        self.timeout
    }
}

impl Default for MemoryQueueConfig {
    fn default() -> (r: MemoryQueueConfig) {
        MemoryQueueConfig::new(millis(100))
    }
}

/// A queue that keeps its jobs in the memory of the running process.
/// Normally only used during testing. A dequeue on an empty queue returns at once.
#[derive(Debug)]
pub struct MemoryQueue {
    config: MemoryQueueConfig,
    jobs: VecDeque<EnqueuedJob>,
}

impl MemoryQueue {
    /// An empty queue.
    pub fn new(config: &MemoryQueueConfig) -> (r: MemoryQueue)
        ensures
            r.jobs().len() == 0,
            r.config() == *config,
    {
        MemoryQueue { config: *config, jobs: VecDeque::new() }
    }

    /// The settings the queue was made with.
    pub closed spec fn config(&self) -> MemoryQueueConfig {
        self.config
    }

    /// How long a dequeue waits for a job.
    pub fn timeout(&self) -> (r: Duration)
        ensures
            r == self.config().spec_timeout(),
    {
        self.config.timeout()
    }

    /// The main queue, the retry queue and the dead set of a new connection: three empty queues.
    pub fn new_set(config: &MemoryQueueConfig) -> (r: (MemoryQueue, MemoryQueue, MemoryQueue))
        ensures
            r.0.jobs().len() == 0,
            r.1.jobs().len() == 0,
            r.2.jobs().len() == 0,
    {
        (MemoryQueue::new(config), MemoryQueue::new(config), MemoryQueue::new(config))
    }
}

impl JobQueue for MemoryQueue {
    closed spec fn jobs(&self) -> Seq<JobView> {
        self.jobs@.map_values(|j: EnqueuedJob| j@)
    }

    fn enqueue(&mut self, enq_job: EnqueuedJob) -> (r: Result<(), QueueError>)
        ensures
            r is Ok,
    {
        let ghost v = enq_job@;
        self.jobs.push_back(enq_job);
        assert(self.jobs() =~= old(self).jobs().push(v));
        Ok(())
    }

    fn dequeue(&mut self) -> (r: Result<EnqueuedJob, NoJobDequeued>)
        ensures
            old(self).jobs().len() > 0 <==> r is Ok,
            old(self).jobs().len() == 0 <==> r matches Err(NoJobDequeued::BecauseTimeout),
    {
        match self.jobs.pop_front() {
            Some(job) => {
                assert(self.jobs() =~= old(self).jobs().drop_first());
                Ok(job)
            },
            None => Err(NoJobDequeued::BecauseTimeout),
        }
    }

    fn delete_all(&mut self) -> (r: Result<(), QueueError>)
        ensures
            r is Ok,
    {
        self.jobs.clear();
        assert(self.jobs() =~= Seq::<JobView>::empty());
        Ok(())
    }

    fn size(&self) -> (r: Result<usize, QueueError>)
        ensures
            r is Ok,
    {
        Ok(self.jobs.len())
    }
}

} // verus!
