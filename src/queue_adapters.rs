use vstd::prelude::*;

use crate::config::Config;
use crate::error::QueueError;
use crate::job::JobName;
use vstd::string::StringExecFns;

verus! {

/// The number of times a job has been attempted, if ever.
#[derive(Debug, Clone, Copy, PartialEq, Eq, Structural)]
pub enum RetryCount {
    /// The job has never been attempted.
    NeverRetried,
    /// The job has been attempted the given number of times.
    Count(u32),
}

impl RetryCount {
    /// The count as a number: zero for a job that was never attempted.
    pub open spec fn spec_value(self) -> nat {
        match self {
            RetryCount::NeverRetried => 0,
            RetryCount::Count(n) => n as nat,
        }
    }

    /// The count after one more attempt.
    pub open spec fn spec_increment(self) -> RetryCount {
        RetryCount::Count((self.spec_value() + 1) as u32)
    }

    /// Whether the count exceeds the configured limit.
    pub open spec fn spec_limit_reached(self, limit: u32) -> bool {
        self.spec_value() > limit
    }

    /// Increment the count by one.
    pub fn increment(&self) -> (r: RetryCount)
        requires
            self.spec_value() < u32::MAX,
        ensures
            r == self.spec_increment(),
            r.spec_value() == self.spec_value() + 1,
    {
        match *self {
            RetryCount::NeverRetried => RetryCount::Count(1),
            RetryCount::Count(n) => RetryCount::Count(n + 1),
        }
    }

    /// `true` if the count exceeds the retry limit of the config, `false` otherwise.
    pub fn limit_reached(&self, config: &Config) -> (r: bool)
        ensures
            r == self.spec_limit_reached(config.retry_count_limit),
    {
        match *self {
            RetryCount::NeverRetried => false,
            RetryCount::Count(n) => n > config.retry_count_limit,
        }
    }
}

/// What an enqueued job is made of: its name, its serialized arguments and its attempt count.
pub type JobView = (Seq<char>, Seq<char>, RetryCount);

/// The contents of a queue, oldest first, as the verifier sees them.
pub type JobSeq = Seq<JobView>;

/// The unit that is put into a queue.
#[derive(Debug, Clone)]
pub struct EnqueuedJob {
    /// The name of the job.
    pub name: String,
    /// The serialized arguments.
    pub args: String,
    /// How often the job was attempted.
    pub retry_count: RetryCount,
}

impl View for EnqueuedJob {
    type V = JobView;

    open spec fn view(&self) -> JobView {
        (self.name@, self.args@, self.retry_count)
    }
}

impl EnqueuedJob {
    /// Create a new `EnqueuedJob`.
    pub fn new(name: &str, args: &str, retry_count: RetryCount) -> (r: Self)
        ensures
            r@ == (name@, args@, retry_count),
    {
        EnqueuedJob { name: name.to_string(), args: args.to_string(), retry_count }
    }

    /// Get the name.
    pub fn name(&self) -> (r: &str)
        ensures
            r@ == self.name@,
    {
        self.name.as_str()
    }

    /// Get the arguments.
    pub fn args(&self) -> (r: &str)
        ensures
            r@ == self.args@,
    {
        self.args.as_str()
    }

    /// Get the retry count.
    pub fn retry_count(&self) -> (r: &RetryCount)
        ensures
            *r == self.retry_count,
    {
        &self.retry_count
    }

    /// A copy of this job that keeps name and arguments and carries another count.
    pub fn with_retry_count(&self, retry_count: RetryCount) -> (r: Self)
        ensures
            r@ == (self.name@, self.args@, retry_count),
    {
        EnqueuedJob { name: self.name.clone(), args: self.args.clone(), retry_count }
    }
}

/// Reasons why attempting to dequeue a job didn't yield a job.
#[derive(Debug, Clone)]
pub enum NoJobDequeued {
    /// The queue was empty until the timeout.
    BecauseTimeout,
    /// The backend failed.
    BecauseError(QueueError),
    /// The job name isn't registered. The job went to the dead set.
    BecauseUnknownJob(JobName),
}

/// The number of seconds to block while waiting for a job.
#[derive(Debug, Clone, Copy)]
pub struct DequeueTimeout(pub usize);

/// The queues a connection holds.
#[derive(Debug, Clone, Copy, PartialEq, Eq, Structural)]
pub enum QueueIdentifier {
    /// The main queue all new jobs are put into.
    Main,
    /// The queue that jobs which failed are put into, to be tried again.
    Retry,
}

impl QueueIdentifier {
    /// The suffix that names the queue in the durable backend's keys.
    pub open spec fn spec_suffix(self) -> Seq<char> {
        match self {
            QueueIdentifier::Main => "_main"@,
            QueueIdentifier::Retry => "_retry"@,
        }
    }

    /// The key of the queue in the durable backend: the namespace, then `_main` or `_retry`.
    pub fn redis_queue_name(&self, namespace: &str) -> (r: String)
        ensures
            r@ == namespace@ + self.spec_suffix(),
    {
        let mut key = namespace.to_string();
        match self {
            QueueIdentifier::Main => key.append("_main"),
            QueueIdentifier::Retry => key.append("_retry"),
        }
        key
    }
}

/// The key of the dead set in the durable backend: the namespace, then `_dead`.
pub fn dead_set_key(namespace: &str) -> (r: String)
    ensures
        r@ == namespace@ + "_dead"@,
{
    let mut key = namespace.to_string();
    key.append("_dead");
    key
}

/// A backend that stores jobs in first-in, first-out order.
///
/// `jobs` is what the queue holds, oldest first. The backends of this library prove the
/// contracts below; a backend implemented outside it (over a network store, say) is trusted
/// to meet them, and what is proved of a connection over it rests on that.
pub trait JobQueue: Sized {
    /// The jobs in the queue, oldest first.
    spec fn jobs(&self) -> JobSeq;

    /// Push a job at the back of the queue.
    fn enqueue(&mut self, enq_job: EnqueuedJob) -> (r: Result<(), QueueError>)
        ensures
            r is Ok ==> final(self).jobs() == old(self).jobs().push(enq_job@),
            r is Err ==> final(self).jobs() == old(self).jobs(),
    ;

    /// Pull the job at the front of the queue.
    fn dequeue(&mut self) -> (r: Result<EnqueuedJob, NoJobDequeued>)
        ensures
            r is Ok ==> old(self).jobs().len() > 0 && r->Ok_0@ == old(self).jobs()[0]
                && final(self).jobs() == old(self).jobs().drop_first(),
            r is Err ==> final(self).jobs() == old(self).jobs(),
            r matches Err(NoJobDequeued::BecauseTimeout) ==> old(self).jobs().len() == 0,
            !(r matches Err(NoJobDequeued::BecauseUnknownJob(_))),
    ;

    /// Delete all jobs from the queue.
    fn delete_all(&mut self) -> (r: Result<(), QueueError>)
        ensures
            r is Ok ==> final(self).jobs().len() == 0,
            r is Err ==> final(self).jobs() == old(self).jobs(),
    ;

    /// The number of jobs in the queue.
    fn size(&self) -> (r: Result<usize, QueueError>)
        ensures
            r matches Ok(n) ==> n == self.jobs().len(),
    ;
}

} // verus!

verus! {

/// `count` incremented `k` times.
pub open spec fn spec_increment_times(count: RetryCount, k: nat) -> RetryCount
    decreases k,
{
    if k == 0 {
        count
    } else {
        spec_increment_times(count, (k - 1) as nat).spec_increment()
    }
}

/// Incrementing a fresh count `k` times gives a count of `k`.
pub proof fn lemma_increment_times(k: nat)
    requires
        1 <= k <= u32::MAX,
    ensures
        spec_increment_times(RetryCount::NeverRetried, k) == RetryCount::Count(k as u32),
    decreases k,
{
    let prev = spec_increment_times(RetryCount::NeverRetried, (k - 1) as nat);
    assert(spec_increment_times(RetryCount::NeverRetried, k) == prev.spec_increment());
    if k > 1 {
        lemma_increment_times((k - 1) as nat);
        assert(prev.spec_value() == k - 1);
    } else {
        assert(prev == RetryCount::NeverRetried);
    }
}

} // verus!
