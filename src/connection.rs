use vstd::prelude::*;

use crate::config::Config;
use crate::error::{Error, RobinResult};
use crate::job::{Args, JobName};
use crate::queue_adapters::{
    EnqueuedJob, JobQueue, JobView, NoJobDequeued, QueueIdentifier, RetryCount,
};
use crate::registry::Registry;
use crate::wire::args_json;

verus! {

/// The connection to the queue backend: the config, the main queue, the retry queue,
/// the dead set and the registry of handlers. Required to enqueue and dequeue jobs.
pub struct Connection<Q> {
    config: Config,
    main_queue: Q,
    retry_queue: Q,
    dead_set: Q,
    registry: Registry,
}

/// Create a new connection from a config, the three queues of a backend
/// (main, retry, dead set) and the registry of handlers.
pub fn establish<Q: JobQueue>(config: Config, queues: (Q, Q, Q), registry: Registry) -> (r:
    Connection<Q>)
    ensures
        r.spec_config() == config,
        r.queue(QueueIdentifier::Main) == queues.0.jobs(),
        r.queue(QueueIdentifier::Retry) == queues.1.jobs(),
        r.dead() == queues.2.jobs(),
        r.registered() == registry@,
{
    let (main_queue, retry_queue, dead_set) = queues;
    Connection { config, main_queue, retry_queue, dead_set, registry }
}

impl<Q: JobQueue> Connection<Q> {
    /// The jobs in the queue `iden`, oldest first.
    pub closed spec fn queue(&self, iden: QueueIdentifier) -> Seq<JobView> {
        match iden {
            QueueIdentifier::Main => self.main_queue.jobs(),
            QueueIdentifier::Retry => self.retry_queue.jobs(),
        }
    }

    /// The jobs in the dead set, oldest first.
    pub closed spec fn dead(&self) -> Seq<JobView> {
        self.dead_set.jobs()
    }

    /// The config of the connection.
    pub closed spec fn spec_config(&self) -> Config {
        self.config
    }

    /// The registered job names, in the order of their handlers.
    pub closed spec fn registered(&self) -> Seq<Seq<char>> {
        self.registry@
    }

    /// Nothing but the queue `iden` differs between `self` and `other`.
    pub open spec fn same_but(&self, other: &Self, iden: QueueIdentifier) -> bool {
        &&& other.spec_config() == self.spec_config()
        &&& other.registered() == self.registered()
        &&& other.dead() == self.dead()
        &&& forall|q: QueueIdentifier| q != iden ==> other.queue(q) == self.queue(q)
    }

    /// Nothing but the dead set differs between `self` and `other`.
    pub open spec fn same_but_dead(&self, other: &Self) -> bool {
        &&& other.spec_config() == self.spec_config()
        &&& other.registered() == self.registered()
        &&& forall|q: QueueIdentifier| other.queue(q) == self.queue(q)
    }

    /// Returns the connection's config.
    pub fn config(&self) -> (r: &Config)
        ensures
            *r == self.spec_config(),
    {
        &self.config
    }

    /// Returns the connection's registry.
    pub fn registry(&self) -> (r: &Registry)
        ensures
            r@ == self.registered(),
    {
        &self.registry
    }

    /// Put a job with the given name, arguments and count at the back of the queue `iden`.
    /// The arguments are stored in their JSON object form, `args.to_json()`.
    ///
    /// The job is enqueued whatever its count is: keeping jobs that failed too often out
    /// of the retry queue is the worker's task.
    pub fn enqueue_to(
        &mut self,
        iden: QueueIdentifier,
        name: JobName,
        args: &Args,
        retry_count: RetryCount,
    ) -> (r: RobinResult<()>)
        ensures
            old(self).same_but(final(self), iden),
            r is Ok ==> final(self).queue(iden) == old(self).queue(iden).push(
                (name.0@, args_json(args.json@), retry_count),
            ),
            r is Err ==> final(self).queue(iden) == old(self).queue(iden),
            r matches Err(e) ==> e is JobQueueError,
    {
        let enq_job = EnqueuedJob { name: name.0, args: args.to_json(), retry_count };
        let pushed = match iden {
            QueueIdentifier::Main => self.main_queue.enqueue(enq_job),
            QueueIdentifier::Retry => self.retry_queue.enqueue(enq_job),
        };
        match pushed {
            Ok(()) => Ok(()),
            Err(e) => Err(Error::JobQueueError(e)),
        }
    }

    /// Put a job into the retry queue. The caller passes the already incremented count.
    pub fn retry(&mut self, name: JobName, args: &Args, retry_count: RetryCount) -> (r:
        RobinResult<()>)
        ensures
            old(self).same_but(final(self), QueueIdentifier::Retry),
            r is Ok ==> final(self).queue(QueueIdentifier::Retry) == old(self).queue(
                QueueIdentifier::Retry,
            ).push((name.0@, args_json(args.json@), retry_count)),
            r is Err ==> final(self).queue(QueueIdentifier::Retry) == old(self).queue(
                QueueIdentifier::Retry,
            ),
            r matches Err(e) ==> e is JobQueueError,
    {
        self.enqueue_to(QueueIdentifier::Retry, name, args, retry_count)
    }

    /// Put a job, as it is, at the back of the retry queue.
    pub fn retry_job(&mut self, enq_job: EnqueuedJob) -> (r: RobinResult<()>)
        ensures
            old(self).same_but(final(self), QueueIdentifier::Retry),
            r is Ok ==> final(self).queue(QueueIdentifier::Retry) == old(self).queue(
                QueueIdentifier::Retry,
            ).push(enq_job@),
            r is Err ==> final(self).queue(QueueIdentifier::Retry) == old(self).queue(
                QueueIdentifier::Retry,
            ),
            r matches Err(e) ==> e is JobQueueError,
    {
        match self.retry_queue.enqueue(enq_job) {
            Ok(()) => Ok(()),
            Err(e) => Err(Error::JobQueueError(e)),
        }
    }

    /// Put a job into the dead set.
    pub fn dead_letter(&mut self, enq_job: EnqueuedJob) -> (r: RobinResult<()>)
        ensures
            old(self).same_but_dead(final(self)),
            r is Ok ==> final(self).dead() == old(self).dead().push(enq_job@),
            r is Err ==> final(self).dead() == old(self).dead(),
            r matches Err(e) ==> e is JobQueueError,
    {
        match self.dead_set.enqueue(enq_job) {
            Ok(()) => Ok(()),
            Err(e) => Err(Error::JobQueueError(e)),
        }
    }

    /// Pull the first job out of the queue `iden` and find its handler.
    ///
    /// A job whose name isn't registered goes to the dead set and is reported as
    /// `BecauseUnknownJob`.
    pub fn dequeue_from(&mut self, iden: QueueIdentifier) -> (r: Result<
        (usize, EnqueuedJob),
        NoJobDequeued,
    >)
        ensures
            final(self).spec_config() == old(self).spec_config(),
            final(self).registered() == old(self).registered(),
            forall|q: QueueIdentifier| q != iden ==> final(self).queue(q) == old(self).queue(q),
            r matches Ok((h, job)) ==> {
                &&& old(self).queue(iden).len() > 0
                &&& job@ == old(self).queue(iden)[0]
                &&& final(self).queue(iden) == old(self).queue(iden).drop_first()
                &&& h < old(self).registered().len()
                &&& old(self).registered()[h as int] == job@.0
                &&& final(self).dead() == old(self).dead()
            },
            r matches Err(NoJobDequeued::BecauseUnknownJob(name)) ==> {
                &&& old(self).queue(iden).len() > 0
                &&& name.0@ == old(self).queue(iden)[0].0
                &&& !old(self).registered().contains(name.0@)
                &&& final(self).queue(iden) == old(self).queue(iden).drop_first()
                &&& final(self).dead() == old(self).dead().push(old(self).queue(iden)[0])
            },
            r matches Err(NoJobDequeued::BecauseTimeout) ==> {
                &&& old(self).queue(iden).len() == 0
                &&& final(self).queue(iden) == old(self).queue(iden)
                &&& final(self).dead() == old(self).dead()
            },
            r matches Err(NoJobDequeued::BecauseError(_)) ==> {
                &&& final(self).dead() == old(self).dead()
                &&& final(self).queue(iden) == old(self).queue(iden) || (old(self).queue(
                    iden,
                ).len() > 0 && final(self).queue(iden) == old(self).queue(iden).drop_first())
                &&& final(self).queue(iden) != old(self).queue(iden) ==> !old(
                    self,
                ).registered().contains(old(self).queue(iden)[0].0)
            },
    {
        let popped = match iden {
            QueueIdentifier::Main => self.main_queue.dequeue(),
            QueueIdentifier::Retry => self.retry_queue.dequeue(),
        };
        let enq_job = match popped {
            Ok(j) => j,
            Err(NoJobDequeued::BecauseTimeout) => return Err(NoJobDequeued::BecauseTimeout),
            Err(NoJobDequeued::BecauseError(e)) => return Err(NoJobDequeued::BecauseError(e)),
            Err(NoJobDequeued::BecauseUnknownJob(n)) => {
                return Err(NoJobDequeued::BecauseUnknownJob(n));
            },
        };
        match self.registry.lookup(enq_job.name.as_str()) {
            Some(h) => Ok((h, enq_job)),
            None => {
                let name = enq_job.name.clone();
                match self.dead_set.enqueue(enq_job) {
                    Ok(()) => Err(NoJobDequeued::BecauseUnknownJob(JobName(name))),
                    Err(e) => Err(NoJobDequeued::BecauseError(e)),
                }
            },
        }
    }

    /// Delete all jobs from the main queue.
    pub fn delete_all_from_main(&mut self) -> (r: RobinResult<()>)
        ensures
            old(self).same_but(final(self), QueueIdentifier::Main),
            r is Ok ==> final(self).queue(QueueIdentifier::Main).len() == 0,
            r is Err ==> final(self).queue(QueueIdentifier::Main) == old(self).queue(
                QueueIdentifier::Main,
            ),
    {
        match self.main_queue.delete_all() {
            Ok(()) => Ok(()),
            Err(e) => Err(Error::JobQueueError(e)),
        }
    }

    /// Delete all jobs from the retry queue.
    pub fn delete_all_from_retry(&mut self) -> (r: RobinResult<()>)
        ensures
            old(self).same_but(final(self), QueueIdentifier::Retry),
            r is Ok ==> final(self).queue(QueueIdentifier::Retry).len() == 0,
            r is Err ==> final(self).queue(QueueIdentifier::Retry) == old(self).queue(
                QueueIdentifier::Retry,
            ),
    {
        match self.retry_queue.delete_all() {
            Ok(()) => Ok(()),
            Err(e) => Err(Error::JobQueueError(e)),
        }
    }

    /// Delete all jobs from the main queue and from the retry queue.
    pub fn delete_all(&mut self) -> (r: RobinResult<()>)
        ensures
            final(self).spec_config() == old(self).spec_config(),
            final(self).registered() == old(self).registered(),
            final(self).dead() == old(self).dead(),
            r is Ok ==> forall|q: QueueIdentifier| #[trigger] final(self).queue(q).len() == 0,
            r is Err ==> final(self).queue(QueueIdentifier::Retry) == old(self).queue(
                QueueIdentifier::Retry,
            ),
            r is Err ==> final(self).queue(QueueIdentifier::Main) == old(self).queue(
                QueueIdentifier::Main,
            ) || final(self).queue(QueueIdentifier::Main).len() == 0,
    {
        self.delete_all_from_main()?;
        self.delete_all_from_retry()?;
        proof {
            assert forall|q: QueueIdentifier| #[trigger] self.queue(q).len() == 0 by {
                match q {
                    QueueIdentifier::Main => {},
                    QueueIdentifier::Retry => {},
                }
            }
        }
        Ok(())
    }

    /// The number of jobs in the queue `iden`.
    pub fn size(&self, iden: QueueIdentifier) -> (r: RobinResult<usize>)
        ensures
            r matches Ok(n) ==> n == self.queue(iden).len(),
    {
        let counted = match iden {
            QueueIdentifier::Main => self.main_queue.size(),
            QueueIdentifier::Retry => self.retry_queue.size(),
        };
        match counted {
            Ok(n) => Ok(n),
            Err(e) => Err(Error::JobQueueError(e)),
        }
    }

    /// The number of jobs in the main queue.
    pub fn main_queue_size(&self) -> (r: RobinResult<usize>)
        ensures
            r matches Ok(n) ==> n == self.queue(QueueIdentifier::Main).len(),
    {
        self.size(QueueIdentifier::Main)
    }

    /// The number of jobs in the retry queue.
    pub fn retry_queue_size(&self) -> (r: RobinResult<usize>)
        ensures
            r matches Ok(n) ==> n == self.queue(QueueIdentifier::Retry).len(),
    {
        self.size(QueueIdentifier::Retry)
    }

    /// The number of jobs in the dead set.
    pub fn dead_set_size(&self) -> (r: RobinResult<usize>)
        ensures
            r matches Ok(n) ==> n == self.dead().len(),
    {
        match self.dead_set.size() {
            Ok(n) => Ok(n),
            Err(e) => Err(Error::JobQueueError(e)),
        }
    }

    /// `true` if there are no jobs in the queue `iden`, `false` otherwise.
    pub fn is_queue_empty(&self, iden: QueueIdentifier) -> (r: RobinResult<bool>)
        ensures
            r matches Ok(b) ==> b == (self.queue(iden).len() == 0),
    {
        match self.size(iden) {
            Ok(n) => Ok(n == 0),
            Err(e) => Err(e),
        }
    }

    /// `true` if there are no jobs in the main queue, `false` otherwise.
    pub fn is_main_queue_empty(&self) -> (r: RobinResult<bool>)
        ensures
            r matches Ok(b) ==> b == (self.queue(QueueIdentifier::Main).len() == 0),
    {
        self.is_queue_empty(QueueIdentifier::Main)
    }

    /// `true` if there are no jobs in the retry queue, `false` otherwise.
    pub fn is_retry_queue_empty(&self) -> (r: RobinResult<bool>)
        ensures
            r matches Ok(b) ==> b == (self.queue(QueueIdentifier::Retry).len() == 0),
    {
        self.is_queue_empty(QueueIdentifier::Retry)
    }
}

} // verus!
