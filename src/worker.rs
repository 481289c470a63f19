use vstd::prelude::*;

use crate::config::Config;
use crate::connection::Connection;
use crate::error::{Error, RobinResult};
use crate::job::{Args, JobResult, LookupJob};
use crate::queue_adapters::{
    EnqueuedJob, JobQueue, JobView, NoJobDequeued, QueueIdentifier, RetryCount,
};
use crate::text::{append_char, append_decimal, decimal};

use std::sync::mpsc::{Receiver, SendError, Sender};

verus! {

/// The count a job carries after one more failed attempt. A count that cannot grow
/// any further stays where it is.
pub open spec fn spec_next_count(count: RetryCount) -> RetryCount {
    if count.spec_value() < u32::MAX {
        count.spec_increment()
    } else {
        RetryCount::Count(u32::MAX)
    }
}

/// What happens to a job after its handler failed.
#[derive(Debug, Clone, Copy, PartialEq, Eq, Structural)]
pub enum FailureAction {
    /// Put it into the retry queue with the given count.
    Retry(RetryCount),
    /// Put it into the dead set with the given count: the count went past the limit.
    DeadLetter(RetryCount),
}

/// The action after a failed attempt of a job that carried `count`: the incremented count
/// decides, retried while it stays within `limit`.
pub open spec fn spec_after_failure(count: RetryCount, limit: u32) -> FailureAction {
    if count.spec_value() + 1 > limit {
        FailureAction::DeadLetter(spec_next_count(count))
    } else {
        FailureAction::Retry(spec_next_count(count))
    }
}

/// The action after a failed attempt of a job that carried `count`.
pub fn after_failure(count: RetryCount, config: &Config) -> (r: FailureAction)
    ensures
        r == spec_after_failure(count, config.retry_count_limit),
{
    let next = match count {
        RetryCount::Count(n) => if n == u32::MAX {
            RetryCount::Count(u32::MAX)
        } else {
            count.increment()
        },
        RetryCount::NeverRetried => count.increment(),
    };
    let over = match count {
        RetryCount::NeverRetried => 1 > config.retry_count_limit,
        RetryCount::Count(n) => n >= config.retry_count_limit,
    };
    if over {
        FailureAction::DeadLetter(next)
    } else {
        FailureAction::Retry(next)
    }
}

/// Why a worker step did not run a handler.
#[derive(Debug, Clone, Copy, PartialEq, Eq, Structural)]
pub enum NoJobPerformedReason {
    /// The queue stayed empty until the timeout.
    HitTimeout,
    /// The job's count was already past the limit. It went to the dead set.
    RetryLimitReached,
    /// The job's name isn't registered. It went to the dead set.
    UnknownJob,
}

/// What one worker step did.
#[derive(Debug, Clone, Copy, PartialEq, Eq, Structural)]
pub enum PerformJobOutput {
    /// The handler ran and succeeded.
    JobPerformed,
    /// The handler ran and failed; the job went to the retry queue.
    JobRetried,
    /// The handler ran and failed; the job's count went past the limit and it went
    /// to the dead set.
    JobDeadLettered,
    /// No handler ran.
    NoJobPerformed(NoJobPerformedReason),
}

/// What a failed attempt of a job with count `count` does to the retry queue `retry` and
/// the dead set `dead` of a connection (`job` is the job's name and stored arguments).
pub open spec fn failure_effect(
    job: JobView,
    limit: u32,
    retry: Seq<JobView>,
    dead: Seq<JobView>,
    out: PerformJobOutput,
    new_retry: Seq<JobView>,
    new_dead: Seq<JobView>,
) -> bool {
    match spec_after_failure(job.2, limit) {
        FailureAction::Retry(n) => out == PerformJobOutput::JobRetried && new_retry == retry.push(
            (job.0, job.1, n),
        ) && new_dead == dead,
        FailureAction::DeadLetter(n) => out == PerformJobOutput::JobDeadLettered && new_dead
            == dead.push((job.0, job.1, n)) && new_retry == retry,
    }
}

/// Put a job whose handler ran where its result sends it: nowhere on success; on failure
/// (`Err`), into the retry queue with its count incremented, or into the dead set when the
/// incremented count is past the limit. A backend error while pushing is returned and
/// changes nothing.
pub fn settle<Q: JobQueue>(con: &mut Connection<Q>, enq_job: EnqueuedJob, job_result: &JobResult) -> (r:
    RobinResult<PerformJobOutput>)
    ensures
        final(con).spec_config() == old(con).spec_config(),
        final(con).registered() == old(con).registered(),
        final(con).queue(QueueIdentifier::Main) == old(con).queue(QueueIdentifier::Main),
        job_result is Ok ==> r == Ok::<PerformJobOutput, Error>(PerformJobOutput::JobPerformed),
        r is Err || job_result is Ok ==> {
            &&& final(con).queue(QueueIdentifier::Retry) == old(con).queue(QueueIdentifier::Retry)
            &&& final(con).dead() == old(con).dead()
        },
        job_result is Err ==> (r matches Ok(out) ==> failure_effect(
            enq_job@,
            old(con).spec_config().retry_count_limit,
            old(con).queue(QueueIdentifier::Retry),
            old(con).dead(),
            out,
            final(con).queue(QueueIdentifier::Retry),
            final(con).dead(),
        )),
        r matches Err(e) ==> e is JobQueueError,
{
    match job_result {
        Ok(()) => Ok(PerformJobOutput::JobPerformed),
        Err(_) => match after_failure(enq_job.retry_count, con.config()) {
            FailureAction::Retry(next) => {
                con.retry_job(enq_job.with_retry_count(next))?;
                Ok(PerformJobOutput::JobRetried)
            },
            FailureAction::DeadLetter(next) => {
                con.dead_letter(enq_job.with_retry_count(next))?;
                Ok(PerformJobOutput::JobDeadLettered)
            },
        },
    }
}

/// Run the handler of a dequeued job and settle it, or, when its count is already past the
/// limit, move it to the dead set without running the handler.
///
/// The stored arguments are read back with `Args::from_json`; arguments that cannot be
/// read count as a failed run. The handler's result is handed to `settle`.
pub fn perform_or_retry<Q: JobQueue, L: LookupJob<Q>>(
    con: &mut Connection<Q>,
    handler: usize,
    enq_job: EnqueuedJob,
    lookup: &L,
) -> (r: RobinResult<PerformJobOutput>)
    ensures
        final(con).spec_config() == old(con).spec_config(),
        final(con).registered() == old(con).registered(),
        final(con).queue(QueueIdentifier::Main) == old(con).queue(QueueIdentifier::Main),
        r is Err ==> {
            &&& final(con).queue(QueueIdentifier::Retry) == old(con).queue(QueueIdentifier::Retry)
            &&& final(con).dead() == old(con).dead()
        },
        r matches Err(e) ==> e is JobQueueError,
        enq_job.retry_count.spec_limit_reached(old(con).spec_config().retry_count_limit) ==> (
        r matches Ok(out) ==> {
            &&& out == PerformJobOutput::NoJobPerformed(NoJobPerformedReason::RetryLimitReached)
            &&& final(con).queue(QueueIdentifier::Retry) == old(con).queue(QueueIdentifier::Retry)
            &&& final(con).dead() == old(con).dead().push(enq_job@)
        }),
        !enq_job.retry_count.spec_limit_reached(old(con).spec_config().retry_count_limit) ==> (
        r matches Ok(out) ==> {
            ||| out == PerformJobOutput::JobPerformed && final(con).queue(QueueIdentifier::Retry)
                == old(con).queue(QueueIdentifier::Retry) && final(con).dead() == old(con).dead()
            ||| failure_effect(
                enq_job@,
                old(con).spec_config().retry_count_limit,
                old(con).queue(QueueIdentifier::Retry),
                old(con).dead(),
                out,
                final(con).queue(QueueIdentifier::Retry),
                final(con).dead(),
            )
        }),
{
    if enq_job.retry_count.limit_reached(con.config()) {
        con.dead_letter(enq_job)?;
        return Ok(PerformJobOutput::NoJobPerformed(NoJobPerformedReason::RetryLimitReached));
    }
    let job_result = match Args::from_json(enq_job.args.as_str()) {
        Some(args) => lookup.perform(handler, &args, con),
        None => Err("the stored arguments could not be read".to_string()),
    };
    settle(con, enq_job, &job_result)
}

} // verus!

verus! {

/// The queue `q` of `con` after the first job of the queue `iden` was taken.
pub open spec fn after_pop<Q: JobQueue>(
    con: Connection<Q>,
    iden: QueueIdentifier,
    q: QueueIdentifier,
) -> Seq<JobView> {
    if q == iden {
        con.queue(q).drop_first()
    } else {
        con.queue(q)
    }
}

/// One worker step on the queue `iden`: pull the next job, then run its handler, retry it
/// or move it to the dead set.
///
/// For the job `j` at the front of the queue: an unregistered name sends it to the dead set
/// (`UnknownJob`); a count past the limit sends it there without a run
/// (`RetryLimitReached`); otherwise its handler runs and the job is performed, retried with
/// its count incremented, or dead-lettered with it (see `settle`).
pub fn perform_job<Q: JobQueue, L: LookupJob<Q>>(
    con: &mut Connection<Q>,
    iden: QueueIdentifier,
    lookup: &L,
) -> (r: RobinResult<PerformJobOutput>)
    ensures
        final(con).spec_config() == old(con).spec_config(),
        final(con).registered() == old(con).registered(),
        r matches Err(e) ==> e is JobQueueError,
        r is Err ==> final(con).dead() == old(con).dead() || old(con).queue(iden).len() > 0
            && !old(con).registered().contains(old(con).queue(iden)[0].0),
        iden == QueueIdentifier::Main && r is Err ==> final(con).queue(iden).len() <= old(
            con,
        ).queue(iden).len(),
        r matches Ok(out) ==> (out == PerformJobOutput::NoJobPerformed(
            NoJobPerformedReason::HitTimeout,
        ) <==> old(con).queue(iden).len() == 0),
        r matches Ok(PerformJobOutput::NoJobPerformed(NoJobPerformedReason::HitTimeout))
            ==> final(con).dead() == old(con).dead() && forall|q: QueueIdentifier|
            final(con).queue(q) == old(con).queue(q),
        r matches Ok(out) ==> (old(con).queue(iden).len() > 0 ==> {
            let j = old(con).queue(iden)[0];
            let limit = old(con).spec_config().retry_count_limit;
            &&& final(con).queue(QueueIdentifier::Main) == after_pop(
                *old(con),
                iden,
                QueueIdentifier::Main,
            )
            &&& !old(con).registered().contains(j.0) ==> {
                &&& out == PerformJobOutput::NoJobPerformed(NoJobPerformedReason::UnknownJob)
                &&& final(con).queue(QueueIdentifier::Retry) == after_pop(
                    *old(con),
                    iden,
                    QueueIdentifier::Retry,
                )
                &&& final(con).dead() == old(con).dead().push(j)
            }
            &&& old(con).registered().contains(j.0) && j.2.spec_limit_reached(limit) ==> {
                &&& out == PerformJobOutput::NoJobPerformed(NoJobPerformedReason::RetryLimitReached)
                &&& final(con).queue(QueueIdentifier::Retry) == after_pop(
                    *old(con),
                    iden,
                    QueueIdentifier::Retry,
                )
                &&& final(con).dead() == old(con).dead().push(j)
            }
            &&& old(con).registered().contains(j.0) && !j.2.spec_limit_reached(limit) ==> {
                ||| out == PerformJobOutput::JobPerformed && final(con).queue(
                    QueueIdentifier::Retry,
                ) == after_pop(*old(con), iden, QueueIdentifier::Retry) && final(con).dead()
                    == old(con).dead()
                ||| failure_effect(
                    j,
                    limit,
                    after_pop(*old(con), iden, QueueIdentifier::Retry),
                    old(con).dead(),
                    out,
                    final(con).queue(QueueIdentifier::Retry),
                    final(con).dead(),
                )
            }
        }),
{
    match con.dequeue_from(iden) {
        Ok((handler, enq_job)) => {
            let ghost j = enq_job@;
            proof {
                assert(old(con).registered().contains(j.0)) by {
                    assert(old(con).registered()[handler as int] == j.0);
                }
            }
            perform_or_retry(con, handler, enq_job, lookup)
        },
        Err(NoJobDequeued::BecauseTimeout) => Ok(
            PerformJobOutput::NoJobPerformed(NoJobPerformedReason::HitTimeout),
        ),
        Err(NoJobDequeued::BecauseUnknownJob(_)) => Ok(
            PerformJobOutput::NoJobPerformed(NoJobPerformedReason::UnknownJob),
        ),
        Err(NoJobDequeued::BecauseError(e)) => Err(Error::JobQueueError(e)),
    }
}

/// Perform worker steps on the main queue until it is empty. No job is put into the main
/// queue meanwhile, so the jobs are taken one by one in the order they were enqueued and
/// the queue shrinks by one with each.
///
pub fn drain_main_queue<Q: JobQueue, L: LookupJob<Q>>(con: &mut Connection<Q>, lookup: &L) -> (r:
    RobinResult<()>)
    ensures
        final(con).spec_config() == old(con).spec_config(),
        final(con).registered() == old(con).registered(),
        r is Ok ==> final(con).queue(QueueIdentifier::Main).len() == 0,
        final(con).queue(QueueIdentifier::Main).len() <= old(con).queue(
            QueueIdentifier::Main,
        ).len(),
        r matches Err(e) ==> e is JobQueueError,
{
    let ghost start = old(con).queue(QueueIdentifier::Main);
    let ghost mut taken: int = 0;
    loop
        invariant
            con.spec_config() == old(con).spec_config(),
            con.registered() == old(con).registered(),
            0 <= taken <= start.len(),
            con.queue(QueueIdentifier::Main) == start.subrange(taken, start.len() as int),
            start == old(con).queue(QueueIdentifier::Main),
        ensures
            con.spec_config() == old(con).spec_config(),
            con.registered() == old(con).registered(),
            con.queue(QueueIdentifier::Main).len() <= start.len(),
            taken == start.len() && con.queue(QueueIdentifier::Main).len() == 0,
        decreases con.queue(QueueIdentifier::Main).len(),
    {
        let out = perform_job(con, QueueIdentifier::Main, lookup)?;
        match out {
            PerformJobOutput::NoJobPerformed(NoJobPerformedReason::HitTimeout) => {
                break;
            },
            _ => {
                assert(con.queue(QueueIdentifier::Main) =~= start.subrange(
                    taken + 1,
                    start.len() as int,
                ));
                proof {
                    taken = taken + 1;
                }
            },
        }
    }
    Ok(())
}

} // verus!

verus! {

/// The messages the manager of the workers sends them.
#[derive(Debug, Clone, Copy, PartialEq, Eq, Structural)]
pub enum WorkerMessage {
    /// Stop after the job at hand; start no other.
    Die,
    /// Keep performing the jobs there are; stop at the next dequeue timeout.
    PerformJobsAndDie,
}

/// Whether a worker goes on.
#[derive(Debug, Clone, Copy, PartialEq, Eq, Structural)]
pub enum LoopControl {
    /// The worker stops.
    Break,
    /// The worker performs another step.
    Continue,
}

/// The decision after a worker step that had `output`, for a worker that had or had not
/// been told to drain before, that then read `message`.
pub open spec fn spec_next_control(
    draining: bool,
    output: PerformJobOutput,
    message: Option<WorkerMessage>,
    repeat_on_timeout: bool,
) -> LoopControl {
    if output == PerformJobOutput::NoJobPerformed(NoJobPerformedReason::HitTimeout) && (draining
        || !repeat_on_timeout) {
        LoopControl::Break
    } else if message == Some(WorkerMessage::Die) {
        LoopControl::Break
    } else {
        LoopControl::Continue
    }
}

/// What a worker remembers between steps.
#[derive(Debug, Clone, Copy, PartialEq, Eq, Structural)]
pub struct WorkerState {
    /// Whether the worker was told to drain.
    pub received_perform_jobs_and_die: bool,
}

impl WorkerState {
    /// The state of a worker that just started.
    pub fn new() -> (r: WorkerState)
        ensures
            !r.received_perform_jobs_and_die,
    {
        WorkerState { received_perform_jobs_and_die: false }
    }

    /// Decide whether to go on after a step that had `output`, and note the message the
    /// worker read from its control channel, if any. Once told to drain, a worker stays so.
    pub fn next_control(
        &mut self,
        output: PerformJobOutput,
        message: Option<WorkerMessage>,
        config: &Config,
    ) -> (r: LoopControl)
        ensures
            r == spec_next_control(
                old(self).received_perform_jobs_and_die,
                output,
                message,
                config.repeat_on_timeout,
            ),
            final(self).received_perform_jobs_and_die == (old(
                self,
            ).received_perform_jobs_and_die || message == Some(WorkerMessage::PerformJobsAndDie)),
            output == PerformJobOutput::NoJobPerformed(NoJobPerformedReason::HitTimeout)
                && !config.repeat_on_timeout ==> r == LoopControl::Break,
            output == PerformJobOutput::NoJobPerformed(NoJobPerformedReason::HitTimeout)
                && old(self).received_perform_jobs_and_die ==> r == LoopControl::Break,
            message == Some(WorkerMessage::Die) ==> r == LoopControl::Break,
    {
        let timed_out = output == PerformJobOutput::NoJobPerformed(
            NoJobPerformedReason::HitTimeout,
        );
        let r = if timed_out && (self.received_perform_jobs_and_die || !config.repeat_on_timeout) {
            LoopControl::Break
        } else {
            match message {
                Some(WorkerMessage::Die) => LoopControl::Break,
                _ => LoopControl::Continue,
            }
        };
        match message {
            Some(WorkerMessage::PerformJobsAndDie) => {
                self.received_perform_jobs_and_die = true;
            },
            _ => {},
        }
        r
    }
}

/// The number of times the handler of one job runs, when its successive runs end as
/// `results` says (`true` for success): it runs while its count is within `limit`, a success
/// ends it, a failure sends it on with the count that `spec_after_failure` gives.
pub open spec fn handler_runs(limit: u32, count: RetryCount, results: Seq<bool>) -> nat
    decreases results.len(),
{
    if count.spec_limit_reached(limit) || results.len() == 0 {
        0
    } else if results[0] {
        1
    } else {
        match spec_after_failure(count, limit) {
            FailureAction::Retry(next) => 1 + handler_runs(limit, next, results.drop_first()),
            FailureAction::DeadLetter(_) => 1,
        }
    }
}

/// Whether one job ends in the dead set, when the successive runs of its handler end as
/// `results` says.
pub open spec fn ends_dead(limit: u32, count: RetryCount, results: Seq<bool>) -> bool
    decreases results.len(),
{
    if count.spec_limit_reached(limit) {
        true
    } else if results.len() == 0 || results[0] {
        false
    } else {
        match spec_after_failure(count, limit) {
            FailureAction::Retry(next) => ends_dead(limit, next, results.drop_first()),
            FailureAction::DeadLetter(_) => true,
        }
    }
}

/// A handler whose runs, once one failed, keep failing.
pub open spec fn fails_for_good(results: Seq<bool>) -> bool {
    forall|i: int, j: int| 0 <= i < j < results.len() && !results[i] ==> !results[j]
}

proof fn lemma_runs_within(limit: u32, count: RetryCount, results: Seq<bool>)
    requires
        !count.spec_limit_reached(limit),
    ensures
        handler_runs(limit, count, results) <= limit + 1 - count.spec_value(),
    decreases results.len(),
{
    if results.len() > 0 && !results[0] {
        match spec_after_failure(count, limit) {
            FailureAction::Retry(next) => {
                lemma_runs_within(limit, next, results.drop_first());
            },
            FailureAction::DeadLetter(_) => {},
        }
    }
}

/// A job enqueued fresh has its handler run at most `limit + 1` times, however its runs end.
pub proof fn lemma_handler_runs_bounded(limit: u32, results: Seq<bool>)
    ensures
        handler_runs(limit, RetryCount::NeverRetried, results) <= limit + 1,
{
    lemma_runs_within(limit, RetryCount::NeverRetried, results);
}

proof fn lemma_dead_iff_first_fails(limit: u32, count: RetryCount, results: Seq<bool>)
    requires
        !count.spec_limit_reached(limit),
        fails_for_good(results),
        results.len() + count.spec_value() > limit,
    ensures
        ends_dead(limit, count, results) <==> !results[0],
    decreases results.len(),
{
    if !results[0] {
        match spec_after_failure(count, limit) {
            FailureAction::Retry(next) => {
                let rest = results.drop_first();
                assert(!rest[0]) by {
                    assert(!results[0] ==> !results[1]);
                }
                assert(fails_for_good(rest)) by {
                    assert forall|i: int, j: int|
                        0 <= i < j < rest.len() && !rest[i] implies !rest[j] by {
                        assert(!results[i + 1] ==> !results[j + 1]);
                    }
                }
                lemma_dead_iff_first_fails(limit, next, rest);
            },
            FailureAction::DeadLetter(_) => {},
        }
    }
}

/// Every run of the handler of one fresh job succeeded: all of the first
/// `handler_runs` results are successes.
pub open spec fn all_runs_succeeded(limit: u32, results: Seq<bool>) -> bool {
    forall|i: int| 0 <= i < handler_runs(limit, RetryCount::NeverRetried, results) ==> results[i]
}

/// Of jobs enqueued fresh and performed until none is left, none ends in the dead set if
/// and only if every run of their handlers succeeded. Each handler, once failed on its job,
/// keeps failing on it, and has a result for each run the limit allows.
pub proof fn lemma_dead_set_empty_iff_all_succeeded(limit: u32, results: Seq<Seq<bool>>)
    requires
        forall|k: int| 0 <= k < results.len() ==> fails_for_good(#[trigger] results[k]),
        forall|k: int| 0 <= k < results.len() ==> #[trigger] results[k].len() > limit,
    ensures
        (forall|k: int|
            0 <= k < results.len() ==> !ends_dead(limit, RetryCount::NeverRetried, #[trigger] results[k]))
            <==> (forall|k: int|
            0 <= k < results.len() ==> all_runs_succeeded(limit, #[trigger] results[k])),
{
    assert forall|k: int| 0 <= k < results.len() implies (!ends_dead(
        limit,
        RetryCount::NeverRetried,
        #[trigger] results[k],
    ) <==> all_runs_succeeded(limit, results[k])) by {
        let rs = results[k];
        lemma_dead_iff_first_fails(limit, RetryCount::NeverRetried, rs);
        if rs[0] {
            assert(handler_runs(limit, RetryCount::NeverRetried, rs) == 1);
        } else {
            assert(handler_runs(limit, RetryCount::NeverRetried, rs) >= 1);
        }
    }
}

/// The model of a job's runs takes the same step as `settle`: with the job's count within
/// the limit, a successful run ends it outside the dead set; a failed run, settled as
/// `failure_effect` says, either continues it with the count of the job `settle` put into the
/// retry queue, or ends it in the dead set, with the job `settle` put there.
pub proof fn lemma_runs_follow_settle(
    limit: u32,
    job: JobView,
    results: Seq<bool>,
    retry: Seq<JobView>,
    dead: Seq<JobView>,
    out: PerformJobOutput,
    new_retry: Seq<JobView>,
    new_dead: Seq<JobView>,
)
    requires
        !job.2.spec_limit_reached(limit),
        results.len() > 0,
        !results[0] ==> failure_effect(job, limit, retry, dead, out, new_retry, new_dead),
    ensures
        results[0] ==> handler_runs(limit, job.2, results) == 1 && !ends_dead(limit, job.2, results),
        !results[0] && out == PerformJobOutput::JobRetried ==> {
            let next = new_retry.last();
            &&& next == (job.0, job.1, next.2)
            &&& handler_runs(limit, job.2, results) == 1 + handler_runs(
                limit,
                next.2,
                results.drop_first(),
            )
            &&& ends_dead(limit, job.2, results) == ends_dead(limit, next.2, results.drop_first())
        },
        !results[0] && out == PerformJobOutput::JobDeadLettered ==> {
            &&& handler_runs(limit, job.2, results) == 1
            &&& ends_dead(limit, job.2, results)
            &&& new_dead.last().0 == job.0 && new_dead.last().1 == job.1
        },
{
}

/// With a retry limit of zero, the first failure of a job sends it to the dead set:
/// it is never retried.
pub proof fn lemma_zero_limit_never_retries(count: RetryCount)
    requires
        !count.spec_limit_reached(0),
    ensures
        spec_after_failure(count, 0) is DeadLetter,
        handler_runs(0, count, seq![false]) == 1,
        ends_dead(0, count, seq![false]),
{
    assert(seq![false].drop_first().len() == 0);
}

} // verus!

verus! {

#[verifier::external_type_specification]
#[verifier::external_body]
#[verifier::reject_recursive_types(T)]
pub struct ExSender<T>(std::sync::mpsc::Sender<T>);

#[verifier::external_type_specification]
#[verifier::external_body]
#[verifier::reject_recursive_types(T)]
pub struct ExReceiver<T>(std::sync::mpsc::Receiver<T>);

#[verifier::external_type_specification]
#[verifier::external_body]
#[verifier::reject_recursive_types(T)]
pub struct ExSendError<T>(std::sync::mpsc::SendError<T>);

/// Relies on std::sync::mpsc::channel: a new channel's two ends.
#[verifier::external_body]
fn open_channel<T>() -> (r: (Sender<T>, Receiver<T>)) {
    std::sync::mpsc::channel()
}

/// Relies on std::sync::mpsc::Sender::send: hands `t` to the receiving end, or gives it
/// back when that end is gone.
#[verifier::external_body]
fn send_on<T>(sender: &Sender<T>, t: T) -> (r: Result<(), SendError<T>>) {
    sender.send(t)
}

/// A channel that copies every message to each of its receivers.
#[derive(Debug)]
#[verifier::reject_recursive_types(T)]
pub struct MultiplexChannel<T> {
    senders: Vec<Sender<T>>,
}

impl<T: Send + Clone> MultiplexChannel<T> {
    /// The number of receivers handed out.
    pub closed spec fn receivers(&self) -> nat {
        self.senders@.len()
    }

    /// A channel without receivers.
    pub fn new() -> (r: Self)
        ensures
            r.receivers() == 0,
    {
        MultiplexChannel { senders: Vec::new() }
    }

    /// A new receiver. Every message sent from now on reaches it too.
    pub fn new_receiver(&mut self) -> (r: Receiver<T>)
        ensures
            final(self).receivers() == old(self).receivers() + 1,
    {
        let (send, recv) = open_channel();
        self.senders.push(send);
        recv
    }

    /// Send a copy of `t` to every receiver. Returns one result per receiver, in the order
    /// the receivers were made: an error where a receiver is gone.
    pub fn send(&self, t: T) -> (r: Vec<Result<(), SendError<T>>>)
        ensures
            r@.len() == self.receivers(),
    {
        let mut results: Vec<Result<(), SendError<T>>> = Vec::new();
        let mut i: usize = 0;
        while i < self.senders.len()
            invariant
                i <= self.senders@.len(),
                results@.len() == i,
            decreases self.senders@.len() - i,
        {
            results.push(send_on(&self.senders[i], t.clone()));
            i = i + 1;
        }
        results
    }
}

/// Repeat something a number of times.
pub trait Times {
    /// The numbers from zero up to, not including, `self`.
    fn times(self) -> Vec<usize>;
}

impl Times for usize {
    fn times(self) -> (r: Vec<usize>)
        ensures
            r@.len() == self,
            forall|i: int| 0 <= i < r@.len() ==> r@[i] == i,
    {
        let mut v: Vec<usize> = Vec::new();
        let mut i: usize = 0;
        while i < self
            invariant
                i <= self,
                v@.len() == i,
                forall|k: int| 0 <= k < v@.len() ==> v@[k] == k,
            decreases self - i,
        {
            v.push(i);
            i = i + 1;
        }
        v
    }
}

/// The position of a worker among all workers, counted from one.
#[derive(Debug, Clone, Copy, PartialEq, Eq, Structural)]
pub struct WorkerNumber {
    /// The worker's position.
    pub number: usize,
    /// The number of workers.
    pub total_worker_count: usize,
}

impl WorkerNumber {
    /// The position as `number/total`.
    pub fn description(&self) -> (r: String)
        ensures
            r@ == decimal(self.number as nat) + seq!['/'] + decimal(
                self.total_worker_count as nat,
            ),
    {
        let mut s = String::new();
        append_decimal(&mut s, self.number as u64);
        append_char(&mut s, '/');
        append_decimal(&mut s, self.total_worker_count as u64);
        s
    }
}

} // verus!
