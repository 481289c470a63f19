use std::cell::RefCell;

use robin::config::Config;
use robin::connection::{establish, Connection};
use robin::job::{Args, JobName, JobResult, LookupJob};
use robin::memory_queue::{MemoryQueue, MemoryQueueConfig};
use robin::queue_adapters::{EnqueuedJob, QueueIdentifier, RetryCount};
use robin::registry::Registry;
use robin::worker::{
    after_failure, drain_main_queue, perform_job, settle, FailureAction, LoopControl, MultiplexChannel,
    NoJobPerformedReason, PerformJobOutput, Times, WorkerMessage, WorkerNumber, WorkerState,
};

/// Handlers for the tests: each call is logged as (handler index, arguments, count of the
/// handled job); `fail_first` calls fail before the others succeed.
struct Handlers {
    calls: RefCell<Vec<(usize, String)>>,
    fail_first: usize,
}

impl Handlers {
    fn new(fail_first: usize) -> Handlers {
        Handlers { calls: RefCell::new(Vec::new()), fail_first }
    }

    fn count(&self) -> usize {
        self.calls.borrow().len()
    }
}

impl LookupJob<MemoryQueue> for Handlers {
    fn perform(&self, index: usize, args: &Args, _con: &Connection<MemoryQueue>) -> JobResult {
        let mut calls = self.calls.borrow_mut();
        calls.push((index, args.json().to_string()));
        if calls.len() <= self.fail_first {
            Err("failed on purpose".to_string())
        } else {
            Ok(())
        }
    }
}

fn connection(retry_limit: u32, names: &[&str]) -> Connection<MemoryQueue> {
    let mut config = Config::default();
    config.retry_count_limit = retry_limit;
    config.repeat_on_timeout = false;
    let mut registry = Registry::new();
    for name in names {
        registry.register(JobName(name.to_string())).unwrap();
    }
    let queues = MemoryQueue::new_set(&MemoryQueueConfig::default());
    establish(config, queues, registry)
}

fn enqueue(con: &mut Connection<MemoryQueue>, name: &str, args: &str) {
    con.enqueue_to(
        QueueIdentifier::Main,
        JobName(name.to_string()),
        &Args::new(args.to_string()),
        RetryCount::NeverRetried,
    )
    .unwrap();
}

fn drain_retries(con: &mut Connection<MemoryQueue>, handlers: &Handlers) {
    loop {
        let out = perform_job(con, QueueIdentifier::Retry, handlers).unwrap();
        if out == PerformJobOutput::NoJobPerformed(NoJobPerformedReason::HitTimeout) {
            break;
        }
    }
}

#[test]
fn test_times() {
    let v = 3.times().into_iter().map(|i| i).collect::<Vec<_>>();
    assert_eq!(vec![0, 1, 2], v);
}

#[test]
fn test_multiplex_channel() {
    let mut channel: MultiplexChannel<()> = MultiplexChannel::new();

    let receivers = (0..3)
        .into_iter()
        .map(|_| channel.new_receiver())
        .collect::<Vec<_>>();

    channel.send(());

    for receiver in receivers {
        let value = receiver.recv();
        assert_eq!(value.unwrap(), ());
    }
}

#[test]
fn multiplex_send_reports_one_result_per_receiver() {
    let mut channel: MultiplexChannel<u8> = MultiplexChannel::new();
    let first = channel.new_receiver();
    let second = channel.new_receiver();
    drop(second);
    let results = channel.send(7);
    assert_eq!(results.len(), 2);
    assert!(results[0].is_ok());
    assert!(results[1].is_err());
    assert_eq!(first.recv().unwrap(), 7);
}

#[test]
fn happy_path_performs_every_job() {
    let mut con = connection(3, &["echo"]);
    let handlers = Handlers::new(0);
    for a in ["a", "b", "c", "d", "e"] {
        enqueue(&mut con, "echo", a);
    }
    assert_eq!(con.main_queue_size().unwrap(), 5);
    drain_main_queue(&mut con, &handlers).unwrap();
    drain_retries(&mut con, &handlers);
    let mut seen: Vec<String> = handlers.calls.borrow().iter().map(|c| c.1.clone()).collect();
    seen.sort();
    assert_eq!(seen, vec!["a", "b", "c", "d", "e"]);
    assert_eq!(con.main_queue_size().unwrap(), 0);
    assert_eq!(con.retry_queue_size().unwrap(), 0);
    assert_eq!(con.dead_set_size().unwrap(), 0);
}

#[test]
fn retry_then_success() {
    let mut con = connection(3, &["flaky"]);
    let handlers = Handlers::new(2);
    enqueue(&mut con, "flaky", "x");
    assert_eq!(
        perform_job(&mut con, QueueIdentifier::Main, &handlers).unwrap(),
        PerformJobOutput::JobRetried
    );
    assert_eq!(
        perform_job(&mut con, QueueIdentifier::Retry, &handlers).unwrap(),
        PerformJobOutput::JobRetried
    );
    assert_eq!(
        perform_job(&mut con, QueueIdentifier::Retry, &handlers).unwrap(),
        PerformJobOutput::JobPerformed
    );
    assert_eq!(handlers.count(), 3);
    assert_eq!(con.dead_set_size().unwrap(), 0);
    assert_eq!(con.retry_queue_size().unwrap(), 0);
}

#[test]
fn retry_ceiling_moves_job_to_dead_set() {
    let mut con = connection(2, &["always_fails"]);
    let handlers = Handlers::new(usize::MAX);
    enqueue(&mut con, "always_fails", "x");
    drain_main_queue(&mut con, &handlers).unwrap();
    drain_retries(&mut con, &handlers);
    assert_eq!(handlers.count(), 3);
    assert_eq!(con.dead_set_size().unwrap(), 1);
    assert_eq!(con.retry_queue_size().unwrap(), 0);
    assert_eq!(con.main_queue_size().unwrap(), 0);
}

#[test]
fn unknown_job_goes_to_dead_set() {
    let mut con = connection(3, &["known"]);
    let handlers = Handlers::new(0);
    enqueue(&mut con, "missing", "x");
    assert_eq!(
        perform_job(&mut con, QueueIdentifier::Main, &handlers).unwrap(),
        PerformJobOutput::NoJobPerformed(NoJobPerformedReason::UnknownJob)
    );
    assert_eq!(con.dead_set_size().unwrap(), 1);
    assert_eq!(con.main_queue_size().unwrap(), 0);
    assert_eq!(handlers.count(), 0);
}

#[test]
fn zero_retry_limit_dead_letters_first_failure() {
    let mut con = connection(0, &["once"]);
    let handlers = Handlers::new(usize::MAX);
    enqueue(&mut con, "once", "x");
    assert_eq!(
        perform_job(&mut con, QueueIdentifier::Main, &handlers).unwrap(),
        PerformJobOutput::JobDeadLettered
    );
    assert_eq!(handlers.count(), 1);
    assert_eq!(con.retry_queue_size().unwrap(), 0);
    assert_eq!(con.dead_set_size().unwrap(), 1);
}

#[test]
fn job_past_the_limit_is_not_performed() {
    let mut con = connection(1, &["late"]);
    let handlers = Handlers::new(0);
    con.retry(JobName("late".to_string()), &Args::new("x".to_string()), RetryCount::Count(2))
        .unwrap();
    assert_eq!(
        perform_job(&mut con, QueueIdentifier::Retry, &handlers).unwrap(),
        PerformJobOutput::NoJobPerformed(NoJobPerformedReason::RetryLimitReached)
    );
    assert_eq!(handlers.count(), 0);
    assert_eq!(con.dead_set_size().unwrap(), 1);
}

#[test]
fn single_worker_runs_main_queue_in_order() {
    let mut con = connection(3, &["first", "second"]);
    let handlers = Handlers::new(0);
    enqueue(&mut con, "second", "1");
    enqueue(&mut con, "first", "2");
    enqueue(&mut con, "second", "3");
    drain_main_queue(&mut con, &handlers).unwrap();
    let calls = handlers.calls.borrow().clone();
    assert_eq!(
        calls,
        vec![(1, "1".to_string()), (0, "2".to_string()), (1, "3".to_string())]
    );
}

#[test]
fn main_queue_shrinks_by_one_per_step() {
    let mut con = connection(3, &["echo"]);
    let handlers = Handlers::new(usize::MAX);
    for a in ["a", "b", "c"] {
        enqueue(&mut con, "echo", a);
    }
    let mut sizes = vec![con.main_queue_size().unwrap()];
    loop {
        let out = perform_job(&mut con, QueueIdentifier::Main, &handlers).unwrap();
        sizes.push(con.main_queue_size().unwrap());
        if out == PerformJobOutput::NoJobPerformed(NoJobPerformedReason::HitTimeout) {
            break;
        }
    }
    assert_eq!(sizes, vec![3, 2, 1, 0, 0]);
    assert_eq!(con.retry_queue_size().unwrap(), 3);
}

#[test]
fn delete_all_empties_both_queues() {
    let mut con = connection(3, &["echo"]);
    enqueue(&mut con, "echo", "a");
    con.retry(JobName("echo".to_string()), &Args::new("b".to_string()), RetryCount::Count(1))
        .unwrap();
    assert_eq!(con.is_main_queue_empty().unwrap(), false);
    assert_eq!(con.is_retry_queue_empty().unwrap(), false);
    con.delete_all().unwrap();
    assert_eq!(con.main_queue_size().unwrap(), 0);
    assert_eq!(con.retry_queue_size().unwrap(), 0);
    assert_eq!(con.is_queue_empty(QueueIdentifier::Main).unwrap(), true);
}

#[test]
fn timeout_without_repeat_stops_worker() {
    let mut config = Config::default();
    config.repeat_on_timeout = false;
    let mut state = WorkerState::new();
    let timeout = PerformJobOutput::NoJobPerformed(NoJobPerformedReason::HitTimeout);
    assert_eq!(state.next_control(timeout, None, &config), LoopControl::Break);
}

#[test]
fn timeout_with_repeat_keeps_worker_until_drained() {
    let config = Config::default();
    let mut state = WorkerState::new();
    let timeout = PerformJobOutput::NoJobPerformed(NoJobPerformedReason::HitTimeout);
    assert_eq!(state.next_control(timeout, None, &config), LoopControl::Continue);
    assert_eq!(
        state.next_control(
            PerformJobOutput::JobPerformed,
            Some(WorkerMessage::PerformJobsAndDie),
            &config
        ),
        LoopControl::Continue
    );
    assert!(state.received_perform_jobs_and_die);
    assert_eq!(state.next_control(PerformJobOutput::JobPerformed, None, &config), LoopControl::Continue);
    assert_eq!(state.next_control(timeout, None, &config), LoopControl::Break);
}

#[test]
fn die_message_stops_worker_after_job() {
    let config = Config::default();
    let mut state = WorkerState::new();
    assert_eq!(
        state.next_control(PerformJobOutput::JobPerformed, Some(WorkerMessage::Die), &config),
        LoopControl::Break
    );
}

#[test]
fn after_failure_values() {
    let mut config = Config::default();
    config.retry_count_limit = 2;
    assert_eq!(
        after_failure(RetryCount::NeverRetried, &config),
        FailureAction::Retry(RetryCount::Count(1))
    );
    assert_eq!(
        after_failure(RetryCount::Count(1), &config),
        FailureAction::Retry(RetryCount::Count(2))
    );
    assert_eq!(
        after_failure(RetryCount::Count(2), &config),
        FailureAction::DeadLetter(RetryCount::Count(3))
    );
    config.retry_count_limit = u32::MAX;
    assert_eq!(
        after_failure(RetryCount::Count(u32::MAX), &config),
        FailureAction::DeadLetter(RetryCount::Count(u32::MAX))
    );
}

#[test]
fn worker_number_description() {
    let n = WorkerNumber { number: 3, total_worker_count: 12 };
    assert_eq!(n.description(), "3/12");
}

#[test]
fn dequeued_job_keeps_its_fields() {
    let job = EnqueuedJob::new("name", "args", RetryCount::Count(4));
    assert_eq!(job.name(), "name");
    assert_eq!(job.args(), "args");
    assert_eq!(*job.retry_count(), RetryCount::Count(4));
}

#[test]
fn enqueue_stores_arguments_as_json() {
    let mut con = connection(3, &["echo"]);
    enqueue(&mut con, "echo", "\"x\"");
    let (handler, job) = con.dequeue_from(QueueIdentifier::Main).unwrap();
    assert_eq!(handler, 0);
    assert_eq!(job.args(), r#"{"json":"\"x\""}"#);
    assert_eq!(Args::from_json(job.args()).unwrap().json(), "\"x\"");
}

#[test]
fn settle_success_changes_nothing() {
    let mut con = connection(3, &["echo"]);
    let job = EnqueuedJob::new("echo", "{\"json\":\"a\"}", RetryCount::Count(1));
    assert_eq!(settle(&mut con, job, &Ok(())).unwrap(), PerformJobOutput::JobPerformed);
    assert_eq!(con.retry_queue_size().unwrap(), 0);
    assert_eq!(con.dead_set_size().unwrap(), 0);
}

#[test]
fn settle_failure_retries_with_incremented_count() {
    let mut con = connection(3, &["echo"]);
    let job = EnqueuedJob::new("echo", "{\"json\":\"a\"}", RetryCount::Count(1));
    assert_eq!(
        settle(&mut con, job, &Err("boom".to_string())).unwrap(),
        PerformJobOutput::JobRetried
    );
    let (_, retried) = con.dequeue_from(QueueIdentifier::Retry).unwrap();
    assert_eq!(*retried.retry_count(), RetryCount::Count(2));
    assert_eq!(retried.args(), "{\"json\":\"a\"}");
    assert_eq!(con.dead_set_size().unwrap(), 0);
}

#[test]
fn settle_failure_at_the_limit_dead_letters() {
    let mut con = connection(3, &["echo"]);
    let job = EnqueuedJob::new("echo", "{\"json\":\"a\"}", RetryCount::Count(3));
    assert_eq!(
        settle(&mut con, job, &Err("boom".to_string())).unwrap(),
        PerformJobOutput::JobDeadLettered
    );
    assert_eq!(con.retry_queue_size().unwrap(), 0);
    assert_eq!(con.dead_set_size().unwrap(), 1);
}

#[test]
fn unreadable_arguments_count_as_a_failed_run() {
    let mut con = connection(3, &["echo"]);
    let handlers = Handlers::new(0);
    con.retry_job(EnqueuedJob::new("echo", "not json", RetryCount::NeverRetried)).unwrap();
    assert_eq!(
        perform_job(&mut con, QueueIdentifier::Retry, &handlers).unwrap(),
        PerformJobOutput::JobRetried
    );
    assert_eq!(handlers.count(), 0);
    let (_, retried) = con.dequeue_from(QueueIdentifier::Retry).unwrap();
    assert_eq!(*retried.retry_count(), RetryCount::Count(1));
}
