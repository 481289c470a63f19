use std::cell::RefCell;
use std::collections::HashMap;

use robin::config::Config;
use robin::connection::{establish, Connection};
use robin::job::{Args, JobName, JobResult, LookupJob};
use robin::memory_queue::{MemoryQueue, MemoryQueueConfig};
use robin::queue_adapters::{QueueIdentifier, RetryCount};
use robin::registry::Registry;
use robin::worker::{
    perform_job, LoopControl, NoJobPerformedReason, PerformJobOutput, WorkerState,
};

const VERIFYABLE_JOB: &str = "VerifyableJob";
const PASS_SECOND_TIME: &str = "PassSecondTime";
const FAIL_FOREVER: &str = "FailForever";

/// The test jobs. Instead of files on disk they write into `files`.
struct TestJobs {
    files: RefCell<HashMap<String, String>>,
    runs: RefCell<usize>,
}

impl TestJobs {
    fn new() -> TestJobs {
        TestJobs { files: RefCell::new(HashMap::new()), runs: RefCell::new(0) }
    }

    fn read(&self, file: &str) -> Option<String> {
        self.files.borrow().get(file).cloned()
    }

    fn assert_verifiable_job_performed_with(&self, file: &str) {
        assert_eq!(self.read(file).unwrap(), file);
    }
}

impl LookupJob<MemoryQueue> for TestJobs {
    fn perform(&self, index: usize, args: &Args, _con: &Connection<MemoryQueue>) -> JobResult {
        *self.runs.borrow_mut() += 1;
        match index {
            0 => {
                let file: String = serde_json::from_str(args.json()).map_err(|e| e.to_string())?;
                self.files.borrow_mut().insert(file.clone(), file);
                Ok(())
            }
            1 => {
                let file: String = serde_json::from_str(args.json()).map_err(|e| e.to_string())?;
                let contents = self.read(&file);
                match contents {
                    Some(s) => {
                        if &s == "been_here" {
                            self.files.borrow_mut().insert(file, "OK".to_string());
                            Ok(())
                        } else {
                            panic!("File contained something different {}", s)
                        }
                    }
                    None => {
                        self.files.borrow_mut().insert(file, "been_here".to_string());
                        Err("This job is supposed to fail the first time".to_string())
                    }
                }
            }
            _ => Err("Will always fail".to_string()),
        }
    }
}

fn test_config() -> Config {
    let mut config = Config::default();
    config.timeout = 1;
    config.repeat_on_timeout = false;
    config.retry_count_limit = 4;
    config.worker_count = 1;
    config
}

fn establish_test_connection() -> Connection<MemoryQueue> {
    let mut registry = Registry::new();
    for name in [VERIFYABLE_JOB, PASS_SECOND_TIME, FAIL_FOREVER] {
        registry.register(JobName(name.to_string())).unwrap();
    }
    establish(test_config(), MemoryQueue::new_set(&MemoryQueueConfig::default()), registry)
}

fn perform_later(con: &mut Connection<MemoryQueue>, job: &str, file: &str) {
    let args = Args::new(serde_json::to_string(file).unwrap());
    con.enqueue_to(QueueIdentifier::Main, JobName(job.to_string()), &args, RetryCount::NeverRetried)
        .expect("Failed to enqueue job");
}

/// A worker that takes from the main queue and, when that is empty, from the retry queue,
/// and stops once both are empty.
fn run_worker(con: &mut Connection<MemoryQueue>, jobs: &TestJobs) {
    let config = con.config().clone();
    let mut state = WorkerState::new();
    loop {
        let mut out = perform_job(con, QueueIdentifier::Main, jobs).unwrap();
        if out == PerformJobOutput::NoJobPerformed(NoJobPerformedReason::HitTimeout) {
            out = perform_job(con, QueueIdentifier::Retry, jobs).unwrap();
        }
        if state.next_control(out, None, &config) == LoopControl::Break {
            break;
        }
    }
}

#[test]
fn performing_jobs_test_enqueuing_and_performing_jobs() {
    let mut con = establish_test_connection();
    let jobs = TestJobs::new();
    perform_later(&mut con, VERIFYABLE_JOB, "enqueuing_and_performing_jobs");
    run_worker(&mut con, &jobs);
    jobs.assert_verifiable_job_performed_with("enqueuing_and_performing_jobs");
}

#[test]
fn integration_tests_enqueuing_and_performing_jobs() {
    let mut con = establish_test_connection();
    let jobs = TestJobs::new();
    perform_later(&mut con, VERIFYABLE_JOB, "enqueuing_and_performing_jobs");
    run_worker(&mut con, &jobs);
    jobs.assert_verifiable_job_performed_with("enqueuing_and_performing_jobs");
    assert_eq!(con.main_queue_size().unwrap(), 0);
}

#[test]
fn performing_jobs_test_running_multiple_jobs() {
    let mut con = establish_test_connection();
    let jobs = TestJobs::new();
    perform_later(&mut con, VERIFYABLE_JOB, "running_two_jobs_one");
    perform_later(&mut con, VERIFYABLE_JOB, "running_two_jobs_two");
    perform_later(&mut con, VERIFYABLE_JOB, "running_two_jobs_three");
    run_worker(&mut con, &jobs);
    jobs.assert_verifiable_job_performed_with("running_two_jobs_one");
    jobs.assert_verifiable_job_performed_with("running_two_jobs_two");
    jobs.assert_verifiable_job_performed_with("running_two_jobs_three");
}

#[test]
fn performing_jobs_test_job_fails_then_gets_retried_and_passes() {
    let mut con = establish_test_connection();
    let jobs = TestJobs::new();
    let file = "job_fails_then_gets_retried_and_passes";
    perform_later(&mut con, PASS_SECOND_TIME, file);
    run_worker(&mut con, &jobs);
    let contents = jobs.read(file).expect("failed to read file at the end of the test");
    assert_eq!(contents, "OK");
    assert_eq!(*jobs.runs.borrow(), 2);
}

#[test]
fn performing_jobs_test_job_doesnt_get_retried_forever() {
    let mut con = establish_test_connection();
    let jobs = TestJobs::new();
    perform_later(&mut con, FAIL_FOREVER, "unused");
    run_worker(&mut con, &jobs);
    assert_eq!(*jobs.runs.borrow(), 5);
    assert_eq!(con.dead_set_size().unwrap(), 1);
    assert_eq!(con.retry_queue_size().unwrap(), 0);
}
