use std::time::Duration;

use robin::config::{Config, RedisConfig};
use robin::error::{Error, ErrorOrigin, JobQueueErrorInformation, QueueError};
use robin::job::{Args, JobName};
use robin::memory_queue::{MemoryQueue, MemoryQueueConfig};
use robin::queue_adapters::{
    dead_set_key, EnqueuedJob, JobQueue, NoJobDequeued, QueueIdentifier, RetryCount,
};
use robin::registry::Registry;
use robin::wire::{from_wire, to_wire};

#[test]
fn increment_counts_attempts() {
    let mut c = RetryCount::NeverRetried;
    for _ in 0..3 {
        c = c.increment();
    }
    assert_eq!(c, RetryCount::Count(3));
    assert_eq!(RetryCount::Count(41).increment(), RetryCount::Count(42));
}

#[test]
fn limit_reached_only_past_the_limit() {
    let mut config = Config::default();
    config.retry_count_limit = 2;
    assert!(!RetryCount::NeverRetried.limit_reached(&config));
    assert!(!RetryCount::Count(2).limit_reached(&config));
    assert!(RetryCount::Count(3).limit_reached(&config));
}

#[test]
fn default_config_values() {
    let config = Config::default();
    assert_eq!(config.retry_count_limit, 10);
    assert_eq!(config.timeout, 30);
    assert!(config.repeat_on_timeout);
    assert!(config.worker_count >= 1);
    assert_eq!(RedisConfig::default().timeout, 30);
}

#[test]
fn queue_keys_use_namespace_prefix() {
    assert_eq!(QueueIdentifier::Main.redis_queue_name("ns"), "ns_main");
    assert_eq!(QueueIdentifier::Retry.redis_queue_name("ns"), "ns_retry");
    assert_eq!(dead_set_key("ns"), "ns_dead");
}

#[test]
fn memory_queue_is_fifo() {
    let mut q = MemoryQueue::new(&MemoryQueueConfig::new(Duration::from_millis(5)));
    assert_eq!(q.size().unwrap(), 0);
    q.enqueue(EnqueuedJob::new("a", "1", RetryCount::NeverRetried)).unwrap();
    q.enqueue(EnqueuedJob::new("b", "2", RetryCount::Count(1))).unwrap();
    assert_eq!(q.size().unwrap(), 2);
    assert_eq!(q.dequeue().unwrap().name(), "a");
    assert_eq!(q.dequeue().unwrap().name(), "b");
    assert!(matches!(q.dequeue(), Err(NoJobDequeued::BecauseTimeout)));
    assert_eq!(q.timeout(), Duration::from_millis(5));
}

#[test]
fn memory_queue_delete_all() {
    let mut q = MemoryQueue::new(&MemoryQueueConfig::default());
    q.enqueue(EnqueuedJob::new("name", "args", RetryCount::NeverRetried)).unwrap();
    assert_eq!(q.size().unwrap(), 1);
    q.delete_all().unwrap();
    assert_eq!(q.size().unwrap(), 0);
}

#[test]
fn registry_refuses_duplicates() {
    let mut r = Registry::new();
    assert_eq!(r.register(JobName("a".to_string())).unwrap(), 0);
    assert_eq!(r.register(JobName("b".to_string())).unwrap(), 1);
    match r.register(JobName("a".to_string())) {
        Err(Error::DuplicateRegistration(name)) => assert_eq!(name, "a"),
        _ => panic!("duplicate name was accepted"),
    }
    assert_eq!(r.len(), 2);
    assert_eq!(r.lookup("b"), Some(1));
    assert_eq!(r.lookup("c"), None);
    assert_eq!(r.lookup("A"), None);
}

#[test]
fn wire_form_of_fresh_job() {
    let job = EnqueuedJob::new("echo", "\"a\"", RetryCount::NeverRetried);
    assert_eq!(to_wire(&job), r#"{"name":"echo","args":"\"a\"","attempts":"Fresh"}"#);
}

#[test]
fn wire_form_of_retried_job() {
    let job = EnqueuedJob::new("echo", "{}", RetryCount::Count(12));
    assert_eq!(to_wire(&job), r#"{"name":"echo","args":"{}","attempts":{"Attempted":12}}"#);
}

#[test]
fn wire_escapes_control_characters() {
    let job = EnqueuedJob::new("a\\b", "x\ny\u{1}\t", RetryCount::Count(0));
    assert_eq!(
        to_wire(&job),
        r#"{"name":"a\\b","args":"x\ny\u0001\t","attempts":{"Attempted":0}}"#
    );
}

#[test]
fn wire_round_trip() {
    let jobs = vec![
        EnqueuedJob::new("echo", "\"a\"", RetryCount::NeverRetried),
        EnqueuedJob::new("", "", RetryCount::Count(u32::MAX)),
        EnqueuedJob::new("ünï\"cødé", "{\"k\":[1,2,\"\\\\\"]}\r\u{8}\u{c}\u{1f}", RetryCount::Count(7)),
    ];
    for job in jobs {
        let back = from_wire(&to_wire(&job)).unwrap();
        assert_eq!(back.name, job.name);
        assert_eq!(back.args, job.args);
        assert_eq!(back.retry_count, job.retry_count);
    }
}

#[test]
fn wire_refuses_other_texts() {
    assert!(from_wire("").is_none());
    assert!(from_wire("{}").is_none());
    assert!(from_wire(r#"{"name":"a","args":"b","attempts":"Fresh"} "#).is_none());
    assert!(from_wire(r#"{"name":"a","args":"b","attempts":{"Attempted":01}}"#).is_none());
    assert!(from_wire(r#"{"name":"a","args":"b","attempts":{"Attempted":4294967296}}"#).is_none());
    assert!(from_wire(r#"{"name":"\/","args":"b","attempts":"Fresh"}"#).is_none());
    assert!(from_wire(r#"{"name":"a","args":"b","attempts":{"Attempted":4294967295}}"#).is_some());
}

#[test]
fn args_to_json_wraps_the_arguments() {
    let args = Args::new("\"x\"".to_string());
    assert_eq!(args.json(), "\"x\"");
    assert_eq!(args.to_json(), r#"{"json":"\"x\""}"#);
}

#[test]
fn job_name_round_trip() {
    let name = JobName::from("send_mail".to_string());
    assert_eq!(name.to_string(), "send_mail");
}

#[test]
fn queue_error_information() {
    let e = QueueError::new(ErrorOrigin::Enqueue, "no connection".to_string());
    assert_eq!(e.description(), "no connection");
    assert_eq!(JobQueueErrorInformation::origin(&e), ErrorOrigin::Enqueue);
}

#[test]
fn wire_reads_never_retried_tag() {
    let job = from_wire(r#"{"name":"a","args":"b","attempts":"NeverRetried"}"#).unwrap();
    assert_eq!(job.name(), "a");
    assert_eq!(job.args(), "b");
    assert_eq!(*job.retry_count(), RetryCount::NeverRetried);
    assert!(from_wire(r#"{"name":"a","args":"b","attempts":"NeverRetried"} "#).is_none());
    assert!(from_wire(r#"{"name":"a","args":"b","attempts":"Never"}"#).is_none());
}

#[test]
fn args_from_json_reads_what_to_json_writes() {
    let args = Args::new("{\"id\":10,\"s\":\"a\\nb\"}".to_string());
    let back = Args::from_json(&args.to_json()).unwrap();
    assert_eq!(back.json(), args.json());
    assert!(Args::from_json("{\"json\":1}").is_none());
    assert!(Args::from_json("\"x\"").is_none());
}
