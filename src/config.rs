use vstd::prelude::*;

verus! {

/// Relies on num_cpus::get: the number of logical CPUs available to this process.
/// Nothing is promised of it: it depends on the machine.
#[verifier::external_body]
fn cpu_count() -> (r: usize) {
    num_cpus::get()
}

/// Configuration options used throughout the library.
///
/// The normal way to construct a `Config` is through its `Default` implementation.
/// Afterwards you can tweak the values you need.
#[derive(Debug, Clone)]
pub struct Config {
    /// The number of seconds a worker blocks while waiting for a job.
    pub timeout: usize,
    /// The prefix of every key the durable backend uses.
    pub redis_namespace: String,
    /// The URL of the durable backend.
    pub redis_url: String,
    /// Whether a worker keeps waiting after a dequeue timed out (`true`) or stops (`false`).
    pub repeat_on_timeout: bool,
    /// The largest attempt count a job may carry and still be performed.
    /// A job whose count exceeds it is moved to the dead set.
    pub retry_count_limit: u32,
    /// The number of workers on the main queue. One more worker serves the retry queue.
    pub worker_count: usize,
}

impl Config {
    /// A config is usable when it asks for at least one main-queue worker.
    pub open spec fn wf(&self) -> bool {
        self.worker_count >= 1
    }
}

impl Default for Config {
    fn default() -> (r: Config)
        ensures
            r.wf(),
            r.timeout == 30,
            r.redis_namespace@ == "robin_"@,
            r.redis_url@ == "redis://127.0.0.1/"@,
            r.repeat_on_timeout,
            r.retry_count_limit == 10,
    {
        let cpus = cpu_count();
        Config {
            timeout: 30,
            redis_namespace: "robin_".to_string(),
            redis_url: "redis://127.0.0.1/".to_string(),
            repeat_on_timeout: true,
            retry_count_limit: 10,
            worker_count: if cpus >= 1 { cpus } else { 1 },
        }
    }
}

/// The settings of the durable backend.
#[derive(Debug, Clone, PartialEq, Eq, Hash)]
pub struct RedisConfig {
    /// The URL used to connect.
    pub url: String,
    /// The prefix of every key, effectively a namespace.
    pub namespace: String,
    /// The number of seconds a worker blocks while waiting for a new job.
    pub timeout: usize,
}

impl Default for RedisConfig {
    fn default() -> (r: RedisConfig)
        ensures
            r.url@ == "redis://127.0.0.1/"@,
            r.namespace@ == "robin_"@,
            r.timeout == 30,
    {
        RedisConfig {
            url: "redis://127.0.0.1/".to_string(),
            namespace: "robin_".to_string(),
            timeout: 30,
        }
    }
}

} // verus!
