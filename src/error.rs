use vstd::prelude::*;

verus! {

/// The places where errors can originate in job queues.
/// These correspond one to one with the queue operations.
#[derive(Debug, Clone, Copy, PartialEq, Eq, Hash, Structural)]
pub enum ErrorOrigin {
    /// The error originated while creating the queues.
    Initialization,
    /// The error originated while pushing a job.
    Enqueue,
    /// The error originated while pulling a job.
    Dequeue,
    /// The error originated while deleting the jobs of a queue.
    DeleteAll,
    /// The error originated while counting the jobs of a queue.
    Size,
    /// The error originated while pushing a job into the dead set.
    DeadSetPush,
}

/// Information about an error that happened in a queue backend.
pub trait JobQueueErrorInformation {
    /// The primary human-readable error message. Typically one line.
    fn description(&self) -> &str;

    /// The place the error originated.
    fn origin(&self) -> ErrorOrigin;
}

/// An error reported by a queue backend: where it happened and what the backend said.
#[derive(Debug, Clone)]
pub struct QueueError {
    /// The operation that failed.
    pub origin: ErrorOrigin,
    /// The backend's message.
    pub message: String,
}

impl QueueError {
    /// Create an error that happened at `origin` with the backend's `message`.
    pub fn new(origin: ErrorOrigin, message: String) -> (r: QueueError)
        ensures
            r.origin == origin,
            r.message@ == message@,
    {
        QueueError { origin, message }
    }
}

impl JobQueueErrorInformation for QueueError {
    fn description(&self) -> &str {
        self.message.as_str()
    }

    fn origin(&self) -> ErrorOrigin {
        self.origin
    }
}

/// The different types of errors that might happen.
#[derive(Debug, Clone)]
pub enum Error {
    /// The job we got from the queue isn't known.
    UnknownJob(String),
    /// The job failed to perform and might be retried.
    JobFailed(String),
    /// A queue backend failed.
    JobQueueError(QueueError),
    /// Some serialization or deserialization failed.
    SerdeError(String),
    /// Two handlers were registered under the same job name.
    DuplicateRegistration(String),
}

/// The result type used throughout the library.
pub type RobinResult<T> = Result<T, Error>;

} // verus!
