use vstd::prelude::*;

use crate::connection::Connection;
use crate::wire::{args_json, read_args_json, write_args_json};

verus! {

/// The name under which a job is registered and enqueued. Names compare byte for byte.
#[derive(Debug, Clone)]
pub struct JobName(pub String);

impl JobName {
    /// The name as a `String`.
    pub fn to_string(&self) -> (r: String)
        ensures
            r@ == self.0@,
    {
        self.0.clone()
    }
}

impl From<String> for JobName {
    fn from(s: String) -> JobName {
        JobName(s)
    }
}

impl vstd::std_specs::convert::FromSpecImpl<String> for JobName {
    open spec fn obeys_from_spec() -> bool {
        true
    }

    open spec fn from_spec(s: String) -> JobName {
        JobName(s)
    }
}

/// The serialized arguments of a job. The library never looks inside them.
#[derive(Debug, Clone)]
pub struct Args {
    /// The serialized arguments.
    pub json: String,
}

impl Args {
    /// Wrap an already serialized argument value.
    pub fn new(json: String) -> (r: Args)
        ensures
            r.json@ == json@,
    {
        Args { json }
    }

    /// The arguments as the JSON object `{"json":<quoted arguments>}`: the form in which
    /// they are stored in a queue.
    pub fn to_json(&self) -> (r: String)
        ensures
            r@ == args_json(self.json@),
    {
        write_args_json(self.json.as_str())
    }

    /// Read arguments from the form `to_json` writes. Any other text gives `None`.
    pub fn from_json(text: &str) -> (r: Option<Args>)
        ensures
            r matches Some(a) ==> args_json(a.json@) == text@,
            (exists|s: Seq<char>| args_json(s) == text@) ==> r is Some,
    {
        match read_args_json(text) {
            Some(json) => Some(Args { json }),
            None => None,
        }
    }

    /// The serialized arguments.
    pub fn json(&self) -> (r: &str)
        ensures
            r@ == self.json@,
    {
        self.json.as_str()
    }
}

/// The result type returned when performing jobs.
pub type JobResult = Result<(), String>;

/// What a particular job does. Implemented by the users of the library.
pub trait Job<Q> {
    /// The name of the job, under which it is registered and enqueued.
    fn name(&self) -> JobName;

    /// Perform the job.
    fn perform(&self, args: &Args, con: &Connection<Q>) -> JobResult;
}

/// Runs the handler that a registry index stands for. Implemented by the users of the
/// library, for the handlers they registered, in the order they registered them.
pub trait LookupJob<Q> {
    /// Perform the handler registered at `index` with the given arguments.
    fn perform(&self, index: usize, args: &Args, con: &Connection<Q>) -> JobResult;
}

} // verus!
