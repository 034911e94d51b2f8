//! The runner.

use vstd::prelude::*;

use crate::strmap::StringMap;
use crate::types::{Conclusion, RunnerConfig};

verus! {

/// How many events of a job wait to be read.
pub const EVENT_CAPACITY: usize = 1024;

/// Runs jobs. `M` is the secret masker that it shares with the listener.
#[derive(Debug, Clone)]
pub struct Runner<M> {
    config: RunnerConfig,
    masker: M,
}

/// The end of a job.
pub struct JobCompleted {
    pub job_id: String,
    pub conclusion: Conclusion,
    pub outputs: StringMap<String>,
}

impl<M> Runner<M> {
    pub closed spec fn spec_config(&self) -> RunnerConfig {
        self.config
    }

    pub closed spec fn spec_masker(&self) -> M {
        self.masker
    }

    /// A runner with a configuration and a masker.
    pub fn new(config: RunnerConfig, masker: M) -> (r: Runner<M>)
        ensures
            r.spec_config() == config,
            r.spec_masker() == masker,
    {
        Runner { config, masker }
    }

    /// The event that closes a job's stream: one more when the job could not
    /// be run to its end.
    pub fn execute_job<E>(&self, result: Result<(), E>) -> (r: Option<JobCompleted>)
        ensures
            match r {
                Some(done) => result is Err && done.job_id@.len() == 0 && done.conclusion
                    == Conclusion::Failure && done.outputs@.len() == 0,
                None => result is Ok,
            },
    {
        match result {
            Ok(_) => None,
            Err(_) => {
                let job_id = String::new();
                Some(
                    JobCompleted {
                        job_id,
                        conclusion: Conclusion::Failure,
                        outputs: StringMap::new(),
                    },
                )
            },
        }
    }

    /// The configuration.
    pub fn config(&self) -> (r: &RunnerConfig)
        ensures
            *r == self.spec_config(),
    {
        &self.config
    }

    /// The masker.
    pub fn masker(&self) -> (r: &M)
        ensures
            *r == self.spec_masker(),
    {
        &self.masker
    }
}

/// Only a job that could not be run to its end gets a closing event, and
/// that says that it failed, with nothing else.
pub proof fn law_unfinished_job_failed<M, E>(
    runner: Runner<M>,
    result: Result<(), E>,
    r: Option<JobCompleted>,
)
    requires
        call_ensures(Runner::<M>::execute_job::<E>, (&runner, result), r),
    ensures
        r is Some <==> result is Err,
        r matches Some(done) ==> done.conclusion == Conclusion::Failure && done.outputs@.len() == 0
            && done.job_id@.len() == 0,
{
}

} // verus!
