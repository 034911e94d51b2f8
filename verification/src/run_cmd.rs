//! The always-online loop: one job per registration, then a fresh
//! registration, with backoff after failures.

use vstd::prelude::*;

use crate::backoff;
use crate::backoff::BACKOFF_START;
use crate::cli;
use crate::error::RunnerError;
use crate::text;

verus! {

/// Says every way to supply a fresh token.
pub open spec fn remint_token_help() -> Seq<char> {
    "re-mint needs a GitHub token: run `toolu-runner login`, pass --token to `toolu-runner register`, or set TOOLU_RUNNER_TOKEN"@
}

fn token_help() -> (r: &'static str)
    ensures
        r@ == remint_token_help(),
{
    "re-mint needs a GitHub token: run `toolu-runner login`, pass --token to `toolu-runner register`, or set TOOLU_RUNNER_TOKEN"
}

/// What is worth a warning before the loop starts.
#[derive(Debug, Clone, Copy, PartialEq, Eq, Structural)]
pub enum LoginWarning {
    Nothing,
    /// No token is stored: the runner will stop after its first job.
    NoLogin,
    /// It could not be told whether a token is stored.
    Unknown,
}

/// Whether to warn that the runner will stop after its first job. `stored`
/// is whether a token is stored, if that could be told.
pub fn warn_if_no_login(once: bool, stored: Option<bool>) -> (r: LoginWarning)
    ensures
        r == if once {
            LoginWarning::Nothing
        } else {
            match stored {
                Some(true) => LoginWarning::Nothing,
                Some(false) => LoginWarning::NoLogin,
                None => LoginWarning::Unknown,
            }
        },
{
    if once {
        return LoginWarning::Nothing;
    }
    match stored {
        Some(s) => if s {
            LoginWarning::Nothing
        } else {
            LoginWarning::NoLogin
        },
        None => LoginWarning::Unknown,
    }
}

/// What the loop does after a job.
#[derive(Debug, Clone, Copy, PartialEq, Eq, Structural)]
pub enum LoopAction {
    Exit(i32),
    Reregister,
    BackoffRetry,
}

/// What became of a fresh registration.
#[derive(Debug, Clone, Copy, PartialEq, Eq, Structural)]
pub enum Remint {
    /// It is in place.
    Reset,
    /// It failed, and is worth another try.
    Retry,
}

/// What the caller does next.
#[derive(Debug, Clone, Copy, PartialEq, Eq, Structural)]
pub enum DriveStep {
    /// Load the configuration and run one job.
    RunJob,
    /// Register afresh.
    Reregister,
    /// Wait, then say whether the wait was interrupted.
    Wait,
    /// Leave with this code.
    Exit(i32),
}

/// The loop's state: the wait after the next failure, in milliseconds.
#[derive(Debug, Clone, Copy, PartialEq, Eq, Structural)]
pub struct RunLoop {
    pub backoff_ms: u64,
}

/// The state and step after a job. A job that went well sheds the backoff
/// before the fresh registration.
pub open spec fn after_job(s: RunLoop, succeeded: bool, action: LoopAction) -> (RunLoop, DriveStep) {
    match action {
        LoopAction::Exit(code) => (s, DriveStep::Exit(code)),
        LoopAction::Reregister => (
            if succeeded {
                RunLoop { backoff_ms: BACKOFF_START }
            } else {
                s
            },
            DriveStep::Reregister,
        ),
        LoopAction::BackoffRetry => (s, DriveStep::Wait),
    }
}

/// The state and step after registering afresh.
pub open spec fn after_remint(s: RunLoop, remint: Remint) -> (RunLoop, DriveStep) {
    match remint {
        Remint::Reset => (RunLoop { backoff_ms: BACKOFF_START }, DriveStep::RunJob),
        Remint::Retry => (s, DriveStep::Wait),
    }
}

/// The state and step after a wait.
pub open spec fn after_wait(s: RunLoop, interrupted: bool) -> (RunLoop, DriveStep) {
    if interrupted {
        (s, DriveStep::Exit(0))
    } else {
        (RunLoop { backoff_ms: backoff::doubled(s.backoff_ms) }, DriveStep::RunJob)
    }
}

impl RunLoop {
    /// The loop before its first job.
    pub fn new() -> (r: RunLoop)
        ensures
            r.backoff_ms == BACKOFF_START,
    {
        RunLoop { backoff_ms: BACKOFF_START }
    }

    /// Takes the end of a job.
    pub fn job_done(&mut self, succeeded: bool, action: LoopAction) -> (r: DriveStep)
        ensures
            (*final(self), r) == after_job(*old(self), succeeded, action),
    {
        match action {
            LoopAction::Exit(code) => DriveStep::Exit(code),
            LoopAction::Reregister => {
                if succeeded {
                    self.backoff_ms = BACKOFF_START;
                }
                DriveStep::Reregister
            },
            LoopAction::BackoffRetry => DriveStep::Wait,
        }
    }

    /// Takes the end of a fresh registration.
    pub fn reminted(&mut self, remint: Remint) -> (r: DriveStep)
        ensures
            (*final(self), r) == after_remint(*old(self), remint),
    {
        match remint {
            Remint::Reset => {
                self.backoff_ms = BACKOFF_START;
                DriveStep::RunJob
            },
            Remint::Retry => DriveStep::Wait,
        }
    }

    /// How long to wait, in microseconds.
    pub fn wait_us(&self) -> (r: u128)
        ensures
            self.backoff_ms == 0 ==> r == 0,
            self.backoff_ms > 0 ==> self.backoff_ms * 1000 <= 2 * r && r < self.backoff_ms * 1000,
    {
        backoff::jittered_backoff(self.backoff_ms)
    }

    /// Takes the end of a wait.
    pub fn waited(&mut self, interrupted: bool) -> (r: DriveStep)
        ensures
            (*final(self), r) == after_wait(*old(self), interrupted),
    {
        if interrupted {
            return DriveStep::Exit(0);
        }
        self.backoff_ms = backoff::next_backoff(self.backoff_ms);
        DriveStep::RunJob
    }
}

/// Whether the wait is within its bounds.
pub open spec fn within_bounds(s: RunLoop) -> bool {
    BACKOFF_START <= s.backoff_ms <= backoff::BACKOFF_MAX
}

/// Whatever happens, the wait stays between one second and one minute; a
/// success brings it back to one second.
pub proof fn law_wait_stays_bounded(
    s: RunLoop,
    succeeded: bool,
    action: LoopAction,
    remint: Remint,
    interrupted: bool,
)
    requires
        within_bounds(s),
    ensures
        within_bounds(after_job(s, succeeded, action).0),
        within_bounds(after_remint(s, remint).0),
        within_bounds(after_wait(s, interrupted).0),
        succeeded && action == LoopAction::Reregister ==> after_job(
            s,
            succeeded,
            action,
        ).0.backoff_ms == BACKOFF_START,
        remint == Remint::Reset ==> after_remint(s, remint).0.backoff_ms == BACKOFF_START,
{
}

/// What a fresh registration came to, for the loop. Without a token, or with
/// one that is rejected, the loop ends; any other failure is worth another
/// try.
pub fn reregister(bearer_found: bool, minted: Result<(), RunnerError>) -> (r: Result<Remint, String>)
    ensures
        if !bearer_found {
            r matches Err(msg) && msg@ == remint_token_help()
        } else {
            match minted {
                Ok(_) => r == Ok::<Remint, String>(Remint::Reset),
                Err(RunnerError::Auth(why)) => r matches Err(msg) && msg@ == "re-mint rejected: "@
                    + why@ + " — "@ + remint_token_help(),
                Err(_) => r == Ok::<Remint, String>(Remint::Retry),
            }
        },
{
    if !bearer_found {
        return Err(token_help().to_owned());
    }
    match minted {
        Ok(_) => Ok(Remint::Reset),
        Err(RunnerError::Auth(why)) => Err(
            text::cat4("re-mint rejected: ", why.as_str(), " — ", token_help()),
        ),
        Err(_) => Ok(Remint::Retry),
    }
}

/// The result of leaving with a code: only a failed job with a code other
/// than zero is an error. `failure` is how the job's failure displays.
pub fn finish(code: i32, failure: Option<&str>) -> (r: Result<(), String>)
    ensures
        match r {
            Ok(_) => code == 0 || failure is None,
            Err(msg) => {
                &&& code != 0
                &&& failure matches Some(f) && msg@ == "listener: "@ + f@
            },
        },
{
    if code == 0 {
        return Ok(());
    }
    match failure {
        Some(f) => Err(text::cat2("listener: ", f)),
        None => Ok(()),
    }
}

/// What reading a file gave.
#[derive(Debug)]
pub enum Stored<T> {
    /// There is no such file.
    Missing,
    /// It does not parse: how the failure displays.
    Unparsed(String),
    /// What it holds.
    Parsed(T),
}

/// The failure of a file that is not there.
pub open spec fn file_missing(what: Seq<char>, at: Seq<char>) -> Seq<char> {
    what + " not found at "@ + at + " — run `toolu-runner register` first"@
}

fn missing_file(what: &str, at: &str) -> (r: String)
    ensures
        r@ == file_missing(what@, at@),
{
    text::cat4(what, " not found at ", at, " — run `toolu-runner register` first")
}

/// The configuration of a registration, from what its two files gave: both
/// must be there and parse. A missing file comes before one that does not
/// parse, and the configuration before the credentials.
pub fn load_run_config<C, D>(
    config_path: &str,
    config: Stored<C>,
    credentials: Stored<D>,
) -> (r: Result<C, String>)
    ensures
        match (config, credentials) {
            (Stored::Missing, _) => r matches Err(msg) && msg@ == file_missing(
                "config"@,
                config_path@,
            ),
            (_, Stored::Missing) => r matches Err(msg) && msg@ == file_missing(
                "credentials"@,
                cli::credentials_path(config_path@),
            ),
            (Stored::Unparsed(why), _) => r matches Err(msg) && msg@ == why@,
            (_, Stored::Unparsed(why)) => r matches Err(msg) && msg@ == why@,
            (Stored::Parsed(cfg), Stored::Parsed(_)) => r matches Ok(loaded) && loaded == cfg,
        },
{
    match config {
        Stored::Missing => Err(missing_file("config", config_path)),
        Stored::Unparsed(why) => match credentials {
            Stored::Missing => Err(
                missing_file("credentials", cli::credentials_path_for(config_path).as_str()),
            ),
            _ => Err(why),
        },
        Stored::Parsed(cfg) => match credentials {
            Stored::Missing => Err(
                missing_file("credentials", cli::credentials_path_for(config_path).as_str()),
            ),
            Stored::Unparsed(why) => Err(why),
            Stored::Parsed(_) => Ok(cfg),
        },
    }
}

/// The registration blob of a configuration; an empty one is an error.
pub fn require_jit_config(jit_config: &str) -> (r: Result<String, String>)
    ensures
        match r {
            Ok(blob) => jit_config@.len() > 0 && blob@ == jit_config@,
            Err(msg) => jit_config@.len() == 0 && msg@
                == "config.toml has no JIT config blob — re-run `toolu-runner register` against a live GH repo"@,
        },
{
    if jit_config.is_empty() {
        return Err(
            "config.toml has no JIT config blob — re-run `toolu-runner register` against a live GH repo".to_owned(),
        );
    }
    Ok(jit_config.to_owned())
}

/// A runner that goes on after its first job is warned about exactly when no
/// token is stored or it cannot be told; one that runs once never is.
pub proof fn law_warned_only_when_going_on(once: bool, stored: Option<bool>, r: LoginWarning)
    requires
        call_ensures(warn_if_no_login, (once, stored), r),
    ensures
        r == LoginWarning::Nothing <==> once || stored == Some(true),
        r == LoginWarning::NoLogin <==> !once && stored == Some(false),
        r == LoginWarning::Unknown <==> !once && stored is None,
{
}

/// After a job the loop does what was decided: it leaves with that code,
/// registers afresh, or waits. Only success before a fresh registration
/// changes the wait.
pub proof fn law_job_action_is_taken(s: RunLoop, succeeded: bool, action: LoopAction)
    ensures
        action matches LoopAction::Exit(code) ==> after_job(s, succeeded, action).1
            == DriveStep::Exit(code),
        action == LoopAction::Reregister ==> after_job(s, succeeded, action).1
            == DriveStep::Reregister,
        action == LoopAction::BackoffRetry ==> after_job(s, succeeded, action).1 == DriveStep::Wait,
        !succeeded || action != LoopAction::Reregister ==> after_job(s, succeeded, action).0 == s,
{
}

/// A fresh registration that is in place leads to the next job, one that
/// failed to a wait that it does not change.
pub proof fn law_remint_leads_on(s: RunLoop, remint: Remint)
    ensures
        remint == Remint::Reset <==> after_remint(s, remint).1 == DriveStep::RunJob,
        remint == Remint::Retry <==> after_remint(s, remint).1 == DriveStep::Wait,
        remint == Remint::Retry ==> after_remint(s, remint).0 == s,
{
}

/// An interrupted wait ends the loop without an error; a wait that was sat
/// out is followed by a job, and the next wait is twice as long, up to a
/// minute.
pub proof fn law_interrupted_wait_ends_the_loop(s: RunLoop, interrupted: bool)
    ensures
        interrupted ==> after_wait(s, interrupted) == (s, DriveStep::Exit(0)),
        !interrupted ==> after_wait(s, interrupted).1 == DriveStep::RunJob,
        !interrupted && s.backoff_ms <= 30_000 ==> after_wait(s, interrupted).0.backoff_ms
            == 2 * s.backoff_ms,
        !interrupted && s.backoff_ms > 30_000 ==> after_wait(s, interrupted).0.backoff_ms == 60_000,
{
}

/// The loop ends for want of a token, or because the one it has is rejected;
/// any other failure is tried again, and success goes on.
pub proof fn law_only_tokens_end_the_loop(
    bearer_found: bool,
    minted: Result<(), RunnerError>,
    r: Result<Remint, String>,
)
    requires
        call_ensures(reregister, (bearer_found, minted), r),
    ensures
        r is Err <==> !bearer_found || minted matches Err(RunnerError::Auth(_)),
        bearer_found && minted is Ok ==> r == Ok::<Remint, String>(Remint::Reset),
        bearer_found && minted is Err && !(minted matches Err(RunnerError::Auth(_))) ==> r == Ok::<
            Remint,
            String,
        >(Remint::Retry),
{
}

/// Leaving is an error exactly when a job failed and the code is not zero;
/// the error says how the job failed.
pub proof fn law_leaving_with_a_failure(code: i32, failure: Option<&str>, r: Result<(), String>)
    requires
        call_ensures(finish, (code, failure), r),
    ensures
        r is Err <==> code != 0 && failure is Some,
        r matches Err(msg) ==> msg@ == "listener: "@ + failure->0@,
{
}

/// A configuration is loaded exactly when both files are there and parse, and
/// is then what its file holds. A missing configuration is named before
/// missing credentials, and both before a file that does not parse.
pub proof fn law_both_files_are_needed<C, D>(
    config_path: &str,
    config: Stored<C>,
    credentials: Stored<D>,
    r: Result<C, String>,
)
    requires
        call_ensures(load_run_config::<C, D>, (config_path, config, credentials), r),
    ensures
        r is Ok <==> config is Parsed && credentials is Parsed,
        r matches Ok(loaded) ==> config == Stored::Parsed(loaded),
        config is Missing ==> (r matches Err(m) && m@ == "config"@ + " not found at "@ + config_path@
            + " — run `toolu-runner register` first"@),
        !(config is Missing) && credentials is Missing ==> (r matches Err(m) && m@ == "credentials"@
            + " not found at "@ + cli::credentials_path(config_path@)
            + " — run `toolu-runner register` first"@),
        config matches Stored::Unparsed(why) ==> (!(credentials is Missing) ==> (r matches Err(m)
            && m@ == why@)),
        credentials matches Stored::Unparsed(why) ==> (config is Parsed ==> (r matches Err(m) && m@
            == why@)),
{
}

/// A blob that is there is used as it is; only an empty one is refused.
pub proof fn law_blob_must_be_there(jit_config: &str, r: Result<String, String>)
    requires
        call_ensures(require_jit_config, (jit_config,), r),
    ensures
        r is Err <==> jit_config@.len() == 0,
        r matches Ok(blob) ==> blob@ == jit_config@,
{
}

/// The loop takes each step as it should: what a job, a fresh registration
/// and a wait lead to, and the wait that follows.
pub proof fn law_loop_takes_its_steps(
    after: &mut RunLoop,
    succeeded: bool,
    action: LoopAction,
    done: DriveStep,
    fresh: &mut RunLoop,
    remint: Remint,
    reminted: DriveStep,
    waiting: &mut RunLoop,
    interrupted: bool,
    woken: DriveStep,
)
    requires
        call_ensures(RunLoop::job_done, (after, succeeded, action), done),
        call_ensures(RunLoop::reminted, (fresh, remint), reminted),
        call_ensures(RunLoop::waited, (waiting, interrupted), woken),
    ensures
        action matches LoopAction::Exit(code) ==> done == DriveStep::Exit(code),
        action == LoopAction::Reregister ==> done == DriveStep::Reregister,
        action == LoopAction::BackoffRetry ==> done == DriveStep::Wait,
        succeeded && action == LoopAction::Reregister ==> final(after).backoff_ms == 1_000,
        !succeeded ==> final(after).backoff_ms == old(after).backoff_ms,
        remint == Remint::Reset ==> reminted == DriveStep::RunJob && final(fresh).backoff_ms
            == 1_000,
        remint == Remint::Retry ==> reminted == DriveStep::Wait && final(fresh).backoff_ms == old(fresh).backoff_ms,
        interrupted ==> woken == DriveStep::Exit(0),
        !interrupted ==> woken == DriveStep::RunJob,
        !interrupted && old(waiting).backoff_ms <= 30_000 ==> final(waiting).backoff_ms == 2 * old(waiting).backoff_ms,
{
}

} // verus!
