//! Waiting for a step's process within its time limit.

use vstd::prelude::*;

use crate::text;

verus! {

/// How long a killed process is waited for, in seconds.
pub const REAP_GRACE_SECS: u64 = 10;

/// The limits of a step.
#[derive(Debug, Clone, Copy, PartialEq, Eq, Structural)]
pub struct StepBounds {
    /// Time limit in seconds; none when there is no limit.
    pub timeout_secs: Option<u64>,
}

/// The time limit that `timeout-minutes` states, in seconds: zero minutes
/// are no limit.
pub open spec fn limit_secs(minutes: Option<u32>) -> Option<u64> {
    match minutes {
        Some(m) => if m > 0 {
            Some((m * 60) as u64)
        } else {
            None
        },
        None => None,
    }
}

/// The time limit that `timeout-minutes` states, in seconds.
pub fn timeout_duration(minutes: Option<u32>) -> (r: Option<u64>)
    ensures
        r == limit_secs(minutes),
{
    match minutes {
        Some(m) => if m > 0 {
            Some(m as u64 * 60)
        } else {
            None
        },
        None => None,
    }
}

impl StepBounds {
    /// The limits of a step.
    pub fn new(timeout_minutes: Option<u32>) -> (r: StepBounds)
        ensures
            r.timeout_secs == limit_secs(timeout_minutes),
    {
        StepBounds { timeout_secs: timeout_duration(timeout_minutes) }
    }
}

/// What ended the wait for a process; `S` is its exit status.
pub enum WaitEvent<S> {
    /// The process ended, or waiting for it failed.
    Ended(Result<S, String>),
    /// The time limit was reached; the process was killed.
    Elapsed(Reap),
    /// The job was cancelled; the process was killed.
    Cancelled(Reap),
}

/// What became of a killed process.
pub enum Reap {
    Reaped,
    /// Waiting for it failed.
    Failed(String),
    /// It did not end within the grace, and is given up.
    Abandoned,
}

/// How a bounded wait came out.
#[derive(Debug, PartialEq, Eq)]
pub enum WaitOutcome<S> {
    Exited(S),
    TimedOut,
    Cancelled,
}

/// Whether killing a process went well enough.
pub fn kill_and_reap(reap: Reap) -> (r: Result<(), String>)
    ensures
        match reap {
            Reap::Failed(cause) => r matches Err(msg) && msg@ == "reap after kill failed: "@
                + cause@,
            _ => r is Ok,
        },
{
    match reap {
        Reap::Failed(cause) => Err(text::cat2("reap after kill failed: ", cause.as_str())),
        _ => Ok(()),
    }
}

/// How the wait came out, or the message of its failure.
pub fn wait_bounded<S>(event: WaitEvent<S>) -> (r: Result<WaitOutcome<S>, String>)
    ensures
        match event {
            WaitEvent::Ended(Ok(status)) => r == Ok::<WaitOutcome<S>, String>(
                WaitOutcome::Exited(status),
            ),
            WaitEvent::Ended(Err(cause)) => r matches Err(msg) && msg@ == "wait failed: "@ + cause@,
            WaitEvent::Elapsed(Reap::Failed(cause)) => r matches Err(msg) && msg@
                == "reap after kill failed: "@ + cause@,
            WaitEvent::Cancelled(Reap::Failed(cause)) => r matches Err(msg) && msg@
                == "reap after kill failed: "@ + cause@,
            WaitEvent::Elapsed(_) => r == Ok::<WaitOutcome<S>, String>(WaitOutcome::TimedOut),
            WaitEvent::Cancelled(_) => r == Ok::<WaitOutcome<S>, String>(WaitOutcome::Cancelled),
        },
{
    match event {
        WaitEvent::Ended(Ok(status)) => Ok(WaitOutcome::Exited(status)),
        WaitEvent::Ended(Err(cause)) => Err(text::cat2("wait failed: ", cause.as_str())),
        WaitEvent::Elapsed(reap) => match kill_and_reap(reap) {
            Err(msg) => Err(msg),
            Ok(_) => Ok(WaitOutcome::TimedOut),
        },
        WaitEvent::Cancelled(reap) => match kill_and_reap(reap) {
            Err(msg) => Err(msg),
            Ok(_) => Ok(WaitOutcome::Cancelled),
        },
    }
}

/// A limit is sixty seconds for each minute; no minutes, and zero minutes,
/// are no limit.
pub proof fn law_minute_is_sixty_seconds(
    minutes: Option<u32>,
    r: Option<u64>,
    bounds: StepBounds,
)
    requires
        call_ensures(timeout_duration, (minutes,), r),
        call_ensures(StepBounds::new, (minutes,), bounds),
    ensures
        r is Some <==> minutes is Some && minutes->0 > 0,
        r matches Some(secs) ==> secs == 60 * minutes->0,
        bounds.timeout_secs == r,
{
}

/// A process that ended is reported with its status, one past its limit as
/// timed out, one of a cancelled job as cancelled; a killed process that is
/// given up is no failure, but a failed wait is.
pub proof fn law_wait_is_reported_as_it_ended<S>(event: WaitEvent<S>, r: Result<WaitOutcome<S>, String>)
    requires
        call_ensures(wait_bounded::<S>, (event,), r),
    ensures
        event matches WaitEvent::Ended(Ok(status)) ==> (r matches Ok(WaitOutcome::Exited(s)) && s
            == status),
        (r matches Ok(WaitOutcome::TimedOut)) <==> (event matches WaitEvent::Elapsed(reap)
            && !(reap is Failed)),
        (r matches Ok(WaitOutcome::Cancelled)) <==> (event matches WaitEvent::Cancelled(reap)
            && !(reap is Failed)),
        r is Err <==> (event matches WaitEvent::Ended(Err(_))) || (event matches WaitEvent::Elapsed(
            Reap::Failed(_),
        )) || (event matches WaitEvent::Cancelled(Reap::Failed(_))),
        event matches WaitEvent::Ended(Err(cause)) ==> (r matches Err(m) && m@ == "wait failed: "@
            + cause@),
{
}

/// Killing a process fails only when waiting for its end does.
pub proof fn law_given_up_process_is_no_failure(reap: Reap, r: Result<(), String>)
    requires
        call_ensures(kill_and_reap, (reap,), r),
    ensures
        r is Err <==> reap is Failed,
        reap matches Reap::Failed(cause) ==> (r matches Err(m) && m@ == "reap after kill failed: "@
            + cause@),
{
}

} // verus!
