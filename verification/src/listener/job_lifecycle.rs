//! One job, from the first poll to its completion.
//!
//! The loops here alternate network calls with decisions. The caller makes
//! the calls; [`PollLoop`], [`CancelWatch`] and [`JobSession`] decide what
//! comes next.

use vstd::prelude::*;

use crate::backoff;
use crate::backoff::BACKOFF_START;
use crate::error::{RunnerError, RunnerErrorView};
use crate::outside::utf8;
use crate::text;
use crate::types::Conclusion;

verus! {

/// A message of the broker.
#[derive(Debug)]
pub struct BrokerMessage {
    pub message_id: i64,
    pub message_type: String,
    pub body: String,
    /// Initialization vector of an encrypted body.
    pub iv: Option<String>,
}

/// What a message type asks for.
#[derive(Debug, Clone, Copy, PartialEq, Eq, Structural)]
pub enum MessageRoute {
    Migrate,
    AcquireJob,
    Cancel,
}

/// Outcome of a single poll.
#[derive(Debug)]
pub enum PollOutcome {
    /// The broker had no work.
    NoWork,
    /// The broker moved to another address.
    Migrated { url: String, message_id: i64 },
    /// A job to acquire.
    Job(BrokerMessage),
    /// A job to cancel.
    Cancel { msg: BrokerMessage, job_id: String },
    /// A message that could not be decrypted or parsed.
    Skip { message_id: i64 },
    /// The poll failed.
    NetworkError(RunnerError),
    /// The session was cancelled during the poll.
    Cancelled,
}

/// The id of the message that an outcome carries.
pub open spec fn carried_id(outcome: PollOutcome) -> Option<i64> {
    match outcome {
        PollOutcome::Migrated { message_id, .. } => Some(message_id),
        PollOutcome::Skip { message_id } => Some(message_id),
        PollOutcome::Job(msg) => Some(msg.message_id),
        PollOutcome::Cancel { msg, .. } => Some(msg.message_id),
        _ => None,
    }
}

/// The redelivery cursor after an outcome: past the message it carried.
pub open spec fn cursor_after(last: i64, outcome: PollOutcome) -> i64 {
    match carried_id(outcome) {
        Some(id) => id,
        None => last,
    }
}

impl PollOutcome {
    /// The id of the message that the outcome carries, which moves the
    /// redelivery cursor.
    pub fn message_id(&self) -> (r: Option<i64>)
        ensures
            r == carried_id(*self),
    {
        match self {
            PollOutcome::Migrated { message_id, .. } => Some(*message_id),
            PollOutcome::Skip { message_id } => Some(*message_id),
            PollOutcome::Job(msg) => Some(msg.message_id),
            PollOutcome::Cancel { msg, .. } => Some(msg.message_id),
            _ => None,
        }
    }
}

/// How a message counts, given the address or job id parsed from its body.
pub open spec fn classified(
    msg: BrokerMessage,
    route: MessageRoute,
    parsed: Option<String>,
) -> PollOutcome {
    match route {
        MessageRoute::AcquireJob => PollOutcome::Job(msg),
        MessageRoute::Migrate => match parsed {
            Some(url) => PollOutcome::Migrated { url, message_id: msg.message_id },
            None => PollOutcome::Skip { message_id: msg.message_id },
        },
        MessageRoute::Cancel => match parsed {
            Some(job_id) => PollOutcome::Cancel { msg, job_id },
            None => PollOutcome::Skip { message_id: msg.message_id },
        },
    }
}

/// Classifies a decrypted message. `parsed` is the address or job id in its
/// body, if the body parsed. A control message that does not parse is
/// skipped; a job is never dropped.
pub fn classify_message(msg: BrokerMessage, route: MessageRoute, parsed: Option<String>) -> (r:
    PollOutcome)
    ensures
        r == classified(msg, route, parsed),
{
    let message_id: i64 = msg.message_id;
    match route {
        MessageRoute::AcquireJob => PollOutcome::Job(msg),
        MessageRoute::Migrate => match parsed {
            Some(url) => PollOutcome::Migrated { url, message_id },
            None => PollOutcome::Skip { message_id },
        },
        MessageRoute::Cancel => match parsed {
            Some(job_id) => PollOutcome::Cancel { msg, job_id },
            None => PollOutcome::Skip { message_id },
        },
    }
}

/// What came back from one poll.
pub enum PollReply {
    /// The session was cancelled first.
    Cancelled,
    /// No message.
    Empty,
    /// A message with its route, and the address or job id in its body.
    Message { msg: BrokerMessage, route: MessageRoute, parsed: Option<String> },
    /// A message that could not be decrypted.
    Undecryptable { message_id: i64 },
    /// The poll failed.
    Failed(RunnerError),
}

/// The outcome of a reply.
pub open spec fn outcome_of(reply: PollReply) -> PollOutcome {
    match reply {
        PollReply::Cancelled => PollOutcome::Cancelled,
        PollReply::Empty => PollOutcome::NoWork,
        PollReply::Message { msg, route, parsed } => classified(msg, route, parsed),
        PollReply::Undecryptable { message_id } => PollOutcome::Skip { message_id },
        PollReply::Failed(e) => PollOutcome::NetworkError(e),
    }
}

/// The outcome of one poll. A message that cannot be decrypted is skipped,
/// so that one bad message does not block the queue.
pub fn poll_once(reply: PollReply) -> (r: PollOutcome)
    ensures
        r == outcome_of(reply),
{
    match reply {
        PollReply::Cancelled => PollOutcome::Cancelled,
        PollReply::Empty => PollOutcome::NoWork,
        PollReply::Message { msg, route, parsed } => classify_message(msg, route, parsed),
        PollReply::Undecryptable { message_id } => PollOutcome::Skip { message_id },
        PollReply::Failed(e) => PollOutcome::NetworkError(e),
    }
}

/// How a message body is to be read.
pub enum BodyPlan {
    /// As it stands.
    Plain,
    /// Decrypted with this initialization vector.
    Decrypt { iv: String },
}

/// Decides whether a body must be decrypted: only when the session has a
/// key, and then the message must carry an initialization vector.
pub fn plan_body(has_key: bool, iv: Option<String>) -> (r: Result<BodyPlan, RunnerError>)
    ensures
        match r {
            Ok(BodyPlan::Plain) => !has_key,
            Ok(BodyPlan::Decrypt { iv: v }) => has_key && iv == Some(v),
            Err(e) => has_key && iv is None && e@ == RunnerErrorView::Protocol(
                "encrypted broker message missing iv"@,
            ),
        },
{
    if !has_key {
        return Ok(BodyPlan::Plain);
    }
    match iv {
        Some(v) => Ok(BodyPlan::Decrypt { iv: v }),
        None => Err(RunnerError::Protocol("encrypted broker message missing iv".to_owned())),
    }
}

/// A decrypted body as text.
pub fn decrypted_body(plaintext: Vec<u8>) -> (r: Result<String, RunnerError>)
    ensures
        match r {
            Ok(body) => vstd::utf8::encode_utf8(body@) == plaintext@,
            Err(e) => {
                &&& !vstd::utf8::valid_utf8(plaintext@)
                &&& utf8::utf8_fault(plaintext@) matches Some(fault) && e@
                    == RunnerErrorView::Protocol("decrypted broker body not UTF-8: "@ + fault)
            },
        },
{
    match utf8::decode(plaintext) {
        Ok(body) => Ok(body),
        Err(fault) => Err(
            RunnerError::Protocol(
                text::cat2("decrypted broker body not UTF-8: ", fault.as_str()),
            ),
        ),
    }
}

/// The failure of a body that did not parse.
pub fn body_parse_error(what: &str, cause: &str) -> (r: RunnerError)
    ensures
        r@ == RunnerErrorView::Protocol(what@ + " parse: "@ + cause@),
{
    RunnerError::Protocol(text::cat3(what, " parse: ", cause))
}

/// The state of polling for a job.
pub struct PollLoop {
    /// Wait after the next failed poll, in milliseconds.
    pub backoff_ms: u64,
    /// Id of the last message seen; sent with every poll so that the broker
    /// does not serve it again.
    pub last_message_id: i64,
    pub broker_url: String,
}

/// What to do after a poll.
pub enum PollStep {
    /// Poll again at once.
    Again,
    /// Stop: this job is to be run.
    Job(BrokerMessage),
    /// Stop without a job.
    Stop,
    /// Cancel the session and stop without a job.
    CancelSession { job_id: String },
    /// Wait, then say whether the wait was interrupted.
    Backoff(RunnerError),
}

/// The state and the step after a poll.
pub open spec fn after_poll(state: PollLoop, outcome: PollOutcome) -> (PollLoop, PollStep) {
    let moved = PollLoop { last_message_id: cursor_after(state.last_message_id, outcome), ..state };
    let reset = PollLoop { backoff_ms: BACKOFF_START, ..moved };
    match outcome {
        PollOutcome::Cancelled => (moved, PollStep::Stop),
        PollOutcome::NoWork => (reset, PollStep::Again),
        PollOutcome::Skip { .. } => (reset, PollStep::Again),
        PollOutcome::Migrated { url, .. } => (
            PollLoop { broker_url: url, ..reset },
            PollStep::Again,
        ),
        PollOutcome::Job(msg) => (moved, PollStep::Job(msg)),
        PollOutcome::Cancel { job_id, .. } => (moved, PollStep::CancelSession { job_id }),
        PollOutcome::NetworkError(e) => (moved, PollStep::Backoff(e)),
    }
}

impl PollLoop {
    /// Starts polling at `broker_url`.
    pub fn new(broker_url: String) -> (r: PollLoop)
        ensures
            r.backoff_ms == BACKOFF_START,
            r.last_message_id == 0,
            r.broker_url == broker_url,
    {
        PollLoop { backoff_ms: BACKOFF_START, last_message_id: 0, broker_url }
    }

    /// Takes the outcome of a poll.
    pub fn poll_until_job(&mut self, outcome: PollOutcome) -> (r: PollStep)
        ensures
            (*final(self), r) == after_poll(*old(self), outcome),
    {
        match outcome.message_id() {
            Some(id) => {
                self.last_message_id = id;
            },
            None => {},
        }
        match outcome {
            PollOutcome::Cancelled => PollStep::Stop,
            PollOutcome::NoWork => {
                self.backoff_ms = BACKOFF_START;
                PollStep::Again
            },
            PollOutcome::Skip { .. } => {
                self.backoff_ms = BACKOFF_START;
                PollStep::Again
            },
            PollOutcome::Migrated { url, .. } => {
                self.broker_url = url;
                self.backoff_ms = BACKOFF_START;
                PollStep::Again
            },
            PollOutcome::Job(msg) => PollStep::Job(msg),
            PollOutcome::Cancel { msg: _, job_id } => PollStep::CancelSession { job_id },
            PollOutcome::NetworkError(e) => PollStep::Backoff(e),
        }
    }

    /// How long to wait before the next poll, in microseconds.
    pub fn wait_us(&self) -> (r: u128)
        ensures
            self.backoff_ms == 0 ==> r == 0,
            self.backoff_ms > 0 ==> self.backoff_ms * 1000 <= 2 * r && r < self.backoff_ms * 1000,
    {
        backoff::jittered_backoff(self.backoff_ms)
    }

    /// Takes the end of a wait; polling goes on unless it was interrupted.
    pub fn waited(&mut self, interrupted: bool) -> (r: PollStep)
        ensures
            *final(self) == if interrupted {
                *old(self)
            } else {
                PollLoop { backoff_ms: backoff::doubled(old(self).backoff_ms), ..*old(self) }
            },
            r == if interrupted {
                PollStep::Stop
            } else {
                PollStep::Again
            },
    {
        if interrupted {
            return PollStep::Stop;
        }
        self.backoff_ms = backoff::next_backoff(self.backoff_ms);
        PollStep::Again
    }
}

/// Every message that a poll hands over moves the redelivery cursor to it,
/// whatever the message is; an outcome without a message leaves it.
pub proof fn law_cursor_follows_messages(state: PollLoop, outcome: PollOutcome)
    ensures
        after_poll(state, outcome).0.last_message_id == match carried_id(outcome) {
            Some(id) => id,
            None => state.last_message_id,
        },
{
}

/// Polling ends with a job exactly when a job message arrived, and a bad
/// message never ends it.
pub proof fn law_poll_ends(state: PollLoop, outcome: PollOutcome)
    ensures
        (after_poll(state, outcome).1 is Job) <==> (outcome is Job),
        outcome is Skip ==> after_poll(state, outcome).1 is Again,
        outcome is NetworkError ==> after_poll(state, outcome).0.backoff_ms == state.backoff_ms,
        after_poll(state, outcome).1 is Again ==> after_poll(state, outcome).0.backoff_ms
            == BACKOFF_START,
{
}

/// The state of watching for a cancellation while a job runs.
pub struct CancelWatch {
    pub backoff_ms: u64,
    pub last_message_id: i64,
}

/// What the watch does after a poll.
pub enum WatchStep {
    /// Poll again at once.
    Again,
    /// Cancel the job and stop watching.
    CancelJob { job_id: String },
    /// Stop watching.
    Dormant,
    /// Wait, then say whether the wait was interrupted.
    Backoff(RunnerError),
}

/// The state and the step of the watch after a poll. A second job is never
/// taken, and a migration is left to the main loop.
pub open spec fn after_watch(state: CancelWatch, outcome: PollOutcome) -> (CancelWatch, WatchStep) {
    let moved = CancelWatch {
        last_message_id: cursor_after(state.last_message_id, outcome),
        ..state
    };
    let reset = CancelWatch { backoff_ms: BACKOFF_START, ..moved };
    match outcome {
        PollOutcome::Cancel { job_id, .. } => (moved, WatchStep::CancelJob { job_id }),
        PollOutcome::Cancelled => (moved, WatchStep::Dormant),
        PollOutcome::NetworkError(e) => (moved, WatchStep::Backoff(e)),
        _ => (reset, WatchStep::Again),
    }
}

impl CancelWatch {
    /// Starts watching.
    pub fn new() -> (r: CancelWatch)
        ensures
            r == (CancelWatch { backoff_ms: BACKOFF_START, last_message_id: 0 }),
    {
        CancelWatch { backoff_ms: BACKOFF_START, last_message_id: 0 }
    }

    /// Takes the outcome of a poll.
    pub fn watch_step(&mut self, outcome: PollOutcome) -> (r: WatchStep)
        ensures
            (*final(self), r) == after_watch(*old(self), outcome),
    {
        match outcome.message_id() {
            Some(id) => {
                self.last_message_id = id;
            },
            None => {},
        }
        match outcome {
            PollOutcome::Cancel { msg: _, job_id } => WatchStep::CancelJob { job_id },
            PollOutcome::Cancelled => WatchStep::Dormant,
            PollOutcome::NetworkError(e) => WatchStep::Backoff(e),
            _ => {
                self.backoff_ms = BACKOFF_START;
                WatchStep::Again
            },
        }
    }

    /// How long to wait before the next poll, in microseconds.
    pub fn wait_us(&self) -> (r: u128)
        ensures
            self.backoff_ms == 0 ==> r == 0,
            self.backoff_ms > 0 ==> self.backoff_ms * 1000 <= 2 * r && r < self.backoff_ms * 1000,
    {
        backoff::jittered_backoff(self.backoff_ms)
    }

    /// Takes the end of a wait.
    pub fn waited(&mut self, interrupted: bool) -> (r: WatchStep)
        ensures
            *final(self) == if interrupted {
                *old(self)
            } else {
                CancelWatch { backoff_ms: backoff::doubled(old(self).backoff_ms), ..*old(self) }
            },
            r == if interrupted {
                WatchStep::Dormant
            } else {
                WatchStep::Again
            },
    {
        if interrupted {
            return WatchStep::Dormant;
        }
        self.backoff_ms = backoff::next_backoff(self.backoff_ms);
        WatchStep::Again
    }
}

/// The watch cancels a job exactly when a cancellation arrived.
pub proof fn law_watch_cancels_only_on_cancel(state: CancelWatch, outcome: PollOutcome)
    ensures
        (after_watch(state, outcome).1 is CancelJob) <==> (outcome is Cancel),
{
}

/// A job request as the broker sends it.
#[derive(Debug)]
pub struct RunnerJobRequestBody {
    pub runner_request_id: String,
    pub run_service_url: String,
    pub billing_owner_id: Option<String>,
}

/// The request that acquires a job.
#[derive(Debug)]
pub struct AcquireJobRequest {
    pub job_message_id: String,
    pub runner_os: String,
    pub billing_owner_id: Option<String>,
}

/// How an acquired job ended. `S` is the result of one step.
#[derive(Debug)]
pub struct JobOutcome<S> {
    pub conclusion: Conclusion,
    pub job_id: String,
    pub request_id: i64,
    pub step_results: Vec<S>,
    /// The job's own token, when its message carried one.
    pub job_token: Option<String>,
}

/// The request that completes a job. It carries no outputs and no
/// annotations.
#[derive(Debug)]
pub struct CompleteJobRequest<S> {
    pub plan_id: String,
    pub job_id: String,
    pub request_id: i64,
    pub conclusion: Conclusion,
    pub step_results: Vec<S>,
}

/// The outcome of a job whose message did not parse: it is completed as a
/// failure instead of being left hanging.
pub fn unparsed_job<S>() -> (r: JobOutcome<S>)
    ensures
        r.conclusion == Conclusion::Failure,
        r.job_id@ == "unknown"@,
        r.request_id == 0,
        r.step_results@ == Seq::<S>::empty(),
        r.job_token is None,
{
    JobOutcome {
        conclusion: Conclusion::Failure,
        job_id: "unknown".to_owned(),
        request_id: 0,
        step_results: Vec::new(),
        job_token: None,
    }
}

/// The first token when there is one, otherwise the second.
pub open spec fn preferred(first: Option<String>, second: Seq<char>) -> Seq<char> {
    match first {
        Some(t) => t@,
        None => second,
    }
}

/// The token to use: the first when there is one, otherwise the fallback.
pub fn token_or(first: &Option<String>, fallback: &str) -> (r: String)
    ensures
        r@ == preferred(*first, fallback@),
{
    match first {
        Some(t) => t.clone(),
        None => fallback.to_owned(),
    }
}

/// Where a session stands.
#[derive(Debug, Clone, Copy, PartialEq, Eq, Structural)]
pub enum Phase {
    /// Waiting for a job.
    Polling,
    /// The job is being acquired.
    Acquiring,
    /// The job runs.
    Running,
    /// The broker message is being acknowledged.
    Acknowledging,
    /// The job is being completed.
    Completing,
    /// Over.
    Done,
}

/// A session that runs one job.
pub struct JobSession {
    session_token: String,
    phase: Phase,
    run_service_url: String,
    runner_request_id: String,
    plan_id: String,
    rs_token: String,
}

/// A session with its texts.
pub struct JobSessionView {
    pub session_token: Seq<char>,
    pub phase: Phase,
    pub run_service_url: Seq<char>,
    pub runner_request_id: Seq<char>,
    pub plan_id: Seq<char>,
    pub rs_token: Seq<char>,
}

impl View for JobSession {
    type V = JobSessionView;

    closed spec fn view(&self) -> JobSessionView {
        JobSessionView {
            session_token: self.session_token@,
            phase: self.phase,
            run_service_url: self.run_service_url@,
            runner_request_id: self.runner_request_id@,
            plan_id: self.plan_id@,
            rs_token: self.rs_token@,
        }
    }
}

/// The session after a job arrived.
pub open spec fn session_arrived(
    v: JobSessionView,
    run_service_url: Seq<char>,
    runner_request_id: Seq<char>,
) -> JobSessionView {
    JobSessionView { phase: Phase::Acquiring, run_service_url, runner_request_id, ..v }
}

/// The session after the job was acquired.
pub open spec fn session_acquired(
    v: JobSessionView,
    plan_id: Seq<char>,
    run_service_token: Option<String>,
) -> JobSessionView {
    JobSessionView {
        phase: Phase::Running,
        plan_id,
        rs_token: preferred(run_service_token, v.session_token),
        ..v
    }
}

/// The session after the job ran.
pub open spec fn session_ran(v: JobSessionView, job_token: Option<String>) -> JobSessionView {
    JobSessionView {
        phase: Phase::Acknowledging,
        rs_token: preferred(job_token, v.rs_token),
        ..v
    }
}

/// The session after the message was acknowledged.
pub open spec fn session_acknowledged(v: JobSessionView) -> JobSessionView {
    JobSessionView { phase: Phase::Completing, ..v }
}

impl JobSession {
    /// A session that waits for a job.
    pub fn new(session_token: &str) -> (r: JobSession)
        ensures
            r@.session_token == session_token@,
            r@.phase == Phase::Polling,
    {
        JobSession {
            session_token: session_token.to_owned(),
            phase: Phase::Polling,
            run_service_url: String::new(),
            runner_request_id: String::new(),
            plan_id: String::new(),
            rs_token: String::new(),
        }
    }

    /// Where the session stands.
    pub fn phase(&self) -> (r: Phase)
        ensures
            r == self@.phase,
    {
        self.phase
    }

    /// Takes the end of polling: without a job the session is over, with one
    /// it is to be acquired from the run service it names.
    pub fn job_arrived(&mut self, job: Option<RunnerJobRequestBody>, os: &str) -> (r: Option<
        AcquireJobRequest,
    >)
        requires
            old(self)@.phase == Phase::Polling,
        ensures
            match job {
                None => r is None && final(self)@ == (JobSessionView {
                    phase: Phase::Done,
                    ..old(self)@
                }),
                Some(body) => {
                    &&& r matches Some(request) && request.job_message_id@
                        == body.runner_request_id@ && request.runner_os@ == os@
                        && request.billing_owner_id == body.billing_owner_id
                    &&& final(self)@ == session_arrived(
                        old(self)@,
                        body.run_service_url@,
                        body.runner_request_id@,
                    )
                },
            },
    {
        match job {
            None => {
                self.phase = Phase::Done;
                None
            },
            Some(body) => {
                self.phase = Phase::Acquiring;
                self.run_service_url = body.run_service_url;
                self.runner_request_id = body.runner_request_id.clone();
                Some(
                    AcquireJobRequest {
                        job_message_id: body.runner_request_id,
                        runner_os: os.to_owned(),
                        billing_owner_id: body.billing_owner_id,
                    },
                )
            },
        }
    }

    /// Takes the acquired job; it runs with the token that came with it, or
    /// with the session's.
    pub fn acquired(&mut self, plan_id: String, run_service_token: Option<String>)
        requires
            old(self)@.phase == Phase::Acquiring,
        ensures
            final(self)@ == session_acquired(old(self)@, plan_id@, run_service_token),
    {
        let token = token_or(&run_service_token, self.session_token.as_str());
        self.phase = Phase::Running;
        self.plan_id = plan_id;
        self.rs_token = token;
    }

    /// Takes the end of the job, and prepares its completion: with the job's
    /// own token when there is one. The broker message, named by the request
    /// id that is returned, is to be acknowledged first.
    pub fn ran<S>(&mut self, outcome: JobOutcome<S>) -> (r: (String, CompleteJobRequest<S>))
        requires
            old(self)@.phase == Phase::Running,
        ensures
            r.0@ == old(self)@.runner_request_id,
            r.1.plan_id@ == old(self)@.plan_id,
            r.1.job_id == outcome.job_id,
            r.1.request_id == outcome.request_id,
            r.1.conclusion == outcome.conclusion,
            r.1.step_results == outcome.step_results,
            final(self)@ == session_ran(old(self)@, outcome.job_token),
    {
        let token = token_or(&outcome.job_token, self.rs_token.as_str());
        self.phase = Phase::Acknowledging;
        self.rs_token = token;
        (
            self.runner_request_id.clone(),
            CompleteJobRequest {
                plan_id: self.plan_id.clone(),
                job_id: outcome.job_id,
                request_id: outcome.request_id,
                conclusion: outcome.conclusion,
                step_results: outcome.step_results,
            },
        )
    }

    /// Takes that the message was acknowledged: the job is to be completed
    /// at the address and with the token returned.
    pub fn acknowledged(&mut self) -> (r: (String, String))
        requires
            old(self)@.phase == Phase::Acknowledging,
        ensures
            r.0@ == old(self)@.run_service_url,
            r.1@ == old(self)@.rs_token,
            final(self)@ == session_acknowledged(old(self)@),
    {
        self.phase = Phase::Completing;
        (self.run_service_url.clone(), self.rs_token.clone())
    }

    /// Takes that the job was completed, or that a request failed; either
    /// way the session is over.
    pub fn finish(&mut self)
        ensures
            final(self)@ == (JobSessionView { phase: Phase::Done, ..old(self)@ }),
    {
        self.phase = Phase::Done;
    }
}

/// What is completed is what was acquired: the job is acknowledged under the
/// request it arrived with, and only then completed, under the plan it was
/// acquired with, at the service that it named. The job's own token wins
/// over the one that came with acquiring it, and that over the session's.
pub proof fn law_completion_matches_acquisition(
    start: JobSessionView,
    run_service_url: Seq<char>,
    runner_request_id: Seq<char>,
    plan_id: Seq<char>,
    run_service_token: Option<String>,
    job_token: Option<String>,
)
    ensures
        ({
            let ran = session_ran(
                session_acquired(
                    session_arrived(start, run_service_url, runner_request_id),
                    plan_id,
                    run_service_token,
                ),
                job_token,
            );
            let end = session_acknowledged(ran);
            &&& ran.phase == Phase::Acknowledging
            &&& ran.runner_request_id == runner_request_id
            &&& ran.plan_id == plan_id
            &&& end.phase == Phase::Completing
            &&& end.run_service_url == run_service_url
            &&& end.rs_token == preferred(
                job_token,
                preferred(run_service_token, start.session_token),
            )
        }),
{
}

/// What the service endpoints of a job message say about authentication.
#[derive(Debug)]
pub struct Endpoint {
    pub name: String,
    pub authorization: Option<Authorization>,
}

/// The authorization of an endpoint: its scheme and the names of its
/// parameters.
#[derive(Debug)]
pub struct Authorization {
    pub scheme: String,
    pub parameter_names: Vec<String>,
}

/// Why a job message has no usable token.
#[derive(Debug)]
pub struct TokenDiagnosis {
    pub endpoint_found: bool,
    pub auth_scheme: String,
    pub auth_keys: Vec<String>,
}

/// The first endpoint with the system connection's name, in any letter case.
pub open spec fn system_endpoint(endpoints: Seq<Endpoint>) -> Option<Endpoint>
    decreases endpoints.len(),
{
    if endpoints.len() == 0 {
        None
    } else if text::lower(endpoints[0].name@) == text::lower("SystemVssConnection"@) {
        Some(endpoints[0])
    } else {
        system_endpoint(endpoints.drop_first())
    }
}

/// Says why no token was found: whether the system connection is there, and
/// what authorization it has.
pub fn diagnose_missing_token(endpoints: &Vec<Endpoint>) -> (r: TokenDiagnosis)
    ensures
        match system_endpoint(endpoints@) {
            None => !r.endpoint_found && r.auth_scheme@ == "<none>"@ && r.auth_keys@.len() == 0,
            Some(e) => r.endpoint_found && match e.authorization {
                None => r.auth_scheme@ == "<none>"@ && r.auth_keys@.len() == 0,
                Some(a) => r.auth_scheme@ == a.scheme@ && text::texts(r.auth_keys@) == text::texts(
                    a.parameter_names@,
                ),
            },
        },
{
    let mut i: usize = 0;
    assert(endpoints@.skip(0) =~= endpoints@);
    while i < endpoints.len()
        invariant
            i <= endpoints@.len(),
            system_endpoint(endpoints@) == system_endpoint(endpoints@.skip(i as int)),
        decreases endpoints@.len() - i,
    {
        assert(endpoints@.skip(i as int)[0] == endpoints@[i as int]);
        if text::same_ignoring_case(endpoints[i].name.as_str(), "SystemVssConnection") {
            return match &endpoints[i].authorization {
                None => TokenDiagnosis {
                    endpoint_found: true,
                    auth_scheme: "<none>".to_owned(),
                    auth_keys: Vec::new(),
                },
                Some(a) => TokenDiagnosis {
                    endpoint_found: true,
                    auth_scheme: a.scheme.clone(),
                    auth_keys: text::copy_texts(&a.parameter_names),
                },
            };
        }
        assert(endpoints@.skip(i as int).drop_first() =~= endpoints@.skip(i + 1));
        i = i + 1;
    }
    TokenDiagnosis {
        endpoint_found: false,
        auth_scheme: "<none>".to_owned(),
        auth_keys: Vec::new(),
    }
}

/// A job is never dropped: a message on the acquire-job route is handed over
/// as that very job, whatever was parsed of it, and polling stops with it.
pub proof fn law_job_message_is_taken(
    state: PollLoop,
    msg: BrokerMessage,
    parsed: Option<String>,
    r: PollOutcome,
)
    requires
        call_ensures(
            poll_once,
            (PollReply::Message { msg, route: MessageRoute::AcquireJob, parsed },),
            r,
        ) || call_ensures(classify_message, (msg, MessageRoute::AcquireJob, parsed), r),
    ensures
        r == PollOutcome::Job(msg),
        after_poll(state, r).1 == PollStep::Job(msg),
        after_poll(state, r).0.last_message_id == msg.message_id,
{
}

/// A message that could be read is skipped only when it is a control message
/// of which nothing was parsed; a control message that was parsed acts on
/// what was parsed.
pub proof fn law_only_unparsed_control_is_skipped(
    msg: BrokerMessage,
    route: MessageRoute,
    parsed: Option<String>,
    r: PollOutcome,
)
    requires
        call_ensures(poll_once, (PollReply::Message { msg, route, parsed },), r) || call_ensures(
            classify_message,
            (msg, route, parsed),
            r,
        ),
    ensures
        r is Skip <==> route != MessageRoute::AcquireJob && parsed is None,
        r is Skip ==> r == (PollOutcome::Skip { message_id: msg.message_id }),
        r is Migrated <==> route == MessageRoute::Migrate && parsed is Some,
        r is Migrated ==> r == (PollOutcome::Migrated {
            url: parsed->0,
            message_id: msg.message_id,
        }),
        r is Cancel <==> route == MessageRoute::Cancel && parsed is Some,
        r is Cancel ==> r == (PollOutcome::Cancel { msg, job_id: parsed->0 }),
        !(r is NoWork || r is NetworkError || r is Cancelled),
{
}

/// A poll without a readable message says so: nothing there is no work, a
/// failure is kept, a cancelled session is cancelled, and a message that
/// cannot be decrypted is skipped under its own id.
pub proof fn law_poll_without_message(id: i64, failure: RunnerError, r: PollOutcome)
    ensures
        call_ensures(poll_once, (PollReply::Empty,), r) ==> r == PollOutcome::NoWork,
        call_ensures(poll_once, (PollReply::Cancelled,), r) ==> r == PollOutcome::Cancelled,
        call_ensures(poll_once, (PollReply::Failed(failure),), r) ==> r
            == PollOutcome::NetworkError(failure),
        call_ensures(poll_once, (PollReply::Undecryptable { message_id: id },), r) ==> r == (
        PollOutcome::Skip { message_id: id }),
{
}

/// An outcome carries the id of the message it is about, and one without a
/// message carries none.
pub proof fn law_outcome_carries_its_message(
    msg: BrokerMessage,
    text: String,
    id: i64,
    failure: RunnerError,
)
    ensures
        carried_id(PollOutcome::Job(msg)) == Some(msg.message_id),
        carried_id(PollOutcome::Cancel { msg, job_id: text }) == Some(msg.message_id),
        carried_id(PollOutcome::Migrated { url: text, message_id: id }) == Some(id),
        carried_id(PollOutcome::Skip { message_id: id }) == Some(id),
        carried_id(PollOutcome::NoWork) is None,
        carried_id(PollOutcome::NetworkError(failure)) is None,
        carried_id(PollOutcome::Cancelled) is None,
{
}

/// After a poll: a migration moves the address to the one it names, and
/// nothing else moves it; a cancellation names its job; a cancelled session
/// stops; a failure waits; and everything else polls again.
pub proof fn law_poll_steps(state: PollLoop, outcome: PollOutcome)
    ensures
        after_poll(state, outcome).0.broker_url == match outcome {
            PollOutcome::Migrated { url, .. } => url,
            _ => state.broker_url,
        },
        outcome matches PollOutcome::Job(msg) ==> after_poll(state, outcome).1 == PollStep::Job(msg),
        outcome matches PollOutcome::Cancel { job_id, .. } ==> after_poll(state, outcome).1 == (
        PollStep::CancelSession { job_id }),
        outcome matches PollOutcome::NetworkError(e) ==> after_poll(state, outcome).1
            == PollStep::Backoff(e),
        after_poll(state, outcome).1 is Stop <==> outcome is Cancelled,
        after_poll(state, outcome).1 is Again <==> (outcome is NoWork || outcome is Skip || outcome
            is Migrated),
        !(after_poll(state, outcome).1 is Again) ==> after_poll(state, outcome).0.backoff_ms
            == state.backoff_ms,
{
}

/// While a job runs, the watch cancels exactly the job that a cancellation
/// names, sleeps once the session is cancelled, waits after a failure, and
/// polls again with a fresh wait after anything else; its cursor follows
/// every message.
pub proof fn law_watch_steps(state: CancelWatch, outcome: PollOutcome)
    ensures
        outcome matches PollOutcome::Cancel { job_id, .. } ==> after_watch(state, outcome).1 == (
        WatchStep::CancelJob { job_id }),
        outcome matches PollOutcome::NetworkError(e) ==> after_watch(state, outcome).1
            == WatchStep::Backoff(e),
        after_watch(state, outcome).1 is Dormant <==> outcome is Cancelled,
        after_watch(state, outcome).1 is Again <==> (outcome is NoWork || outcome is Skip || outcome
            is Migrated || outcome is Job),
        after_watch(state, outcome).1 is Again ==> after_watch(state, outcome).0.backoff_ms
            == BACKOFF_START,
        !(after_watch(state, outcome).1 is Again) ==> after_watch(state, outcome).0.backoff_ms
            == state.backoff_ms,
        after_watch(state, outcome).0.last_message_id == match outcome {
            PollOutcome::Job(msg) => msg.message_id,
            PollOutcome::Cancel { msg, .. } => msg.message_id,
            PollOutcome::Migrated { message_id, .. } => message_id,
            PollOutcome::Skip { message_id } => message_id,
            _ => state.last_message_id,
        },
{
}

/// A token that is there is used, whatever the fallback; only without one is
/// the fallback used.
pub proof fn law_first_token_wins(first: Option<String>, fallback: &str, r: String)
    requires
        call_ensures(token_or, (&first, fallback), r),
    ensures
        first matches Some(t) ==> r@ == t@,
        first is None ==> r@ == fallback@,
{
}

/// A body is decrypted exactly when the session has a key, with the vector
/// of its message; without the vector it cannot be read.
pub proof fn law_key_means_decryption(
    has_key: bool,
    iv: Option<String>,
    r: Result<BodyPlan, RunnerError>,
)
    requires
        call_ensures(plan_body, (has_key, iv), r),
    ensures
        !has_key ==> r matches Ok(BodyPlan::Plain),
        has_key && iv is Some ==> (r matches Ok(BodyPlan::Decrypt { iv: v }) && v == iv->0),
        has_key && iv is None ==> r is Err,
{
}

/// Each stage of a session keeps everything that it does not set, and the
/// session's own token is used when no other came.
pub proof fn law_session_keeps_its_parts(
    v: JobSessionView,
    url: Seq<char>,
    request: Seq<char>,
    plan: Seq<char>,
    token: String,
)
    ensures
        session_arrived(v, url, request).phase == Phase::Acquiring,
        session_arrived(v, url, request).session_token == v.session_token,
        session_arrived(v, url, request).run_service_url == url,
        session_arrived(v, url, request).runner_request_id == request,
        session_acquired(v, plan, None).phase == Phase::Running,
        session_acquired(v, plan, None).plan_id == plan,
        session_acquired(v, plan, None).rs_token == v.session_token,
        session_acquired(v, plan, Some(token)).rs_token == token@,
        session_acquired(v, plan, None).run_service_url == v.run_service_url,
        session_acquired(v, plan, None).runner_request_id == v.runner_request_id,
        session_ran(v, None).rs_token == v.rs_token,
        session_ran(v, Some(token)).rs_token == token@,
        session_ran(v, None).plan_id == v.plan_id,
        session_ran(v, None).run_service_url == v.run_service_url,
        session_ran(v, None).runner_request_id == v.runner_request_id,
        session_acknowledged(v).run_service_url == v.run_service_url,
        session_acknowledged(v).rs_token == v.rs_token,
{
}

/// The diagnosis of a missing token is about the first endpoint whose name
/// is that of the system connection in any letter case, and names its
/// authorization; without such an endpoint, nothing is found.
pub proof fn law_system_endpoint_is_first(endpoints: Seq<Endpoint>, i: int)
    requires
        0 <= i < endpoints.len(),
        forall|k: int|
            0 <= k < i ==> text::lower((#[trigger] endpoints[k]).name@) != text::lower(
                "SystemVssConnection"@,
            ),
    ensures
        text::lower(endpoints[i].name@) == text::lower("SystemVssConnection"@) ==> system_endpoint(
            endpoints,
        ) == Some(endpoints[i]),
        text::lower(endpoints[i].name@) != text::lower("SystemVssConnection"@) && i + 1
            == endpoints.len() ==> system_endpoint(endpoints) is None,
        system_endpoint(seq![]) is None,
    decreases endpoints.len(),
{
    if i > 0 {
        let rest = endpoints.drop_first();
        assert forall|k: int| 0 <= k < i - 1 implies text::lower((#[trigger] rest[k]).name@)
            != text::lower("SystemVssConnection"@) by {
            assert(rest[k] == endpoints[k + 1]);
        }
        assert(rest[i - 1] == endpoints[i]);
        assert(text::lower(endpoints[0].name@) != text::lower("SystemVssConnection"@));
        law_system_endpoint_is_first(rest, i - 1);
    } else if endpoints.len() == 1 {
        assert(system_endpoint(endpoints.drop_first()) is None);
    }
}

/// The diagnosis of a missing token says whether there is a system
/// connection, and the scheme and parameters of its authorization.
pub proof fn law_diagnosis_is_of_system_endpoint(endpoints: Vec<Endpoint>, i: int, r: TokenDiagnosis)
    requires
        call_ensures(diagnose_missing_token, (&endpoints,), r),
        0 <= i < endpoints@.len(),
        text::lower(endpoints@[i].name@) == text::lower("SystemVssConnection"@),
        forall|k: int|
            0 <= k < i ==> text::lower((#[trigger] endpoints@[k]).name@) != text::lower(
                "SystemVssConnection"@,
            ),
    ensures
        r.endpoint_found,
        endpoints@[i].authorization matches Some(a) ==> r.auth_scheme@ == a.scheme@
            && r.auth_keys@.len() == a.parameter_names@.len() && forall|k: int|
            0 <= k < a.parameter_names@.len() ==> (#[trigger] r.auth_keys@[k])@
                == a.parameter_names@[k]@,
        endpoints@[i].authorization is None ==> r.auth_scheme@ == "<none>"@ && r.auth_keys@.len()
            == 0,
{
    law_system_endpoint_is_first(endpoints@, i);
    match endpoints@[i].authorization {
        Some(a) => {
            let keys = text::texts(r.auth_keys@);
            let names = text::texts(a.parameter_names@);
            assert(keys.len() == r.auth_keys@.len() && names.len() == a.parameter_names@.len());
            assert forall|k: int| 0 <= k < a.parameter_names@.len() implies (
            #[trigger] r.auth_keys@[k])@ == a.parameter_names@[k]@ by {
                assert(keys[k] == r.auth_keys@[k]@ && names[k] == a.parameter_names@[k]@);
            }
        },
        None => {},
    }
}

/// A wait that was interrupted ends polling, and watching, without changing
/// the wait; one that was sat out goes on, and the next is twice as long, up
/// to a minute.
pub proof fn law_waits_grow(
    polling: &mut PollLoop,
    watching: &mut CancelWatch,
    interrupted: bool,
    step: PollStep,
    watch: WatchStep,
)
    requires
        call_ensures(PollLoop::waited, (polling, interrupted), step),
        call_ensures(CancelWatch::waited, (watching, interrupted), watch),
    ensures
        interrupted <==> step is Stop,
        !interrupted <==> step is Again,
        interrupted <==> watch is Dormant,
        !interrupted <==> watch is Again,
        interrupted ==> *final(polling) == *old(polling) && *final(watching) == *old(watching),
        !interrupted && old(polling).backoff_ms <= 30_000 ==> final(polling).backoff_ms == 2 * old(polling).backoff_ms,
        !interrupted && old(polling).backoff_ms > 30_000 ==> final(polling).backoff_ms == 60_000,
        !interrupted && old(watching).backoff_ms <= 30_000 ==> final(watching).backoff_ms == 2
            * old(watching).backoff_ms,
        !interrupted && old(watching).backoff_ms > 30_000 ==> final(watching).backoff_ms == 60_000,
        final(polling).last_message_id == old(polling).last_message_id,
        final(polling).broker_url == old(polling).broker_url,
        final(watching).last_message_id == old(watching).last_message_id,
{
}

/// Taking the outcome of a poll stops with a job exactly for that job, and
/// with a cancelled job exactly for that cancellation.
pub proof fn law_polling_takes_the_outcome(
    polling: &mut PollLoop,
    watching: &mut CancelWatch,
    outcome: PollOutcome,
    step: PollStep,
    watch: WatchStep,
)
    requires
        call_ensures(PollLoop::poll_until_job, (polling, outcome), step),
        call_ensures(CancelWatch::watch_step, (watching, outcome), watch),
    ensures
        outcome matches PollOutcome::Job(msg) ==> step == PollStep::Job(msg)
            && final(polling).last_message_id == msg.message_id && watch is Again,
        step is Job ==> outcome is Job,
        outcome matches PollOutcome::Cancel { msg, job_id } ==> step == (PollStep::CancelSession {
            job_id,
        }) && watch == (WatchStep::CancelJob { job_id }) && final(watching).last_message_id
            == msg.message_id,
        outcome matches PollOutcome::Migrated { url, message_id } ==> final(polling).broker_url
            == url && final(polling).last_message_id == message_id && step is Again,
        !(outcome is Migrated) ==> final(polling).broker_url == old(polling).broker_url,
        outcome is Cancelled ==> step is Stop && watch is Dormant,
{
}

/// Polling starts at the address given, with nothing seen and the shortest
/// wait; so does watching.
pub proof fn law_polling_starts_afresh(url: String, polling: PollLoop, watching: CancelWatch)
    requires
        call_ensures(PollLoop::new, (url,), polling),
        call_ensures(CancelWatch::new, (), watching),
    ensures
        polling.broker_url@ == url@,
        polling.last_message_id == 0,
        polling.backoff_ms == 1_000,
        watching.last_message_id == 0,
        watching.backoff_ms == 1_000,
{
}

/// A job that arrives is acquired under its own request and owner; without
/// one the session is over.
pub proof fn law_arrived_job_is_acquired(
    session: &mut JobSession,
    job: Option<RunnerJobRequestBody>,
    os: &str,
    r: Option<AcquireJobRequest>,
)
    requires
        call_ensures(JobSession::job_arrived, (session, job, os), r),
    ensures
        r is Some <==> job is Some,
        job is None ==> final(session)@.phase == Phase::Done,
        job matches Some(body) ==> {
            &&& r->0.job_message_id@ == body.runner_request_id@
            &&& r->0.runner_os@ == os@
            &&& r->0.billing_owner_id == body.billing_owner_id
            &&& final(session)@.phase == Phase::Acquiring
            &&& final(session)@.run_service_url == body.run_service_url@
            &&& final(session)@.runner_request_id == body.runner_request_id@
        },
        final(session)@.session_token == old(session)@.session_token,
{
}

/// What ran is completed as it ended, under the plan and request of the
/// session, and then at its service with its token.
pub proof fn law_ended_job_is_completed<S>(
    running: &mut JobSession,
    outcome: JobOutcome<S>,
    r: (String, CompleteJobRequest<S>),
    acknowledging: &mut JobSession,
    target: (String, String),
)
    requires
        call_ensures(JobSession::ran::<S>, (running, outcome), r),
        call_ensures(JobSession::acknowledged, (acknowledging,), target),
    ensures
        r.0@ == old(running)@.runner_request_id,
        r.1.plan_id@ == old(running)@.plan_id,
        r.1.job_id@ == outcome.job_id@,
        r.1.request_id == outcome.request_id,
        r.1.conclusion == outcome.conclusion,
        r.1.step_results@ == outcome.step_results@,
        final(running)@.phase == Phase::Acknowledging,
        outcome.job_token matches Some(t) ==> final(running)@.rs_token == t@,
        outcome.job_token is None ==> final(running)@.rs_token == old(running)@.rs_token,
        target.0@ == old(acknowledging)@.run_service_url,
        target.1@ == old(acknowledging)@.rs_token,
        final(acknowledging)@.phase == Phase::Completing,
{
}

/// A job whose message did not parse is completed as a failure.
pub proof fn law_unparsed_job_failed<S>(r: JobOutcome<S>)
    requires
        call_ensures(unparsed_job::<S>, (), r),
    ensures
        r.conclusion == Conclusion::Failure,
        r.job_id@ == "unknown"@,
        r.request_id == 0,
        r.step_results@.len() == 0,
        r.job_token is None,
{
}

/// A decrypted body is its bytes read as text; bytes that are no text are
/// refused.
pub proof fn law_decrypted_body_is_its_text(
    plaintext: Vec<u8>,
    r: Result<String, RunnerError>,
)
    requires
        call_ensures(decrypted_body, (plaintext,), r),
    ensures
        r matches Ok(body) ==> vstd::utf8::encode_utf8(body@) == plaintext@,
        vstd::utf8::valid_utf8(plaintext@) ==> r is Ok,
        r matches Err(e) ==> e@ is Protocol,
{
}

} // verus!
