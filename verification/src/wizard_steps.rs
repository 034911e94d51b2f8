//! The stages of the guided setup: log in, register, install, verify.
//!
//! The caller does the work of a stage; the functions here decide which
//! stage is next, what is reported, and what failures say.

use vstd::prelude::*;

use crate::error::{RunnerError, RunnerErrorView};
use crate::number;
use crate::order;
use crate::outside::utf8;
use crate::path;
use crate::register_cmd::BearerDecision;
use crate::service_cmd;
use crate::text;
use crate::types;
use crate::types::{CommandLine, CommandView};

verus! {

/// Most polls for the runner's sign of life, one per second.
pub const VERIFY_POLL_SECS: usize = 15;

/// How much of a log's end is looked at, in bytes.
pub const LOG_TAIL_BYTES: usize = 65_536;

/// The log line that a runner writes once it waits for jobs.
pub open spec fn online_marker() -> Seq<char> {
    "long-polling for jobs"@
}

/// A stage of the setup.
#[derive(Debug, Clone, Copy, PartialEq, Eq, Structural)]
pub enum StepId {
    Auth,
    Register,
    Install,
    Verify,
}

/// A report on a stage.
#[derive(Debug)]
pub enum StepEvent {
    Started(StepId),
    Skipped { step: StepId, reason: String },
    DeviceCode { user_code: String, verification_uri: String },
    Done { step: StepId, summary: String },
    Failed { step: StepId, error: String },
}

/// A report with its texts.
pub enum StepEventView {
    Started(StepId),
    Skipped { step: StepId, reason: Seq<char> },
    DeviceCode { user_code: Seq<char>, verification_uri: Seq<char> },
    Done { step: StepId, summary: Seq<char> },
    Failed { step: StepId, error: Seq<char> },
}

impl View for StepEvent {
    type V = StepEventView;

    open spec fn view(&self) -> StepEventView {
        match self {
            StepEvent::Started(step) => StepEventView::Started(*step),
            StepEvent::Skipped { step, reason } => StepEventView::Skipped {
                step: *step,
                reason: reason@,
            },
            StepEvent::DeviceCode { user_code, verification_uri } => StepEventView::DeviceCode {
                user_code: user_code@,
                verification_uri: verification_uri@,
            },
            StepEvent::Done { step, summary } => StepEventView::Done {
                step: *step,
                summary: summary@,
            },
            StepEvent::Failed { step, error } => StepEventView::Failed {
                step: *step,
                error: error@,
            },
        }
    }
}

/// Where the pipeline stands.
#[derive(Debug, Clone, Copy, PartialEq, Eq, Structural)]
pub enum Pipeline {
    At(StepId),
    /// All stages were done or skipped.
    Finished,
    /// The stage failed; no later one runs.
    Stopped(StepId),
}

/// The pipeline after a stage.
pub open spec fn pipeline_after(p: Pipeline, ok: bool) -> Pipeline {
    match p {
        Pipeline::At(step) => if !ok {
            Pipeline::Stopped(step)
        } else {
            match step {
                StepId::Auth => Pipeline::At(StepId::Register),
                StepId::Register => Pipeline::At(StepId::Install),
                StepId::Install => Pipeline::At(StepId::Verify),
                StepId::Verify => Pipeline::Finished,
            }
        },
        _ => p,
    }
}

/// Takes the end of a stage.
pub fn run_pipeline(p: Pipeline, ok: bool) -> (r: Pipeline)
    ensures
        r == pipeline_after(p, ok),
{
    match p {
        Pipeline::At(step) => if !ok {
            Pipeline::Stopped(step)
        } else {
            match step {
                StepId::Auth => Pipeline::At(StepId::Register),
                StepId::Register => Pipeline::At(StepId::Install),
                StepId::Install => Pipeline::At(StepId::Verify),
                StepId::Verify => Pipeline::Finished,
            }
        },
        _ => p,
    }
}

/// The pipeline after a sequence of stages.
pub open spec fn pipeline_run(p: Pipeline, results: Seq<bool>) -> Pipeline
    decreases results.len(),
{
    if results.len() == 0 {
        p
    } else {
        pipeline_run(pipeline_after(p, results[0]), results.drop_first())
    }
}

/// A stage runs only after every earlier stage went through: the pipeline
/// finishes exactly when all four did, and otherwise stops at the first
/// that failed.
pub proof fn law_stages_run_in_order(results: Seq<bool>)
    requires
        results.len() == 4,
    ensures
        pipeline_run(Pipeline::At(StepId::Auth), results) == if !results[0] {
            Pipeline::Stopped(StepId::Auth)
        } else if !results[1] {
            Pipeline::Stopped(StepId::Register)
        } else if !results[2] {
            Pipeline::Stopped(StepId::Install)
        } else if !results[3] {
            Pipeline::Stopped(StepId::Verify)
        } else {
            Pipeline::Finished
        },
{
    let r1 = results.drop_first();
    let r2 = r1.drop_first();
    let r3 = r2.drop_first();
    reveal_with_fuel(pipeline_run, 5);
    assert(r1[0] == results[1]);
    assert(r2[0] == results[2]);
    assert(r3[0] == results[3]);
}

/// The report of a failed stage. `error` is how the failure displays.
pub fn emit_failed(step: StepId, error: &str) -> (r: StepEvent)
    ensures
        r@ == (StepEventView::Failed { step, error: error@ }),
{
    StepEvent::Failed { step, error: error.to_owned() }
}

/// The report that the login stage is skipped.
pub open spec fn auth_skipped() -> StepEventView {
    StepEventView::Skipped { step: StepId::Auth, reason: "using stored login token"@ }
}

/// The report that the registration stage is skipped.
pub open spec fn register_skipped() -> StepEventView {
    StepEventView::Skipped { step: StepId::Register, reason: "already registered"@ }
}

/// What the login stage learns.
pub enum AuthInput {
    /// The stage is skipped: the stored token, if there is one.
    Stored(Option<String>),
    /// Where the token comes from.
    Decision(BearerDecision),
    /// How the device login went: the token, or how the failure displays.
    Flow(Result<String, String>),
}

/// What the login stage does next.
pub enum AuthStep {
    /// This is the token.
    Token(String),
    /// Start a device login.
    StartFlow,
    /// The stage failed.
    Failed(RunnerError),
}

/// What is reported when the login stage begins: nothing when it is skipped,
/// for the skip is reported once the token is known.
pub fn begin_auth(skip: bool) -> (r: Option<StepEvent>)
    ensures
        skip ==> r is None,
        !skip ==> (r matches Some(e) && e@ == StepEventView::Started(StepId::Auth)),
{
    if skip {
        None
    } else {
        Some(StepEvent::Started(StepId::Auth))
    }
}

/// Takes what the login stage learned.
pub fn run_auth(input: AuthInput, host: &str) -> (r: (Option<StepEvent>, AuthStep))
    ensures
        match input {
            AuthInput::Stored(Some(token)) => {
                &&& r.0 matches Some(e) && e@ == auth_skipped()
                &&& r.1 == AuthStep::Token(token)
            },
            AuthInput::Stored(None) => {
                &&& r.0 is None
                &&& r.1 matches AuthStep::Failed(e) && e@ == RunnerErrorView::Auth(
                    "no stored login token for "@ + host@,
                )
            },
            AuthInput::Decision(BearerDecision::Use(token)) => {
                &&& r.0 matches Some(e) && e@ == (StepEventView::Done {
                    step: StepId::Auth,
                    summary: "authenticated"@,
                })
                &&& r.1 == AuthStep::Token(token)
            },
            AuthInput::Decision(BearerDecision::StartDeviceFlow) => r.0 is None && r.1
                == AuthStep::StartFlow,
            AuthInput::Decision(BearerDecision::Fail(msg)) => {
                &&& r.0 is None
                &&& r.1 matches AuthStep::Failed(e) && e@ == RunnerErrorView::Auth(msg@)
            },
            AuthInput::Flow(Ok(token)) => {
                &&& r.0 matches Some(e) && e@ == (StepEventView::Done {
                    step: StepId::Auth,
                    summary: "logged in via device flow"@,
                })
                &&& r.1 == AuthStep::Token(token)
            },
            AuthInput::Flow(Err(cause)) => {
                &&& r.0 is None
                &&& r.1 matches AuthStep::Failed(e) && e@ == RunnerErrorView::Auth(cause@)
            },
        },
{
    match input {
        AuthInput::Stored(Some(token)) => (
            Some(
                StepEvent::Skipped {
                    step: StepId::Auth,
                    reason: "using stored login token".to_owned(),
                },
            ),
            AuthStep::Token(token),
        ),
        AuthInput::Stored(None) => (
            None,
            AuthStep::Failed(RunnerError::Auth(text::cat2("no stored login token for ", host))),
        ),
        AuthInput::Decision(BearerDecision::Use(token)) => (
            Some(StepEvent::Done { step: StepId::Auth, summary: "authenticated".to_owned() }),
            AuthStep::Token(token),
        ),
        AuthInput::Decision(BearerDecision::StartDeviceFlow) => (None, AuthStep::StartFlow),
        AuthInput::Decision(BearerDecision::Fail(msg)) => (
            None,
            AuthStep::Failed(RunnerError::Auth(msg)),
        ),
        AuthInput::Flow(Ok(token)) => (
            Some(
                StepEvent::Done {
                    step: StepId::Auth,
                    summary: "logged in via device flow".to_owned(),
                },
            ),
            AuthStep::Token(token),
        ),
        AuthInput::Flow(Err(cause)) => (None, AuthStep::Failed(RunnerError::Auth(cause))),
    }
}

/// What is reported when the registration stage begins.
pub fn begin_register(skip: bool) -> (r: StepEvent)
    ensures
        r@ == if skip {
            register_skipped()
        } else {
            StepEventView::Started(StepId::Register)
        },
{
    if skip {
        StepEvent::Skipped { step: StepId::Register, reason: "already registered".to_owned() }
    } else {
        StepEvent::Started(StepId::Register)
    }
}

/// What is reported when the registration stage is done.
pub fn run_register(runner_id: i64) -> (r: StepEvent)
    ensures
        r@ == (StepEventView::Done {
            step: StepId::Register,
            summary: "runner #"@ + number::signed_decimal(runner_id as int),
        }),
{
    let id = number::show_i64(runner_id);
    StepEvent::Done { step: StepId::Register, summary: text::cat2("runner #", id.as_str()) }
}

/// What is reported when the installation stage is done.
pub fn run_install(label: &str) -> (r: StepEvent)
    ensures
        r@ == (StepEventView::Done { step: StepId::Install, summary: label@ }),
{
    StepEvent::Done { step: StepId::Install, summary: label.to_owned() }
}

/// Whether the runner was seen to be online.
#[derive(Debug)]
pub enum VerifyOutcome {
    Online,
    Unconfirmed(String),
}

/// What is reported when the verification stage is done. Not being sure is
/// no failure.
pub fn run_verify(outcome: VerifyOutcome) -> (r: StepEvent)
    ensures
        r@ == (StepEventView::Done {
            step: StepId::Verify,
            summary: match outcome {
                VerifyOutcome::Online => "runner online"@,
                VerifyOutcome::Unconfirmed(reason) => "unconfirmed ("@ + reason@
                    + ") — run `toolu-runner watch`"@,
            },
        }),
{
    let summary: String = match outcome {
        VerifyOutcome::Online => "runner online".to_owned(),
        VerifyOutcome::Unconfirmed(reason) => text::cat3(
            "unconfirmed (",
            reason.as_str(),
            ") — run `toolu-runner watch`",
        ),
    };
    StepEvent::Done { step: StepId::Verify, summary }
}

/// The wait for the runner's sign of life.
pub struct VerifyLoop {
    /// Polls made so far.
    pub polls: usize,
    /// The log ends seen by the last poll.
    pub log_tail: String,
}

/// What the wait does next.
#[derive(Debug, Clone, Copy, PartialEq, Eq, Structural)]
pub enum VerifyStep {
    /// Read the logs.
    Scan,
    /// Wait a second.
    Wait,
    /// Decide on what was seen.
    Decide,
}

impl VerifyLoop {
    /// The wait before its first poll.
    pub fn new() -> (r: VerifyLoop)
        ensures
            r.polls == 0,
            r.log_tail@ == Seq::<char>::empty(),
    {
        VerifyLoop { polls: 0, log_tail: String::new() }
    }

    /// What comes before a poll: reading the logs, unless all polls were made
    /// or the setup was cancelled.
    pub fn before_poll(&self, cancelled: bool) -> (r: VerifyStep)
        ensures
            r == if self.polls >= VERIFY_POLL_SECS || cancelled {
                VerifyStep::Decide
            } else {
                VerifyStep::Scan
            },
    {
        if self.polls >= VERIFY_POLL_SECS || cancelled {
            VerifyStep::Decide
        } else {
            VerifyStep::Scan
        }
    }

    /// Takes the log ends that a poll read, one text for each directory. The
    /// wait is over when the marker is in them, or after the last poll.
    pub fn scanned(&mut self, tails: &Vec<String>) -> (r: VerifyStep)
        requires
            old(self).polls < VERIFY_POLL_SECS,
        ensures
            final(self).polls == old(self).polls + 1,
            final(self).log_tail@ == text::joined(text::texts(tails@), Seq::empty()),
            r == if text::has_run(final(self).log_tail@, online_marker()) || final(self).polls
                >= VERIFY_POLL_SECS {
                VerifyStep::Decide
            } else {
                VerifyStep::Wait
            },
    {
        let none: &str = "";
        proof {
            reveal_strlit("");
            assert(none@ =~= Seq::<char>::empty());
        }
        self.log_tail = text::join(tails, none);
        self.polls = self.polls + 1;
        if text::contains_text(self.log_tail.as_str(), "long-polling for jobs") {
            return VerifyStep::Decide;
        }
        if self.polls < VERIFY_POLL_SECS {
            VerifyStep::Wait
        } else {
            VerifyStep::Decide
        }
    }
}

/// The directories that are searched for the runner's log: the home one, and
/// the registration's own unless it is the same.
pub fn candidate_diag_dirs(home: &str, config_path: &str) -> (r: Vec<String>)
    ensures
        ({
            let first = path::joined(home@, "_diag"@);
            text::texts(r@) == match path::parent(config_path@) {
                None => seq![first],
                Some(dir) => if path::same_path(first, path::joined(dir, "_diag"@)) {
                    seq![first]
                } else {
                    seq![first, path::joined(dir, "_diag"@)]
                },
            }
        }),
{
    let first = path::join(home, "_diag");
    let ghost head = first@;
    let mut dirs: Vec<String> = Vec::new();
    match path::parent_of(config_path) {
        None => {
            dirs.push(first);
            assert(text::texts(dirs@) =~= seq![head]);
        },
        Some(dir) => {
            let own = path::join(dir, "_diag");
            let same: bool = path::is_same(first.as_str(), own.as_str());
            dirs.push(first);
            if !same {
                dirs.push(own);
                assert(text::texts(dirs@) =~= seq![head, own@]);
            } else {
                assert(text::texts(dirs@) =~= seq![head]);
            }
        },
    }
    dirs
}

/// The command that asks whether the service is active; none where there is
/// no supervisor.
pub fn service_probe(os: &str, label: &str, owner: &str, repo: &str) -> (r: Option<CommandLine>)
    ensures
        match r {
            Some(c) => {
                &&& os@ == "macos"@ || os@ == "linux"@
                &&& c@ == if os@ == "macos"@ {
                    CommandView { program: "launchctl"@, args: seq!["list"@, label@] }
                } else {
                    CommandView {
                        program: "systemctl"@,
                        args: seq!["--user"@, "is-active"@, service_cmd::unit_name(owner@, repo@)],
                    }
                }
            },
            None => os@ != "macos"@ && os@ != "linux"@,
        },
{
    if text::same(os, "macos") {
        Some(types::command2("launchctl", "list", label))
    } else if text::same(os, "linux") {
        let unit = text::cat5("toolu-runner-", owner, "-", repo, ".service");
        Some(types::command3("systemctl", "--user", "is-active", unit.as_str()))
    } else {
        None
    }
}

/// The runner's logs among the file names.
pub open spec fn runner_logs(names: Seq<Seq<char>>) -> Seq<Seq<char>>
    decreases names.len(),
{
    if names.len() == 0 {
        Seq::empty()
    } else if "runner.log"@.is_prefix_of(names.last()) {
        runner_logs(names.drop_last()).push(names.last())
    } else {
        runner_logs(names.drop_last())
    }
}

/// The runner's logs among the names of a directory's entries, in ascending
/// order.
pub fn log_files(names: &Vec<String>) -> (r: Vec<String>)
    ensures
        text::texts(r@) == order::ascending(runner_logs(text::texts(names@))),
{
    let ghost all = text::texts(names@);
    let mut found: Vec<String> = Vec::new();
    let mut i: usize = 0;
    assert(text::texts(found@) =~= runner_logs(all.take(0)));
    while i < names.len()
        invariant
            i <= names@.len(),
            all == text::texts(names@),
            text::texts(found@) == runner_logs(all.take(i as int)),
        decreases names@.len() - i,
    {
        let ghost before = text::texts(found@);
        proof {
            assert(all.take(i + 1).drop_last() =~= all.take(i as int));
            assert(all.take(i + 1).last() == names@[i as int]@);
        }
        if text::begins_with(names[i].as_str(), "runner.log") {
            found.push(names[i].clone());
            assert(text::texts(found@) =~= before.push(names@[i as int]@));
        }
        i = i + 1;
    }
    assert(all.take(all.len() as int) =~= all);
    order::sort_names(&found)
}

/// The last `max` bytes.
pub open spec fn tail_of(bytes: Seq<u8>, max: nat) -> Seq<u8> {
    if bytes.len() <= max {
        bytes
    } else {
        bytes.skip(bytes.len() - max)
    }
}

/// The last `max` bytes of a file's content, as text.
pub fn read_tail(bytes: &Vec<u8>, max: usize) -> (r: String)
    ensures
        r@ == utf8::utf8_lossy(tail_of(bytes@, max as nat)),
{
    let n: usize = bytes.len();
    if n <= max {
        return utf8::decode_lossy(bytes.as_slice());
    }
    let tail = vstd::slice::slice_subrange(bytes.as_slice(), n - max, n);
    assert(tail@ =~= tail_of(bytes@, max as nat));
    utf8::decode_lossy(tail)
}

/// The ends of a list of file contents, one after the other.
pub fn read_runner_log_tail(contents: &Vec<Vec<u8>>) -> (r: String)
    ensures
        r@ == tails_joined(contents@),
{
    let mut out = String::new();
    let mut i: usize = 0;
    assert(out@ =~= tails_joined(contents@.take(0)));
    while i < contents.len()
        invariant
            i <= contents@.len(),
            out@ == tails_joined(contents@.take(i as int)),
        decreases contents@.len() - i,
    {
        proof {
            assert(contents@.take(i + 1).drop_last() =~= contents@.take(i as int));
        }
        let tail = read_tail(&contents[i], LOG_TAIL_BYTES);
        out.append(tail.as_str());
        i = i + 1;
    }
    assert(contents@.take(contents@.len() as int) =~= contents@);
    out
}

/// The ends of a list of file contents, one after the other.
pub open spec fn tails_joined(contents: Seq<Vec<u8>>) -> Seq<char>
    decreases contents.len(),
{
    if contents.len() == 0 {
        Seq::empty()
    } else {
        tails_joined(contents.drop_last()) + utf8::utf8_lossy(
            tail_of(contents.last()@, LOG_TAIL_BYTES as nat),
        )
    }
}

/// One stage leads to the next only when it went through; a pipeline that has
/// ended stays as it is.
pub proof fn law_one_stage_at_a_time(p: Pipeline, ok: bool, r: Pipeline)
    requires
        call_ensures(run_pipeline, (p, ok), r),
    ensures
        p matches Pipeline::At(step) ==> {
            &&& !ok <==> r == Pipeline::Stopped(step)
            &&& ok && step == StepId::Auth ==> r == Pipeline::At(StepId::Register)
            &&& ok && step == StepId::Register ==> r == Pipeline::At(StepId::Install)
            &&& ok && step == StepId::Install ==> r == Pipeline::At(StepId::Verify)
            &&& ok && step == StepId::Verify ==> r == Pipeline::Finished
        },
        !(p is At) ==> r == p,
{
}

/// The login stage ends with a token exactly when one was stored, given or
/// granted; it starts a device login exactly when that was decided, and
/// fails otherwise. A skip is reported only for a stored token.
pub proof fn law_login_gives_the_token_it_got(
    input: AuthInput,
    host: &str,
    r: (Option<StepEvent>, AuthStep),
)
    requires
        call_ensures(run_auth, (input, host), r),
    ensures
        input matches AuthInput::Stored(Some(t)) ==> (r.1 matches AuthStep::Token(x) && x@ == t@),
        input matches AuthInput::Decision(BearerDecision::Use(t)) ==> (r.1 matches AuthStep::Token(x)
            && x@ == t@),
        input matches AuthInput::Flow(Ok(t)) ==> (r.1 matches AuthStep::Token(x) && x@ == t@),
        r.1 is StartFlow <==> input matches AuthInput::Decision(BearerDecision::StartDeviceFlow),
        r.1 is Failed <==> (input matches AuthInput::Stored(None)) || (input matches AuthInput::Decision(
            BearerDecision::Fail(_),
        )) || (input matches AuthInput::Flow(Err(_))),
        (r.0 matches Some(e) && e@ is Skipped) <==> input matches AuthInput::Stored(Some(_)),
        r.0 is None <==> !(r.1 is Token),
        input matches AuthInput::Stored(Some(_)) ==> (r.0->0)@ == (StepEventView::Skipped {
            step: StepId::Auth,
            reason: "using stored login token"@,
        }),
        input matches AuthInput::Stored(None) ==> (r.1 matches AuthStep::Failed(e) && e@
            == RunnerErrorView::Auth("no stored login token for "@ + host@)),
        input matches AuthInput::Flow(Err(cause)) ==> (r.1 matches AuthStep::Failed(e) && e@
            == RunnerErrorView::Auth(cause@)),
{
}

/// A stage that is skipped is reported as skipped, one that runs as started.
pub proof fn law_stage_beginning_is_reported(
    skip: bool,
    auth: Option<StepEvent>,
    register: StepEvent,
)
    requires
        call_ensures(begin_auth, (skip,), auth),
        call_ensures(begin_register, (skip,), register),
    ensures
        auth is None <==> skip,
        auth matches Some(e) ==> e@ == StepEventView::Started(StepId::Auth),
        register@ is Skipped <==> skip,
        !skip ==> register@ == StepEventView::Started(StepId::Register),
        skip ==> register@ == (StepEventView::Skipped {
            step: StepId::Register,
            reason: "already registered"@,
        }),
{
}

/// Not being sure that the runner is online is reported as done all the same,
/// with the reason.
pub proof fn law_unconfirmed_is_no_failure(outcome: VerifyOutcome, r: StepEvent)
    requires
        call_ensures(run_verify, (outcome,), r),
    ensures
        r@ matches StepEventView::Done { step, summary } && step == StepId::Verify && match outcome {
            VerifyOutcome::Online => summary == "runner online"@,
            VerifyOutcome::Unconfirmed(why) => summary == "unconfirmed ("@ + why@
                + ") — run `toolu-runner watch`"@,
        },
{
}

/// The logs are read before every poll until fifteen were made or the setup
/// was cancelled.
pub proof fn law_polls_are_limited(w: VerifyLoop, cancelled: bool, r: VerifyStep)
    requires
        call_ensures(VerifyLoop::before_poll, (&w, cancelled), r),
    ensures
        r == VerifyStep::Scan <==> w.polls < 15 && !cancelled,
        r == VerifyStep::Decide <==> w.polls >= 15 || cancelled,
{
}

/// The home diagnostics directory is always searched, first; the
/// registration's own is searched too unless it is the same path.
pub proof fn law_both_diagnostics_are_searched(home: &str, config_path: &str, r: Vec<String>)
    requires
        call_ensures(candidate_diag_dirs, (home, config_path), r),
    ensures
        r@.len() >= 1,
        r@[0]@ == path::joined(home@, "_diag"@),
        path::parent(config_path@) matches Some(dir) ==> (!path::same_path(
            path::joined(home@, "_diag"@),
            path::joined(dir, "_diag"@),
        ) ==> r@.len() == 2 && r@[1]@ == path::joined(dir, "_diag"@)),
        path::parent(config_path@) is None ==> r@.len() == 1,
{
    let t = text::texts(r@);
    assert(t.len() == r@.len());
    assert(t[0] == r@[0]@);
    assert(t.len() == 2 ==> t[1] == r@[1]@);
}

/// Each supervisor is asked with its own command: launchd by label, systemd by
/// unit; elsewhere nothing is asked.
pub proof fn law_probe_goes_by_system(
    os: &str,
    label: &str,
    owner: &str,
    repo: &str,
    r: Option<CommandLine>,
)
    requires
        call_ensures(service_probe, (os, label, owner, repo), r),
    ensures
        r is Some <==> os@ == "macos"@ || os@ == "linux"@,
        os@ == "macos"@ ==> (r matches Some(c) && c@.program == "launchctl"@ && c@.args == seq![
            "list"@,
            label@,
        ]),
        os@ == "linux"@ ==> (r matches Some(c) && c@.program == "systemctl"@ && c@.args == seq![
            "--user"@,
            "is-active"@,
            "toolu-runner-"@ + owner@ + "-"@ + repo@ + ".service"@,
        ]),
{
    reveal_strlit("macos");
    reveal_strlit("linux");
    assert("macos"@[0] != "linux"@[0]);
}

/// A file is one of the runner's logs exactly when its name begins with
/// `runner.log`; the logs keep their order, and none is lost.
pub proof fn law_runner_logs_by_prefix(names: Seq<Seq<char>>, name: Seq<char>)
    ensures
        runner_logs(names).contains(name) <==> names.contains(name) && "runner.log"@.is_prefix_of(
            name,
        ),
        "runner.log"@.is_prefix_of(name) ==> runner_logs(names.push(name)) == runner_logs(
            names,
        ).push(name),
        !"runner.log"@.is_prefix_of(name) ==> runner_logs(names.push(name)) == runner_logs(names),
    decreases names.len(),
{
    assert(names.push(name).drop_last() =~= names);
    if names.len() > 0 {
        let front = names.drop_last();
        law_runner_logs_by_prefix(front, name);
        let w = runner_logs(front);
        let p = w.push(names.last());
        assert(names.contains(name) <==> front.contains(name) || names.last() == name) by {
            if names.contains(name) {
                let k = choose|k: int| 0 <= k < names.len() && names[k] == name;
                if k < front.len() {
                    assert(front[k] == name);
                }
            }
            if front.contains(name) {
                let k = choose|k: int| 0 <= k < front.len() && front[k] == name;
                assert(names[k] == name);
            }
            if names.last() == name {
                assert(names[names.len() - 1] == name);
            }
        }
        assert(p.contains(name) <==> w.contains(name) || names.last() == name) by {
            if p.contains(name) {
                let k = choose|k: int| 0 <= k < p.len() && p[k] == name;
                if k < w.len() {
                    assert(w[k] == name);
                }
            }
            if w.contains(name) {
                let k = choose|k: int| 0 <= k < w.len() && w[k] == name;
                assert(p[k] == name);
            }
            if names.last() == name {
                assert(p[w.len() as int] == name);
            }
        }
    }
}

/// The tail is the end of the bytes: all of them when they are few enough,
/// otherwise as many as allowed.
pub proof fn law_tail_is_the_end(bytes: Seq<u8>, max: nat)
    ensures
        tail_of(bytes, max).is_suffix_of(bytes),
        bytes.len() <= max ==> tail_of(bytes, max) == bytes,
        bytes.len() > max ==> tail_of(bytes, max).len() == max,
{
    let t = tail_of(bytes, max);
    assert(t =~= bytes.subrange(bytes.len() - t.len(), bytes.len() as int));
}

/// The ends of several logs stand one after the other.
pub proof fn law_tails_in_order(contents: Seq<Vec<u8>>, last: Vec<u8>)
    ensures
        tails_joined(contents.push(last)) == tails_joined(contents) + utf8::utf8_lossy(
            tail_of(last@, 65_536),
        ),
        tails_joined(seq![]).len() == 0,
{
    assert(contents.push(last).drop_last() =~= contents);
}

/// A poll counts once and looks at exactly the log ends it read; the wait is
/// over when the runner's sign of life is in them or all polls were made.
pub proof fn law_sign_of_life_ends_the_wait(
    w: &mut VerifyLoop,
    tails: Vec<String>,
    r: VerifyStep,
)
    requires
        call_ensures(VerifyLoop::scanned, (w, &tails), r),
    ensures
        final(w).polls == old(w).polls + 1,
        r == VerifyStep::Decide <==> text::has_run(final(w).log_tail@, "long-polling for jobs"@)
            || final(w).polls >= 15,
        r == VerifyStep::Wait <==> !text::has_run(final(w).log_tail@, "long-polling for jobs"@)
            && final(w).polls < 15,
        tails@.len() == 1 ==> final(w).log_tail@ == tails@[0]@,
        tails@.len() == 2 ==> final(w).log_tail@ == tails@[0]@ + tails@[1]@,
{
    let t = text::texts(tails@);
    assert(t.len() == tails@.len());
    if tails@.len() == 1 {
        assert(t[0] == tails@[0]@);
        assert(t =~= seq![tails@[0]@]);
    }
    if tails@.len() == 2 {
        assert(t[0] == tails@[0]@ && t[1] == tails@[1]@);
        assert(t =~= seq![tails@[0]@].push(tails@[1]@));
        text::law_join_separates_neighbours(seq![tails@[0]@], tails@[1]@, Seq::empty());
        assert(tails@[0]@ + Seq::<char>::empty() + tails@[1]@ =~= tails@[0]@ + tails@[1]@);
    }
}

/// Each stage reports its own end, with what it came to.
pub proof fn law_stages_report_their_end(
    step: StepId,
    error: &str,
    failed: StepEvent,
    id: i64,
    registered: StepEvent,
    label: &str,
    installed: StepEvent,
)
    requires
        call_ensures(emit_failed, (step, error), failed),
        call_ensures(run_register, (id,), registered),
        call_ensures(run_install, (label,), installed),
    ensures
        failed@ == (StepEventView::Failed { step, error: error@ }),
        registered@ == (StepEventView::Done {
            step: StepId::Register,
            summary: "runner #"@ + number::signed_decimal(id as int),
        }),
        installed@ == (StepEventView::Done { step: StepId::Install, summary: label@ }),
{
}

/// The logs are read in ascending order, none but the runner's.
pub proof fn law_logs_in_order(names: Vec<String>, r: Vec<String>, i: int, j: int)
    requires
        call_ensures(log_files, (&names,), r),
        0 <= i < j < r@.len(),
    ensures
        order::precedes(r@[i]@, r@[j]@),
        r@.len() == runner_logs(text::texts(names@)).len(),
{
    let logs = runner_logs(text::texts(names@));
    order::law_ascending_sorts(logs);
    text::law_texts_are_those_of_the_strings(r@, None);
    assert(text::texts(r@)[i] == r@[i]@ && text::texts(r@)[j] == r@[j]@);
    let order = order::name_order();
    assert(order(order::ascending(logs)[i], order::ascending(logs)[j]));
}

} // verus!
