//! The guided setup: what it works on, what it skips, and how it ends.

use vstd::prelude::*;

use crate::cli;
use crate::error::{RunnerError, RunnerErrorView};
use crate::outside::machine;
use crate::path;
use crate::register_cmd;
use crate::text;
use crate::wizard_steps;
use crate::wizard_steps::{StepEvent, StepEventView, StepId};

verus! {

/// How long input is waited for per frame, in milliseconds.
pub const TICK_MS: u64 = 200;

/// Refuses to run without a terminal on both sides.
pub fn require_terminal(stderr: bool, stdin: bool) -> (r: Result<(), RunnerError>)
    ensures
        match r {
            Ok(_) => stderr && stdin,
            Err(e) => !(stderr && stdin) && e@ == RunnerErrorView::Config(
                "`setup` needs an interactive terminal. Run `toolu-runner login`, then `register`, then `install-service` instead."@,
            ),
        },
{
    if stderr && stdin {
        Ok(())
    } else {
        Err(
            RunnerError::Config(
                "`setup` needs an interactive terminal. Run `toolu-runner login`, then `register`, then `install-service` instead.".to_owned(),
            ),
        )
    }
}

/// The two stages that may already be done.
#[derive(Debug, Clone, Copy, PartialEq, Eq, Structural)]
pub struct Skips {
    pub auth: bool,
    pub register: bool,
}

/// The reports as texts.
pub open spec fn event_views(events: Seq<StepEvent>) -> Seq<StepEventView> {
    events.map_values(|e: StepEvent| e@)
}

/// What is shown before any stage has run: the stages that are skipped, as
/// they will report it themselves.
pub open spec fn first_paint(skips: Skips) -> Seq<StepEventView> {
    (if skips.auth {
        seq![wizard_steps::auth_skipped()]
    } else {
        Seq::empty()
    }) + (if skips.register {
        seq![wizard_steps::register_skipped()]
    } else {
        Seq::empty()
    })
}

/// What is shown before any stage has run.
pub fn run_wizard(skips: Skips) -> (r: Vec<StepEvent>)
    ensures
        event_views(r@) == first_paint(skips),
{
    let mut events: Vec<StepEvent> = Vec::new();
    if skips.auth {
        events.push(
            StepEvent::Skipped {
                step: StepId::Auth,
                reason: "using stored login token".to_owned(),
            },
        );
    }
    if skips.register {
        events.push(
            StepEvent::Skipped {
                step: StepId::Register,
                reason: "already registered".to_owned(),
            },
        );
    }
    assert(event_views(events@) =~= first_paint(skips));
    events
}

/// Which stages are already done: a stored login counts unless a token is
/// given by argument or environment, and an existing configuration counts.
pub fn decide_skips(
    login_stored: bool,
    token_argument: bool,
    token_environment: bool,
    config_present: bool,
) -> (r: Skips)
    ensures
        r == (Skips {
            auth: login_stored && !token_argument && !token_environment,
            register: config_present,
        }),
{
    Skips {
        auth: login_stored && !token_argument && !token_environment,
        register: config_present,
    }
}

/// The arguments of the setup.
pub struct SetupArgs {
    pub name: Option<String>,
    pub labels: Vec<String>,
    pub config: Option<String>,
}

/// What the setup works on.
#[derive(Debug)]
pub struct SetupInputs {
    pub host: String,
    pub url: String,
    pub owner: String,
    pub repo: String,
    pub name: String,
    pub labels: Vec<String>,
    pub runner_group: String,
    pub work_folder: String,
    pub config_path: String,
    pub creds_path: String,
}

/// The repository that a setup is for: on github.com, with an owner and a
/// name.
pub open spec fn setup_repo(
    url: Seq<char>,
    host: Seq<char>,
    owner_repo: Option<(Seq<char>, Seq<char>)>,
) -> Result<(Seq<char>, Seq<char>), RunnerErrorView> {
    if host != "github.com"@ {
        Err(
            RunnerErrorView::Config(
                "`setup` supports github.com only; use `register --url …` for GHES/enterprise."@,
            ),
        )
    } else {
        match owner_repo {
            Some(pair) => Ok(pair),
            None => Err(
                RunnerErrorView::Config(
                    "could not parse owner/repo from the repository URL: "@ + url,
                ),
            ),
        }
    }
}

/// The repository that a setup is for, given what its address names.
pub fn check_setup_repo(url: &str, host: &str, owner_repo: Option<(String, String)>) -> (r: Result<
    (String, String),
    RunnerError,
>)
    ensures
        register_cmd::target_view(r) == setup_repo(
            url@,
            host@,
            register_cmd::pair_opt(owner_repo),
        ),
{
    if !text::same(host, "github.com") {
        return Err(
            RunnerError::Config(
                "`setup` supports github.com only; use `register --url …` for GHES/enterprise.".to_owned(),
            ),
        );
    }
    match owner_repo {
        Some(pair) => Ok(pair),
        None => Err(
            RunnerError::Config(
                text::cat2("could not parse owner/repo from the repository URL: ", url),
            ),
        ),
    }
}

/// The repository that a setup is for.
pub fn setup_target(url: &str, host: &str) -> (r: Result<(String, String), RunnerError>)
    ensures
        register_cmd::target_view(r) == setup_repo(
            url@,
            host@,
            register_cmd::url_owner_repo(url@),
        ),
{
    check_setup_repo(url, host, register_cmd::owner_repo_from_url(url))
}

/// Assembles what the setup works on. `repo_dir` is the directory of the
/// repository's registration, used when no configuration file is named.
pub fn setup_inputs(
    args: SetupArgs,
    target: (String, String),
    repo: (String, String),
    repo_dir: &str,
    hostname: Option<String>,
    os: &str,
    arch: &str,
) -> (r: SetupInputs)
    ensures
        r.url == target.0,
        r.host == target.1,
        r.owner == repo.0,
        r.repo == repo.1,
        r.name@ == cli::runner_name(args.name, hostname),
        text::texts(r.labels@) == register_cmd::chosen_labels(
            text::texts(args.labels@),
            os@,
            arch@,
        ),
        r.runner_group@ == "Default"@,
        r.work_folder@ == "~/.toolu-runner/_work"@,
        r.config_path@ == match args.config {
            Some(p) => p@,
            None => path::joined(repo_dir@, "config.toml"@),
        },
        r.creds_path@ == cli::credentials_path(r.config_path@),
{
    let config_path: String = match args.config {
        Some(p) => p,
        None => path::join(repo_dir, "config.toml"),
    };
    let creds_path = cli::credentials_path_for(config_path.as_str());
    let labels: Vec<String> = if args.labels.len() == 0 {
        cli::default_labels(os, arch)
    } else {
        args.labels
    };
    SetupInputs {
        host: target.1,
        url: target.0,
        owner: repo.0,
        repo: repo.1,
        name: cli::runner_name_or(args.name, hostname),
        labels,
        runner_group: "Default".to_owned(),
        work_folder: cli::work_folder_or_default(None),
        config_path,
        creds_path,
    }
}

/// Resolves what the setup works on, on this machine.
pub fn resolve_inputs(
    args: SetupArgs,
    target: (String, String),
    repo_dir: &str,
    os: &str,
    arch: &str,
) -> (r: Result<SetupInputs, RunnerError>)
    ensures
        match setup_repo(
            target.0@,
            target.1@,
            register_cmd::url_owner_repo(target.0@),
        ) {
            Err(failure) => r matches Err(e) && e@ == failure,
            Ok((owner, repo)) => {
                &&& r is Ok
                &&& r->Ok_0.url == target.0
                &&& r->Ok_0.host == target.1
                &&& r->Ok_0.owner@ == owner
                &&& r->Ok_0.repo@ == repo
                &&& exists|hostname: Option<String>| r->Ok_0.name@ == #[trigger] cli::runner_name(
                    args.name,
                    hostname,
                )
                &&& text::texts(r->Ok_0.labels@) == register_cmd::chosen_labels(
                    text::texts(args.labels@),
                    os@,
                    arch@,
                )
                &&& r->Ok_0.runner_group@ == "Default"@
                &&& r->Ok_0.work_folder@ == "~/.toolu-runner/_work"@
                &&& r->Ok_0.config_path@ == match args.config {
                    Some(p) => p@,
                    None => path::joined(repo_dir@, "config.toml"@),
                }
                &&& r->Ok_0.creds_path@ == cli::credentials_path(r->Ok_0.config_path@)
            },
        },
{
    match setup_target(target.0.as_str(), target.1.as_str()) {
        Err(e) => Err(e),
        Ok(repo) => {
            let hostname = machine::hostname();
            Ok(setup_inputs(args, target, repo, repo_dir, hostname, os, arch))
        },
    }
}

/// What the screen does next.
#[derive(Debug, Clone, Copy, PartialEq, Eq, Structural)]
pub enum Frame {
    /// Wait for a key, then draw again.
    Continue,
    /// The work is over: draw once more, and wait for a key.
    HoldLast,
    /// The user left: cancel the work and end.
    Leave,
}

/// What the screen does after the events so far: `over` when the work is
/// done or has failed, `quit` when the key pressed meanwhile asks to leave.
pub fn next_frame(over: bool, quit: bool) -> (r: Frame)
    ensures
        r == if over {
            Frame::HoldLast
        } else if quit {
            Frame::Leave
        } else {
            Frame::Continue
        },
{
    if over {
        Frame::HoldLast
    } else if quit {
        Frame::Leave
    } else {
        Frame::Continue
    }
}

/// How the setup ends: a failed stage is an error, a clean end or a user who
/// left is not.
pub fn setup_end(error: Option<String>) -> (r: Result<(), RunnerError>)
    ensures
        match error {
            Some(msg) => r matches Err(e) && e@ == RunnerErrorView::StepExecution(msg@),
            None => r is Ok,
        },
{
    match error {
        Some(msg) => Err(RunnerError::StepExecution(msg)),
        None => Ok(()),
    }
}

/// A setup works with exactly the labels asked for, in order, whatever the
/// machine; only when none are asked for does it get `self-hosted`, the
/// operating system and the architecture.
pub proof fn law_setup_uses_asked_labels(
    args: SetupArgs,
    target: (String, String),
    repo: (String, String),
    repo_dir: &str,
    hostname: Option<String>,
    os: &str,
    arch: &str,
    r: SetupInputs,
)
    requires
        call_ensures(setup_inputs, (args, target, repo, repo_dir, hostname, os, arch), r)
            || call_ensures(resolve_inputs, (args, target, repo_dir, os, arch), Ok(r)),
    ensures
        args.labels@.len() > 0 ==> r.labels@.len() == args.labels@.len(),
        forall|i: int|
            0 <= i < args.labels@.len() ==> (#[trigger] r.labels@[i])@ == args.labels@[i]@,
        args.labels@.len() == 0 ==> r.labels@.len() == 3 && r.labels@[0]@ == "self-hosted"@
            && r.labels@[1]@ == os@ && r.labels@[2]@ == arch@,
{
    let out = text::texts(r.labels@);
    let asked = text::texts(args.labels@);
    assert(out.len() == r.labels@.len());
    assert(forall|i: int| 0 <= i < out.len() ==> out[i] == (#[trigger] r.labels@[i])@);
    assert(forall|i: int| 0 <= i < asked.len() ==> asked[i] == (#[trigger] args.labels@[i])@);
}

/// A setup is refused for every host but github.com, and on github.com
/// exactly when the address names no owner and repository; otherwise it is
/// for what the address names.
pub proof fn law_setup_is_for_github_repositories(
    url: &str,
    host: &str,
    named: Option<(String, String)>,
    r: Result<(String, String), RunnerError>,
)
    requires
        call_ensures(check_setup_repo, (url, host, named), r),
    ensures
        r is Ok <==> host@ == "github.com"@ && named is Some,
        r matches Ok((owner, repo)) ==> (named matches Some((o, n)) ==> owner@ == o@ && repo@
            == n@),
{
}

/// What a setup names wins over what it is given: the name asked for over the
/// machine's, and the configuration file asked for over the repository's
/// directory. The credentials lie beside the configuration file.
pub proof fn law_setup_arguments_win(
    args: SetupArgs,
    target: (String, String),
    repo: (String, String),
    repo_dir: &str,
    hostname: Option<String>,
    os: &str,
    arch: &str,
    r: SetupInputs,
)
    requires
        call_ensures(setup_inputs, (args, target, repo, repo_dir, hostname, os, arch), r),
    ensures
        args.name matches Some(n) ==> r.name@ == n@,
        args.name is None ==> (hostname matches Some(h) ==> r.name@ == h@),
        args.config matches Some(p) ==> r.config_path@ == p@,
        args.config is None ==> r.config_path@ == path::joined(repo_dir@, "config.toml"@),
        path::parent(r.config_path@) matches Some(dir) ==> r.creds_path@ == path::joined(
            dir,
            "credentials.json"@,
        ),
        r.url@ == target.0@ && r.host@ == target.1@,
        r.owner@ == repo.0@ && r.repo@ == repo.1@,
{
}

/// A stage is shown as done before it runs exactly when it is skipped, the
/// login before the registration.
pub proof fn law_first_paint_shows_what_is_skipped(skips: Skips)
    ensures
        first_paint(skips).len() == (if skips.auth {
            1int
        } else {
            0int
        }) + (if skips.register {
            1int
        } else {
            0int
        }),
        skips.auth ==> first_paint(skips)[0] == wizard_steps::auth_skipped(),
        skips.register ==> first_paint(skips).last() == wizard_steps::register_skipped(),
{
}

/// A token given by argument or environment always runs the login stage
/// anew, and a configuration file alone decides the registration stage.
pub proof fn law_given_token_is_not_skipped(
    login_stored: bool,
    token_argument: bool,
    token_environment: bool,
    config_present: bool,
    r: Skips,
)
    requires
        call_ensures(
            decide_skips,
            (login_stored, token_argument, token_environment, config_present),
            r,
        ),
    ensures
        token_argument || token_environment || !login_stored ==> !r.auth,
        login_stored && !token_argument && !token_environment ==> r.auth,
        r.register <==> config_present,
{
}

/// The screen is held once the work is over, even when the user asks to
/// leave in that moment; the user leaves only while work goes on.
pub proof fn law_finished_work_is_held(over: bool, quit: bool, r: Frame)
    requires
        call_ensures(next_frame, (over, quit), r),
    ensures
        r == Frame::HoldLast <==> over,
        r == Frame::Leave <==> !over && quit,
{
}

/// The setup needs a terminal on both sides.
pub proof fn law_setup_needs_a_terminal(stderr: bool, stdin: bool, r: Result<(), RunnerError>)
    requires
        call_ensures(require_terminal, (stderr, stdin), r),
    ensures
        r is Ok <==> stderr && stdin,
{
}

/// The setup fails exactly when a stage failed, and says why.
pub proof fn law_failed_stage_fails_setup(error: Option<String>, r: Result<(), RunnerError>)
    requires
        call_ensures(setup_end, (error,), r),
    ensures
        r is Err <==> error is Some,
        r is Err ==> (r->Err_0)@ == crate::error::RunnerErrorView::StepExecution(error->0@),
{
}

/// A refused setup says why: the host, or the address that names no
/// repository.
pub proof fn law_refused_setup_says_why(
    url: &str,
    host: &str,
    named: Option<(String, String)>,
    r: Result<(String, String), RunnerError>,
)
    requires
        call_ensures(check_setup_repo, (url, host, named), r),
    ensures
        host@ != "github.com"@ ==> (r matches Err(e) && e@ == RunnerErrorView::Config(
            "`setup` supports github.com only; use `register --url …` for GHES/enterprise."@,
        )),
        host@ == "github.com"@ && named is None ==> (r matches Err(e) && e@
            == RunnerErrorView::Config(
            "could not parse owner/repo from the repository URL: "@ + url@,
        )),
{
}

/// A setup is for the repository that its address names.
pub proof fn law_setup_target_is_of_the_address(
    url: &str,
    host: &str,
    r: Result<(String, String), RunnerError>,
)
    requires
        call_ensures(setup_target, (url, host), r),
    ensures
        r is Ok <==> host@ == "github.com"@ && register_cmd::url_owner_repo(url@) is Some,
        r matches Ok((owner, repo)) ==> register_cmd::url_owner_repo(url@) == Some((owner@, repo@)),
{
}

/// Resolving what a setup works on succeeds exactly when its target is a
/// github.com repository; the arguments win there too.
pub proof fn law_resolved_inputs(
    args: SetupArgs,
    target: (String, String),
    repo_dir: &str,
    os: &str,
    arch: &str,
    r: Result<SetupInputs, RunnerError>,
)
    requires
        call_ensures(resolve_inputs, (args, target, repo_dir, os, arch), r),
    ensures
        r is Ok <==> target.1@ == "github.com"@ && register_cmd::url_owner_repo(target.0@) is Some,
        r matches Ok(inputs) ==> {
            &&& inputs.url@ == target.0@ && inputs.host@ == target.1@
            &&& register_cmd::url_owner_repo(target.0@) == Some((inputs.owner@, inputs.repo@))
            &&& args.name matches Some(n) ==> inputs.name@ == n@
            &&& args.config matches Some(p) ==> inputs.config_path@ == p@
            &&& args.config is None ==> inputs.config_path@ == path::joined(
                repo_dir@,
                "config.toml"@,
            )
            &&& inputs.runner_group@ == "Default"@
            &&& inputs.work_folder@ == "~/.toolu-runner/_work"@
        },
{
}

} // verus!
