//! Registering the runner: resolving the target, and persisting the minted
//! registration all-or-nothing.

use vstd::prelude::*;

use crate::cli;
use crate::error::{RunnerError, RunnerErrorView};
use crate::number;
use crate::outside::{machine, web_address};
use crate::path;
use crate::stamp;
use crate::text;

verus! {

/// A repository found from the working directory's `origin` remote.
#[derive(Debug)]
pub struct InferredRepo {
    pub host: String,
    pub owner: String,
    pub repo: String,
}

/// What looking at the working directory gave.
pub enum Detection {
    /// The working directory could not be read.
    NoDirectory(String),
    /// No repository was found.
    Failed(RunnerError),
    /// A repository was found.
    Found(InferredRepo),
}

/// Whether a host is github.com, in any letter case.
pub open spec fn is_github(host: Seq<char>) -> bool {
    text::lower(host) == text::lower("github.com"@)
}

/// Whether a host is github.com.
pub fn on_github(host: &str) -> (r: bool)
    ensures
        r == is_github(host@),
{
    text::same_ignoring_case(host, "github.com")
}

/// The host of an address that a runner can register with: present, and
/// with a dot in it.
pub open spec fn host_checked(fault: Option<Seq<char>>, host: Option<Seq<char>>) -> Result<
    Seq<char>,
    RunnerErrorView,
> {
    match fault {
        Some(f) => Err(RunnerErrorView::Config("invalid --url: "@ + f)),
        None => match host {
            None => Err(RunnerErrorView::Config("URL missing host"@)),
            Some(h) => if h.contains('.') {
                Ok(h)
            } else {
                Err(
                    RunnerErrorView::Config(
                        "invalid host '"@ + h
                            + "' — runner accepts github.com and GHES hosts only"@,
                    ),
                )
            },
        },
    }
}

/// Checks a parsed address: `fault` is why it did not parse, `host` its
/// host.
pub fn check_host(fault: Option<String>, host: Option<String>) -> (r: Result<String, RunnerError>)
    ensures
        crate::error::text_result(r) == host_checked(text::text_opt(fault), text::text_opt(host)),
{
    match fault {
        Some(f) => Err(RunnerError::Config(text::cat2("invalid --url: ", f.as_str()))),
        None => match host {
            None => Err(RunnerError::Config("URL missing host".to_owned())),
            Some(h) => if text::has_char(h.as_str(), '.') {
                Ok(h)
            } else {
                Err(
                    RunnerError::Config(
                        text::cat3(
                            "invalid host '",
                            h.as_str(),
                            "' — runner accepts github.com and GHES hosts only",
                        ),
                    ),
                )
            },
        },
    }
}

/// Validates a `--url` argument and gives its host.
pub fn parse_and_validate_url(url: &str) -> (r: Result<String, RunnerError>)
    ensures
        crate::error::text_result(r) == host_checked(
            web_address::url_fault(url@),
            web_address::url_host(url@),
        ),
{
    let fault = web_address::fault_of(url);
    let host = web_address::host_of(url);
    check_host(fault, host)
}

/// The address of a github.com repository.
pub open spec fn repo_url(owner: Seq<char>, repo: Seq<char>) -> Seq<char> {
    "https://github.com/"@ + owner + "/"@ + repo
}

/// The target of a registration found from the working directory, as address
/// and host: github.com repositories only.
pub open spec fn target_inferred(detection: Detection) -> Result<
    (Seq<char>, Seq<char>),
    RunnerErrorView,
> {
    match detection {
        Detection::NoDirectory(cause) => Err(
            RunnerErrorView::Config("could not read the current directory: "@ + cause@),
        ),
        Detection::Failed(e) => Err(e@),
        Detection::Found(repo) => if is_github(repo.host@) {
            Ok((repo_url(repo.owner@, repo.repo@), "github.com"@))
        } else {
            Err(
                RunnerErrorView::Config(
                    "the `origin` remote points at '"@ + repo.host@
                        + "', not github.com — repo inference is github.com only; GHES registrations need an explicit --url"@,
                ),
            )
        },
    }
}

/// The target of a registration: an explicit address is validated and used
/// as it stands; without one, the working directory decides.
pub open spec fn target_resolved(
    url: Option<String>,
    fault: Option<Seq<char>>,
    host: Option<Seq<char>>,
    detection: Detection,
) -> Result<(Seq<char>, Seq<char>), RunnerErrorView> {
    match url {
        Some(u) => match host_checked(fault, host) {
            Ok(h) => Ok((u@, h)),
            Err(e) => Err(e),
        },
        None => target_inferred(detection),
    }
}

/// A target with its texts.
pub open spec fn target_view(r: Result<(String, String), RunnerError>) -> Result<
    (Seq<char>, Seq<char>),
    RunnerErrorView,
> {
    match r {
        Ok((url, host)) => Ok((url@, host@)),
        Err(e) => Err(e@),
    }
}

/// The target of a registration found from the working directory.
pub fn inferred_target(detection: Detection) -> (r: Result<(String, String), RunnerError>)
    ensures
        target_view(r) == target_inferred(detection),
{
    match detection {
        Detection::NoDirectory(cause) => Err(
            RunnerError::Config(
                text::cat2("could not read the current directory: ", cause.as_str()),
            ),
        ),
        Detection::Failed(e) => Err(e),
        Detection::Found(repo) => if on_github(repo.host.as_str()) {
            Ok(
                (
                    text::cat4(
                        "https://github.com/",
                        repo.owner.as_str(),
                        "/",
                        repo.repo.as_str(),
                    ),
                    "github.com".to_owned(),
                ),
            )
        } else {
            Err(
                RunnerError::Config(
                    text::cat3(
                        "the `origin` remote points at '",
                        repo.host.as_str(),
                        "', not github.com — repo inference is github.com only; GHES registrations need an explicit --url",
                    ),
                ),
            )
        },
    }
}

/// The target of a registration. `detection` is looked at only without an
/// explicit address.
pub fn resolve_url_and_host(url: Option<String>, detection: Detection) -> (r: Result<
    (String, String),
    RunnerError,
>)
    ensures
        target_view(r) == match url {
            Some(u) => target_resolved(
                url,
                web_address::url_fault(u@),
                web_address::url_host(u@),
                detection,
            ),
            None => target_inferred(detection),
        },
{
    match url {
        Some(u) => match parse_and_validate_url(u.as_str()) {
            Ok(host) => Ok((u, host)),
            Err(e) => Err(e),
        },
        None => inferred_target(detection),
    }
}

/// The segments that are not empty.
pub open spec fn filled(segments: Seq<Seq<char>>) -> Seq<Seq<char>>
    decreases segments.len(),
{
    if segments.len() == 0 {
        Seq::empty()
    } else if segments.last().len() == 0 {
        filled(segments.drop_last())
    } else {
        filled(segments.drop_last()).push(segments.last())
    }
}

/// A repository name without its `.git` ending.
pub open spec fn plain_repo(name: Seq<char>) -> Seq<char> {
    if ".git"@.is_suffix_of(name) {
        name.take(name.len() - ".git"@.len())
    } else {
        name
    }
}

/// The owner and repository that a path names; none with fewer than two
/// segments, or when nothing is left of the repository's name.
pub open spec fn owner_repo(segments: Seq<Seq<char>>) -> Option<(Seq<char>, Seq<char>)> {
    let parts = filled(segments);
    if parts.len() < 2 || plain_repo(parts[1]).len() == 0 {
        None
    } else {
        Some((parts[0], plain_repo(parts[1])))
    }
}

/// The views of an optional pair of strings.
pub open spec fn pair_opt(o: Option<(String, String)>) -> Option<(Seq<char>, Seq<char>)> {
    match o {
        Some((a, b)) => Some((a@, b@)),
        None => None,
    }
}

/// The owner and repository that the segments of a path name.
pub fn owner_repo_of(segments: &Vec<String>) -> (r: Option<(String, String)>)
    ensures
        pair_opt(r) == owner_repo(text::texts(segments@)),
{
    let ghost all = text::texts(segments@);
    let mut parts: Vec<String> = Vec::new();
    let mut i: usize = 0;
    assert(text::texts(parts@) =~= filled(all.take(0)));
    while i < segments.len()
        invariant
            i <= segments@.len(),
            all == text::texts(segments@),
            text::texts(parts@) == filled(all.take(i as int)),
        decreases segments@.len() - i,
    {
        let ghost before = text::texts(parts@);
        proof {
            assert(all.take(i + 1).drop_last() =~= all.take(i as int));
            assert(all.take(i + 1).last() == segments@[i as int]@);
        }
        if !segments[i].as_str().is_empty() {
            parts.push(segments[i].clone());
            assert(text::texts(parts@) =~= before.push(segments@[i as int]@));
        }
        i = i + 1;
    }
    assert(all.take(all.len() as int) =~= all);
    let ghost found = text::texts(parts@);
    if parts.len() < 2 {
        return None;
    }
    let raw = parts[1].as_str();
    assert(found[0] == parts@[0]@ && found[1] == raw@);
    let repo: &str = match text::before_suffix(raw, ".git") {
        Some(rest) => {
            proof {
                assert(".git"@.is_suffix_of(raw@)) by {
                    assert(raw@.subrange(rest@.len() as int, raw@.len() as int) =~= ".git"@);
                }
                assert(plain_repo(raw@) =~= rest@);
            }
            rest
        },
        None => raw,
    };
    if repo.is_empty() {
        return None;
    }
    Some((parts[0].clone(), repo.to_owned()))
}

/// The owner and repository that an address names.
pub open spec fn url_owner_repo(url: Seq<char>) -> Option<(Seq<char>, Seq<char>)> {
    match web_address::url_segments(url) {
        Some(segments) => owner_repo(segments),
        None => None,
    }
}

/// The owner and repository that a registration address names; none for an
/// organization's address.
pub fn owner_repo_from_url(url: &str) -> (r: Option<(String, String)>)
    ensures
        pair_opt(r) == url_owner_repo(url@),
{
    match web_address::segments_of(url) {
        Some(segments) => owner_repo_of(&segments),
        None => None,
    }
}

/// Where a registration is kept by default.
pub enum ConfigSlot {
    /// In the directory of the repository.
    Repo { owner: String, repo: String },
    /// In this file.
    File(String),
}

/// Where the registration of an address is kept by default: a repository has
/// a directory of its own, an organization shares the home directory.
pub fn register_config_path(url: &str, home: &str) -> (r: ConfigSlot)
    ensures
        match url_owner_repo(url@) {
            Some((o, n)) => r matches ConfigSlot::Repo { owner, repo } && owner@ == o && repo@ == n,
            None => r matches ConfigSlot::File(p) && p@ == path::joined(home@, "config.toml"@),
        },
{
    match owner_repo_from_url(url) {
        Some((owner, repo)) => ConfigSlot::Repo { owner, repo },
        None => ConfigSlot::File(path::join(home, "config.toml")),
    }
}

/// The host of a registered address, github.com when it cannot be told.
pub open spec fn host_or_github(host: Option<Seq<char>>) -> Seq<char> {
    match host {
        Some(h) => h,
        None => "github.com"@,
    }
}

/// The host of an address, given what parsing it gave.
pub fn known_host(host: Option<String>) -> (r: String)
    ensures
        r@ == host_or_github(text::text_opt(host)),
{
    match host {
        Some(h) => h,
        None => "github.com".to_owned(),
    }
}

/// The host of a registered address.
pub fn host_from_runner_url(url: &str) -> (r: String)
    ensures
        r@ == host_or_github(web_address::url_host(url@)),
{
    known_host(web_address::host_of(url))
}

/// The refusal to overwrite a registration.
pub open spec fn already_registered(config_path: Seq<char>) -> Seq<char> {
    "registration already exists at "@ + config_path + " — pass --replace to overwrite"@
}

/// Refuses to overwrite a registration unless asked to.
pub fn ensure_not_registered(config_path: &str, present: bool, replace: bool) -> (r: Result<
    (),
    String,
>)
    ensures
        match r {
            Ok(_) => !present || replace,
            Err(msg) => present && !replace && msg@ == already_registered(config_path@),
        },
{
    if present && !replace {
        return Err(
            text::cat3(
                "registration already exists at ",
                config_path,
                " — pass --replace to overwrite",
            ),
        );
    }
    Ok(())
}

/// The group id that a `--runner-group` argument names: a number as it
/// stands. A name gives none, and the service then uses the default group.
pub fn runner_group_id(group: &str) -> (r: Option<i64>)
    ensures
        match r {
            Some(id) => number::parsed_i64(text::trimmed(group@)) == Some(id as int),
            None => number::parsed_i64(text::trimmed(group@)) is None,
        },
{
    number::parse_i64(text::trim(group))
}

/// Whether a `--runner-group` argument is a name other than the default
/// group's, which is not supported and worth a warning.
pub fn group_name_unsupported(group: &str) -> (r: bool)
    ensures
        r == (number::parsed_i64(text::trimmed(group@)) is None && text::trimmed(group@).len() > 0
            && text::lower(text::trimmed(group@)) != text::lower("default"@)),
{
    let trimmed = text::trim(group);
    number::parse_i64(trimmed).is_none() && !trimmed.is_empty() && !text::same_ignoring_case(
        trimmed,
        "default",
    )
}

/// The runtime part of a registration.
#[derive(Debug)]
pub struct RuntimeConfig {
    pub jit_config: String,
    pub work_dir: String,
    pub data_dir: String,
    pub protocol_version: String,
}

/// A persisted registration, without the sections that start out with their
/// defaults.
#[derive(Debug)]
pub struct RunnerRegistrationConfig {
    pub runner_url: String,
    pub runner_name: String,
    pub runner_id: i64,
    pub auth_token: String,
    pub labels: Vec<String>,
    pub runner_group: String,
    pub runtime: RuntimeConfig,
}

/// A minted registration.
#[derive(Debug)]
pub struct JitRegistration {
    pub encoded_jit_config: String,
    pub runner_id: i64,
}

/// What a registration is made from.
pub struct RegisterInputs<'a> {
    pub url: &'a str,
    pub runner_name: &'a str,
    pub labels: &'a Vec<String>,
    pub runner_group: &'a str,
    pub work_folder: &'a str,
    pub host: &'a str,
    pub config_path: &'a str,
}

/// What the service is asked for.
#[derive(Debug)]
pub struct RegisterParams {
    pub url: String,
    pub runner_token: String,
    pub name: String,
    pub labels: Vec<String>,
    /// The default group when none.
    pub runner_group_id: Option<i64>,
    pub work_folder: String,
    pub replace: bool,
}

/// The group id that a group argument names.
pub open spec fn group_id(group: Seq<char>) -> Option<int> {
    number::parsed_i64(text::trimmed(group))
}

/// A group id as a number.
pub open spec fn id_opt(id: Option<i64>) -> Option<int> {
    match id {
        Some(n) => Some(n as int),
        None => None,
    }
}

/// The request for a registration.
pub fn mint_jit(p: &RegisterInputs<'_>, token: &str, replace: bool) -> (r: RegisterParams)
    ensures
        r.url@ == p.url@,
        r.runner_token@ == token@,
        r.name@ == p.runner_name@,
        text::texts(r.labels@) == text::texts(p.labels@),
        id_opt(r.runner_group_id) == group_id(p.runner_group@),
        r.work_folder@ == p.work_folder@,
        r.replace == replace,
{
    RegisterParams {
        url: p.url.to_owned(),
        runner_token: token.to_owned(),
        name: p.runner_name.to_owned(),
        labels: text::copy_texts(p.labels),
        runner_group_id: runner_group_id(p.runner_group),
        work_folder: p.work_folder.to_owned(),
        replace,
    }
}

/// The request for renewing a registration: the runner that it names is
/// replaced by one with the same name, labels, group and work folder.
pub fn remint_and_persist(prior: &RunnerRegistrationConfig, bearer: &str) -> (r: RegisterParams)
    ensures
        r.url@ == prior.runner_url@,
        r.runner_token@ == bearer@,
        r.name@ == prior.runner_name@,
        text::texts(r.labels@) == text::texts(prior.labels@),
        id_opt(r.runner_group_id) == group_id(prior.runner_group@),
        r.work_folder@ == prior.runtime.work_dir@,
        r.replace,
{
    RegisterParams {
        url: prior.runner_url.clone(),
        runner_token: bearer.to_owned(),
        name: prior.runner_name.clone(),
        labels: text::copy_texts(&prior.labels),
        runner_group_id: runner_group_id(prior.runner_group.as_str()),
        work_folder: prior.runtime.work_dir.clone(),
        replace: true,
    }
}

/// What the credentials file of a registration holds.
#[derive(Debug)]
pub struct CredentialsFile {
    pub access_token: String,
    pub issued_at: String,
    pub expires_at: Option<String>,
}

/// The credentials of a registration made or renewed now: the client id,
/// which does not expire.
pub fn issued_credentials(client_id: &str) -> (r: CredentialsFile)
    ensures
        r.access_token@ == client_id@,
        r.expires_at is None,
        exists|reading: Option<(u64, u32)>| r.issued_at@ == #[trigger] stamp::rfc3339(reading),
{
    let issued_at = stamp::rfc3339_now();
    CredentialsFile { access_token: client_id.to_owned(), issued_at, expires_at: None }
}

/// The diagnostics directory of a registration, beside its configuration
/// file.
pub fn ensure_diag_dir(config_path: &str) -> (r: Option<String>)
    ensures
        text::text_opt(r) == match path::parent(config_path@) {
            Some(dir) => Some(path::joined(dir, "_diag"@)),
            None => None,
        },
{
    match path::parent_of(config_path) {
        Some(dir) => Some(path::join(dir, "_diag")),
        None => None,
    }
}

/// Where a registration keeps its data: in the directory of its
/// configuration file.
pub open spec fn data_dir_of(config_path: Seq<char>) -> Seq<char> {
    match path::parent(config_path) {
        Some(dir) => dir,
        None => "~/.toolu-runner"@,
    }
}

/// Assembles the registration to persist. The token field carries the
/// client id, which is not secret; github.com speaks the second protocol
/// version, every other host the first.
pub fn build_registration_config(
    p: &RegisterInputs<'_>,
    client_id: &str,
    registration: JitRegistration,
) -> (r: RunnerRegistrationConfig)
    ensures
        r.runner_url@ == p.url@,
        r.runner_name@ == p.runner_name@,
        r.runner_id == registration.runner_id,
        r.auth_token@ == client_id@,
        text::texts(r.labels@) == text::texts(p.labels@),
        r.runner_group@ == p.runner_group@,
        r.runtime.jit_config == registration.encoded_jit_config,
        r.runtime.work_dir@ == p.work_folder@,
        r.runtime.data_dir@ == data_dir_of(p.config_path@),
        r.runtime.protocol_version@ == if is_github(p.host@) {
            "v2"@
        } else {
            "v1"@
        },
{
    let data_dir: String = match path::parent_of(p.config_path) {
        Some(dir) => dir.to_owned(),
        None => "~/.toolu-runner".to_owned(),
    };
    let protocol_version: String = if on_github(p.host) {
        "v2".to_owned()
    } else {
        "v1".to_owned()
    };
    RunnerRegistrationConfig {
        runner_url: p.url.to_owned(),
        runner_name: p.runner_name.to_owned(),
        runner_id: registration.runner_id,
        auth_token: client_id.to_owned(),
        labels: text::copy_texts(p.labels),
        runner_group: p.runner_group.to_owned(),
        runtime: RuntimeConfig {
            jit_config: registration.encoded_jit_config,
            work_dir: p.work_folder.to_owned(),
            data_dir,
            protocol_version,
        },
    }
}

/// Where the bearer of a registration comes from.
pub enum BearerDecision {
    /// This token.
    Use(String),
    /// A device login, here and now.
    StartDeviceFlow,
    /// Nowhere, for this reason.
    Fail(String),
}

/// The bearer of a registration; none when a device login has to give it.
pub fn resolve_register_bearer(decision: BearerDecision) -> (r: Result<Option<String>, RunnerError>)
    ensures
        match decision {
            BearerDecision::Use(token) => r == Ok::<Option<String>, RunnerError>(Some(token)),
            BearerDecision::StartDeviceFlow => r == Ok::<Option<String>, RunnerError>(None),
            BearerDecision::Fail(msg) => r matches Err(e) && e@ == RunnerErrorView::Auth(msg@),
        },
{
    match decision {
        BearerDecision::Use(token) => Ok(Some(token)),
        BearerDecision::StartDeviceFlow => Ok(None),
        BearerDecision::Fail(msg) => Err(RunnerError::Auth(msg)),
    }
}

/// The arguments of a registration, apart from its target.
pub struct RegisterArgs {
    pub name: Option<String>,
    pub labels: Vec<String>,
    pub work: Option<String>,
    pub replace: bool,
}

/// What a registration will be made with.
#[derive(Debug)]
pub struct RegisterPlan {
    pub config_path: String,
    pub creds_path: String,
    pub runner_name: String,
    pub labels: Vec<String>,
    pub work_folder: String,
}

/// The labels of a registration: the ones asked for, else the defaults.
pub open spec fn chosen_labels(
    asked: Seq<Seq<char>>,
    os: Seq<char>,
    arch: Seq<char>,
) -> Seq<Seq<char>> {
    if asked.len() == 0 {
        seq!["self-hosted"@, os, arch]
    } else {
        asked
    }
}

/// Plans a registration at `config_path`, on a machine of the given name,
/// operating system and architecture. An existing registration is refused
/// before any token is looked for.
pub fn plan_register(
    args: RegisterArgs,
    config_path: &str,
    present: bool,
    hostname: Option<String>,
    os: &str,
    arch: &str,
) -> (r: Result<RegisterPlan, String>)
    ensures
        match r {
            Ok(plan) => {
                &&& !present || args.replace
                &&& plan.config_path@ == config_path@
                &&& plan.creds_path@ == cli::credentials_path(config_path@)
                &&& plan.runner_name@ == cli::runner_name(args.name, hostname)
                &&& text::texts(plan.labels@) == chosen_labels(
                    text::texts(args.labels@),
                    os@,
                    arch@,
                )
                &&& plan.work_folder@ == match args.work {
                    Some(dir) => dir@,
                    None => "~/.toolu-runner/_work"@,
                }
            },
            Err(msg) => present && !args.replace && msg@ == already_registered(config_path@),
        },
{
    match ensure_not_registered(config_path, present, args.replace) {
        Err(msg) => {
            return Err(msg);
        },
        Ok(_) => {},
    }
    let labels: Vec<String> = if args.labels.len() == 0 {
        cli::default_labels(os, arch)
    } else {
        args.labels
    };
    let work_folder: String = match &args.work {
        Some(dir) => cli::work_folder_or_default(Some(dir.as_str())),
        None => cli::work_folder_or_default(None),
    };
    Ok(
        RegisterPlan {
            config_path: config_path.to_owned(),
            creds_path: cli::credentials_path_for(config_path),
            runner_name: cli::runner_name_or(args.name, hostname),
            labels,
            work_folder,
        },
    )
}

/// Plans a registration on this machine.
pub fn cmd_register(
    args: RegisterArgs,
    config_path: &str,
    present: bool,
    os: &str,
    arch: &str,
) -> (r: Result<RegisterPlan, String>)
    ensures
        match r {
            Ok(plan) => {
                &&& !present || args.replace
                &&& plan.config_path@ == config_path@
                &&& plan.creds_path@ == cli::credentials_path(config_path@)
                &&& exists|hostname: Option<String>| plan.runner_name@ == #[trigger]
                    cli::runner_name(args.name, hostname)
                &&& text::texts(plan.labels@) == chosen_labels(
                    text::texts(args.labels@),
                    os@,
                    arch@,
                )
                &&& plan.work_folder@ == match args.work {
                    Some(dir) => dir@,
                    None => "~/.toolu-runner/_work"@,
                }
            },
            Err(msg) => present && !args.replace && msg@ == already_registered(config_path@),
        },
{
    let hostname = machine::hostname();
    plan_register(args, config_path, present, hostname, os, arch)
}

/// The line that reports a registration.
pub fn registered_line(
    runner_name: &str,
    runner_id: i64,
    host: &str,
    config_path: &str,
    creds_path: &str,
) -> (r: String)
    ensures
        r@ == "registered runner '"@ + runner_name@ + "' (id "@ + number::signed_decimal(
            runner_id as int,
        ) + ") at "@ + host@ + " (config: "@ + config_path@ + ", creds: "@ + creds_path@ + ")"@,
{
    let mut out = text::cat3("registered runner '", runner_name, "' (id ");
    out.append(number::show_i64(runner_id).as_str());
    out.append(") at ");
    out.append(host);
    out.append(" (config: ");
    out.append(config_path);
    out.append(", creds: ");
    out.append(creds_path);
    out.append(")");
    out
}

/// The steps of persisting a minted registration.
#[derive(Debug, Clone, Copy, PartialEq, Eq, Structural)]
pub enum PersistStep {
    /// Ask the service for a registration.
    Mint,
    /// Decode what it sent.
    Decode,
    /// Read the configuration file that is about to be overwritten.
    Snapshot,
    /// Write the configuration file.
    SaveConfig,
    /// Write the credentials file.
    SaveCredentials,
    /// Put the configuration file back as it was.
    RollBack,
    /// Create the diagnostics directory.
    MakeDiagDir,
    /// Over.
    Finished,
}

/// What a step came to.
pub enum StepResult {
    Done,
    Failed(RunnerError),
}

/// A registration being persisted. A failure before the configuration is
/// written leaves both files alone, and a failure to write the credentials
/// rolls the configuration back.
pub struct Persist {
    fresh: bool,
    step: PersistStep,
    previous: Option<Vec<u8>>,
    failure: Option<RunnerError>,
}

/// A registration being persisted.
pub struct PersistView {
    /// Whether this is a new registration, not one being renewed.
    pub fresh: bool,
    pub step: PersistStep,
    /// The configuration file as it was; none when there was none.
    pub previous: Option<Seq<u8>>,
    pub failure: Option<RunnerErrorView>,
}

impl View for Persist {
    type V = PersistView;

    closed spec fn view(&self) -> PersistView {
        PersistView {
            fresh: self.fresh,
            step: self.step,
            previous: match self.previous {
                Some(b) => Some(b@),
                None => None,
            },
            failure: match self.failure {
                Some(e) => Some(e@),
                None => None,
            },
        }
    }
}

/// What follows a step that was done.
pub open spec fn step_after(step: PersistStep, fresh: bool) -> PersistStep {
    match step {
        PersistStep::Mint => PersistStep::Decode,
        PersistStep::Decode => PersistStep::Snapshot,
        PersistStep::Snapshot => PersistStep::SaveConfig,
        PersistStep::SaveConfig => PersistStep::SaveCredentials,
        PersistStep::SaveCredentials => if fresh {
            PersistStep::MakeDiagDir
        } else {
            PersistStep::Finished
        },
        _ => PersistStep::Finished,
    }
}

/// The failure as it is reported: what did not decode is said so. Of a
/// failure to decode, the message is how it displays.
pub open spec fn reported(p: PersistView, e: RunnerErrorView) -> RunnerErrorView {
    if p.step == PersistStep::Decode {
        RunnerErrorView::Protocol(
            if p.fresh {
                "minted jit_config did not parse: "@ + crate::error::message_of(e)
            } else {
                "re-minted jit_config did not parse: "@ + crate::error::message_of(e)
            },
        )
    } else {
        e
    }
}

/// The state after a step. Rolling back and creating the diagnostics
/// directory are best-effort: their failure changes nothing.
pub open spec fn persist_after(p: PersistView, failed: Option<RunnerErrorView>) -> PersistView {
    match failed {
        None => PersistView { step: step_after(p.step, p.fresh), ..p },
        Some(e) => match p.step {
            PersistStep::SaveCredentials => PersistView {
                step: PersistStep::RollBack,
                failure: Some(e),
                ..p
            },
            PersistStep::RollBack | PersistStep::MakeDiagDir | PersistStep::Finished => PersistView {
                step: PersistStep::Finished,
                ..p
            },
            PersistStep::Snapshot => PersistView { step: PersistStep::SaveConfig, ..p },
            _ => PersistView {
                step: PersistStep::Finished,
                failure: Some(reported(p, e)),
                ..p
            },
        },
    }
}

/// The failure of a step's result.
pub open spec fn failure_of(result: StepResult) -> Option<RunnerErrorView> {
    match result {
        StepResult::Done => None,
        StepResult::Failed(e) => Some(e@),
    }
}

impl Persist {
    /// Persisting a new registration, or one that is renewed.
    pub fn new(fresh: bool) -> (r: Persist)
        ensures
            r@ == (PersistView { fresh, step: PersistStep::Mint, previous: None, failure: None }),
    {
        Persist { fresh, step: PersistStep::Mint, previous: None, failure: None }
    }

    /// The step to perform.
    pub fn step(&self) -> (r: PersistStep)
        ensures
            r == self@.step,
    {
        self.step
    }

    /// The bytes to restore when rolling back; none to remove the file.
    pub fn previous(&self) -> (r: Option<&Vec<u8>>)
        ensures
            match r {
                Some(b) => self@.previous == Some(b@),
                None => self@.previous is None,
            },
    {
        match &self.previous {
            Some(b) => Some(b),
            None => None,
        }
    }

    /// Takes the bytes of the configuration file that is about to be
    /// overwritten; none when it could not be read.
    pub fn snapshot(&mut self, previous: Option<Vec<u8>>)
        requires
            old(self)@.step == PersistStep::Snapshot,
        ensures
            final(self)@ == (PersistView {
                step: PersistStep::SaveConfig,
                previous: match previous {
                    Some(b) => Some(b@),
                    None => None,
                },
                ..old(self)@
            }),
    {
        self.previous = previous;
        self.step = PersistStep::SaveConfig;
    }

    /// Takes what the step came to.
    pub fn advance(&mut self, result: StepResult)
        ensures
            final(self)@ == persist_after(old(self)@, failure_of(result)),
    {
        match result {
            StepResult::Done => {
                self.step = match self.step {
                    PersistStep::Mint => PersistStep::Decode,
                    PersistStep::Decode => PersistStep::Snapshot,
                    PersistStep::Snapshot => PersistStep::SaveConfig,
                    PersistStep::SaveConfig => PersistStep::SaveCredentials,
                    PersistStep::SaveCredentials => if self.fresh {
                        PersistStep::MakeDiagDir
                    } else {
                        PersistStep::Finished
                    },
                    _ => PersistStep::Finished,
                };
            },
            StepResult::Failed(e) => match self.step {
                PersistStep::SaveCredentials => {
                    self.step = PersistStep::RollBack;
                    self.failure = Some(e);
                },
                PersistStep::RollBack | PersistStep::MakeDiagDir | PersistStep::Finished => {
                    self.step = PersistStep::Finished;
                },
                PersistStep::Snapshot => {
                    self.step = PersistStep::SaveConfig;
                },
                PersistStep::Decode => {
                    self.step = PersistStep::Finished;
                    let what: &str = if self.fresh {
                        "minted jit_config did not parse: "
                    } else {
                        "re-minted jit_config did not parse: "
                    };
                    self.failure = Some(RunnerError::Protocol(text::cat2(what, e.message())));
                },
                _ => {
                    self.step = PersistStep::Finished;
                    self.failure = Some(e);
                },
            },
        }
    }

    /// The outcome: success unless a failure was recorded.
    pub fn outcome(self) -> (r: Result<(), RunnerError>)
        ensures
            match r {
                Ok(_) => self@.failure is None,
                Err(e) => self@.failure == Some(e@),
            },
    {
        match self.failure {
            None => Ok(()),
            Some(e) => Err(e),
        }
    }
}

/// The two files of a registration; none where there is no file.
pub struct Files {
    pub config: Option<Seq<u8>>,
    pub credentials: Option<Seq<u8>>,
}

/// The files after a step was performed: a write replaces the file when it
/// succeeds and leaves it alone when it fails.
pub open spec fn files_after(
    files: Files,
    p: PersistView,
    new: Files,
    failed: Option<RunnerErrorView>,
) -> Files {
    if failed is Some {
        files
    } else {
        match p.step {
            PersistStep::SaveConfig => Files { config: new.config, ..files },
            PersistStep::SaveCredentials => Files { credentials: new.credentials, ..files },
            PersistStep::RollBack => Files { config: p.previous, ..files },
            _ => files,
        }
    }
}

/// The state and the files after all steps, when the `i`-th step performed
/// fails as `failures[i]` says. The snapshot reads the file as it is.
pub open spec fn persisted(
    files: Files,
    p: PersistView,
    new: Files,
    failures: Seq<Option<RunnerErrorView>>,
) -> (Files, PersistView)
    decreases failures.len(),
{
    if failures.len() == 0 || p.step == PersistStep::Finished {
        (files, p)
    } else if p.step == PersistStep::Snapshot {
        persisted(
            files,
            PersistView { step: PersistStep::SaveConfig, previous: files.config, ..p },
            new,
            failures.drop_first(),
        )
    } else {
        persisted(
            files_after(files, p, new, failures[0]),
            persist_after(p, failures[0]),
            new,
            failures.drop_first(),
        )
    }
}

/// Persisting is all-or-nothing: when it succeeds both files are new, and
/// when it fails, whichever step failed, both are as they were, provided
/// that rolling back itself works.
pub proof fn law_persisting_is_all_or_nothing(
    files: Files,
    new: Files,
    fresh: bool,
    failures: Seq<Option<RunnerErrorView>>,
)
    requires
        failures.len() >= 6,
        failures[5] is None,
    ensures
        ({
            let start = PersistView {
                fresh,
                step: PersistStep::Mint,
                previous: None,
                failure: None,
            };
            let (end, p) = persisted(files, start, new, failures);
            &&& p.step == PersistStep::Finished
            &&& p.failure is None ==> end == new
            &&& p.failure is Some ==> end == files
            &&& p.failure is None <==> (failures[0] is None && failures[1] is None && failures[3] is None
                && failures[4] is None)
        }),
{
    let f1 = failures.drop_first();
    let f2 = f1.drop_first();
    let f3 = f2.drop_first();
    let f4 = f3.drop_first();
    let f5 = f4.drop_first();
    reveal_with_fuel(persisted, 8);
    assert(f1[0] == failures[1]);
    assert(f3[0] == failures[3]);
    assert(f4[0] == failures[4]);
    assert(f5[0] == failures[5]);
}

/// A registration is planned with exactly the labels asked for, in order,
/// whatever the machine; only when none are asked for does it get
/// `self-hosted`, the operating system and the architecture.
pub proof fn law_asked_labels_are_used(
    args: RegisterArgs,
    config_path: &str,
    present: bool,
    hostname: Option<String>,
    os: &str,
    arch: &str,
    r: Result<RegisterPlan, String>,
)
    requires
        call_ensures(plan_register, (args, config_path, present, hostname, os, arch), r)
            || call_ensures(cmd_register, (args, config_path, present, os, arch), r),
    ensures
        r matches Ok(plan) ==> {
            &&& args.labels@.len() > 0 ==> plan.labels@.len() == args.labels@.len()
            &&& forall|i: int|
                0 <= i < args.labels@.len() ==> (#[trigger] plan.labels@[i])@ == args.labels@[i]@
            &&& args.labels@.len() == 0 ==> plan.labels@.len() == 3 && plan.labels@[0]@
                == "self-hosted"@ && plan.labels@[1]@ == os@ && plan.labels@[2]@ == arch@
        },
{
    match r {
        Ok(plan) => {
            let out = text::texts(plan.labels@);
            let asked = text::texts(args.labels@);
            assert(out.len() == plan.labels@.len());
            assert(forall|i: int| 0 <= i < out.len() ==> out[i] == (#[trigger] plan.labels@[i])@);
            assert(forall|i: int| 0 <= i < asked.len() ==> asked[i] == (#[trigger] args.labels@[i])@);
        },
        Err(_) => {},
    }
}

/// A registration is planned unless one is there and may not be replaced;
/// what is asked for by argument wins over every default.
pub proof fn law_plan_follows_arguments(
    args: RegisterArgs,
    config_path: &str,
    present: bool,
    hostname: Option<String>,
    os: &str,
    arch: &str,
    r: Result<RegisterPlan, String>,
)
    requires
        call_ensures(plan_register, (args, config_path, present, hostname, os, arch), r),
    ensures
        r is Err <==> present && !args.replace,
        r matches Ok(plan) ==> {
            &&& plan.config_path@ == config_path@
            &&& args.name matches Some(n) ==> plan.runner_name@ == n@
            &&& args.name is None ==> (hostname matches Some(h) ==> plan.runner_name@ == h@)
            &&& args.name is None && hostname is None ==> plan.runner_name@ == "toolu-runner"@
            &&& args.work matches Some(w) ==> plan.work_folder@ == w@
            &&& args.work is None ==> plan.work_folder@ == "~/.toolu-runner/_work"@
            &&& path::parent(config_path@) matches Some(dir) ==> plan.creds_path@ == path::joined(
                dir,
                "credentials.json"@,
            )
        },
{
}

/// Planning on this machine refuses exactly when planning for a known one
/// does, and a name asked for is used there too.
pub proof fn law_command_plans_alike(
    args: RegisterArgs,
    config_path: &str,
    present: bool,
    os: &str,
    arch: &str,
    r: Result<RegisterPlan, String>,
)
    requires
        call_ensures(cmd_register, (args, config_path, present, os, arch), r),
    ensures
        r is Err <==> present && !args.replace,
        r matches Ok(plan) ==> {
            &&& plan.config_path@ == config_path@
            &&& args.name matches Some(n) ==> plan.runner_name@ == n@
            &&& args.work matches Some(w) ==> plan.work_folder@ == w@
            &&& args.work is None ==> plan.work_folder@ == "~/.toolu-runner/_work"@
        },
{
}

/// An existing registration is overwritten only when asked to.
pub proof fn law_registration_is_not_overwritten(
    config_path: &str,
    present: bool,
    replace: bool,
    r: Result<(), String>,
)
    requires
        call_ensures(ensure_not_registered, (config_path, present, replace), r),
    ensures
        r is Err <==> present && !replace,
{
}

/// An address is accepted exactly when it parses and has a host with a dot,
/// and gives that host.
pub proof fn law_host_needs_a_dot(
    fault: Option<String>,
    host: Option<String>,
    r: Result<String, RunnerError>,
)
    requires
        call_ensures(check_host, (fault, host), r),
    ensures
        r is Ok <==> fault is None && host is Some && exists|i: int|
            0 <= i < host->0@.len() && host->0@[i] == '.',
        r matches Ok(h) ==> h@ == host->0@,
{
    match host {
        Some(h) => {
            if h@.contains('.') {
                let i = choose|i: int| 0 <= i < h@.len() && h@[i] == '.';
                assert(h@[i] == '.');
            }
        },
        None => {},
    }
}

/// The same of an address as text, over what parsing it gives.
pub proof fn law_address_needs_a_dotted_host(url: &str, r: Result<String, RunnerError>)
    requires
        call_ensures(parse_and_validate_url, (url,), r),
    ensures
        r is Ok <==> web_address::url_fault(url@) is None && web_address::url_host(url@) is Some
            && web_address::url_host(url@)->0.contains('.'),
        r matches Ok(h) ==> web_address::url_host(url@) == Some(h@),
{
}

/// github.com is recognised in any letter case, and nothing else is.
pub proof fn law_github_in_any_case(host: &str, r: bool)
    requires
        call_ensures(on_github, (host,), r),
    ensures
        r <==> text::lower(host@) == "github.com"@,
        host@ == "github.com"@ ==> r,
{
    reveal_strlit("github.com");
    assert(text::lower("github.com"@) =~= "github.com"@);
}

/// A target is inferred only from a github.com repository, and is its
/// address there; every other finding is refused.
pub proof fn law_only_github_is_inferred(
    detection: Detection,
    r: Result<(String, String), RunnerError>,
)
    requires
        call_ensures(inferred_target, (detection,), r),
    ensures
        r is Ok <==> (detection matches Detection::Found(repo) && text::lower(repo.host@)
            == "github.com"@),
        r matches Ok((url, host)) ==> (detection matches Detection::Found(repo) && url@
            == "https://github.com/"@ + repo.owner@ + "/"@ + repo.repo@ && host@ == "github.com"@),
        detection matches Detection::Failed(e) ==> (r matches Err(f) && f@ == e@),
{
    reveal_strlit("github.com");
    assert(text::lower("github.com"@) =~= "github.com"@);
}

/// An explicit address is used as it stands and never replaced by an
/// inferred one; without one, the working directory decides.
pub proof fn law_explicit_address_wins(
    url: Option<String>,
    detection: Detection,
    r: Result<(String, String), RunnerError>,
)
    requires
        call_ensures(resolve_url_and_host, (url, detection), r),
    ensures
        url matches Some(u) ==> {
            &&& r is Ok <==> web_address::url_fault(u@) is None && web_address::url_host(u@) is Some
                && web_address::url_host(u@)->0.contains('.')
            &&& r matches Ok((address, host)) ==> address@ == u@ && web_address::url_host(u@)
                == Some(host@)
        },
        url is None ==> (r is Ok <==> (detection matches Detection::Found(repo) && text::lower(
            repo.host@,
        ) == "github.com"@)),
{
    reveal_strlit("github.com");
    assert(text::lower("github.com"@) =~= "github.com"@);
}

/// An address names its first two segments that are not empty, the second
/// without a `.git` ending; anything shorter names nothing.
pub proof fn law_owner_and_repository(owner: Seq<char>, repo: Seq<char>, rest: Seq<Seq<char>>)
    requires
        owner.len() > 0,
        repo.len() > 0,
    ensures
        !".git"@.is_suffix_of(repo) ==> owner_repo(seq![owner, repo]) == Some((owner, repo)),
        owner_repo(seq![owner, repo + ".git"@]) == Some((owner, repo)),
        owner_repo(seq![owner]) is None,
        owner_repo(seq![owner, ".git"@]) is None,
        filled(rest).len() < 2 ==> owner_repo(rest) is None,
        filled(rest).len() >= 2 && plain_repo(filled(rest)[1]).len() > 0 ==> owner_repo(rest)
            == Some((filled(rest)[0], plain_repo(filled(rest)[1]))),
{
    reveal_strlit(".git");
    reveal_with_fuel(filled, 3);
    let full = repo + ".git"@;
    assert(full.subrange(full.len() - 4, full.len() as int) =~= ".git"@);
    assert(full.take(full.len() - 4) =~= repo);
    assert(".git"@.subrange(0, 4) =~= ".git"@);
    assert(seq![owner, repo].drop_last() =~= seq![owner]);
    assert(seq![owner, full].drop_last() =~= seq![owner]);
    assert(seq![owner, ".git"@].drop_last() =~= seq![owner]);
    assert(seq![owner].drop_last() =~= Seq::<Seq<char>>::empty());
    assert(filled(seq![owner]) =~= seq![owner]);
    assert(filled(seq![owner, repo]) =~= seq![owner, repo]);
    assert(filled(seq![owner, full]) =~= seq![owner, full]);
    assert(filled(seq![owner, ".git"@]) =~= seq![owner, ".git"@]);
}

/// Empty segments do not count; all others do, in order.
pub proof fn law_empty_segments_do_not_count(segments: Seq<Seq<char>>, segment: Seq<char>)
    ensures
        segment.len() == 0 ==> filled(segments.push(segment)) == filled(segments),
        segment.len() > 0 ==> filled(segments.push(segment)) == filled(segments).push(segment),
        filled(seq![]).len() == 0,
{
    assert(segments.push(segment).drop_last() =~= segments);
}

/// The registration of a repository is kept in the repository's directory,
/// any other in the home directory.
pub proof fn law_repository_has_its_own_slot(url: &str, home: &str, r: ConfigSlot)
    requires
        call_ensures(register_config_path, (url, home), r),
    ensures
        r is Repo <==> (web_address::url_segments(url@) matches Some(s) && owner_repo(s) is Some),
        r matches ConfigSlot::Repo { owner, repo } ==> owner_repo(
            web_address::url_segments(url@)->0,
        ) == Some((owner@, repo@)),
        r matches ConfigSlot::File(p) ==> p@ == path::joined(home@, "config.toml"@),
{
}

/// A host that can be told is kept; otherwise it is github.com.
pub proof fn law_unknown_host_is_github(host: Option<String>, r: String)
    requires
        call_ensures(known_host, (host,), r),
    ensures
        host matches Some(h) ==> r@ == h@,
        host is None ==> r@ == "github.com"@,
{
}

/// The group argument gives an id exactly when it is a number; a name is
/// worth a warning unless it is empty or the default group's in any letter
/// case.
pub proof fn law_group_by_number(group: &str, id: Option<i64>, unsupported: bool)
    requires
        call_ensures(runner_group_id, (group,), id),
        call_ensures(group_name_unsupported, (group,), unsupported),
    ensures
        id is Some <==> number::parsed_i64(text::trimmed(group@)) is Some,
        id matches Some(n) ==> number::parsed_i64(text::trimmed(group@)) == Some(n as int),
        unsupported ==> id is None,
        id is None && text::trimmed(group@).len() > 0 && text::lower(text::trimmed(group@))
            != "default"@ ==> unsupported,
        text::lower(text::trimmed(group@)) == "default"@ || text::trimmed(group@).len() == 0
            ==> !unsupported,
{
    reveal_strlit("default");
    assert(text::lower("default"@) =~= "default"@);
}

/// The request for a registration asks for what was planned: the address,
/// the name, each label in order, the group's number, the work folder, and
/// whether to replace.
pub proof fn law_request_is_the_plan(
    p: RegisterInputs<'_>,
    token: &str,
    replace: bool,
    r: RegisterParams,
)
    requires
        call_ensures(mint_jit, (&p, token, replace), r),
    ensures
        r.url@ == p.url@,
        r.runner_token@ == token@,
        r.name@ == p.runner_name@,
        r.labels@.len() == p.labels@.len(),
        forall|i: int| 0 <= i < p.labels@.len() ==> (#[trigger] r.labels@[i])@ == p.labels@[i]@,
        r.runner_group_id is Some <==> number::parsed_i64(text::trimmed(p.runner_group@)) is Some,
        r.work_folder@ == p.work_folder@,
        r.replace == replace,
{
    text::law_texts_are_those_of_the_strings(r.labels@, None);
    text::law_texts_are_those_of_the_strings(p.labels@, None);
    assert forall|i: int| 0 <= i < p.labels@.len() implies (#[trigger] r.labels@[i])@
        == p.labels@[i]@ by {
        assert(text::texts(r.labels@)[i] == text::texts(p.labels@)[i]);
    }
}

/// A renewed registration replaces the runner under its own name, with the
/// labels, group and work folder that it had.
pub proof fn law_renewal_keeps_the_runner(
    prior: RunnerRegistrationConfig,
    bearer: &str,
    r: RegisterParams,
)
    requires
        call_ensures(remint_and_persist, (&prior, bearer), r),
    ensures
        r.replace,
        r.url@ == prior.runner_url@,
        r.runner_token@ == bearer@,
        r.name@ == prior.runner_name@,
        r.labels@.len() == prior.labels@.len(),
        forall|i: int|
            0 <= i < prior.labels@.len() ==> (#[trigger] r.labels@[i])@ == prior.labels@[i]@,
        r.runner_group_id is Some <==> number::parsed_i64(text::trimmed(prior.runner_group@)) is Some,
        r.work_folder@ == prior.runtime.work_dir@,
{
    text::law_texts_are_those_of_the_strings(r.labels@, None);
    text::law_texts_are_those_of_the_strings(prior.labels@, None);
    assert forall|i: int| 0 <= i < prior.labels@.len() implies (#[trigger] r.labels@[i])@
        == prior.labels@[i]@ by {
        assert(text::texts(r.labels@)[i] == text::texts(prior.labels@)[i]);
    }
}

/// The registration that is kept is the one that was asked for and minted;
/// github.com in any letter case speaks the second protocol version, every
/// other host the first, and the data lies beside the configuration file.
pub proof fn law_kept_registration_is_the_minted_one(
    p: RegisterInputs<'_>,
    client_id: &str,
    registration: JitRegistration,
    r: RunnerRegistrationConfig,
)
    requires
        call_ensures(build_registration_config, (&p, client_id, registration), r),
    ensures
        r.runner_url@ == p.url@,
        r.runner_name@ == p.runner_name@,
        r.runner_id == registration.runner_id,
        r.auth_token@ == client_id@,
        r.labels@.len() == p.labels@.len(),
        forall|i: int| 0 <= i < p.labels@.len() ==> (#[trigger] r.labels@[i])@ == p.labels@[i]@,
        r.runner_group@ == p.runner_group@,
        r.runtime.jit_config@ == registration.encoded_jit_config@,
        r.runtime.work_dir@ == p.work_folder@,
        r.runtime.protocol_version@ == "v2"@ <==> text::lower(p.host@) == "github.com"@,
        r.runtime.protocol_version@ == "v1"@ <==> text::lower(p.host@) != "github.com"@,
        path::parent(p.config_path@) matches Some(dir) ==> r.runtime.data_dir@ == dir,
        path::parent(p.config_path@) is None ==> r.runtime.data_dir@ == "~/.toolu-runner"@,
{
    reveal_strlit("github.com");
    reveal_strlit("v1");
    reveal_strlit("v2");
    assert("v1"@[1] != "v2"@[1]);
    assert(text::lower("github.com"@) =~= "github.com"@);
    text::law_texts_are_those_of_the_strings(r.labels@, None);
    text::law_texts_are_those_of_the_strings(p.labels@, None);
    assert forall|i: int| 0 <= i < p.labels@.len() implies (#[trigger] r.labels@[i])@
        == p.labels@[i]@ by {
        assert(text::texts(r.labels@)[i] == text::texts(p.labels@)[i]);
    }
}

/// The diagnostics lie in a directory beside the configuration file.
pub proof fn law_diagnostics_lie_beside(config_path: &str, r: Option<String>)
    requires
        call_ensures(ensure_diag_dir, (config_path,), r),
    ensures
        r is Some <==> path::parent(config_path@) is Some,
        r matches Some(dir) ==> dir@ == path::joined(path::parent(config_path@)->0, "_diag"@),
{
}

/// A token that was decided on is used, a device login gives none yet, and a
/// refusal is an authentication failure with its reason.
pub proof fn law_bearer_follows_decision(
    decision: BearerDecision,
    r: Result<Option<String>, RunnerError>,
)
    requires
        call_ensures(resolve_register_bearer, (decision,), r),
    ensures
        decision matches BearerDecision::Use(t) ==> (r matches Ok(Some(token)) && token@ == t@),
        decision is StartDeviceFlow ==> r matches Ok(None),
        decision matches BearerDecision::Fail(m) ==> (r matches Err(e) && e@
            == RunnerErrorView::Auth(m@)),
{
}

/// The client id is kept as a credential that does not expire.
pub proof fn law_credentials_do_not_expire(client_id: &str, r: CredentialsFile)
    requires
        call_ensures(issued_credentials, (client_id,), r),
    ensures
        r.access_token@ == client_id@,
        r.expires_at is None,
{
}

/// Minting, decoding, the snapshot, the configuration and the credentials
/// follow on each other; only a new registration then gets its diagnostics
/// directory.
pub proof fn law_persisting_steps_in_order(p: PersistView)
    ensures
        ({
            let next = persist_after(p, None);
            &&& next.fresh == p.fresh && next.previous == p.previous && next.failure == p.failure
            &&& p.step == PersistStep::Mint ==> next.step == PersistStep::Decode
            &&& p.step == PersistStep::Decode ==> next.step == PersistStep::Snapshot
            &&& p.step == PersistStep::Snapshot ==> next.step == PersistStep::SaveConfig
            &&& p.step == PersistStep::SaveConfig ==> next.step == PersistStep::SaveCredentials
            &&& p.step == PersistStep::SaveCredentials && p.fresh ==> next.step
                == PersistStep::MakeDiagDir
            &&& p.step == PersistStep::SaveCredentials && !p.fresh ==> next.step
                == PersistStep::Finished
            &&& p.step == PersistStep::RollBack || p.step == PersistStep::MakeDiagDir ==> next.step
                == PersistStep::Finished
        }),
{
}

/// A failure ends persisting with that failure, except that a failure to
/// write the credentials first rolls back, and that the snapshot, rolling
/// back and the diagnostics directory may fail without a word. A failure to
/// decode is reported as such, the others as they are.
pub proof fn law_failed_step_is_reported(p: PersistView, e: RunnerErrorView)
    ensures
        ({
            let next = persist_after(p, Some(e));
            &&& next.fresh == p.fresh && next.previous == p.previous
            &&& p.step == PersistStep::Mint || p.step == PersistStep::SaveConfig ==> next.step
                == PersistStep::Finished && next.failure == Some(e)
            &&& p.step == PersistStep::SaveCredentials ==> next.step == PersistStep::RollBack
                && next.failure == Some(e)
            &&& p.step == PersistStep::RollBack || p.step == PersistStep::MakeDiagDir ==> next.step
                == PersistStep::Finished && next.failure == p.failure
            &&& p.step == PersistStep::Snapshot ==> next.step == PersistStep::SaveConfig
                && next.failure == p.failure
            &&& p.step == PersistStep::Decode ==> next.step == PersistStep::Finished
                && next.failure == Some(
                RunnerErrorView::Protocol(
                    (if p.fresh {
                        "minted"@
                    } else {
                        "re-minted"@
                    }) + " jit_config did not parse: "@ + crate::error::message_of(e),
                ),
            )
        }),
{
    reveal_strlit("minted");
    reveal_strlit("re-minted");
    reveal_strlit(" jit_config did not parse: ");
    reveal_strlit("minted jit_config did not parse: ");
    reveal_strlit("re-minted jit_config did not parse: ");
    assert("minted"@ + " jit_config did not parse: "@ =~= "minted jit_config did not parse: "@);
    assert("re-minted"@ + " jit_config did not parse: "@
        =~= "re-minted jit_config did not parse: "@);
}

/// The file that is about to be overwritten is kept as it is, and is what
/// rolling back restores; persisting succeeds exactly when nothing failed.
pub proof fn law_snapshot_is_restored(
    p: &mut Persist,
    previous: Option<Vec<u8>>,
    done: Persist,
    r: Result<(), RunnerError>,
)
    requires
        call_ensures(Persist::snapshot, (p, previous), ()),
        call_ensures(Persist::outcome, (done,), r),
    ensures
        previous matches Some(b) ==> final(p)@.previous == Some(b@),
        previous is None ==> final(p)@.previous is None,
        final(p)@.step == PersistStep::SaveConfig,
        final(p)@.failure == old(p)@.failure,
        r is Ok <==> done@.failure is None,
        r matches Err(e) ==> done@.failure == Some(e@),
{
}

/// Persisting begins with minting, nothing kept and nothing failed.
pub proof fn law_persisting_begins_with_minting(fresh: bool, r: Persist)
    requires
        call_ensures(Persist::new, (fresh,), r),
    ensures
        r@.fresh == fresh,
        r@.step == PersistStep::Mint,
        r@.previous is None,
        r@.failure is None,
{
}

/// The host of a registered address is the one it has, and github.com when it
/// has none; the owner and repository are those its segments name.
pub proof fn law_registered_address_is_read(
    url: &str,
    host: String,
    named: Option<(String, String)>,
)
    requires
        call_ensures(host_from_runner_url, (url,), host),
        call_ensures(owner_repo_from_url, (url,), named),
    ensures
        web_address::url_host(url@) matches Some(h) ==> host@ == h,
        web_address::url_host(url@) is None ==> host@ == "github.com"@,
        web_address::url_segments(url@) is None ==> named is None,
        web_address::url_segments(url@) matches Some(s) ==> (named is Some <==> owner_repo(s)
            is Some),
        web_address::url_segments(url@) matches Some(s) ==> (named matches Some((o, n)) ==> owner_repo(
            s,
        ) == Some((o@, n@))),
{
}

/// A registration is reported with the runner's name and id, the host, and
/// where its two files are.
pub proof fn law_registration_is_reported(
    name: &str,
    id: i64,
    host: &str,
    config: &str,
    creds: &str,
    r: String,
)
    requires
        call_ensures(registered_line, (name, id, host, config, creds), r),
    ensures
        r@ == "registered runner '"@ + name@ + "' (id "@ + number::signed_decimal(id as int)
            + ") at "@ + host@ + " (config: "@ + config@ + ", creds: "@ + creds@ + ")"@,
{
}

/// A step that was done or failed moves persisting on as the steps say.
pub proof fn law_step_is_taken(p: &mut Persist, result: StepResult)
    requires
        call_ensures(Persist::advance, (p, result), ()),
    ensures
        result is Done ==> final(p)@.failure == old(p)@.failure && final(p)@.previous == old(
            p)@.previous,
        result is Done && old(p)@.step == PersistStep::SaveConfig ==> final(p)@.step
            == PersistStep::SaveCredentials,
        result matches StepResult::Failed(e) ==> (old(p)@.step == PersistStep::SaveCredentials ==> final(
            p)@.step == PersistStep::RollBack && final(p)@.failure == Some(e@)),
        result matches StepResult::Failed(e) ==> (old(p)@.step == PersistStep::SaveConfig || old(
            p)@.step == PersistStep::Mint ==> final(p)@.step == PersistStep::Finished && final(
            p)@.failure == Some(e@)),
{
}

/// A refused target says why: what is wrong with the address, that it has no
/// host, or which host is not accepted; without an address, why nothing was
/// inferred.
pub proof fn law_refused_target_says_why(
    fault: Option<String>,
    host: Option<String>,
    checked: Result<String, RunnerError>,
    detection: Detection,
    inferred: Result<(String, String), RunnerError>,
)
    requires
        call_ensures(check_host, (fault, host), checked),
        call_ensures(inferred_target, (detection,), inferred),
    ensures
        fault matches Some(f) ==> (checked matches Err(e) && e@ == RunnerErrorView::Config(
            "invalid --url: "@ + f@,
        )),
        fault is None && host is None ==> (checked matches Err(e) && e@ == RunnerErrorView::Config(
            "URL missing host"@,
        )),
        fault is None ==> (host matches Some(h) ==> (!h@.contains('.') ==> (checked matches Err(e)
            && e@ == RunnerErrorView::Config(
            "invalid host '"@ + h@ + "' — runner accepts github.com and GHES hosts only"@,
        )))),
        detection matches Detection::NoDirectory(cause) ==> (inferred matches Err(e) && e@
            == RunnerErrorView::Config("could not read the current directory: "@ + cause@)),
        detection matches Detection::Found(repo) ==> (!is_github(repo.host@) ==> (
        inferred matches Err(e) && e@ == RunnerErrorView::Config(
            "the `origin` remote points at '"@ + repo.host@
                + "', not github.com — repo inference is github.com only; GHES registrations need an explicit --url"@,
        ))),
{
}

/// The refusal to overwrite a registration names it and the way out.
pub proof fn law_refusal_names_the_registration(
    config_path: &str,
    present: bool,
    replace: bool,
    r: Result<(), String>,
)
    requires
        call_ensures(ensure_not_registered, (config_path, present, replace), r),
    ensures
        r matches Err(msg) ==> msg@ == "registration already exists at "@ + config_path@
            + " — pass --replace to overwrite"@,
{
}

} // verus!
