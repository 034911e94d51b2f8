//! Removing a registration, and finding which one a command is about.

use vstd::prelude::*;

use crate::outside::web_address;
use crate::path;
use crate::register_cmd;
use crate::register_cmd::InferredRepo;
use crate::text;

verus! {

/// Why inference from the working directory did not apply: its failure, as
/// displayed, without the class and without the hint about `--url`.
pub open spec fn inference_note(failure: Seq<char>) -> Seq<char> {
    let class = "config error: "@;
    let body = if class.is_prefix_of(failure) {
        failure.skip(class.len() as int)
    } else {
        failure
    };
    text::before_run(body, "; pass --url"@)
}

/// Splits what was found from the working directory into the repository to
/// use and, when there is none, the reason. `found` is the repository, or
/// how the failure to find one displays.
pub fn classify_inference(found: Result<InferredRepo, String>) -> (r: (
    Option<InferredRepo>,
    Option<String>,
))
    ensures
        match found {
            Ok(repo) => if register_cmd::is_github(repo.host@) {
                r == (Some(repo), None::<String>)
            } else {
                r.0 is None && text::text_opt(r.1) == Some(
                    "origin host '"@ + repo.host@ + "' is not github.com"@,
                )
            },
            Err(failure) => r.0 is None && text::text_opt(r.1) == Some(inference_note(failure@)),
        },
{
    match found {
        Ok(repo) => if register_cmd::on_github(repo.host.as_str()) {
            (Some(repo), None)
        } else {
            (
                None,
                Some(text::cat3("origin host '", repo.host.as_str(), "' is not github.com")),
            )
        },
        Err(failure) => {
            let body: &str = match text::after_prefix(failure.as_str(), "config error: ") {
                Some(rest) => {
                    proof {
                        let class = "config error: "@;
                        assert(failure@.subrange(0, class.len() as int) =~= class);
                        assert(failure@.skip(class.len() as int) =~= rest@);
                    }
                    rest
                },
                None => failure.as_str(),
            };
            (None, Some(text::before_text(body, "; pass --url").to_owned()))
        },
    }
}

/// The failure to find a registration, with the reason why inference did
/// not apply, if there is one.
pub fn enriched_failure(failure: &str, note: Option<String>) -> (r: String)
    ensures
        r@ == match note {
            Some(n) => failure@ + " (cwd inference: "@ + n@ + ")"@,
            None => failure@,
        },
{
    match note {
        Some(n) => text::cat4(failure, " (cwd inference: ", n.as_str(), ")"),
        None => failure.to_owned(),
    }
}

/// What removing does about a run in flight.
#[derive(Debug, Clone, Copy, PartialEq, Eq, Structural)]
pub enum RunCheck {
    /// No run is in flight.
    Clear,
    /// A run is in flight, and is gone past: the runner stays registered so
    /// that its job can still report.
    Forced,
    /// A run is in flight: leave a marker and refuse.
    Refuse,
}

/// What to do about a run in flight. A run holds the lock file.
pub fn refuse_if_run_in_flight(locked: bool, force: bool) -> (r: RunCheck)
    ensures
        r == if !locked {
            RunCheck::Clear
        } else if force {
            RunCheck::Forced
        } else {
            RunCheck::Refuse
        },
{
    if !locked {
        RunCheck::Clear
    } else if force {
        RunCheck::Forced
    } else {
        RunCheck::Refuse
    }
}

/// The refusal to remove while a run is in flight.
pub fn in_flight_error(pending: &str) -> (r: String)
    ensures
        r@ == "another run is in flight; wrote "@ + pending@
            + " marker. Re-run with --force to cancel, or wait for the current job to finish."@,
{
    text::cat3(
        "another run is in flight; wrote ",
        pending,
        " marker. Re-run with --force to cancel, or wait for the current job to finish.",
    )
}

/// The steps of removing a registration.
#[derive(Debug, Clone, Copy, PartialEq, Eq, Structural)]
pub enum RemoveStep {
    /// Look for a token for the host.
    FindToken,
    /// Unregister the runner on GitHub.
    Unregister,
    /// Delete the local files.
    DeleteLocal,
    /// Over.
    Finished,
}

/// A removal in progress. The runner is unregistered before anything local
/// is deleted, since the local files are the only record of it.
#[derive(Debug, Clone, Copy, PartialEq, Eq, Structural)]
pub struct Removal {
    pub step: RemoveStep,
    pub unregistered: bool,
}

/// Where a removal starts: nothing is unregistered when asked not to, or
/// when a run was gone past.
pub open spec fn removal_start(skip: bool, check: RunCheck) -> Removal {
    Removal {
        step: if skip || check == RunCheck::Forced {
            RemoveStep::DeleteLocal
        } else {
            RemoveStep::FindToken
        },
        unregistered: false,
    }
}

/// Starts a removal that no run stands against.
pub fn start_removal(skip: bool, check: RunCheck) -> (r: Removal)
    requires
        check != RunCheck::Refuse,
    ensures
        r == removal_start(skip, check),
{
    Removal {
        step: if skip || check == RunCheck::Forced {
            RemoveStep::DeleteLocal
        } else {
            RemoveStep::FindToken
        },
        unregistered: false,
    }
}

/// The host of a registered address, given what parsing it gave; a
/// registration without one cannot be unregistered.
pub fn require_host(url: &str, host: Option<String>) -> (r: Result<String, String>)
    ensures
        match r {
            Ok(h) => host == Some(h),
            Err(msg) => host is None && msg@ == "registration URL '"@ + url@ + "' has no host"@,
        },
{
    match host {
        Some(h) => Ok(h),
        None => Err(text::cat3("registration URL '", url, "' has no host")),
    }
}

/// The host to unregister from.
pub fn unregister_host(url: &str) -> (r: Result<String, String>)
    ensures
        match r {
            Ok(h) => web_address::url_host(url@) == Some(h@),
            Err(msg) => web_address::url_host(url@) is None && msg@ == "registration URL '"@ + url@
                + "' has no host"@,
        },
{
    require_host(url, web_address::host_of(url))
}

impl Removal {
    /// Takes whether a token was found; without one only local files go.
    pub fn token_looked_up(&mut self, found: bool)
        requires
            old(self).step == RemoveStep::FindToken,
        ensures
            *final(self) == (Removal {
                step: if found {
                    RemoveStep::Unregister
                } else {
                    RemoveStep::DeleteLocal
                },
                ..*old(self)
            }),
    {
        self.step = if found {
            RemoveStep::Unregister
        } else {
            RemoveStep::DeleteLocal
        };
    }

    /// Takes how unregistering went; a failure ends the removal with nothing
    /// deleted.
    pub fn unregister_done(&mut self, ok: bool)
        requires
            old(self).step == RemoveStep::Unregister,
        ensures
            *final(self) == if ok {
                Removal { step: RemoveStep::DeleteLocal, unregistered: true }
            } else {
                Removal { step: RemoveStep::Finished, unregistered: old(self).unregistered }
            },
    {
        if ok {
            self.step = RemoveStep::DeleteLocal;
            self.unregistered = true;
        } else {
            self.step = RemoveStep::Finished;
        }
    }
}

/// The failure of unregistering. `cause` is how the failure displays.
pub fn unregister_error(runner_name: &str, cause: &str) -> (r: String)
    ensures
        r@ == "unregistering '"@ + runner_name@ + "' on GitHub failed: "@ + cause@
            + "\nNothing local was deleted — fix the token or connectivity and retry, or pass --skip-unregister to remove local state anyway."@,
{
    text::cat5(
        "unregistering '",
        runner_name,
        "' on GitHub failed: ",
        cause,
        "\nNothing local was deleted — fix the token or connectivity and retry, or pass --skip-unregister to remove local state anyway.",
    )
}

/// The line that reports a removal.
pub fn removed_line(runner_name: &str, unregistered: bool) -> (r: String)
    ensures
        r@ == "removed runner '"@ + runner_name@ + "' ("@ + (if unregistered {
            "unregistered on GitHub"@
        } else {
            "still registered on GitHub — remove it there by hand"@
        }) + "; config, credentials, and lock removed, _diag kept)."@,
{
    let gh: &str = if unregistered {
        "unregistered on GitHub"
    } else {
        "still registered on GitHub — remove it there by hand"
    };
    text::cat5(
        "removed runner '",
        runner_name,
        "' (",
        gh,
        "; config, credentials, and lock removed, _diag kept).",
    )
}

/// The files of a registration.
#[derive(Debug)]
pub struct RegistrationFiles {
    pub config: String,
    pub credentials: String,
    pub pending: String,
    pub lock: String,
}

/// The files of the registration at `config_path` whose data directory is
/// `data_dir`, in the order in which they are deleted. Only a failure to
/// delete the first is an error.
pub fn registration_files(config_path: &str, data_dir: &str) -> (r: RegistrationFiles)
    ensures
        r.config@ == config_path@,
        r.credentials@ == crate::cli::credentials_path(config_path@),
        r.pending@ == path::joined(data_dir@, ".pending_remove"@),
        r.lock@ == path::joined(data_dir@, ".lock"@),
{
    RegistrationFiles {
        config: config_path.to_owned(),
        credentials: crate::cli::credentials_path_for(config_path),
        pending: path::join(data_dir, ".pending_remove"),
        lock: path::join(data_dir, ".lock"),
    }
}

/// The removal after looking for a token and, if one was found, asking to
/// unregister.
pub open spec fn removal_run(start: Removal, token_found: bool, unregister_ok: bool) -> Removal {
    if start.step != RemoveStep::FindToken {
        start
    } else if !token_found {
        Removal { step: RemoveStep::DeleteLocal, ..start }
    } else if unregister_ok {
        Removal { step: RemoveStep::DeleteLocal, unregistered: true }
    } else {
        Removal { step: RemoveStep::Finished, ..start }
    }
}

/// Local files are deleted only after the runner was unregistered, or when
/// unregistering was given up on purpose; a failed request keeps them. A run
/// that was gone past is never unregistered.
pub proof fn law_local_state_outlives_failed_unregister(
    skip: bool,
    check: RunCheck,
    token_found: bool,
    unregister_ok: bool,
)
    requires
        check != RunCheck::Refuse,
    ensures
        ({
            let end = removal_run(removal_start(skip, check), token_found, unregister_ok);
            &&& end.step == RemoveStep::DeleteLocal <==> (skip || check == RunCheck::Forced
                || !token_found || unregister_ok)
            &&& end.unregistered <==> (!skip && check != RunCheck::Forced && token_found
                && unregister_ok)
        }),
{
}

/// A repository found from the working directory is used exactly when it is
/// on github.com; otherwise there is a reason, and never both.
pub proof fn law_inference_or_reason(
    found: Result<InferredRepo, String>,
    r: (Option<InferredRepo>, Option<String>),
)
    requires
        call_ensures(classify_inference, (found,), r),
    ensures
        r.0 is Some <==> r.1 is None,
        r.0 is Some <==> (found matches Ok(repo) && text::lower(repo.host@) == "github.com"@),
        r.0 matches Some(repo) ==> found == Ok::<InferredRepo, String>(repo),
{
    reveal_strlit("github.com");
    assert(text::lower("github.com"@) =~= "github.com"@);
}

/// A failure of another class is the reason as it is, up to the hint.
pub proof fn law_reason_of_another_class(failure: Seq<char>)
    requires
        !"config error: "@.is_prefix_of(failure),
    ensures
        inference_note(failure).is_prefix_of(failure),
        !text::has_run(failure, "; pass --url"@) ==> inference_note(failure) == failure,
        text::has_run(failure, "; pass --url"@) ==> text::run_at(
            failure,
            "; pass --url"@,
            inference_note(failure).len() as int,
        ),
{
    text::law_before_first_occurrence(failure, "; pass --url"@);
}

/// The reason is the failure without its class, and without the hint about
/// `--url` and what follows it.
pub proof fn law_reason_is_the_failure(why: Seq<char>, hint: Seq<char>)
    requires
        text::before_run(why + "; pass --url"@ + hint, "; pass --url"@) == why,
    ensures
        inference_note("config error: "@ + (why + "; pass --url"@ + hint)) == why,
{
    let class = "config error: "@;
    let body = why + "; pass --url"@ + hint;
    assert((class + body).subrange(0, class.len() as int) =~= class);
    assert((class + body).skip(class.len() as int) =~= body);
}

/// A failure is enriched with the reason when there is one, and stays as it is
/// otherwise.
pub proof fn law_failure_with_reason(failure: &str, note: Option<String>, r: String)
    requires
        call_ensures(enriched_failure, (failure, note), r),
    ensures
        note is None ==> r@ == failure@,
        note matches Some(n) ==> r@ == failure@ + " (cwd inference: "@ + n@ + ")"@,
{
}

/// A run in flight is refused unless forced; without one, forcing changes
/// nothing.
pub proof fn law_run_in_flight_is_refused(locked: bool, force: bool, r: RunCheck)
    requires
        call_ensures(refuse_if_run_in_flight, (locked, force), r),
    ensures
        r == RunCheck::Refuse <==> locked && !force,
        r == RunCheck::Forced <==> locked && force,
        r == RunCheck::Clear <==> !locked,
{
}

/// Unregistering starts with looking for a token, unless it is skipped or a
/// run was gone past; nothing is unregistered at the start.
pub proof fn law_removal_starts_with_a_token(skip: bool, check: RunCheck, r: Removal)
    requires
        call_ensures(start_removal, (skip, check), r),
    ensures
        r.step == RemoveStep::DeleteLocal <==> skip || check == RunCheck::Forced,
        r.step == RemoveStep::FindToken <==> !skip && check != RunCheck::Forced,
        !r.unregistered,
{
}

/// A registration without a host cannot be unregistered; one with a host is
/// unregistered there.
pub proof fn law_unregistered_at_its_host(
    url: &str,
    host: Option<String>,
    r: Result<String, String>,
    by_address: Result<String, String>,
)
    requires
        call_ensures(require_host, (url, host), r),
        call_ensures(unregister_host, (url,), by_address),
    ensures
        r is Ok <==> host is Some,
        r matches Ok(h) ==> h@ == host->0@,
        by_address is Ok <==> web_address::url_host(url@) is Some,
        by_address matches Ok(h) ==> web_address::url_host(url@) == Some(h@),
{
}

/// The report says that the runner was unregistered exactly when it was.
pub proof fn law_report_says_whether_unregistered(
    runner_name: &str,
    unregistered: bool,
    r: String,
)
    requires
        call_ensures(removed_line, (runner_name, unregistered), r),
    ensures
        unregistered ==> r@ == "removed runner '"@ + runner_name@ + "' ("@
            + "unregistered on GitHub"@ + "; config, credentials, and lock removed, _diag kept)."@,
        !unregistered ==> r@ == "removed runner '"@ + runner_name@ + "' ("@
            + "still registered on GitHub — remove it there by hand"@
            + "; config, credentials, and lock removed, _diag kept)."@,
{
}

/// The files of a registration: the configuration, the credentials beside
/// it, and the marker and the lock in the data directory.
pub proof fn law_files_of_a_registration(config_path: &str, data_dir: &str, r: RegistrationFiles)
    requires
        call_ensures(registration_files, (config_path, data_dir), r),
    ensures
        r.config@ == config_path@,
        path::parent(config_path@) matches Some(dir) ==> r.credentials@ == path::joined(
            dir,
            "credentials.json"@,
        ),
        r.pending@ == path::joined(data_dir@, ".pending_remove"@),
        r.lock@ == path::joined(data_dir@, ".lock"@),
{
}

/// With a token the runner is unregistered, without one only local files go;
/// an unregistration that went through is followed by deleting them, a failed
/// one by nothing.
pub proof fn law_removal_goes_on(
    looking: &mut Removal,
    found: bool,
    asking: &mut Removal,
    ok: bool,
)
    requires
        call_ensures(Removal::token_looked_up, (looking, found), ()),
        call_ensures(Removal::unregister_done, (asking, ok), ()),
    ensures
        final(looking).step == RemoveStep::Unregister <==> found,
        final(looking).step == RemoveStep::DeleteLocal <==> !found,
        final(looking).unregistered == old(looking).unregistered,
        final(asking).step == RemoveStep::DeleteLocal <==> ok,
        final(asking).step == RemoveStep::Finished <==> !ok,
        ok ==> final(asking).unregistered,
        !ok ==> final(asking).unregistered == old(asking).unregistered,
{
}

/// A refused or failed removal says what stands against it and what to do.
pub proof fn law_failed_removal_says_what_to_do(
    pending: &str,
    name: &str,
    cause: &str,
    in_flight: String,
    failed: String,
)
    requires
        call_ensures(in_flight_error, (pending,), in_flight),
        call_ensures(unregister_error, (name, cause), failed),
    ensures
        in_flight@ == "another run is in flight; wrote "@ + pending@
            + " marker. Re-run with --force to cancel, or wait for the current job to finish."@,
        failed@ == "unregistering '"@ + name@ + "' on GitHub failed: "@ + cause@
            + "\nNothing local was deleted — fix the token or connectivity and retry, or pass --skip-unregister to remove local state anyway."@,
{
}

} // verus!
