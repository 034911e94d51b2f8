//! The subcommands.

use toolu_runner::boot_cmd::{
    build_boot_runner_config, deadline_has_passed, exit_code_for, now_epoch_ms, parse_deadline_ms,
    resolve_boot_inputs, resolve_boot_inputs_at, run_exit_code, run_listener_once, to_epoch_ms, BootEnd,
    Wake, Watchdog, WATCHDOG_GRACE_MS,
};
use toolu_runner::cli::{
    credentials_path_for, default_labels, runner_name_or, runner_name_or_hostname,
    work_folder_or_default,
};
use toolu_runner::config::{
    deadline_raw, jit_config_raw, path as path_variable, runner_client_id, runner_token, EnvRead,
};
use toolu_runner::create_app_cmd::{
    build_stored_app, cmd_create_app, guard_create_app, prompt_browser, ConversionResponse,
};
use toolu_runner::error::RunnerError;
use toolu_runner::login_cmd::{
    browser_command, code_prompt, device_client_id, granted_token, logged_in_line, logged_out_line,
    login_scope,
};
use toolu_runner::register_cmd::{
    build_registration_config, cmd_register, ensure_diag_dir, ensure_not_registered,
    group_name_unsupported, host_from_runner_url, issued_credentials, mint_jit, owner_repo_from_url, parse_and_validate_url, plan_register,
    register_config_path, registered_line, remint_and_persist, resolve_register_bearer, resolve_url_and_host,
    runner_group_id, BearerDecision, ConfigSlot, Detection, InferredRepo, JitRegistration, Persist,
    PersistStep, RegisterArgs, RegisterInputs, RunnerRegistrationConfig, RuntimeConfig, StepResult,
};
use toolu_runner::remove_cmd::{
    classify_inference, enriched_failure, in_flight_error, refuse_if_run_in_flight,
    registration_files, removed_line, start_removal, unregister_error, unregister_host, RemoveStep,
    RunCheck,
};
use toolu_runner::run_cmd::{
    finish, load_run_config, require_jit_config, reregister, warn_if_no_login, DriveStep,
    LoginWarning, LoopAction, Remint, RunLoop, Stored,
};
use toolu_runner::service_cmd::{
    activate_launchd, activate_systemd, activation_hint, cmd_install_service, current_supervisor,
    current_uid, deactivate_launchd, deactivate_systemd, dest_path, install_service_core,
    owner_repo, remove_service, render_unit, run_checked, run_stdout, service_id, succeeds, CommandResult,
    Deletion, InstallAction, Supervisor,
};
use toolu_runner::setup_cmd::{
    decide_skips, next_frame, require_terminal, resolve_inputs, run_wizard, setup_end, setup_target, Frame,
    SetupArgs, Skips,
};
use toolu_runner::status_cmd::{cmd_status, config_not_found, show_list, TokenStore};
use toolu_runner::types::{command2, Conclusion, ServicesMode};
use toolu_runner::watch::input::{action_for, Action, Key};
use toolu_runner::wizard_steps::{
    begin_auth, begin_register, candidate_diag_dirs, emit_failed, log_files, read_runner_log_tail,
    read_tail, run_auth, run_install, run_pipeline, run_register, run_verify, service_probe,
    AuthInput, AuthStep, Pipeline, StepEvent, StepId, VerifyLoop, VerifyOutcome, VerifyStep,
    LOG_TAIL_BYTES, VERIFY_POLL_SECS,
};

fn owned(v: &[&str]) -> Vec<String> {
    v.iter().map(|s| s.to_string()).collect()
}

// boot

#[test]
fn deadlines_are_bare_digits() {
    assert_eq!(parse_deadline_ms("1700000000000"), Some(1_700_000_000_000));
    for s in ["", "+1", "-1", " 1", "1 ", "1.5", "18446744073709551616"] {
        assert_eq!(parse_deadline_ms(s), None, "{s}");
    }
}

#[test]
fn clock_readings_saturate() {
    assert_eq!(to_epoch_ms(None), 0);
    assert_eq!(to_epoch_ms(Some((1, 999_999_999))), 1_999);
    assert_eq!(to_epoch_ms(Some((u64::MAX, 0))), u64::MAX);
    assert!(now_epoch_ms() > 1_600_000_000_000);
    assert!(deadline_has_passed(5, 5) && !deadline_has_passed(6, 5));
}

#[test]
fn boot_inputs_are_checked_before_anything_else() {
    assert_eq!(resolve_boot_inputs_at(None, None, 0).err(), Some(2));
    assert_eq!(resolve_boot_inputs_at(Some(String::new()), None, 0).err(), Some(2));
    let jit = || Some("jit".to_owned());
    assert_eq!(resolve_boot_inputs_at(jit(), Some("100".to_owned()), 100).err(), Some(124));
    let inputs = resolve_boot_inputs_at(jit(), Some("101".to_owned()), 100).ok().unwrap();
    assert_eq!((inputs.jit_config_base64.as_str(), inputs.deadline_ms), ("jit", Some(101)));
    let inputs = resolve_boot_inputs_at(jit(), Some("soon".to_owned()), 100).ok().unwrap();
    assert_eq!(inputs.deadline_ms, None);
    assert_eq!(resolve_boot_inputs(jit(), Some("1".to_owned())).err(), Some(124));
    assert!(resolve_boot_inputs(jit(), Some(u64::MAX.to_string())).is_ok());
}

#[test]
fn exit_codes_follow_the_conclusion() {
    assert_eq!(exit_code_for(BootEnd::NoJob), 0);
    assert_eq!(exit_code_for(BootEnd::Job(Conclusion::Success)), 0);
    assert_eq!(exit_code_for(BootEnd::Job(Conclusion::Skipped)), 0);
    assert_eq!(exit_code_for(BootEnd::Job(Conclusion::Failure)), 1);
    assert_eq!(exit_code_for(BootEnd::Job(Conclusion::Cancelled)), 1);
    assert_eq!(exit_code_for(BootEnd::Failed), 1);
    assert_eq!(run_exit_code(true, BootEnd::NoJob), 124);
    assert_eq!(run_exit_code(false, BootEnd::Failed), 1);
    for hit in [false, true] {
        assert_eq!(run_listener_once(None, hit), 2);
    }
    assert_eq!(run_listener_once(Some(BootEnd::NoJob), false), 0);
    assert_eq!(run_listener_once(Some(BootEnd::Job(Conclusion::Failure)), false), 1);
    assert_eq!(run_listener_once(Some(BootEnd::Job(Conclusion::Success)), true), 124);
}

#[test]
fn the_watchdog_cancels_then_exits() {
    let w = Watchdog::new(1_500, 1_000);
    assert_eq!(w, Watchdog::Armed { remaining_ms: 500 });
    assert_eq!(Watchdog::new(1_000, 1_500), Watchdog::Armed { remaining_ms: 0 });
    assert_eq!(w.wake(Wake::Cancelled), Watchdog::StoodDown);
    let grace = w.wake(Wake::TimeUp);
    assert_eq!(grace, Watchdog::Grace { remaining_ms: WATCHDOG_GRACE_MS });
    assert_eq!(grace.wake(Wake::TimeUp), Watchdog::HardExit { code: 124 });
}

#[test]
fn boot_uses_the_runner_home() {
    let c = build_boot_runner_config("/var/lib/toolu-runner");
    assert_eq!(c.data_dir, "/var/lib/toolu-runner");
    assert_eq!(c.workspace_root, "/var/lib/toolu-runner/_work");
    assert_eq!(c.cgroup_path, None);
    assert_eq!(c.services_mode, ServicesMode::Forwarder);
    assert!(!c.shadow_enabled);
}

// cli and config

#[test]
fn names_default_to_the_hostname() {
    assert_eq!(runner_name_or(Some("n".to_owned()), Some("h".to_owned())), "n");
    assert_eq!(runner_name_or(None, Some("h".to_owned())), "h");
    assert_eq!(runner_name_or(None, None), "toolu-runner");
    assert_eq!(runner_name_or_hostname(Some("n".to_owned())), "n");
    let host = hostname::get().ok().and_then(|h| h.into_string().ok());
    assert_eq!(runner_name_or_hostname(None), host.unwrap_or("toolu-runner".to_owned()));
}

#[test]
fn defaults_of_the_command_line() {
    assert_eq!(default_labels("linux", "x86_64"), ["self-hosted", "linux", "x86_64"]);
    assert_eq!(credentials_path_for("/a/config.toml"), "/a/credentials.json");
    assert_eq!(credentials_path_for("config.toml"), "credentials.json");
    assert_eq!(credentials_path_for(""), "credentials.json");
    assert_eq!(work_folder_or_default(Some("/w")), "/w");
    assert_eq!(work_folder_or_default(None), "~/.toolu-runner/_work");
}

#[test]
fn invalid_unicode_counts_as_unset_and_is_diagnosed() {
    let all: [(fn(EnvRead) -> toolu_runner::config::EnvAnswer, &str); 5] = [
        (jit_config_raw, "TOOLU_JITCONFIG"),
        (deadline_raw, "TOOLU_DEADLINE"),
        (runner_client_id, "TOOLU_RUNNER_CLIENT_ID"),
        (runner_token, "TOOLU_RUNNER_TOKEN"),
        (path_variable, "PATH"),
    ];
    for (read, key) in all {
        let answer = read(EnvRead::NotUnicode);
        assert_eq!(answer.value, None);
        assert_eq!(
            answer.diagnosis,
            Some(format!("toolu-runner: {key} is not valid Unicode; treating it as unset"))
        );
        let answer = read(EnvRead::Value("v".to_owned()));
        assert_eq!((answer.value.as_deref(), answer.diagnosis), (Some("v"), None));
        let answer = read(EnvRead::NotPresent);
        assert_eq!((answer.value, answer.diagnosis), (None, None));
    }
}

// create-app and login

#[test]
fn create_app_is_guarded() {
    assert_eq!(guard_create_app("github.com", "/p", false, false), Ok(()));
    assert_eq!(guard_create_app("github.com", "/p", true, true), Ok(()));
    assert_eq!(
        guard_create_app("github.com", "/p", true, false),
        Err("a GitHub App is already saved at /p — pass --force to overwrite it".to_owned())
    );
    assert_eq!(
        guard_create_app("ghes.example", "/p", false, true),
        Err("--host 'ghes.example' is not supported yet — `create-app` targets github.com only this release \
             (GHES and organization-owned Apps come later); re-run without --host, or with --host github.com"
            .to_owned())
    );
    assert_eq!(cmd_create_app(Some("n".to_owned()), "github.com", "/p", false, false), Ok("n".to_owned()));
    let named = cmd_create_app(None, "github.com", "/p", false, false).ok().unwrap();
    assert_eq!(named, format!("toolu-runner-{}", runner_name_or_hostname(None)));
}

#[test]
fn the_browser_prompt_always_shows_the_address() {
    assert_eq!(
        prompt_browser("http://127.0.0.1:1", false),
        [
            "Open this URL to create the GitHub App: http://127.0.0.1:1",
            "Waiting for the browser to finish creating the GitHub App\u{2026}",
        ]
    );
    assert_eq!(
        prompt_browser("u", true)[1],
        "(--no-browser set: not launching a browser; open the URL above yourself)"
    );
}

#[test]
fn a_stored_app_keeps_the_answer() {
    let app = build_stored_app(
        ConversionResponse {
            id: 7,
            slug: "s".to_owned(),
            owner_login: "o".to_owned(),
            client_id: "c".to_owned(),
            client_secret: "cs".to_owned(),
            webhook_secret: None,
            pem: "p".to_owned(),
            html_url: "h".to_owned(),
        },
        "github.com".to_owned(),
    );
    assert_eq!((app.app_id, app.slug.as_str(), app.owner.as_str()), (7, "s", "o"));
    assert_eq!((app.client_id.as_str(), app.client_secret.as_str()), ("c", "cs"));
    assert_eq!((app.host.as_str(), app.pem.as_str(), app.html_url.as_str()), ("github.com", "p", "h"));
    assert!(chrono::DateTime::parse_from_rfc3339(&app.created_at).is_ok());
}

#[test]
fn the_device_flow_needs_a_client_id() {
    assert_eq!(device_client_id(Some("a".to_owned()), Some("b".to_owned()), "github.com"), Ok("a".to_owned()));
    assert_eq!(device_client_id(None, Some("b".to_owned()), "github.com"), Ok("b".to_owned()));
    assert_eq!(
        device_client_id(None, None, "github.com"),
        Err("no GitHub OAuth App configured — pass --client-id or set TOOLU_RUNNER_CLIENT_ID".to_owned())
    );
    assert_eq!(
        device_client_id(Some("REPLACE_ME".to_owned()), None, "ghes.example"),
        Err("GHES login needs --client-id for an OAuth App registered on ghes.example".to_owned())
    );
    assert_eq!(login_scope(), "repo admin:org");
}

#[test]
fn login_lines() {
    assert_eq!(logged_in_line("github.com", "repo"), "logged in to github.com (scopes: repo)");
    assert_eq!(logged_out_line("github.com"), "Logged out of github.com");
    assert_eq!(code_prompt("AB-12", "https://x"), "Enter code AB-12 at https://x");
    let token = granted_token("t".to_owned(), "s".to_owned(), "h");
    assert_eq!((token.access_token.as_str(), token.scope.as_str(), token.host.as_str()), ("t", "s", "h"));
    assert!(chrono::DateTime::parse_from_rfc3339(&token.issued_at).is_ok());
    assert_eq!(browser_command("macos", "u").line(), "open u");
    assert_eq!(browser_command("linux", "u").line(), "xdg-open u");
    let windows = browser_command("windows", "u");
    assert_eq!((windows.program.as_str(), windows.args), ("cmd", owned(&["/c", "start", "", "u"])));
}

// register

#[test]
fn registration_addresses_need_a_dotted_host() {
    assert_eq!(parse_and_validate_url("https://github.com/o/r").ok(), Some("github.com".to_owned()));
    assert_eq!(
        parse_and_validate_url("https://localhost/o").err().unwrap().message(),
        "invalid host 'localhost' — runner accepts github.com and GHES hosts only"
    );
    let cause = url::Url::parse("nonsense").err().unwrap();
    assert_eq!(
        parse_and_validate_url("nonsense").err().unwrap().message(),
        format!("invalid --url: {cause}")
    );
    assert_eq!(parse_and_validate_url("mailto:a@b.c").err().unwrap().message(), "URL missing host");
}

#[test]
fn only_github_remotes_are_inferred() {
    let found = |host: &str| {
        Detection::Found(InferredRepo { host: host.to_owned(), owner: "o".to_owned(), repo: "r".to_owned() })
    };
    assert_eq!(
        resolve_url_and_host(None, found("GitHub.com")).ok(),
        Some(("https://github.com/o/r".to_owned(), "github.com".to_owned()))
    );
    assert_eq!(
        resolve_url_and_host(None, found("ghes.example")).err().unwrap().message(),
        "the `origin` remote points at 'ghes.example', not github.com — repo inference is github.com only; \
         GHES registrations need an explicit --url"
    );
    assert_eq!(
        resolve_url_and_host(None, Detection::NoDirectory("gone".to_owned())).err().unwrap().message(),
        "could not read the current directory: gone"
    );
    assert_eq!(
        resolve_url_and_host(Some("https://ghes.example/org".to_owned()), found("x")).ok(),
        Some(("https://ghes.example/org".to_owned(), "ghes.example".to_owned()))
    );
}

#[test]
fn owner_and_repository_come_from_the_address() {
    let both = |o: &str, r: &str| Some((o.to_owned(), r.to_owned()));
    assert_eq!(owner_repo_from_url("https://github.com/o/r.git"), both("o", "r"));
    assert_eq!(owner_repo_from_url("https://github.com//o//r/x"), both("o", "r"));
    assert_eq!(owner_repo_from_url("https://github.com/org"), None);
    assert_eq!(owner_repo_from_url("https://github.com/o/.git"), None);
    assert_eq!(owner_repo_from_url("nonsense"), None);
    assert!(matches!(
        register_config_path("https://github.com/o/r", "/home"),
        ConfigSlot::Repo { owner, repo } if owner == "o" && repo == "r"
    ));
    assert!(matches!(
        register_config_path("https://github.com/org", "/home"),
        ConfigSlot::File(p) if p == "/home/config.toml"
    ));
    assert_eq!(host_from_runner_url("https://ghes.example/o"), "ghes.example");
    assert_eq!(host_from_runner_url("nonsense"), "github.com");
}

#[test]
fn runner_groups_are_numbers() {
    assert_eq!(runner_group_id(" 12 "), Some(12));
    assert_eq!(runner_group_id("-1"), Some(-1));
    assert_eq!(runner_group_id("Default"), None);
    assert!(!group_name_unsupported("default") && !group_name_unsupported("  ") && !group_name_unsupported("3"));
    assert!(group_name_unsupported("builders"));
}

#[test]
fn a_registration_is_not_overwritten_by_accident() {
    assert_eq!(ensure_not_registered("/c", false, false), Ok(()));
    assert_eq!(ensure_not_registered("/c", true, true), Ok(()));
    assert_eq!(
        ensure_not_registered("/c", true, false),
        Err("registration already exists at /c — pass --replace to overwrite".to_owned())
    );
    assert_eq!(resolve_register_bearer(BearerDecision::Use("t".to_owned())).ok(), Some(Some("t".to_owned())));
    assert_eq!(resolve_register_bearer(BearerDecision::StartDeviceFlow).ok(), Some(None));
    let e = resolve_register_bearer(BearerDecision::Fail("no".to_owned())).err().unwrap();
    assert!(matches!(&e, RunnerError::Auth(m) if m == "no"));
}

fn args(replace: bool) -> RegisterArgs {
    RegisterArgs { name: None, labels: vec![], work: Some("/w".to_owned()), replace }
}

#[test]
fn registrations_are_planned() {
    let plan = plan_register(args(false), "/h/config.toml", false, Some("host".to_owned()), "linux", "x86_64")
        .ok()
        .unwrap();
    assert_eq!(plan.creds_path, "/h/credentials.json");
    assert_eq!(plan.runner_name, "host");
    assert_eq!(plan.labels, ["self-hosted", "linux", "x86_64"]);
    assert_eq!(plan.work_folder, "/w");
    assert!(plan_register(args(false), "/h/config.toml", true, None, "linux", "x86_64").is_err());
    assert!(cmd_register(args(true), "/h/config.toml", true, "linux", "x86_64").is_ok());
    assert_eq!(
        registered_line("n", 4, "github.com", "/c", "/k"),
        "registered runner 'n' (id 4) at github.com (config: /c, creds: /k)"
    );
}

#[test]
fn registrations_are_assembled() {
    let labels = owned(&["a"]);
    let inputs = |host| RegisterInputs {
        url: "https://github.com/o/r",
        runner_name: "n",
        labels: &labels,
        runner_group: "Default",
        work_folder: "/w",
        host,
        config_path: "/h/runners/o/r/config.toml",
    };
    let jit = || JitRegistration { encoded_jit_config: "jit".to_owned(), runner_id: 9 };
    let c = build_registration_config(&inputs("GitHub.com"), "client", jit());
    assert_eq!((c.runner_id, c.auth_token.as_str(), c.labels.clone()), (9, "client", owned(&["a"])));
    assert_eq!(c.runtime.data_dir, "/h/runners/o/r");
    assert_eq!(c.runtime.protocol_version, "v2");
    assert_eq!(c.runtime.jit_config, "jit");
    let c = build_registration_config(&inputs("ghes.example"), "client", jit());
    assert_eq!(c.runtime.protocol_version, "v1");
}

fn persist_until(failing: PersistStep) -> (Vec<PersistStep>, Result<(), String>) {
    let mut p = Persist::new(true);
    let mut steps = Vec::new();
    while p.step() != PersistStep::Finished {
        let step = p.step();
        steps.push(step);
        if step == PersistStep::Snapshot {
            p.snapshot(Some(vec![1]));
        } else if step == failing {
            p.advance(StepResult::Failed(RunnerError::Io("disk".to_owned())));
        } else {
            if step == PersistStep::RollBack {
                assert_eq!(p.previous(), Some(&vec![1]));
            }
            p.advance(StepResult::Done);
        }
    }
    (steps, p.outcome().map_err(|e| e.message().to_owned()))
}

#[test]
fn persisting_is_all_or_nothing() {
    let (steps, outcome) = persist_until(PersistStep::Finished);
    assert_eq!(steps, [PersistStep::Mint, PersistStep::Decode, PersistStep::Snapshot, PersistStep::SaveConfig, PersistStep::SaveCredentials, PersistStep::MakeDiagDir]);
    assert_eq!(outcome, Ok(()));
    let (steps, outcome) = persist_until(PersistStep::SaveCredentials);
    assert_eq!(steps, [PersistStep::Mint, PersistStep::Decode, PersistStep::Snapshot, PersistStep::SaveConfig, PersistStep::SaveCredentials, PersistStep::RollBack]);
    assert_eq!(outcome, Err("disk".to_owned()));
    let (steps, outcome) = persist_until(PersistStep::Decode);
    assert_eq!(steps, [PersistStep::Mint, PersistStep::Decode]);
    assert_eq!(outcome, Err("minted jit_config did not parse: disk".to_owned()));
    let (_, outcome) = persist_until(PersistStep::MakeDiagDir);
    assert_eq!(outcome, Ok(()));
}

#[test]
fn renewing_keeps_the_runner() {
    let r = remint_and_persist(&registration(), "bearer");
    assert_eq!((r.url.as_str(), r.runner_token.as_str()), ("https://github.com/o/r", "bearer"));
    assert_eq!((r.name.as_str(), r.labels.clone()), ("n", owned(&["a", "b\"c"])));
    assert_eq!((r.runner_group_id, r.work_folder.as_str(), r.replace), (None, "/w", true));
    let labels = owned(&["x"]);
    let inputs = RegisterInputs {
        url: "u",
        runner_name: "n",
        labels: &labels,
        runner_group: " 7",
        work_folder: "/w",
        host: "h",
        config_path: "/c/config.toml",
    };
    let r = mint_jit(&inputs, "t", false);
    assert_eq!((r.runner_group_id, r.replace, r.labels), (Some(7), false, labels.clone()));
    assert_eq!(ensure_diag_dir("/c/config.toml"), Some("/c/_diag".to_owned()));
    assert_eq!(ensure_diag_dir("/"), None);
}

// remove

#[test]
fn inference_that_does_not_apply_is_explained() {
    let repo = |host: &str| InferredRepo { host: host.to_owned(), owner: "o".to_owned(), repo: "r".to_owned() };
    let (found, note) = classify_inference(Ok(repo("GITHUB.com")));
    assert!(found.is_some() && note.is_none());
    let (found, note) = classify_inference(Ok(repo("ghes.example")));
    assert!(found.is_none());
    assert_eq!(note, Some("origin host 'ghes.example' is not github.com".to_owned()));
    let (_, note) = classify_inference(Err("config error: not a git repo; pass --url or cd".to_owned()));
    assert_eq!(note, Some("not a git repo".to_owned()));
    assert_eq!(enriched_failure("none", Some("why".to_owned())), "none (cwd inference: why)");
    assert_eq!(enriched_failure("none", None), "none");
}

#[test]
fn a_running_job_blocks_removal() {
    assert_eq!(refuse_if_run_in_flight(false, false), RunCheck::Clear);
    assert_eq!(refuse_if_run_in_flight(true, true), RunCheck::Forced);
    assert_eq!(refuse_if_run_in_flight(true, false), RunCheck::Refuse);
    assert_eq!(
        in_flight_error("/d/.pending_remove"),
        "another run is in flight; wrote /d/.pending_remove marker. Re-run with --force to cancel, or wait \
         for the current job to finish."
    );
}

#[test]
fn local_state_goes_only_after_the_runner() {
    let mut r = start_removal(false, RunCheck::Clear);
    assert_eq!(r.step, RemoveStep::FindToken);
    r.token_looked_up(true);
    assert_eq!(r.step, RemoveStep::Unregister);
    r.unregister_done(false);
    assert_eq!((r.step, r.unregistered), (RemoveStep::Finished, false));
    let mut r = start_removal(false, RunCheck::Clear);
    r.token_looked_up(true);
    r.unregister_done(true);
    assert_eq!((r.step, r.unregistered), (RemoveStep::DeleteLocal, true));
    let mut r = start_removal(false, RunCheck::Clear);
    r.token_looked_up(false);
    assert_eq!((r.step, r.unregistered), (RemoveStep::DeleteLocal, false));
    assert_eq!(start_removal(true, RunCheck::Clear).step, RemoveStep::DeleteLocal);
    assert_eq!(start_removal(false, RunCheck::Forced).step, RemoveStep::DeleteLocal);
}

#[test]
fn removal_messages() {
    assert_eq!(unregister_host("https://ghes.example/o").ok(), Some("ghes.example".to_owned()));
    assert_eq!(unregister_host("nope"), Err("registration URL 'nope' has no host".to_owned()));
    assert_eq!(
        unregister_error("n", "401"),
        "unregistering 'n' on GitHub failed: 401\nNothing local was deleted — fix the token or connectivity \
         and retry, or pass --skip-unregister to remove local state anyway."
    );
    assert_eq!(
        removed_line("n", true),
        "removed runner 'n' (unregistered on GitHub; config, credentials, and lock removed, _diag kept)."
    );
    assert_eq!(
        removed_line("n", false),
        "removed runner 'n' (still registered on GitHub — remove it there by hand; config, credentials, and \
         lock removed, _diag kept)."
    );
    let files = registration_files("/c/config.toml", "/d");
    assert_eq!(
        (files.config.as_str(), files.credentials.as_str(), files.pending.as_str(), files.lock.as_str()),
        ("/c/config.toml", "/c/credentials.json", "/d/.pending_remove", "/d/.lock")
    );
}

// run

#[test]
fn the_run_loop_backs_off_and_recovers() {
    let mut l = RunLoop::new();
    assert_eq!(l.job_done(false, LoopAction::BackoffRetry), DriveStep::Wait);
    assert!((500_000..1_000_000).contains(&l.wait_us()));
    assert_eq!(l.waited(false), DriveStep::RunJob);
    assert_eq!(l.backoff_ms, 2_000);
    assert_eq!(l.job_done(true, LoopAction::Reregister), DriveStep::Reregister);
    assert_eq!(l.backoff_ms, 1_000);
    assert_eq!(l.reminted(Remint::Retry), DriveStep::Wait);
    assert_eq!(l.waited(false), DriveStep::RunJob);
    assert_eq!(l.backoff_ms, 2_000);
    assert_eq!(l.reminted(Remint::Reset), DriveStep::RunJob);
    assert_eq!(l.backoff_ms, 1_000);
    assert_eq!(l.job_done(false, LoopAction::Exit(1)), DriveStep::Exit(1));
    l.job_done(false, LoopAction::BackoffRetry);
    assert_eq!(l.waited(true), DriveStep::Exit(0));
}

#[test]
fn re_minting_needs_a_token() {
    let help = "re-mint needs a GitHub token: run `toolu-runner login`, pass --token to `toolu-runner \
                register`, or set TOOLU_RUNNER_TOKEN";
    assert_eq!(reregister(false, Ok(())), Err(help.to_owned()));
    assert_eq!(reregister(true, Ok(())), Ok(Remint::Reset));
    assert_eq!(
        reregister(true, Err(RunnerError::Auth("401".to_owned()))),
        Err(format!("re-mint rejected: 401 — {help}"))
    );
    assert_eq!(reregister(true, Err(RunnerError::Network("x".to_owned()))), Ok(Remint::Retry));
    assert_eq!(warn_if_no_login(true, None), LoginWarning::Nothing);
    assert_eq!(warn_if_no_login(false, Some(true)), LoginWarning::Nothing);
    assert_eq!(warn_if_no_login(false, Some(false)), LoginWarning::NoLogin);
    assert_eq!(warn_if_no_login(false, None), LoginWarning::Unknown);
}

#[test]
fn running_needs_a_registration() {
    let load = |config: Stored<u8>, credentials: Stored<bool>| {
        load_run_config("/c/config.toml", config, credentials)
    };
    let unparsed = || Stored::Unparsed("bad config".to_owned());
    assert_eq!(load(Stored::Parsed(7), Stored::Parsed(true)), Ok(7));
    for credentials in [Stored::Missing, Stored::Unparsed("bad".to_owned()), Stored::Parsed(true)] {
        assert_eq!(
            load(Stored::Missing, credentials),
            Err("config not found at /c/config.toml — run `toolu-runner register` first".to_owned())
        );
    }
    for config in [unparsed(), Stored::Parsed(7)] {
        assert_eq!(
            load(config, Stored::Missing),
            Err("credentials not found at /c/credentials.json — run `toolu-runner register` first".to_owned())
        );
    }
    assert_eq!(load(unparsed(), Stored::Parsed(true)), Err("bad config".to_owned()));
    assert_eq!(load(unparsed(), Stored::Unparsed("bad".to_owned())), Err("bad config".to_owned()));
    assert_eq!(load(Stored::Parsed(7), Stored::Unparsed("bad".to_owned())), Err("bad".to_owned()));
    assert_eq!(require_jit_config("jit"), Ok("jit".to_owned()));
    assert_eq!(
        require_jit_config(""),
        Err("config.toml has no JIT config blob — re-run `toolu-runner register` against a live GH repo"
            .to_owned())
    );
    assert_eq!(finish(0, Some("x")), Ok(()));
    assert_eq!(finish(1, Some("x")), Err("listener: x".to_owned()));
    assert_eq!(finish(1, None), Ok(()));
}

// install-service

#[test]
fn services_are_named_after_their_repository() {
    let id = service_id("/h/runners/o/r/config.toml");
    assert_eq!((id.label.as_str(), id.unit.as_str()), ("io.toolu.runner.o.r", "toolu-runner-o-r.service"));
    let id = service_id("/h/config.toml");
    assert_eq!((id.label.as_str(), id.unit.as_str()), ("io.toolu.runner", "toolu-runner.service"));
    assert_eq!(owner_repo("/runners/o/r/config.toml"), Some(("o".to_owned(), "r".to_owned())));
    assert_eq!(owner_repo("config.toml"), None);
    assert_eq!(current_supervisor("macos").ok(), Some(Supervisor::Launchd));
    assert_eq!(current_supervisor("linux").ok(), Some(Supervisor::Systemd));
    assert_eq!(
        current_supervisor("windows").err().unwrap().message(),
        "install-service supports only launchd (macOS) and systemd (Linux)"
    );
}

#[test]
fn units_go_where_the_system_looks() {
    let id = service_id("/h/runners/o/r/config.toml");
    assert_eq!(
        dest_path(Supervisor::Launchd, &id, "/home/u"),
        "/home/u/Library/LaunchAgents/io.toolu.runner.o.r.plist"
    );
    assert_eq!(
        dest_path(Supervisor::Systemd, &id, "/home/u"),
        "/home/u/.config/systemd/user/toolu-runner-o-r.service"
    );
    assert_eq!(
        activation_hint(Supervisor::Launchd, "/p", &id),
        "launchctl bootstrap gui/$(id -u) /p"
    );
    assert_eq!(
        activation_hint(Supervisor::Systemd, "/p", &id),
        "systemctl --user daemon-reload && systemctl --user enable --now toolu-runner-o-r.service"
    );
}

#[test]
fn installing_is_planned_from_the_flags() {
    let plan = |print, no_activate, remove, home| {
        install_service_core(Supervisor::Systemd, "/h/config.toml", home, print, no_activate, remove)
    };
    let (action, outcome) = plan(true, false, false, None).ok().unwrap();
    assert_eq!((action, outcome.path.as_str()), (InstallAction::Print, ""));
    let (action, outcome) = plan(false, true, false, Some("/u")).ok().unwrap();
    assert_eq!(action, InstallAction::Write);
    assert_eq!(outcome.path, "/u/.config/systemd/user/toolu-runner.service");
    assert!(!outcome.activated);
    let (action, outcome) = plan(false, false, false, Some("/u")).ok().unwrap();
    assert_eq!((action, outcome.activated), (InstallAction::WriteAndActivate, true));
    let (action, _) = plan(false, false, true, Some("/u")).ok().unwrap();
    assert_eq!(action, InstallAction::Remove);
    assert_eq!(
        plan(false, false, false, None).err().unwrap().message(),
        "HOME is not set — cannot locate the user service directory"
    );
}

#[test]
fn removing_a_service_is_idempotent() {
    let planned = || {
        install_service_core(Supervisor::Systemd, "/h/config.toml", Some("/u"), false, false, true).ok().unwrap().1
    };
    assert!(remove_service(planned(), Deletion::Deleted).ok().unwrap().activated);
    assert!(!remove_service(planned(), Deletion::Absent).ok().unwrap().activated);
    assert!(!remove_service(planned(), Deletion::Vanished).ok().unwrap().activated);
    let failed = remove_service(planned(), Deletion::Failed(RunnerError::Io("busy".to_owned())));
    assert_eq!(failed.err().unwrap().message(), "busy");
    let id = service_id("/h/config.toml");
    let outcome = remove_service(planned(), Deletion::Absent).ok().unwrap();
    assert_eq!(
        cmd_install_service(Supervisor::Systemd, &id, InstallAction::Remove, &outcome),
        ["no service installed at /u/.config/systemd/user/toolu-runner.service — nothing to do"]
    );
}

#[test]
fn supervisors_are_driven_by_commands() {
    let lines = |plan: toolu_runner::service_cmd::CommandPlan| -> Vec<String> {
        plan.preferred.iter().chain(plan.required.iter()).map(|c| c.line()).collect()
    };
    assert_eq!(lines(activate_launchd("501", "/p")), ["launchctl bootstrap gui/501 /p", "launchctl load -w /p"]);
    assert_eq!(
        lines(deactivate_launchd("501", "/p", "l")),
        ["launchctl bootout gui/501/l", "launchctl unload /p"]
    );
    assert_eq!(
        lines(activate_systemd("u")),
        ["systemctl --user daemon-reload", "systemctl --user enable --now u"]
    );
    assert_eq!(
        lines(deactivate_systemd("u")),
        ["systemctl --user disable --now u", "systemctl --user daemon-reload"]
    );
}

#[test]
fn failed_commands_are_reported() {
    let ended = |success: bool| CommandResult::Ended {
        success,
        status: "exit status: 1".to_owned(),
        stdout: " 501\n".to_owned(),
        stderr: " bad \n".to_owned(),
    };
    let c = command2("id", "-u", "x");
    assert_eq!(run_stdout(&c, ended(true)).ok(), Some("501".to_owned()));
    assert_eq!(
        run_checked(&c, ended(false)).err().unwrap().message(),
        "`id -u x` failed (exit status: 1): bad"
    );
    assert_eq!(
        run_checked(&c, CommandResult::NotRun("missing".to_owned())).err().unwrap().message(),
        "failed to run `id -u x`: missing"
    );
    assert!(succeeds(&ended(true)) && !succeeds(&ended(false)));
    assert!(!succeeds(&CommandResult::NotRun(String::new())));
    assert_eq!(current_uid("501").ok(), Some("501".to_owned()));
    for bad in ["", "5\"a", "5é"] {
        assert_eq!(
            current_uid(bad).err().unwrap().message(),
            format!("`id -u` returned a non-numeric uid: {bad:?}")
        );
    }
}

#[test]
fn units_are_made_from_absolute_paths() {
    let id = service_id("/h/config.toml");
    let spec = render_unit(&id, "/d", Ok("/bin/r".to_owned()), "config.toml", Ok("/h/config.toml".to_owned()))
        .ok()
        .unwrap();
    assert_eq!((spec.label.as_str(), spec.exe.as_str()), ("io.toolu.runner", "/bin/r"));
    assert_eq!((spec.config_path.as_str(), spec.diag_dir.as_str()), ("/h/config.toml", "/d/_diag"));
    let e = render_unit(&id, "/d", Err("gone".to_owned()), "c", Err("x".to_owned())).err().unwrap();
    assert_eq!(e.message(), "cannot resolve the running binary's path: gone");
    let e = render_unit(&id, "/d", Ok("/b".to_owned()), "c", Err("x".to_owned())).err().unwrap();
    assert_eq!(e.message(), "cannot resolve config path c: x");
}

// setup

#[test]
fn the_first_paint_shows_what_is_skipped() {
    assert!(run_wizard(Skips { auth: false, register: false }).is_empty());
    let events = run_wizard(Skips { auth: true, register: true });
    assert_eq!(events.len(), 2);
    assert!(matches!(
        &events[0],
        StepEvent::Skipped { step: StepId::Auth, reason } if reason == "using stored login token"
    ));
    assert!(matches!(
        &events[1],
        StepEvent::Skipped { step: StepId::Register, reason } if reason == "already registered"
    ));
}

#[test]
fn setup_needs_a_terminal() {
    assert!(require_terminal(true, true).is_ok());
    assert!(require_terminal(true, false).is_err());
    assert!(require_terminal(false, true).is_err());
    assert_eq!(decide_skips(true, false, false, false), Skips { auth: true, register: false });
    assert_eq!(decide_skips(true, true, false, true), Skips { auth: false, register: true });
    assert_eq!(decide_skips(true, false, true, false), Skips { auth: false, register: false });
}

#[test]
fn setup_is_for_github_repositories() {
    assert_eq!(
        setup_target("https://github.com/o/r", "github.com").ok(),
        Some(("o".to_owned(), "r".to_owned()))
    );
    assert_eq!(
        setup_target("https://ghes.example/o/r", "ghes.example").err().unwrap().message(),
        "`setup` supports github.com only; use `register --url …` for GHES/enterprise."
    );
    assert_eq!(
        setup_target("https://github.com/o", "github.com").err().unwrap().message(),
        "could not parse owner/repo from the repository URL: https://github.com/o"
    );
    let inputs = resolve_inputs(
        SetupArgs { name: Some("n".to_owned()), labels: vec![], config: None },
        ("https://github.com/o/r".to_owned(), "github.com".to_owned()),
        "/h/runners/o/r",
        "linux",
        "x86_64",
    )
    .ok()
    .unwrap();
    assert_eq!(inputs.config_path, "/h/runners/o/r/config.toml");
    assert_eq!(inputs.creds_path, "/h/runners/o/r/credentials.json");
    assert_eq!((inputs.runner_group.as_str(), inputs.work_folder.as_str()), ("Default", "~/.toolu-runner/_work"));
    assert_eq!(next_frame(true, true), Frame::HoldLast);
    assert_eq!(next_frame(false, true), Frame::Leave);
    assert_eq!(next_frame(false, false), Frame::Continue);
    assert!(setup_end(None).is_ok());
    assert_eq!(setup_end(Some("x".to_owned())).err().unwrap().message(), "x");
}

#[test]
fn wizard_stages_run_in_order() {
    let mut p = Pipeline::At(StepId::Auth);
    let mut seen = Vec::new();
    while let Pipeline::At(step) = p {
        seen.push(step);
        p = run_pipeline(p, true);
    }
    assert_eq!(seen, [StepId::Auth, StepId::Register, StepId::Install, StepId::Verify]);
    assert_eq!(p, Pipeline::Finished);
    assert_eq!(run_pipeline(Pipeline::At(StepId::Install), false), Pipeline::Stopped(StepId::Install));
    assert!(matches!(emit_failed(StepId::Auth, "e"), StepEvent::Failed { step: StepId::Auth, error } if error == "e"));
}

#[test]
fn wizard_authentication() {
    assert!(matches!(begin_auth(true), None));
    assert!(matches!(begin_auth(false), Some(StepEvent::Started(StepId::Auth))));
    let (event, step) = run_auth(AuthInput::Stored(Some("t".to_owned())), "github.com");
    assert!(matches!(event, Some(StepEvent::Skipped { reason, .. }) if reason == "using stored login token"));
    assert!(matches!(step, AuthStep::Token(t) if t == "t"));
    let (event, step) = run_auth(AuthInput::Stored(None), "github.com");
    assert!(event.is_none());
    assert!(matches!(step, AuthStep::Failed(e) if e.message() == "no stored login token for github.com"));
    let (event, _) = run_auth(AuthInput::Decision(BearerDecision::Use("t".to_owned())), "h");
    assert!(matches!(event, Some(StepEvent::Done { summary, .. }) if summary == "authenticated"));
    let (event, step) = run_auth(AuthInput::Decision(BearerDecision::StartDeviceFlow), "h");
    assert!(event.is_none() && matches!(step, AuthStep::StartFlow));
    let (event, _) = run_auth(AuthInput::Flow(Ok("t".to_owned())), "h");
    assert!(matches!(event, Some(StepEvent::Done { summary, .. }) if summary == "logged in via device flow"));
    let (_, step) = run_auth(AuthInput::Flow(Err("denied".to_owned())), "h");
    assert!(matches!(step, AuthStep::Failed(RunnerError::Auth(m)) if m == "denied"));
}

#[test]
fn wizard_summaries() {
    assert!(matches!(begin_register(true), StepEvent::Skipped { reason, .. } if reason == "already registered"));
    assert!(matches!(begin_register(false), StepEvent::Started(StepId::Register)));
    assert!(matches!(run_register(-3), StepEvent::Done { summary, .. } if summary == "runner #-3"));
    assert!(matches!(run_install("l"), StepEvent::Done { summary, .. } if summary == "l"));
    assert!(matches!(run_verify(VerifyOutcome::Online), StepEvent::Done { summary, .. } if summary == "runner online"));
    assert!(matches!(
        run_verify(VerifyOutcome::Unconfirmed("r".to_owned())),
        StepEvent::Done { summary, .. } if summary == "unconfirmed (r) — run `toolu-runner watch`"
    ));
}

#[test]
fn verification_waits_for_the_marker() {
    let mut v = VerifyLoop::new();
    assert_eq!(v.before_poll(false), VerifyStep::Scan);
    assert_eq!(v.before_poll(true), VerifyStep::Decide);
    assert_eq!(v.scanned(&owned(&["nothing ", "yet"])), VerifyStep::Wait);
    assert_eq!(v.log_tail, "nothing yet");
    assert_eq!(v.scanned(&owned(&["a", "long-polling for jobs"])), VerifyStep::Decide);
    let mut v = VerifyLoop::new();
    let mut polls = 0;
    while v.before_poll(false) == VerifyStep::Scan {
        polls += 1;
        if v.scanned(&vec![]) == VerifyStep::Decide {
            break;
        }
    }
    assert_eq!(polls, VERIFY_POLL_SECS);
}

#[test]
fn verification_reads_log_tails() {
    assert_eq!(candidate_diag_dirs("/h", "/h/runners/o/r/config.toml"), ["/h/_diag", "/h/runners/o/r/_diag"]);
    assert_eq!(candidate_diag_dirs("/h", "/h/config.toml"), ["/h/_diag"]);
    assert_eq!(
        log_files(&owned(&["runner.log.2", "x.log", "runner.log", "runner.logs"])),
        ["runner.log", "runner.log.2", "runner.logs"]
    );
    assert_eq!(read_tail(&b"abcdef".to_vec(), 2), "ef");
    assert_eq!(read_tail(&b"ab".to_vec(), 5), "ab");
    assert_eq!(read_tail(&vec![0xff, b'a'], 5), String::from_utf8_lossy(&[0xff, b'a']));
    let mut big = vec![b'x'; LOG_TAIL_BYTES];
    big.insert(0, b'y');
    let tails = read_runner_log_tail(&vec![big, b"z".to_vec()]);
    assert_eq!(tails.len(), LOG_TAIL_BYTES + 1);
    assert!(tails.starts_with('x') && tails.ends_with('z'));
    assert_eq!(service_probe("macos", "l", "o", "r").unwrap().line(), "launchctl list l");
    assert_eq!(
        service_probe("linux", "l", "o", "r").unwrap().line(),
        "systemctl --user is-active toolu-runner-o-r.service"
    );
    assert!(service_probe("windows", "l", "o", "r").is_none());
}

// status and watch

fn registration() -> RunnerRegistrationConfig {
    RunnerRegistrationConfig {
        runner_url: "https://github.com/o/r".to_owned(),
        runner_name: "n".to_owned(),
        runner_id: 4,
        auth_token: "c".to_owned(),
        labels: owned(&["a", "b\"c"]),
        runner_group: "Default".to_owned(),
        runtime: RuntimeConfig {
            jit_config: "é12".to_owned(),
            work_dir: "/w".to_owned(),
            data_dir: "/d".to_owned(),
            protocol_version: "v2".to_owned(),
        },
    }
}

#[test]
fn the_status_shows_the_registration() {
    let lines = cmd_status(&registration(), true, TokenStore::File, "github.com", Some("repo"));
    assert_eq!(
        lines,
        [
            "runner:    n",
            "url:       https://github.com/o/r",
            "runner_id: 4",
            &format!("labels:    {:?}", ["a", "b\"c"]),
            "group:     Default",
            "protocol:  v2",
            "data_dir:  /d",
            "work_dir:  /w",
            "jit_cfg:   4 bytes",
            "creds:     credentials present",
            "tokens:    0600 file (default; set TOOLU_RUNNER_KEYRING=1 for the OS keyring)",
            "login:     logged in to github.com (scopes: repo)",
        ]
    );
    let lines = cmd_status(&registration(), false, TokenStore::Keyring, "github.com", None);
    assert_eq!(lines[9], "creds:     credentials MISSING");
    assert_eq!(lines[10], "tokens:    OS keyring (TOOLU_RUNNER_KEYRING opt-in)");
    assert_eq!(
        lines[11],
        "login:     not logged in to github.com — run `toolu-runner login`; a login stored in the OS keyring \
         by an older version is only read with TOOLU_RUNNER_KEYRING=1"
    );
    assert_eq!(config_not_found("/c"), "config not found at /c");
    assert_eq!(show_list(&vec![]), "[]");
}

#[test]
fn keys_are_bound() {
    assert_eq!(action_for(false, Key::Char('q'), false), Action::Quit);
    assert_eq!(action_for(false, Key::Esc, false), Action::Quit);
    assert_eq!(action_for(false, Key::Char('c'), true), Action::Quit);
    assert_eq!(action_for(false, Key::Char('c'), false), Action::RequestCancel);
    assert_eq!(action_for(false, Key::Char('f'), false), Action::ToggleFollow);
    assert_eq!(action_for(false, Key::Tab, false), Action::TogglePane);
    assert_eq!(action_for(false, Key::Char('k'), false), Action::MoveUp);
    assert_eq!(action_for(false, Key::Up, false), Action::MoveUp);
    assert_eq!(action_for(false, Key::Char('j'), false), Action::MoveDown);
    assert_eq!(action_for(false, Key::Down, false), Action::MoveDown);
    assert_eq!(action_for(false, Key::Enter, false), Action::OpenSelected);
    assert_eq!(action_for(false, Key::PageUp, false), Action::PageUp);
    assert_eq!(action_for(false, Key::PageDown, false), Action::PageDown);
    assert_eq!(action_for(false, Key::Char('y'), false), Action::Nothing);
    assert_eq!(action_for(false, Key::Other, false), Action::Nothing);
}

#[test]
fn cancelling_is_confirmed() {
    assert_eq!(action_for(true, Key::Char('y'), false), Action::ConfirmCancel);
    assert_eq!(action_for(true, Key::Char('Y'), false), Action::ConfirmCancel);
    assert_eq!(action_for(true, Key::Char('c'), true), Action::DismissCancel);
    assert_eq!(action_for(true, Key::Esc, false), Action::DismissCancel);
}

#[test]
fn credentials_hold_the_client_id_and_do_not_expire() {
    let c = issued_credentials("Iv1.abc");
    assert_eq!((c.access_token.as_str(), c.expires_at), ("Iv1.abc", None));
    assert!(c.issued_at.starts_with('2') && c.issued_at.ends_with("+00:00"));
}
