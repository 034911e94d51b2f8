//! Running a job's steps.

use std::io::Write;

use toolu_runner::docker::client::{
    create_container, docker_error, done, inspect_image, pull_image, wait_container, CreateParams,
    DockerOp,
};
use toolu_runner::error::RunnerError;
use toolu_runner::execution::action_exec::{
    build_post_step, client_error, dispatch_action, pre_done, resolve_action,
    run_composite_action, run_docker_action, run_node_action, run_node_pre_if_present,
    uses_reference, ActionOutcome, ActionRefKind, ActionStep, CompositeResult, ContextChange,
    Resolution, RunsUsing,
};
use toolu_runner::execution::artifacts::{
    authorize, find_listed, handle_download, handle_list, handle_upload_or_finalize, stored,
    ArtifactEntry, ArtifactRegistry, Reply, UploadPlan,
};
use toolu_runner::execution::cache::scope::{scopes_for_job, ExecutionContext};
use toolu_runner::execution::cache::tier::{BlobKind, L2Tier, TierResult};
use toolu_runner::execution::cache::trust::{
    classify_trust, is_protected, write_allowed, TrustLevel,
};
use toolu_runner::execution::cache::twirp::{
    finalize, finalize_cache_entry_upload, method_path, CacheMethod, FinalizeRequest, FinalizeStep,
    TwirpState,
};
use toolu_runner::execution::cgroup_join::{join_cgroup, JoinPlan};
use toolu_runner::execution::depth_tracker::{DepthTracker, MAX_COMPOSITE_DEPTH};
use toolu_runner::execution::handlers::composite::{prepare_composite, resolve_simple_output_ref};
use toolu_runner::execution::job_spec::{evaluate_job_outputs, JobSpec, RunDefaultsResolved};
use toolu_runner::execution::oidc::claims::{OidcClaims, OidcClaimsParams, OidcConfig, OidcMode};
use toolu_runner::execution::service_auth::validate_bearer;
use toolu_runner::execution::shadow::fingerprint::{
    fingerprint_dir, hash_file, TreeEntry, TreeNode,
};
use toolu_runner::execution::shadow::observer::{observe_key, ShadowObserver, StepKey};
use toolu_runner::execution::step_host::{DirectHost, ScriptEnd};
use toolu_runner::execution::step_timeout::{
    timeout_duration, wait_bounded, Reap, StepBounds, WaitEvent, WaitOutcome,
};
use toolu_runner::execution::workflow::reusable::types::{
    build_caller_context, resolve_inputs, resolve_output_expression, resolve_outputs,
    validate_inputs, validate_secrets, InputDef, OutputDef, SecretDef, SecretMode,
};
use toolu_runner::execution::workflow::trigger::{evaluate_triggers, matches_glob, EventPayload};
use toolu_runner::execution::workflow::types::{
    BranchFilter, MatrixConfig, RunDefaults, TriggerConfig, WorkflowDefaults,
};
use toolu_runner::node::runtime::{
    detect_platform, ensure_node_runtime, extract_tarball, node_download_url, node_version_for,
    plan_runtime, Download, ExtractStep,
};
use toolu_runner::reporting::feature_detection::{detect_protocol_version, ProtocolVersion};
use toolu_runner::reporting::results_service::{log_blob_headers, BLOB_STORAGE_AZURE};
use toolu_runner::runner::{Runner, EVENT_CAPACITY};
use toolu_runner::strmap::StringMap;
use toolu_runner::text::bytes_of_text;
use toolu_runner::types::{Conclusion, RunnerConfig};

fn owned(v: &[&str]) -> Vec<String> {
    v.iter().map(|s| s.to_string()).collect()
}

fn map(v: &[(&str, &str)]) -> StringMap<String> {
    let mut m = StringMap::new();
    for (k, x) in v {
        m.insert(k.to_string(), x.to_string());
    }
    m
}

fn entries(m: &StringMap<String>) -> Vec<(String, String)> {
    (0..m.len()).map(|i| (m.key_at(i).to_owned(), m.value_at(i).clone())).collect()
}

fn pairs(v: &[(&str, &str)]) -> Vec<(String, String)> {
    v.iter().map(|(a, b)| (a.to_string(), b.to_string())).collect()
}

// nesting and actions

#[test]
fn composite_actions_nest_ten_deep() {
    let mut d = DepthTracker::new();
    for level in 1..=MAX_COMPOSITE_DEPTH {
        assert!(d.enter().is_ok());
        assert_eq!(d.current(), level);
    }
    assert_eq!(d.enter().err().unwrap().message(), "composite action depth limit exceeded (max 10)");
    assert_eq!(d.current(), 11);
    for _ in 0..20 {
        d.exit();
    }
    assert_eq!(d.current(), 0);
    assert_eq!(DepthTracker::default().current(), 0);
}

#[test]
fn references_are_written_in_full() {
    assert_eq!(uses_reference(Some("o/r"), Some("img"), Some("v1")), "o/r@v1");
    assert_eq!(uses_reference(Some("o/r"), None, Some("")), "o/r");
    assert_eq!(uses_reference(None, Some("img"), None), "img");
    assert_eq!(uses_reference(None, None, None), "");
}

#[test]
fn actions_are_resolved() {
    assert!(matches!(
        resolve_action(ActionRefKind::Local, "./a", Some("/ws/a".to_owned()), false),
        Ok(Resolution::InPlace { dir }) if dir == "/ws/a"
    ));
    assert_eq!(
        resolve_action(ActionRefKind::Local, "./a", None, true).err().unwrap().message(),
        "invalid local action ref './a'"
    );
    assert!(matches!(resolve_action(ActionRefKind::Remote, "o/r@v1", None, true), Ok(Resolution::Cached)));
    assert!(matches!(
        resolve_action(ActionRefKind::Remote, "o/r@v1", None, false),
        Ok(Resolution::Download { line }) if line == "Downloading o/r@v1..."
    ));
    assert_eq!(client_error("tls").message(), "build HTTP client: tls");
}

#[test]
fn node_actions_run_pre_before_main() {
    let mut d = DepthTracker::new();
    let node = RunsUsing::Node { major: 20 };
    assert!(matches!(
        dispatch_action(node, true, None, &mut d),
        Ok(ActionStep::EvaluatePre { condition }) if condition == "always()"
    ));
    assert!(matches!(
        dispatch_action(node, true, Some("failure()"), &mut d),
        Ok(ActionStep::EvaluatePre { condition }) if condition == "failure()"
    ));
    assert!(matches!(dispatch_action(node, false, None, &mut d), Ok(ActionStep::RunMain)));
    assert!(matches!(
        run_node_pre_if_present(Ok(true)),
        Ok(ActionStep::RunPre { line }) if line == "##[group]Pre Run"
    ));
    assert!(matches!(run_node_pre_if_present(Ok(false)), Ok(ActionStep::RunMain)));
    let bad = run_node_pre_if_present(Err(RunnerError::Expression("bad".to_owned())));
    assert_eq!(bad.err().unwrap().message(), "bad");
    assert!(matches!(pre_done(Ok((Conclusion::Failure, map(&[])))), Ok(ActionStep::RunMain)));
    let post = build_post_step(true, 1, "n".to_owned(), "/d".to_owned(), 2, 20, None);
    let outcome = run_node_action(Ok((Conclusion::Success, map(&[("k", "v")]))), post).ok().unwrap();
    assert_eq!(outcome.conclusion, Conclusion::Success);
    assert_eq!(entries(&outcome.outputs), pairs(&[("k", "v")]));
    assert_eq!(outcome.post.map(|p| (p.step, p.manifest, p.major)), Some((1, 2, 20)));
    assert!(build_post_step(false, 1, String::new(), String::new(), 2, 20, None).is_none());
}

#[test]
fn composite_actions_restore_the_nesting() {
    let mut d = DepthTracker::new();
    assert!(matches!(
        dispatch_action(RunsUsing::Composite, false, None, &mut d),
        Ok(ActionStep::RunComposite { line }) if line == "##[endgroup]"
    ));
    assert_eq!(d.current(), 1);
    let result = CompositeResult {
        conclusion: Conclusion::Success,
        env_additions: pairs(&[("A", "1"), ("B", "2")]),
        path_additions: owned(&["/x"]),
    };
    let done: Result<(ActionOutcome<u8>, Vec<ContextChange>), RunnerError> =
        run_composite_action(Ok(result), &mut d);
    let (outcome, changes) = done.ok().unwrap();
    assert_eq!(d.current(), 0);
    assert!(outcome.post.is_none() && outcome.outputs.is_empty());
    let shown: Vec<String> = changes
        .iter()
        .map(|c| match c {
            ContextChange::SetEnv { name, value } => format!("{name}={value}"),
            ContextChange::PrependPath { dir } => dir.clone(),
        })
        .collect();
    assert_eq!(shown, ["A=1", "B=2", "/x"]);
    let _ = d.enter();
    let failed: Result<(ActionOutcome<u8>, Vec<ContextChange>), RunnerError> =
        run_composite_action(Err(RunnerError::StepExecution("x".to_owned())), &mut d);
    assert_eq!(failed.err().unwrap().message(), "x");
    assert_eq!(d.current(), 0);
}

#[test]
fn a_refused_composite_leaves_the_nesting() {
    let mut d = DepthTracker::new();
    for _ in 0..MAX_COMPOSITE_DEPTH {
        assert!(d.enter().is_ok());
    }
    for _ in 0..3 {
        let e = dispatch_action(RunsUsing::Composite, false, None, &mut d).err().unwrap();
        assert!(matches!(e, RunnerError::StepExecution(_)));
        assert_eq!(d.current(), MAX_COMPOSITE_DEPTH);
    }
    d.exit();
    assert!(dispatch_action(RunsUsing::Composite, false, None, &mut d).is_ok());
    assert_eq!(d.current(), MAX_COMPOSITE_DEPTH);
}

#[test]
fn docker_actions_succeed_on_exit_code_zero() {
    let mut d = DepthTracker::new();
    assert!(matches!(
        dispatch_action(RunsUsing::Docker, false, None, &mut d),
        Ok(ActionStep::RunContainer)
    ));
    assert_eq!(d.current(), 0);
    for (code, conclusion) in
        [(0, Conclusion::Success), (1, Conclusion::Failure), (-1, Conclusion::Failure), (1 << 32, Conclusion::Failure)]
    {
        let outcome: ActionOutcome<u8> = run_docker_action(Ok(code)).ok().unwrap();
        assert_eq!(outcome.conclusion, conclusion);
        assert!(outcome.post.is_none() && outcome.outputs.is_empty());
    }
    let failed: Result<ActionOutcome<u8>, RunnerError> =
        run_docker_action(Err(RunnerError::Docker("x".to_owned())));
    assert_eq!(failed.err().unwrap().message(), "x");
}

#[test]
fn composite_outputs_come_from_steps() {
    let mut d = DepthTracker::new();
    let outputs = map(&[
        ("a", "${{ steps.build.outputs.result }}"),
        ("b", " steps.build.outputs.result "),
        ("c", "${{ steps.build.outputs.missing }}"),
        ("d", "literal"),
    ]);
    let c = prepare_composite(outputs, "scope", "step", &mut d).ok().unwrap();
    assert_eq!((c.scope, c.step_id.as_str(), d.current()), ("scope", "step", 1));
    let mut steps: StringMap<StringMap<String>> = StringMap::new();
    steps.insert("build".to_owned(), map(&[("result", "ok")]));
    assert_eq!(entries(&c.evaluate_outputs(&steps)), pairs(&[("a", "ok"), ("b", "ok")]));
    assert_eq!(resolve_simple_output_ref("${{ steps.build.outputs.result.x }}", &steps), None);
    assert_eq!(resolve_simple_output_ref("${{ jobs.build.outputs.result }}", &steps), None);
    for _ in 0..9 {
        let _ = d.enter();
    }
    assert!(prepare_composite(map(&[]), 0, "s", &mut d).is_err());
}

// processes

#[test]
fn time_limits_are_whole_minutes() {
    assert_eq!(timeout_duration(Some(5)), Some(300));
    assert_eq!(timeout_duration(Some(0)), None);
    assert_eq!(timeout_duration(None), None);
    assert_eq!(timeout_duration(Some(u32::MAX)), Some(u64::from(u32::MAX) * 60));
    assert_eq!(StepBounds::new(Some(1)).timeout_secs, Some(60));
}

#[test]
fn waits_end_by_exit_timeout_or_cancellation() {
    assert_eq!(wait_bounded(WaitEvent::Ended(Ok(3))), Ok(WaitOutcome::Exited(3)));
    let failed: Result<WaitOutcome<u8>, String> = wait_bounded(WaitEvent::Ended(Err("x".to_owned())));
    assert_eq!(failed, Err("wait failed: x".to_owned()));
    let out: Result<WaitOutcome<u8>, String> = wait_bounded(WaitEvent::Elapsed(Reap::Reaped));
    assert_eq!(out, Ok(WaitOutcome::TimedOut));
    let out: Result<WaitOutcome<u8>, String> = wait_bounded(WaitEvent::Elapsed(Reap::Abandoned));
    assert_eq!(out, Ok(WaitOutcome::TimedOut));
    let out: Result<WaitOutcome<u8>, String> = wait_bounded(WaitEvent::Cancelled(Reap::Reaped));
    assert_eq!(out, Ok(WaitOutcome::Cancelled));
    let out: Result<WaitOutcome<u8>, String> = wait_bounded(WaitEvent::Cancelled(Reap::Failed("x".to_owned())));
    assert_eq!(out, Err("reap after kill failed: x".to_owned()));
}

#[test]
fn scripts_report_their_exit_code() {
    let host = DirectHost::default();
    assert_eq!(host.cgroup_path, None);
    let end = ScriptEnd::Ended { code: Some(3), stdout: b"out".to_vec(), stderr: vec![0xff] };
    let out = host.run_script("bash", end).ok().unwrap();
    assert_eq!((out.exit_code, out.stdout.as_str(), out.stderr.as_str()), (3, "out", "\u{fffd}"));
    let end = ScriptEnd::Ended { code: None, stdout: vec![], stderr: vec![] };
    assert_eq!(host.run_script("bash", end).ok().unwrap().exit_code, -1);
    let e = host.run_script("bash", ScriptEnd::WaitFailed("gone".to_owned())).err().unwrap();
    assert!(matches!(&e, RunnerError::ScriptHandler(m) if m == "wait bash: gone"));
}

#[test]
fn processes_join_their_cgroup() {
    assert!(matches!(join_cgroup(None, Some(1)), JoinPlan::Unconstrained));
    assert!(matches!(join_cgroup(Some("/cg"), None), JoinPlan::NoPid));
    assert!(matches!(
        join_cgroup(Some("/cg/job"), Some(42)),
        JoinPlan::Write { file, text } if file == "/cg/job/cgroup.procs" && text == "42"
    ));
}

// local services

#[test]
fn tokens_must_match_exactly() {
    assert_eq!(validate_bearer(Some("Bearer t"), "t"), Ok(()));
    for header in [None, Some("t"), Some("bearer t"), Some("Bearer  t"), Some("Bearer t "), Some("Bearer ")] {
        assert_eq!(validate_bearer(header, "t"), Err(401));
    }
    assert!(authorize(Some("Bearer t"), "t").is_ok());
    assert_eq!(authorize(None, "t").err().unwrap().status(), 401);
}

#[test]
fn artifacts_are_found_by_their_number() {
    let mut registry = ArtifactRegistry::new();
    assert!(matches!(
        registry.handle_create(Ok("c1".to_owned()), "logs".to_owned()),
        Reply::Created { container_id, name } if container_id == "c1" && name == "logs"
    ));
    let failed = registry.handle_create(Err("full".to_owned()), "lost".to_owned());
    assert!(matches!(&failed, Reply::Failed(e) if e == "full"));
    assert_eq!(failed.status(), 500);
    registry.handle_create(Ok("c2".to_owned()), "dist".to_owned());
    assert_eq!(registry.find(1), Some("logs".to_owned()));
    assert_eq!(registry.find(2), Some("dist".to_owned()));
    assert_eq!(registry.find(3), None);
    let listing = || vec![
        ArtifactEntry { id: 2, name: "other".to_owned(), size: 1 },
        ArtifactEntry { id: 3, name: "kept".to_owned(), size: 2 },
    ];
    assert_eq!(registry.find_artifact_name(2, Some(listing())), Some("dist".to_owned()));
    assert_eq!(registry.find_artifact_name(3, Some(listing())), Some("kept".to_owned()));
    assert_eq!(registry.find_artifact_name(3, None), None);
    assert_eq!(find_listed(&listing(), 2), Some("other".to_owned()));
}

#[test]
fn uploads_are_planned() {
    let token = Some("Bearer t");
    let name = || Some("n".to_owned());
    assert!(matches!(
        handle_upload_or_finalize(None, "t", name(), None, 0),
        UploadPlan::Refuse(Reply::Unauthorized)
    ));
    match handle_upload_or_finalize(token, "t", None, None, 0) {
        UploadPlan::Refuse(reply) => {
            assert_eq!(reply.status(), 400);
            assert!(matches!(reply, Reply::BadRequest(e) if e == "artifactName required"));
        }
        _ => panic!("a name is needed"),
    }
    assert!(matches!(
        handle_upload_or_finalize(token, "t", name(), Some("true"), 5),
        UploadPlan::Finalize { name } if name == "n"
    ));
    assert!(matches!(
        handle_upload_or_finalize(token, "t", name(), Some("TRUE"), 5),
        UploadPlan::Chunk { index: 5, .. }
    ));
    assert!(matches!(
        handle_upload_or_finalize(token, "t", name(), None, u64::MAX),
        UploadPlan::Chunk { index: u32::MAX, .. }
    ));
    assert_eq!(stored(Ok(())).status(), 200);
    assert!(matches!(stored(Err("e".to_owned())), Reply::Failed(e) if e == "e"));
}

#[test]
fn artifacts_are_listed_and_downloaded() {
    let listed = handle_list(Ok(vec![ArtifactEntry { id: 1, name: "n".to_owned(), size: 3 }]));
    assert!(matches!(&listed, Reply::List { count: 1, value } if value[0].name == "n"));
    assert_eq!(listed.status(), 200);
    assert_eq!(handle_list(Err("e".to_owned())).status(), 500);
    assert!(matches!(handle_download(Some("n".to_owned()), Some(vec![1])), Reply::Content(b) if b == [1]));
    assert_eq!(handle_download(None, Some(vec![1])).status(), 404);
    assert_eq!(handle_download(Some("n".to_owned()), None).status(), 404);
}

#[test]
fn caches_are_scoped_by_branch() {
    let protected = owned(&["main", "release"]);
    let ctx = ExecutionContext { github: map(&[("ref_name", "feature"), ("base_ref", "main")]) };
    let s = scopes_for_job(&ctx, &protected);
    assert_eq!(s.write, "feature");
    assert_eq!(s.read_ladder, ["feature", "main", "release"]);
    let s = scopes_for_job(&ExecutionContext { github: map(&[]) }, &protected);
    assert_eq!((s.write.as_str(), &s.read_ladder), ("", &protected));
    let s = scopes_for_job(&ExecutionContext { github: map(&[("base_ref", "develop")]) }, &protected);
    assert_eq!((s.write.as_str(), &s.read_ladder), ("", &protected));
    let copy = s.clone();
    assert_eq!((copy.write, copy.read_ladder), (s.write, s.read_ladder));
}

#[test]
fn protected_scopes_need_trust() {
    let protected = owned(&["main"]);
    for event in ["push", "schedule", "workflow_dispatch", "release", "merge_group"] {
        assert_eq!(classify_trust(event, "main", &protected), TrustLevel::Trusted);
        assert_eq!(classify_trust(event, "feature", &protected), TrustLevel::Untrusted);
    }
    for event in ["pull_request", "pull_request_target", "workflow_run", "issue_comment", ""] {
        assert_eq!(classify_trust(event, "main", &protected), TrustLevel::Untrusted);
    }
    assert!(is_protected("main", &protected) && !is_protected("Main", &protected));
    assert!(write_allowed("main", TrustLevel::Trusted, &protected));
    assert!(!write_allowed("main", TrustLevel::Untrusted, &protected));
    assert!(write_allowed("feature", TrustLevel::Untrusted, &protected));
}

#[test]
fn cold_tier_keys_and_failures() {
    assert_eq!(L2Tier::key(BlobKind::Chunk, "ab"), "chunks/ab");
    assert_eq!(L2Tier::key(BlobKind::Manifest, "ab"), "manifests/ab");
    let tier = L2Tier::from_config("b".to_owned(), "e".to_owned(), "r".to_owned(), Ok(())).ok().unwrap();
    assert_eq!((tier.bucket.as_str(), tier.endpoint.as_str(), tier.region.as_str()), ("b", "e", "r"));
    let e = L2Tier::from_config(String::new(), String::new(), String::new(), Err("x".to_owned())).err().unwrap();
    assert_eq!(e.message(), "failed to build S3 operator: x");
    assert!(tier.put_blob(BlobKind::Chunk, "ab", TierResult::Done(())).is_ok());
    let e = tier.put_blob(BlobKind::Chunk, "ab", TierResult::Failed("x".to_owned())).err().unwrap();
    assert_eq!(e.message(), "L2 put chunks/ab failed: x");
    assert_eq!(tier.get_blob(BlobKind::Chunk, "ab", TierResult::Done(vec![1])).ok(), Some(Some(vec![1])));
    assert_eq!(tier.get_blob(BlobKind::Chunk, "ab", TierResult::NotFound("x".to_owned())).ok(), Some(None));
    let e = tier.get_blob(BlobKind::Chunk, "ab", TierResult::Failed("x".to_owned())).err().unwrap();
    assert_eq!(e.message(), "L2 get chunks/ab failed: x");
    assert_eq!(tier.has_blob(BlobKind::Manifest, "ab", TierResult::Done(false)).ok(), Some(false));
    let e = tier.has_blob(BlobKind::Manifest, "ab", TierResult::NotFound("x".to_owned())).err().unwrap();
    assert_eq!(e.message(), "L2 stat manifests/ab failed: x");
}

#[test]
fn uploads_are_indexed_only_when_they_are_whole() {
    let state = TwirpState {
        scopes: scopes_for_job(&ExecutionContext { github: map(&[("ref_name", "feature")]) }, &owned(&["main"])),
        trust: TrustLevel::Untrusted,
        protected: owned(&["main"]),
        bearer: "b".to_owned(),
        staging_root: "/s".to_owned(),
        upload_ttl_secs: 1,
        download_ttl_secs: 1,
    };
    let finalize = |size: &str| {
        let req = FinalizeRequest {
            key: "k".to_owned(),
            size_bytes: size.to_owned(),
            version: "v".to_owned(),
        };
        finalize(&state, &req)
    };
    let mut f = finalize("10").ok().unwrap();
    assert_eq!((f.size_bytes, f.step), (10, FinalizeStep::TakePending));
    let at = f.coordinates();
    assert_eq!((at.scope.as_str(), at.key.as_str(), at.version.as_str()), ("feature", "k", "v"));
    f.pending_taken(true);
    f.ingested(Some(10));
    f.manifest_put(true);
    let entry = f.index_entry("m1");
    assert_eq!((entry.key.as_str(), entry.manifest.as_str(), entry.size_bytes), ("k", "m1", 10));
    assert!(entry.created_at.starts_with('2') && entry.created_at.ends_with("+00:00"));
    f.inserted(true);
    assert_eq!(f.step, FinalizeStep::Indexed);
    let at = f.coordinates();
    assert_eq!((at.scope.as_str(), at.key.as_str(), at.version.as_str()), ("feature", "k", "v"));
    let mut f = finalize("10").ok().unwrap();
    f.pending_taken(true);
    f.ingested(Some(9));
    assert_eq!(f.step, FinalizeStep::Rejected);
    let mut f = finalize("10").ok().unwrap();
    f.pending_taken(false);
    assert_eq!(f.step, FinalizeStep::Rejected);
    for bad in ["", "x", "-1", "18446744073709551616"] {
        let cause = bad.parse::<u64>().err().unwrap();
        assert_eq!(finalize(bad).err().unwrap().message(), format!("bad size_bytes: {cause}"));
    }
    let r = finalize_cache_entry_upload(Ok(Some("7".to_owned())));
    assert_eq!((r.ok, r.entry_id.as_deref()), (true, Some("7")));
    let r = finalize_cache_entry_upload(Ok(None));
    assert_eq!((r.ok, r.entry_id), (false, None));
    let r = finalize_cache_entry_upload(Err(RunnerError::Cache("x".to_owned())));
    assert_eq!((r.ok, r.entry_id), (false, None));
    assert_eq!(
        method_path(CacheMethod::CreateCacheEntry),
        "/twirp/github.actions.results.api.v1.CacheService/CreateCacheEntry"
    );
}

// job specification and workflows

#[test]
fn job_defaults_win_over_workflow_defaults() {
    let defaults = |shell: Option<&str>, dir: Option<&str>| WorkflowDefaults {
        run: Some(RunDefaults {
            shell: shell.map(str::to_owned),
            working_directory: dir.map(str::to_owned),
        }),
    };
    let workflow = defaults(Some("bash"), Some("/w"));
    let job = defaults(Some("pwsh"), None);
    let spec = JobSpec::from_workflow(map(&[]), Some(&workflow), Some(&job));
    assert_eq!(spec.defaults.shell, Some("pwsh".to_owned()));
    assert_eq!(spec.defaults.working_directory, Some("/w".to_owned()));
    let spec = JobSpec::from_workflow(map(&[]), None, Some(&WorkflowDefaults { run: None }));
    assert_eq!((spec.defaults.shell, spec.defaults.working_directory), (None, None));
}

#[test]
fn job_outputs_are_evaluated_in_turn() {
    let spec = JobSpec::from_workflow(map(&[("a", "x"), ("b", "y")]), None, None);
    let up = |s: &String| -> Result<String, RunnerError> { Ok(s.to_uppercase()) };
    assert_eq!(entries(&evaluate_job_outputs(&spec, up).ok().unwrap()), pairs(&[("a", "X"), ("b", "Y")]));
    let fail = |s: &String| -> Result<String, RunnerError> { Err(RunnerError::Expression(s.clone())) };
    assert_eq!(evaluate_job_outputs(&spec, fail).err().unwrap().message(), "x");
}

#[test]
fn globs_end_in_stars() {
    assert!(matches_glob("*", "anything") && matches_glob("**", ""));
    assert!(matches_glob("release/**", "release/1/2") && !matches_glob("release/**", "main"));
    assert!(matches_glob("rel*", "release") && !matches_glob("rel*", "main"));
    assert!(matches_glob("main", "main") && !matches_glob("main", "main2"));
    assert!(matches_glob("a***", "a*b") && !matches_glob("a***", "ab"));
    assert!(!matches_glob("*x", "ax"));
}

#[test]
fn triggers_filter_branches() {
    let config = TriggerConfig {
        push: Some(BranchFilter { branches: owned(&["main", "rel/*"]), tags: vec![], paths: vec![] }),
        event_names: owned(&["push", "pull_request"]),
        ..TriggerConfig::default()
    };
    let event = |name: &str, branch: Option<&str>| EventPayload {
        event_name: name.to_owned(),
        branch: branch.map(str::to_owned),
        tag: None,
        paths_changed: vec![],
        inputs: map(&[]),
    };
    assert!(evaluate_triggers(&config, &event("push", Some("main"))));
    assert!(evaluate_triggers(&config, &event("push", Some("rel/1"))));
    assert!(!evaluate_triggers(&config, &event("push", Some("feature"))));
    assert!(!evaluate_triggers(&config, &event("push", None)));
    assert!(evaluate_triggers(&config, &event("pull_request", Some("feature"))));
    assert!(!evaluate_triggers(&config, &event("schedule", None)));
}

#[test]
fn reusable_inputs_are_validated_and_resolved() {
    let mut defined: StringMap<InputDef> = StringMap::new();
    defined.insert("a".to_owned(), InputDef { required: true, default: None });
    defined.insert("b".to_owned(), InputDef { required: true, default: Some("B".to_owned()) });
    defined.insert("c".to_owned(), InputDef { required: false, default: None });
    assert_eq!(
        validate_inputs(&defined, &map(&[])).err().unwrap().message(),
        "required input 'a' not provided by caller"
    );
    let caller = map(&[("a", "1"), ("extra", "2")]);
    assert!(validate_inputs(&defined, &caller).is_ok());
    assert_eq!(entries(&resolve_inputs(&defined, &caller)), pairs(&[("a", "1"), ("b", "B")]));
    let caller = map(&[("a", "1"), ("b", "2")]);
    assert_eq!(entries(&resolve_inputs(&defined, &caller)), pairs(&[("a", "1"), ("b", "2")]));
    let context = build_caller_context(&caller, &map(&[("s", "x")]));
    assert_eq!(entries(&context.inputs), pairs(&[("a", "1"), ("b", "2")]));
    assert_eq!(entries(&context.secrets), pairs(&[("s", "x")]));
}

#[test]
fn reusable_secrets_are_inherited_or_mapped() {
    let mut defined: StringMap<SecretDef> = StringMap::new();
    defined.insert("opt".to_owned(), SecretDef { required: false });
    defined.insert("s".to_owned(), SecretDef { required: true });
    let caller = map(&[("x", "1"), ("s", "3")]);
    let got = validate_secrets(&SecretMode::Inherit, &defined, &caller).ok().unwrap();
    assert_eq!(entries(&got), pairs(&[("x", "1"), ("s", "3")]));
    let e = validate_secrets(&SecretMode::Inherit, &defined, &map(&[("x", "1")])).err().unwrap();
    assert_eq!(e.message(), "required secret 's' not provided by caller");
    let e = validate_secrets(&SecretMode::Explicit(map(&[])), &defined, &caller).err().unwrap();
    assert_eq!(e.message(), "required secret 's' not provided by caller");
    let got = validate_secrets(&SecretMode::Explicit(map(&[("s", "2")])), &defined, &caller).ok().unwrap();
    assert_eq!(entries(&got), pairs(&[("s", "2")]));
}

#[test]
fn reusable_outputs_come_from_jobs() {
    let mut jobs: StringMap<StringMap<String>> = StringMap::new();
    jobs.insert("build".to_owned(), map(&[("version", "1.2")]));
    assert_eq!(resolve_output_expression("${{ jobs.build.outputs.version }}", &jobs), "1.2");
    assert_eq!(resolve_output_expression("${{ jobs.build.outputs.none }}", &jobs), "");
    assert_eq!(resolve_output_expression("${{ steps.build.outputs.version }}", &jobs), "");
    assert_eq!(resolve_output_expression("  plain ", &jobs), "plain");
    let mut defined: StringMap<OutputDef> = StringMap::new();
    defined.insert(
        "v".to_owned(),
        OutputDef { description: None, value: "${{jobs.build.outputs.version}}".to_owned() },
    );
    assert_eq!(entries(&resolve_outputs(&defined, &jobs)), pairs(&[("v", "1.2")]));
}

#[test]
fn defaults_state_nothing() {
    let filter = BranchFilter::default();
    assert!(filter.branches.is_empty() && filter.tags.is_empty() && filter.paths.is_empty());
    assert!(WorkflowDefaults::default().run.is_none());
    let run = RunDefaults::default();
    assert!(run.shell.is_none() && run.working_directory.is_none());
    let run = RunDefaultsResolved::default();
    assert!(run.shell.is_none() && run.working_directory.is_none());
    let matrix = MatrixConfig::default().clone();
    assert!(matrix.base.is_empty() && matrix.include_rows.is_empty() && matrix.exclude_rows.is_empty());
    let spec = JobSpec::default().clone();
    assert!(spec.outputs.is_empty() && spec.defaults.shell.is_none());
    let on = TriggerConfig::default().clone();
    assert!(on.push.is_none() && on.pull_request.is_none() && on.event_names.is_empty());
    assert!(DirectHost::default().cgroup_path.is_none());
}

// identity tokens

fn params(audience: Option<&str>) -> OidcClaimsParams<'_> {
    OidcClaimsParams {
        issuer: "iss",
        subject: "sub",
        audience,
        repository: "o/r",
        repository_owner: "o",
        actor: "a",
        event_name: "push",
        git_ref: "refs/heads/main",
        sha: "abc",
        workflow: "ci",
        run_id: "1",
        run_number: "2",
        run_attempt: "3",
    }
}

#[test]
fn tokens_live_ten_minutes() {
    let c = OidcClaims::at(&params(None), 1_000, "id".to_owned());
    assert_eq!((c.iat, c.nbf, c.exp), (1_000, 1_000, 1_600));
    assert_eq!((c.aud.as_str(), c.jti.as_str()), ("api://AzureADTokenExchange", "id"));
    assert_eq!((c.git_ref.as_str(), c.run_attempt.as_str()), ("refs/heads/main", "3"));
    assert_eq!(OidcClaims::at(&params(None), u64::MAX, String::new()).exp, u64::MAX);
    let c = OidcClaims::new(&params(Some("aud")));
    assert_eq!(c.aud, "aud");
    assert!(c.iat > 1_600_000_000 && c.exp == c.iat + 600);
    assert!(uuid::Uuid::parse_str(&c.jti).is_ok());
    let id: Vec<char> = c.jti.chars().collect();
    assert_eq!((id.len(), id[8], id[14]), (36, '-', '4'));
    assert!("89ab".contains(id[19]));
    assert_ne!(c.jti, OidcClaims::new(&params(None)).jti);
    assert!(matches!(
        OidcConfig::github("u".to_owned()).mode,
        OidcMode::GitHub { upstream_url } if upstream_url == "u"
    ));
    assert!(matches!(
        OidcConfig::local(vec![1], "i".to_owned()).mode,
        OidcMode::Local { signing_key, issuer_url } if signing_key == [1] && issuer_url == "i"
    ));
}

// shadow

fn raw(name: &[u8], node: TreeNode) -> TreeEntry {
    TreeEntry { name: name.to_vec(), node }
}

fn digest_of(items: &[(&str, &[u8; 1], Vec<u8>)]) -> [u8; 32] {
    let mut h = blake3::Hasher::new();
    for (path, tag, content) in items {
        h.update(path.as_bytes());
        h.update(&[0]);
        h.update(*tag);
        h.update(content);
        h.update(&[0]);
    }
    *h.finalize().as_bytes()
}

fn file(name: &str, content: &[u8]) -> TreeEntry {
    raw(name.as_bytes(), TreeNode::File(hash_file(&content.to_vec())))
}

fn link(name: &str, target: &str) -> TreeEntry {
    raw(name.as_bytes(), TreeNode::Link(target.as_bytes().to_vec()))
}

fn dir(name: &str, entries: Vec<TreeEntry>) -> TreeEntry {
    raw(name.as_bytes(), TreeNode::Dir(entries))
}

#[test]
fn fingerprints_fold_paths_and_contents() {
    let tree = vec![dir("d", vec![file("b", b"two")]), link("l", "/ws/d"), file("a", b"one")];
    let mut h = blake3::Hasher::new();
    for (path, tag, content) in [
        ("a", b"F", blake3::hash(b"one").as_bytes().to_vec()),
        ("d/b", b"F", blake3::hash(b"two").as_bytes().to_vec()),
        ("l", b"L", b"d".to_vec()),
    ] {
        h.update(path.as_bytes());
        h.update(&[0]);
        h.update(tag);
        h.update(&content);
        h.update(&[0]);
    }
    assert_eq!(fingerprint_dir(Some(&tree), "/ws"), *h.finalize().as_bytes());
}

#[test]
fn fingerprints_ignore_listing_order_and_place() {
    let one = vec![file("a", b"1"), dir("d", vec![link("x", "/ws/a"), file("y", b"2")])];
    let two = vec![dir("d", vec![file("y", b"2"), link("x", "/mnt/ws/a")]), file("a", b"1")];
    assert_eq!(fingerprint_dir(Some(&one), "/ws"), fingerprint_dir(Some(&two), "/mnt/ws"));
    assert_ne!(fingerprint_dir(Some(&one), "/ws"), fingerprint_dir(Some(&two), "/ws"));
    let changed = vec![file("a", b"1"), dir("d", vec![link("x", "/ws/a"), file("y", b"3")])];
    assert_ne!(fingerprint_dir(Some(&one), "/ws"), fingerprint_dir(Some(&changed), "/ws"));
}

#[test]
fn every_entry_counts_with_its_own_content() {
    let hash = |content: &[u8]| blake3::hash(content).as_bytes().to_vec();
    // The same name twice: each entry adds its own content, in turn.
    let twice = vec![file("x", b"one"), file("a", b"0"), file("x", b"two")];
    assert_eq!(
        fingerprint_dir(Some(&twice), "/ws"),
        digest_of(&[("a", b"F", hash(b"0")), ("x", b"F", hash(b"one")), ("x", b"F", hash(b"two"))])
    );
    // Two names that are shown alike are told apart by their bytes.
    let low = || raw(b"\xfe", TreeNode::File(hash_file(&b"low".to_vec())));
    let high = || raw(b"\xff", TreeNode::File(hash_file(&b"high".to_vec())));
    let expected = digest_of(&[("\u{fffd}", b"F", hash(b"low")), ("\u{fffd}", b"F", hash(b"high"))]);
    assert_eq!(fingerprint_dir(Some(&vec![low(), high()]), "/ws"), expected);
    assert_eq!(fingerprint_dir(Some(&vec![high(), low()]), "/ws"), expected);
}

#[test]
fn names_are_ordered_by_their_bytes() {
    let hash = |content: &[u8]| blake3::hash(content).as_bytes().to_vec();
    // A byte that is no text comes before a private character, though its
    // replacement would come after it.
    let tree = vec![
        file("\u{f000}", b"2"),
        raw(b"\x80", TreeNode::File(hash_file(&b"1".to_vec()))),
        dir("é", vec![raw(b"l", TreeNode::Link(b"/ws/\xff".to_vec()))]),
    ];
    assert_eq!(
        fingerprint_dir(Some(&tree), "/ws"),
        digest_of(&[
            ("\u{fffd}", b"F", hash(b"1")),
            ("é/l", b"L", "\u{fffd}".as_bytes().to_vec()),
            ("\u{f000}", b"F", hash(b"2")),
        ])
    );
    let outside = vec![raw(b"l", TreeNode::Link("/elsewhere/é".as_bytes().to_vec()))];
    assert_eq!(
        fingerprint_dir(Some(&outside), "/ws"),
        digest_of(&[("l", b"L", "/elsewhere/é".as_bytes().to_vec())])
    );
    let under = vec![raw(b"l", TreeNode::Link("/wé/x".as_bytes().to_vec()))];
    assert_eq!(fingerprint_dir(Some(&under), "/wé"), digest_of(&[("l", b"L", b"x".to_vec())]));
}

#[test]
fn fingerprints_ignore_directories_that_bear_nothing() {
    let bare = vec![dir("d", vec![dir("e", vec![file("f", b"1")])]), link("l", "/ws/d/e")];
    let padded = vec![
        link("l", "/a/d/e"),
        dir("empty", vec![dir("deeper", vec![])]),
        dir("d", vec![dir("none", vec![]), dir("e", vec![dir("x", vec![]), file("f", b"1")])]),
    ];
    assert_eq!(fingerprint_dir(Some(&bare), "/ws"), fingerprint_dir(Some(&padded), "/a"));
    let moved = vec![dir("d", vec![file("f", b"1")]), link("l", "/ws/d/e")];
    assert_ne!(fingerprint_dir(Some(&bare), "/ws"), fingerprint_dir(Some(&moved), "/ws"));
}

#[test]
fn nothing_has_no_fingerprint() {
    assert_eq!(fingerprint_dir(None, "/ws"), [0; 32]);
    assert_eq!(fingerprint_dir(Some(&vec![]), "/ws"), [0; 32]);
    assert_eq!(fingerprint_dir(Some(&vec![dir("d", vec![])]), "/ws"), [0; 32]);
}

#[test]
fn keys_tell_steps_apart() {
    let pre = [1u8; 32];
    let hex = "01".repeat(32);
    assert_eq!(observe_key("c", "e", "/é", &pre), format!("c\0e\x003:/é\0{hex}"));
    assert_ne!(observe_key("c", "e", "a", &pre), observe_key("c", "e", "a\0", &pre));
}

#[test]
fn repeated_steps_are_would_be_hits() {
    let mut o = ShadowObserver::new(true, "/data", "job");
    assert_eq!(o.dir(), "/data/_diag/shadow");
    assert_eq!(o.path(), "/data/_diag/shadow/job.jsonl");
    let key = StepKey { step_id: "s", cmd_digest: "c", env_digest: "e", cwd: "/ws" };
    let before = vec![file("a", b"1")];
    let after = vec![file("a", b"2")];
    let other = vec![file("a", b"3")];
    let pre = o.pre(Some(&before), "/ws");
    let r = o.post(&key, &pre, Some(&after), "/ws").unwrap();
    assert_eq!((r.would_hit, r.false_hit), (false, false));
    assert_eq!((r.step_id.as_str(), r.cwd.as_str()), ("s", "/ws"));
    assert_eq!(r.pre_digest.len(), 64);
    assert_ne!(r.pre_digest, r.post_digest);
    let r = o.post(&key, &pre, Some(&after), "/ws").unwrap();
    assert_eq!((r.would_hit, r.false_hit), (true, false));
    let r = o.post(&key, &pre, Some(&other), "/ws").unwrap();
    assert_eq!((r.would_hit, r.false_hit), (true, true));
    let r = o.post(&key, &pre, Some(&after), "/ws").unwrap();
    assert_eq!((r.would_hit, r.false_hit), (true, false));
    let mut off = ShadowObserver::new(false, "/data", "job");
    assert_eq!(off.pre(Some(&before), "/ws"), [0; 32]);
    assert!(off.post(&key, &pre, Some(&after), "/ws").is_none());
}

// docker

#[test]
fn docker_failures_name_their_operation() {
    assert_eq!(docker_error(DockerOp::Connect, "x").message(), "connect docker daemon: x");
    assert_eq!(done(DockerOp::KillContainer, Err("x".to_owned())).err().unwrap().message(), "kill container: x");
    assert_eq!(done(DockerOp::StartContainer, Err("x".to_owned())).err().unwrap().message(), "start container: x");
    assert_eq!(done(DockerOp::RemoveContainer, Err("x".to_owned())).err().unwrap().message(), "remove container: x");
    assert_eq!(done(DockerOp::CreateContainer, Err("x".to_owned())).err().unwrap().message(), "create container: x");
    assert!(done(DockerOp::KillContainer, Ok(())).is_ok());
    assert_eq!(inspect_image(Err("x".to_owned())).err().unwrap().message(), "inspect image: x");
    assert_eq!(inspect_image(Ok(Some(owned(&["t"])))).ok().unwrap().repo_tags, ["t"]);
    assert!(inspect_image(Ok(None)).ok().unwrap().repo_tags.is_empty());
    assert_eq!(wait_container(Some(Ok(7))).ok(), Some(7));
    assert_eq!(wait_container(None).ok(), Some(-1));
    assert_eq!(wait_container(Some(Err("x".to_owned()))).err().unwrap().message(), "wait container: x");
    assert!(pull_image(&vec![Ok(()), Ok(())]).is_ok());
    let reports = vec![Ok(()), Err("first".to_owned()), Err("second".to_owned())];
    assert_eq!(pull_image(&reports).err().unwrap().message(), "pull image: first");
}

#[test]
fn containers_work_in_the_workspace() {
    let env = owned(&["A=1"]);
    let binds = owned(&["/a:/b"]);
    let request = create_container(&CreateParams {
        image: "img",
        name: Some("n"),
        cmd: vec!["sh", "-c"],
        env: &env,
        binds: &binds,
        network: None,
    });
    assert_eq!((request.image.as_str(), request.name.as_deref()), ("img", Some("n")));
    assert_eq!(request.cmd, ["sh", "-c"]);
    assert_eq!((request.env, request.binds), (env, binds));
    assert_eq!((request.network_mode, request.working_dir.as_str()), (None, "/github/workspace"));
}

// node

#[test]
fn node_releases_are_pinned() {
    assert_eq!(node_version_for(20), "20.18.3");
    assert_eq!(node_version_for(24), "24.0.2");
    assert_eq!(node_version_for(16), "20.18.3");
    assert_eq!(
        node_download_url("20.18.3", "linux", "x64"),
        "https://nodejs.org/dist/v20.18.3/node-v20.18.3-linux-x64.tar.gz"
    );
    assert_eq!(detect_platform("macos", "aarch64"), ("darwin", "arm64"));
    assert_eq!(detect_platform("freebsd", "riscv64"), ("linux", "x64"));
    let plan = plan_runtime("/data", 24, "darwin", "arm64");
    assert_eq!(plan.cache_dir, "/data/node/24.0.2");
    assert_eq!(plan.binary, "/data/node/24.0.2/bin/node");
}

#[test]
fn node_download_failures_are_named() {
    let plan = || plan_runtime("/data", 20, "linux", "x64");
    let url = plan().url;
    assert_eq!(ensure_node_runtime(plan(), None).ok(), Some("/data/node/20.18.3/bin/node".to_owned()));
    assert!(ensure_node_runtime(plan(), Some(Download::Extracted)).is_ok());
    let fail = |d| ensure_node_runtime(plan(), Some(d)).err().unwrap().message().to_owned();
    assert_eq!(fail(Download::Unsent("x".to_owned())), format!("fetch {url}: x"));
    assert_eq!(
        fail(Download::Refused { status: 404, body: "gone".to_owned() }),
        format!("node tarball {url} status 404 Not Found: gone")
    );
    assert_eq!(fail(Download::Unread("x".to_owned())), "read tarball body: x");
    assert_eq!(fail(Download::Unextracted("x".to_owned())), "extract node tarball: x");
}

fn tarball() -> Vec<u8> {
    let mut builder = tar::Builder::new(Vec::new());
    let mut add = |path: &str, kind: tar::EntryType, mode: u32, content: &[u8]| {
        let mut header = tar::Header::new_gnu();
        header.set_entry_type(kind);
        header.set_mode(mode);
        header.set_size(content.len() as u64);
        builder.append_data(&mut header, path, content).unwrap();
    };
    add("node-v1/", tar::EntryType::Directory, 0o755, b"");
    add("node-v1/bin/", tar::EntryType::Directory, 0o755, b"");
    add("node-v1/bin/node", tar::EntryType::Regular, 0o755, b"binary");
    let tar = builder.into_inner().unwrap();
    let mut gz = flate2::write::GzEncoder::new(Vec::new(), flate2::Compression::fast());
    gz.write_all(&tar).unwrap();
    gz.finish().unwrap()
}

#[test]
fn archives_are_extracted_without_their_top_directory() {
    let bytes = tarball();
    let (steps, fault) = extract_tarball(&bytes, "/data/node/1");
    assert_eq!(fault, None);
    assert_eq!(steps.len(), 2);
    assert!(matches!(&steps[0], ExtractStep::MakeDir { dir } if dir == "/data/node/1/bin"));
    assert!(matches!(
        &steps[1],
        ExtractStep::WriteFile { parent: Some(p), file, mode: Some(0o755), content }
            if p == "/data/node/1/bin" && file == "/data/node/1/bin/node" && content == b"binary"
    ));
    let (steps, fault) = extract_tarball(b"not gzip", "/d");
    assert!(steps.is_empty() && fault.is_some());
}

fn header(kind: tar::EntryType, size: u64, name: &[u8]) -> tar::Header {
    let mut header = tar::Header::new_ustar();
    header.set_entry_type(kind);
    header.set_mode(0o644);
    header.set_size(size);
    header.as_old_mut().name[..name.len()].copy_from_slice(name);
    header.set_cksum();
    header
}

fn gzip(tar: &[u8]) -> Vec<u8> {
    let mut gz = flate2::write::GzEncoder::new(Vec::new(), flate2::Compression::fast());
    gz.write_all(tar).unwrap();
    gz.finish().unwrap()
}

#[test]
fn archived_names_keep_their_bytes() {
    let mut builder = tar::Builder::new(Vec::new());
    let name = b"top/caf\xe9\xff";
    builder.append(&header(tar::EntryType::Regular, 1, name), &b"x"[..]).unwrap();
    let (steps, fault) = extract_tarball(&gzip(&builder.into_inner().unwrap()), "/d\u{e9}");
    assert_eq!((steps.len(), fault), (1, None));
    match &steps[0] {
        ExtractStep::WriteFile { parent, file, mode, content } => {
            assert_eq!(bytes_of_text(file), Some(b"/d\xc3\xa9/caf\xe9\xff".to_vec()));
            assert_eq!(parent.as_deref().and_then(bytes_of_text), Some(b"/d\xc3\xa9".to_vec()));
            assert_eq!((*mode, content.as_slice()), (Some(0o644), &b"x"[..]));
        }
        other => panic!("{other:?}"),
    }
}

#[test]
fn a_file_cut_short_is_written_as_far_as_it_was_read() {
    let content: Vec<u8> = (0..200_000u32).map(|i| (i * i >> 7) as u8).collect();
    let mut builder = tar::Builder::new(Vec::new());
    builder.append(&header(tar::EntryType::Regular, 200_000, b"top/f"), content.as_slice()).unwrap();
    builder.append(&header(tar::EntryType::Regular, 0, b"top/g"), &[][..]).unwrap();
    let tar = builder.into_inner().unwrap();
    let mut gz = flate2::write::GzEncoder::new(Vec::new(), flate2::Compression::none());
    gz.write_all(&tar).unwrap();
    let packed = gz.finish().unwrap();
    let (steps, fault) = extract_tarball(&packed, "/d");
    assert_eq!((steps.len(), fault), (2, None));
    // The compressed stream breaks off within the file.
    let (steps, fault) = extract_tarball(&packed[..150_000], "/d");
    assert!(fault.is_some());
    assert_eq!(steps.len(), 1);
    match &steps[0] {
        ExtractStep::WriteFile { parent, file, mode, content: got } => {
            assert_eq!((parent.as_deref(), file.as_str(), *mode), (Some("/d"), "/d/f", None));
            assert!(!got.is_empty() && got.len() < content.len() && content.starts_with(got));
        }
        other => panic!("{other:?}"),
    }
    // The archive inside ends early: what there is counts as the whole file.
    let (steps, fault) = extract_tarball(&gzip(&tar[..512 + 900]), "/d");
    assert!(fault.is_some());
    assert!(matches!(
        &steps[..],
        [ExtractStep::WriteFile { mode: Some(0o644), content: got, .. }] if got[..] == content[..900]
    ));
}

// reporting and the runner

#[test]
fn protocols_are_detected() {
    assert_eq!(detect_protocol_version(Some("https://run")), ProtocolVersion::V2);
    assert_eq!(detect_protocol_version(Some("")), ProtocolVersion::V1);
    assert_eq!(detect_protocol_version(None), ProtocolVersion::V1);
    assert!(ProtocolVersion::V1.is_v1() && !ProtocolVersion::V1.is_v2());
    assert!(ProtocolVersion::V2.is_v2() && !ProtocolVersion::V2.is_v1());
    assert_eq!(ProtocolVersion::V1.display(), "V1 (GHES Legacy)");
    assert_eq!(ProtocolVersion::V2.display(), "V2 (GitHub.com)");
    assert_eq!(BLOB_STORAGE_AZURE, "BLOB_STORAGE_TYPE_AZURE");
    let h = log_blob_headers(true);
    assert_eq!((h.content_type, h.content_encoding), ("application/gzip", Some("gzip")));
    let h = log_blob_headers(false);
    assert_eq!((h.content_type, h.content_encoding), ("text/plain", None));
}

#[test]
fn a_job_that_cannot_run_fails() {
    assert_eq!(EVENT_CAPACITY, 1024);
    let config = RunnerConfig {
        data_dir: "/d".to_owned(),
        workspace_root: "/w".to_owned(),
        cgroup_path: None,
    };
    let runner = Runner::new(config, 7);
    assert_eq!((runner.config().data_dir.as_str(), *runner.masker()), ("/d", 7));
    let fine: Result<(), ()> = Ok(());
    assert!(runner.execute_job(fine).is_none());
    let end = runner.execute_job(Err("x")).unwrap();
    assert_eq!((end.job_id.as_str(), end.conclusion), ("", Conclusion::Failure));
    assert!(end.outputs.is_empty());
}
