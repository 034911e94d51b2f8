//! Running `uses:` steps: resolving the action and its stages.

use vstd::prelude::*;

use crate::error::{RunnerError, RunnerErrorView};
use crate::execution::depth_tracker;
use crate::execution::depth_tracker::{DepthTracker, DepthView, MAX_COMPOSITE_DEPTH};
use crate::strmap::StringMap;
use crate::text;
use crate::types::Conclusion;

verus! {

/// A `uses:` reference in full: the name, else the image, with the git
/// reference behind an `@` when there is one.
pub open spec fn full_reference(
    name: Option<Seq<char>>,
    image: Option<Seq<char>>,
    git_ref: Option<Seq<char>>,
) -> Seq<char> {
    let uses = match name {
        Some(n) => n,
        None => match image {
            Some(i) => i,
            None => Seq::empty(),
        },
    };
    match git_ref {
        Some(g) => if g.len() == 0 {
            uses
        } else {
            uses + "@"@ + g
        },
        None => uses,
    }
}

/// A `uses:` reference in full.
pub fn uses_reference(name: Option<&str>, image: Option<&str>, git_ref: Option<&str>) -> (r: String)
    ensures
        r@ == full_reference(text::str_opt(name), text::str_opt(image), text::str_opt(git_ref)),
{
    let uses: String = match name {
        Some(n) => n.to_owned(),
        None => match image {
            Some(i) => i.to_owned(),
            None => {
                let none = String::new();
                assert(none@ =~= Seq::<char>::empty());
                none
            },
        },
    };
    match git_ref {
        Some(g) => if g.is_empty() {
            uses
        } else {
            text::cat3(uses.as_str(), "@", g)
        },
        None => uses,
    }
}

/// Where an action lives.
#[derive(Debug, Clone, Copy, PartialEq, Eq, Structural)]
pub enum ActionRefKind {
    /// In the checked-out repository.
    Local,
    /// In another repository.
    Remote,
}

/// How an action gets onto this machine.
#[derive(Debug)]
pub enum Resolution {
    /// It is in this directory of the workspace.
    InPlace { dir: String },
    /// It is in the cache.
    Cached,
    /// It is to be downloaded, and the line logged.
    Download { line: String },
}

/// How long a download may take, in seconds.
pub const CLIENT_TIMEOUT_SECS: u64 = 120;

/// Where action archives are downloaded from.
pub const ACTION_API: &'static str = "https://api.github.com";

/// The failure of setting up the download client.
pub fn client_error(cause: &str) -> (r: RunnerError)
    ensures
        r@ == RunnerErrorView::ActionResolution("build HTTP client: "@ + cause@),
{
    RunnerError::ActionResolution(text::cat2("build HTTP client: ", cause))
}

/// Decides how an action gets onto this machine. A local action needs no
/// network; a remote one is downloaded unless it is cached.
pub fn resolve_action(
    kind: ActionRefKind,
    uses_full: &str,
    local_dir: Option<String>,
    cached: bool,
) -> (r: Result<Resolution, RunnerError>)
    ensures
        match kind {
            ActionRefKind::Local => match local_dir {
                Some(d) => r matches Ok(Resolution::InPlace { dir }) && dir == d,
                None => r matches Err(e) && e@ == RunnerErrorView::ActionResolution(
                    "invalid local action ref '"@ + uses_full@ + "'"@,
                ),
            },
            ActionRefKind::Remote => if cached {
                r == Ok::<Resolution, RunnerError>(Resolution::Cached)
            } else {
                r matches Ok(Resolution::Download { line }) && line@ == "Downloading "@ + uses_full@
                    + "..."@
            },
        },
{
    match kind {
        ActionRefKind::Local => match local_dir {
            Some(dir) => Ok(Resolution::InPlace { dir }),
            None => Err(
                RunnerError::ActionResolution(
                    text::cat3("invalid local action ref '", uses_full, "'"),
                ),
            ),
        },
        ActionRefKind::Remote => if cached {
            Ok(Resolution::Cached)
        } else {
            Ok(Resolution::Download { line: text::cat3("Downloading ", uses_full, "...") })
        },
    }
}

/// What an action runs on.
#[derive(Debug, Clone, Copy, PartialEq, Eq, Structural)]
pub enum RunsUsing {
    Node { major: u8 },
    Composite,
    Docker,
}

/// A post step to run when the job ends; `S` is the step, `M` the action's
/// manifest.
#[derive(Debug)]
pub struct PostStep<S, M> {
    pub step: S,
    pub action_name: String,
    pub action_dir: String,
    pub manifest: M,
    pub major: u8,
    pub condition: Option<String>,
}

/// How an action's `pre` and `main` stages came out. `P` is its post step.
pub struct ActionOutcome<P> {
    pub conclusion: Conclusion,
    /// The post step to run when the job ends.
    pub post: Option<P>,
    /// What the `main` stage set as outputs.
    pub outputs: StringMap<String>,
}

/// What running an action does next.
#[derive(Debug)]
pub enum ActionStep {
    /// Evaluate the condition of the `pre` stage.
    EvaluatePre { condition: String },
    /// Log the line and run the `pre` stage.
    RunPre { line: String },
    /// Run the `main` stage.
    RunMain,
    /// Log the line and run the steps of a composite action. The level that
    /// was entered is left again however that ends.
    RunComposite { line: String },
    /// Run the container of a Docker action to its end.
    RunContainer,
}

/// The condition of a `pre` stage: the one given, else always.
pub open spec fn pre_condition(pre_if: Option<Seq<char>>) -> Seq<char> {
    match pre_if {
        Some(c) => c,
        None => "always()"@,
    }
}

/// The depth after a composite action was started: one level deeper, unless
/// it was refused.
pub open spec fn started_depth(d: DepthView) -> DepthView {
    if depth_tracker::has_room(d) {
        depth_tracker::entered(d)
    } else {
        d
    }
}

/// Starts an action. A composite action enters a nesting level; one that
/// lies too deep fails and leaves the nesting as it was.
pub fn dispatch_action(
    using: RunsUsing,
    has_pre: bool,
    pre_if: Option<&str>,
    depth: &mut DepthTracker,
) -> (r: Result<ActionStep, RunnerError>)
    requires
        using == RunsUsing::Composite ==> old(depth)@.current < u32::MAX,
    ensures
        match using {
            RunsUsing::Node { .. } => final(depth)@ == old(depth)@ && if has_pre {
                r matches Ok(ActionStep::EvaluatePre { condition }) && condition@ == pre_condition(
                    text::str_opt(pre_if),
                )
            } else {
                r matches Ok(ActionStep::RunMain)
            },
            RunsUsing::Composite => {
                &&& final(depth)@ == started_depth(old(depth)@)
                &&& old(depth)@.max == MAX_COMPOSITE_DEPTH
                &&& match r {
                    Ok(step) => {
                        &&& depth_tracker::has_room(old(depth)@)
                        &&& step matches ActionStep::RunComposite { line } && line@
                            == "##[endgroup]"@
                    },
                    Err(e) => !depth_tracker::has_room(old(depth)@) && e@
                        == depth_tracker::too_deep(old(depth)@.max),
                }
            },
            RunsUsing::Docker => final(depth)@ == old(depth)@ && (r matches Ok(
                ActionStep::RunContainer,
            )),
        },
{
    match using {
        RunsUsing::Node { .. } => if has_pre {
            let condition: String = match pre_if {
                Some(c) => c.to_owned(),
                None => "always()".to_owned(),
            };
            Ok(ActionStep::EvaluatePre { condition })
        } else {
            Ok(ActionStep::RunMain)
        },
        RunsUsing::Composite => match depth.enter() {
            Ok(_) => Ok(ActionStep::RunComposite { line: "##[endgroup]".to_owned() }),
            Err(e) => {
                depth.exit();
                Err(e)
            },
        },
        RunsUsing::Docker => Ok(ActionStep::RunContainer),
    }
}

/// What follows the evaluation of a `pre` stage's condition.
pub fn run_node_pre_if_present(verdict: Result<bool, RunnerError>) -> (r: Result<
    ActionStep,
    RunnerError,
>)
    ensures
        match verdict {
            Ok(true) => r matches Ok(ActionStep::RunPre { line }) && line@ == "##[group]Pre Run"@,
            Ok(false) => r matches Ok(ActionStep::RunMain),
            Err(e) => r == Err::<ActionStep, RunnerError>(e),
        },
{
    match verdict {
        Ok(holds) => if holds {
            Ok(ActionStep::RunPre { line: "##[group]Pre Run".to_owned() })
        } else {
            Ok(ActionStep::RunMain)
        },
        Err(e) => Err(e),
    }
}

/// What follows a `pre` stage. Its conclusion and its outputs do not count;
/// only a stage that could not be run ends the action.
pub fn pre_done(result: Result<(Conclusion, StringMap<String>), RunnerError>) -> (r: Result<
    ActionStep,
    RunnerError,
>)
    ensures
        match result {
            Ok(_) => r matches Ok(ActionStep::RunMain),
            Err(e) => r == Err::<ActionStep, RunnerError>(e),
        },
{
    match result {
        Ok(_) => Ok(ActionStep::RunMain),
        Err(e) => Err(e),
    }
}

/// The post step of an action that defines one.
pub fn build_post_step<S, M>(
    has_post: bool,
    step: S,
    action_name: String,
    action_dir: String,
    manifest: M,
    major: u8,
    condition: Option<String>,
) -> (r: Option<PostStep<S, M>>)
    ensures
        match r {
            Some(p) => has_post && p == (PostStep {
                step,
                action_name,
                action_dir,
                manifest,
                major,
                condition,
            }),
            None => !has_post,
        },
{
    if has_post {
        Some(PostStep { step, action_name, action_dir, manifest, major, condition })
    } else {
        None
    }
}

/// The outcome of a Node action, from its `main` stage.
pub fn run_node_action<P>(
    main: Result<(Conclusion, StringMap<String>), RunnerError>,
    post: Option<P>,
) -> (r: Result<ActionOutcome<P>, RunnerError>)
    ensures
        match main {
            Ok((conclusion, outputs)) => r == Ok::<ActionOutcome<P>, RunnerError>(
                ActionOutcome { conclusion, post, outputs },
            ),
            Err(e) => r == Err::<ActionOutcome<P>, RunnerError>(e),
        },
{
    match main {
        Ok((conclusion, outputs)) => Ok(ActionOutcome { conclusion, post, outputs }),
        Err(e) => Err(e),
    }
}

/// What the steps of a composite action came to.
pub struct CompositeResult {
    pub conclusion: Conclusion,
    pub env_additions: Vec<(String, String)>,
    pub path_additions: Vec<String>,
}

/// A change to the job's context.
#[derive(Debug)]
pub enum ContextChange {
    SetEnv { name: String, value: String },
    PrependPath { dir: String },
}

/// A change to the job's context, as texts.
pub enum ContextChangeView {
    SetEnv { name: Seq<char>, value: Seq<char> },
    PrependPath { dir: Seq<char> },
}

impl View for ContextChange {
    type V = ContextChangeView;

    open spec fn view(&self) -> ContextChangeView {
        match self {
            ContextChange::SetEnv { name, value } => ContextChangeView::SetEnv {
                name: name@,
                value: value@,
            },
            ContextChange::PrependPath { dir } => ContextChangeView::PrependPath { dir: dir@ },
        }
    }
}

/// The changes, as texts.
pub open spec fn change_views(changes: Seq<ContextChange>) -> Seq<ContextChangeView> {
    changes.map_values(|c: ContextChange| c@)
}

/// The changes that a composite action makes to its parent: its variables in
/// turn, then its path entries in turn.
pub open spec fn changes_of(env: Seq<(String, String)>, paths: Seq<String>) -> Seq<
    ContextChangeView,
> {
    env.map_values(
        |e: (String, String)| ContextChangeView::SetEnv { name: e.0@, value: e.1@ },
    ) + paths.map_values(|p: String| ContextChangeView::PrependPath { dir: p@ })
}

fn context_changes(env: &Vec<(String, String)>, paths: &Vec<String>) -> (r: Vec<ContextChange>)
    ensures
        change_views(r@) == changes_of(env@, paths@),
{
    let ghost all = changes_of(env@, paths@);
    let mut out: Vec<ContextChange> = Vec::new();
    let mut i: usize = 0;
    assert(change_views(out@) =~= all.take(0));
    while i < env.len()
        invariant
            i <= env@.len(),
            all == changes_of(env@, paths@),
            change_views(out@) == all.take(i as int),
        decreases env@.len() - i,
    {
        let ghost before = change_views(out@);
        let change = ContextChange::SetEnv { name: env[i].0.clone(), value: env[i].1.clone() };
        assert(change@ == all[i as int]);
        out.push(change);
        assert(change_views(out@) =~= before.push(change@));
        assert(all.take(i + 1) =~= all.take(i as int).push(all[i as int]));
        i = i + 1;
    }
    let mut j: usize = 0;
    while j < paths.len()
        invariant
            j <= paths@.len(),
            all == changes_of(env@, paths@),
            change_views(out@) == all.take(env@.len() + j),
        decreases paths@.len() - j,
    {
        let ghost before = change_views(out@);
        let ghost at: int = env@.len() + j;
        let change = ContextChange::PrependPath { dir: paths[j].clone() };
        assert(change@ == all[at]);
        out.push(change);
        assert(change_views(out@) =~= before.push(change@));
        assert(all.take(at + 1) =~= all.take(at).push(all[at]));
        j = j + 1;
    }
    assert(all.take(all.len() as int) =~= all);
    out
}

/// The outcome of a composite action, which has neither post step nor
/// outputs, and the changes to make to its parent's context. The nesting
/// level is left, even when the action failed.
pub fn run_composite_action<P>(
    result: Result<CompositeResult, RunnerError>,
    depth: &mut DepthTracker,
) -> (r: Result<(ActionOutcome<P>, Vec<ContextChange>), RunnerError>)
    ensures
        final(depth)@ == depth_tracker::left(old(depth)@),
        match result {
            Ok(c) => r matches Ok((outcome, changes)) && outcome.conclusion == c.conclusion
                && outcome.post is None && outcome.outputs@.len() == 0 && change_views(changes@)
                == changes_of(c.env_additions@, c.path_additions@),
            Err(e) => r matches Err(f) && f == e,
        },
{
    depth.exit();
    match result {
        Ok(c) => {
            let changes = context_changes(&c.env_additions, &c.path_additions);
            Ok(
                (
                    ActionOutcome {
                        conclusion: c.conclusion,
                        post: None,
                        outputs: StringMap::new(),
                    },
                    changes,
                ),
            )
        },
        Err(e) => Err(e),
    }
}

/// The outcome of a Docker action, from how its container exited: it
/// succeeds on zero and fails on anything else. It has neither post step nor
/// outputs.
pub fn run_docker_action<P>(exit: Result<i64, RunnerError>) -> (r: Result<
    ActionOutcome<P>,
    RunnerError,
>)
    ensures
        match exit {
            Ok(code) => r matches Ok(outcome) && outcome.conclusion == (if code == 0 {
                Conclusion::Success
            } else {
                Conclusion::Failure
            }) && outcome.post is None && outcome.outputs@.len() == 0,
            Err(e) => r matches Err(f) && f == e,
        },
{
    match exit {
        Ok(code) => {
            let conclusion: Conclusion = if code == 0 {
                Conclusion::Success
            } else {
                Conclusion::Failure
            };
            Ok(ActionOutcome { conclusion, post: None, outputs: StringMap::new() })
        },
        Err(e) => Err(e),
    }
}

/// A composite action leaves the nesting as it found it: one that runs,
/// whether its steps succeed or fail, and one that is refused.
pub proof fn law_composite_keeps_depth(d: DepthView)
    ensures
        depth_tracker::has_room(d) ==> depth_tracker::left(started_depth(d)) == d,
        !depth_tracker::has_room(d) ==> started_depth(d) == d,
{
}

/// A reference is the name, or the image without a name, and its git
/// reference behind an `@` when there is one that is not empty.
pub proof fn law_reference_has_its_git_ref(
    name: Option<&str>,
    image: Option<&str>,
    git_ref: Option<&str>,
    r: String,
)
    requires
        call_ensures(uses_reference, (name, image, git_ref), r),
    ensures
        ({
            let named = git_ref is Some && git_ref->0@.len() > 0;
            &&& name is Some && named ==> r@ == name->0@ + "@"@ + git_ref->0@
            &&& name is Some && !named ==> r@ == name->0@
            &&& name is None && image is Some && named ==> r@ == image->0@ + "@"@ + git_ref->0@
            &&& name is None && image is Some && !named ==> r@ == image->0@
        }),
{
}

/// A local action is used in its place, whatever is cached, and must have
/// one; a remote one is downloaded exactly when it is not cached.
pub proof fn law_remote_action_is_downloaded_once(
    kind: ActionRefKind,
    uses_full: &str,
    local_dir: Option<String>,
    cached: bool,
    r: Result<Resolution, RunnerError>,
)
    requires
        call_ensures(resolve_action, (kind, uses_full, local_dir, cached), r),
    ensures
        r is Err <==> kind == ActionRefKind::Local && local_dir is None,
        kind == ActionRefKind::Local && local_dir is Some ==> (r matches Ok(Resolution::InPlace { dir })
            && dir@ == local_dir->0@),
        kind == ActionRefKind::Remote && cached ==> r matches Ok(Resolution::Cached),
        kind == ActionRefKind::Remote && !cached ==> (r matches Ok(Resolution::Download { line })
            && line@ == "Downloading "@ + uses_full@ + "..."@),
{
}

/// A `pre` stage runs exactly when its condition holds; its own conclusion
/// does not keep the `main` stage from running, but a failure to run it does.
pub proof fn law_main_follows_pre(
    verdict: Result<bool, RunnerError>,
    result: Result<(Conclusion, StringMap<String>), RunnerError>,
    first: Result<ActionStep, RunnerError>,
    second: Result<ActionStep, RunnerError>,
)
    requires
        call_ensures(run_node_pre_if_present, (verdict,), first),
        call_ensures(pre_done, (result,), second),
    ensures
        (first matches Ok(ActionStep::RunPre { .. })) <==> verdict == Ok::<bool, RunnerError>(true),
        (first matches Ok(ActionStep::RunMain)) <==> verdict == Ok::<bool, RunnerError>(false),
        verdict matches Err(e) ==> (first matches Err(f) && f@ == e@),
        (second matches Ok(ActionStep::RunMain)) <==> result is Ok,
        result matches Err(e) ==> (second matches Err(f) && f@ == e@),
{
}

/// A `pre` stage has the condition given to it, and always runs without one.
pub proof fn law_pre_runs_always_by_default(condition: Seq<char>)
    ensures
        pre_condition(Some(condition)) == condition,
        pre_condition(None) == "always()"@,
{
}

/// An action has a post step exactly when it defines one, with everything the
/// post step needs.
pub proof fn law_post_step_is_kept<S, M>(
    has_post: bool,
    step: S,
    action_name: String,
    action_dir: String,
    manifest: M,
    major: u8,
    condition: Option<String>,
    r: Option<PostStep<S, M>>,
)
    requires
        call_ensures(
            build_post_step::<S, M>,
            (has_post, step, action_name, action_dir, manifest, major, condition),
            r,
        ),
    ensures
        r is Some <==> has_post,
        r matches Some(p) ==> p.step == step && p.action_name@ == action_name@ && p.action_dir@
            == action_dir@ && p.manifest == manifest && p.major == major && p.condition == condition,
{
}

/// A Node action concludes as its `main` stage did, with its outputs and its
/// post step.
pub proof fn law_node_action_is_its_main_stage<P>(
    main: Result<(Conclusion, StringMap<String>), RunnerError>,
    post: Option<P>,
    r: Result<ActionOutcome<P>, RunnerError>,
)
    requires
        call_ensures(run_node_action::<P>, (main, post), r),
    ensures
        r is Ok <==> main is Ok,
        r matches Ok(outcome) ==> (main matches Ok((conclusion, outputs)) && outcome.conclusion
            == conclusion && outcome.outputs@ == outputs@ && outcome.post == post),
        main matches Err(e) ==> (r matches Err(f) && f@ == e@),
{
}

/// A composite action's variables are set in turn, and its path entries are
/// put in front in turn, after the variables.
pub proof fn law_composite_changes_in_turn(
    env: Seq<(String, String)>,
    paths: Seq<String>,
    i: int,
)
    ensures
        changes_of(env, paths).len() == env.len() + paths.len(),
        0 <= i < env.len() ==> changes_of(env, paths)[i] == (ContextChangeView::SetEnv {
            name: env[i].0@,
            value: env[i].1@,
        }),
        0 <= i < paths.len() ==> changes_of(env, paths)[env.len() + i] == (
        ContextChangeView::PrependPath { dir: paths[i]@ }),
{
}

/// A Docker action succeeds exactly when its container exits with zero.
pub proof fn law_container_exit_decides<P>(
    exit: Result<i64, RunnerError>,
    r: Result<ActionOutcome<P>, RunnerError>,
)
    requires
        call_ensures(run_docker_action::<P>, (exit,), r),
    ensures
        r is Ok <==> exit is Ok,
        r matches Ok(outcome) ==> (outcome.conclusion == Conclusion::Success <==> exit == Ok::<
            i64,
            RunnerError,
        >(0)),
        r matches Ok(outcome) ==> (outcome.conclusion == Conclusion::Failure <==> exit != Ok::<
            i64,
            RunnerError,
        >(0)),
        r matches Ok(outcome) ==> outcome.post is None && outcome.outputs@.len() == 0,
        exit matches Err(e) ==> (r matches Err(f) && f@ == e@),
{
}

/// A Node action evaluates the condition of its `pre` stage when it has one
/// and runs `main` otherwise; a Docker action runs its container; a composite
/// action goes one level deeper, and is refused exactly when there is no room.
pub proof fn law_action_starts_by_kind(
    using: RunsUsing,
    has_pre: bool,
    pre_if: Option<&str>,
    depth: &mut DepthTracker,
    r: Result<ActionStep, RunnerError>,
)
    requires
        call_ensures(dispatch_action, (using, has_pre, pre_if, depth), r),
    ensures
        using is Node && has_pre ==> (r matches Ok(ActionStep::EvaluatePre { condition }) && (
        pre_if matches Some(c) ==> condition@ == c@) && (pre_if is None ==> condition@
            == "always()"@)),
        using is Node && !has_pre ==> r matches Ok(ActionStep::RunMain),
        using is Docker ==> r matches Ok(ActionStep::RunContainer),
        !(using is Composite) ==> final(depth)@ == old(depth)@,
        using is Composite ==> (r is Ok <==> old(depth)@.current < 10),
        using is Composite && r is Ok ==> (r matches Ok(ActionStep::RunComposite { .. })) && final(depth)@.current == old(depth)@.current + 1,
        using is Composite && r is Err ==> final(depth)@ == old(depth)@,
{
}

/// A composite action concludes as its steps did and hands its changes on;
/// its level is left whether they succeeded or failed.
pub proof fn law_composite_concludes_as_its_steps<P>(
    result: Result<CompositeResult, RunnerError>,
    depth: &mut DepthTracker,
    r: Result<(ActionOutcome<P>, Vec<ContextChange>), RunnerError>,
)
    requires
        call_ensures(run_composite_action::<P>, (result, depth), r),
    ensures
        r is Ok <==> result is Ok,
        r matches Ok((outcome, changes)) ==> (result matches Ok(c) && outcome.conclusion
            == c.conclusion && outcome.post is None && changes@.len() == c.env_additions@.len()
            + c.path_additions@.len()),
        result matches Err(e) ==> (r matches Err(f) && f@ == e@),
        old(depth)@.current > 0 ==> final(depth)@.current == old(depth)@.current - 1,
{
    match (result, r) {
        (Ok(c), Ok((outcome, changes))) => {
            assert(change_views(changes@).len() == changes@.len());
        },
        _ => {},
    }
}

} // verus!
