//! What a job is made of above its steps: its outputs and the fallbacks of
//! its `run:` steps.

use vstd::prelude::*;

use crate::error::RunnerError;
use crate::execution::workflow::types::WorkflowDefaults;
use crate::strmap;
use crate::strmap::StringMap;
use crate::text;

verus! {

/// The shell and working directory of `run:` steps that state none.
#[derive(Debug, Clone)]
pub struct RunDefaultsResolved {
    /// Fallback shell name.
    pub shell: Option<String>,
    /// Fallback working directory.
    pub working_directory: Option<String>,
}

/// What stays the same while a job's steps run.
#[derive(Debug, Clone)]
pub struct JobSpec {
    /// The job's outputs: an expression for each name.
    pub outputs: StringMap<String>,
    /// The fallbacks of its `run:` steps.
    pub defaults: RunDefaultsResolved,
}

impl Default for RunDefaultsResolved {
    fn default() -> (r: RunDefaultsResolved)
        ensures
            r.shell is None,
            r.working_directory is None,
    {
        RunDefaultsResolved { shell: None, working_directory: None }
    }
}

impl Default for JobSpec {
    fn default() -> (r: JobSpec)
        ensures
            r.outputs@.len() == 0,
            r.defaults.shell is None,
            r.defaults.working_directory is None,
    {
        JobSpec {
            outputs: StringMap::new(),
            defaults: RunDefaultsResolved { shell: None, working_directory: None },
        }
    }
}

/// The shell that a `defaults` section states.
pub open spec fn stated_shell(d: Option<&WorkflowDefaults>) -> Option<Seq<char>> {
    match d {
        Some(w) => match w.run {
            Some(r) => text::text_opt(r.shell),
            None => None,
        },
        None => None,
    }
}

/// The working directory that a `defaults` section states.
pub open spec fn stated_directory(d: Option<&WorkflowDefaults>) -> Option<Seq<char>> {
    match d {
        Some(w) => match w.run {
            Some(r) => text::text_opt(r.working_directory),
            None => None,
        },
        None => None,
    }
}

/// The first text, if there is one, else the second.
pub open spec fn first_of(a: Option<Seq<char>>, b: Option<Seq<char>>) -> Option<Seq<char>> {
    match a {
        Some(_) => a,
        None => b,
    }
}

fn run_shell(d: Option<&WorkflowDefaults>) -> (r: Option<String>)
    ensures
        text::text_opt(r) == stated_shell(d),
{
    match d {
        Some(w) => match &w.run {
            Some(r) => text::copy_opt(&r.shell),
            None => None,
        },
        None => None,
    }
}

fn run_wd(d: Option<&WorkflowDefaults>) -> (r: Option<String>)
    ensures
        text::text_opt(r) == stated_directory(d),
{
    match d {
        Some(w) => match &w.run {
            Some(r) => text::copy_opt(&r.working_directory),
            None => None,
        },
        None => None,
    }
}

fn pick(job: Option<String>, workflow: Option<String>) -> (r: Option<String>)
    ensures
        text::text_opt(r) == first_of(text::text_opt(job), text::text_opt(workflow)),
{
    match job {
        Some(v) => Some(v),
        None => workflow,
    }
}

/// Merges the `defaults` of a workflow and of a job. Each value of the job
/// wins over that of the workflow.
pub fn merge_run_defaults(
    workflow: Option<&WorkflowDefaults>,
    job: Option<&WorkflowDefaults>,
) -> (r: RunDefaultsResolved)
    ensures
        text::text_opt(r.shell) == first_of(stated_shell(job), stated_shell(workflow)),
        text::text_opt(r.working_directory) == first_of(
            stated_directory(job),
            stated_directory(workflow),
        ),
{
    RunDefaultsResolved {
        shell: pick(run_shell(job), run_shell(workflow)),
        working_directory: pick(run_wd(job), run_wd(workflow)),
    }
}

impl JobSpec {
    /// The specification of a job, from its outputs and the `defaults` of
    /// its workflow and its own.
    pub fn from_workflow(
        outputs: StringMap<String>,
        workflow_defaults: Option<&WorkflowDefaults>,
        job_defaults: Option<&WorkflowDefaults>,
    ) -> (r: JobSpec)
        ensures
            r.outputs == outputs,
            text::text_opt(r.defaults.shell) == first_of(
                stated_shell(job_defaults),
                stated_shell(workflow_defaults),
            ),
            text::text_opt(r.defaults.working_directory) == first_of(
                stated_directory(job_defaults),
                stated_directory(workflow_defaults),
            ),
    {
        JobSpec { outputs, defaults: merge_run_defaults(workflow_defaults, job_defaults) }
    }
}

/// Whether the values are what `interpolate` gives for the expressions, and
/// the map holds each under its name.
pub open spec fn interpolated<F>(
    exprs: Seq<(Seq<char>, String)>,
    f: F,
    values: Seq<String>,
    resolved: Seq<(Seq<char>, String)>,
) -> bool where F: Fn(&String) -> Result<String, RunnerError> {
    &&& values.len() == exprs.len()
    &&& forall|i: int|
        0 <= i < exprs.len() ==> call_ensures(
            f,
            (&(#[trigger] exprs[i]).1,),
            Ok::<String, RunnerError>(values[i]),
        )
    &&& resolved == named(exprs, values)
}

/// The map that holds each value under the name at its place.
pub open spec fn named(exprs: Seq<(Seq<char>, String)>, values: Seq<String>) -> Seq<
    (Seq<char>, String),
>
    decreases values.len(),
{
    if values.len() == 0 {
        Seq::empty()
    } else {
        strmap::stored(
            named(exprs, values.drop_last()),
            exprs[values.len() - 1].0,
            values.last(),
        )
    }
}

/// Whether every expression evaluates, and the map holds the values.
pub open spec fn outputs_resolve<F>(
    exprs: Seq<(Seq<char>, String)>,
    f: F,
    resolved: Seq<(Seq<char>, String)>,
) -> bool where F: Fn(&String) -> Result<String, RunnerError> {
    exists|values: Seq<String>| #[trigger] interpolated(exprs, f, values, resolved)
}

/// Whether some expression fails with the error, and all before it evaluate.
pub open spec fn outputs_fail<F>(exprs: Seq<(Seq<char>, String)>, f: F, e: RunnerError) -> bool where
    F: Fn(&String) -> Result<String, RunnerError>,
 {
    exists|n: int, resolved: Seq<(Seq<char>, String)>|
        0 <= n < exprs.len() && #[trigger] outputs_resolve(exprs.take(n), f, resolved)
            && call_ensures(f, (&exprs[n].1,), Err::<String, RunnerError>(e))
}

/// Evaluates a job's outputs in turn, and fails as the first expression that
/// does not evaluate. `interpolate` fills the expressions of a text in.
pub fn evaluate_job_outputs<F>(spec: &JobSpec, interpolate: F) -> (r: Result<
    StringMap<String>,
    RunnerError,
>) where F: Fn(&String) -> Result<String, RunnerError>
    requires
        forall|s: &String| call_requires(interpolate, (s,)),
    ensures
        match r {
            Ok(m) => outputs_resolve(spec.outputs@, interpolate, m@),
            Err(e) => outputs_fail(spec.outputs@, interpolate, e),
        },
{
    let ghost all = spec.outputs@;
    let ghost mut values: Seq<String> = Seq::empty();
    let mut resolved: StringMap<String> = StringMap::new();
    let n: usize = spec.outputs.len();
    let mut i: usize = 0;
    while i < n
        invariant
            i <= n,
            n == all.len(),
            all == spec.outputs@,
            forall|s: &String| call_requires(interpolate, (s,)),
            interpolated(all.take(i as int), interpolate, values, resolved@),
        decreases n - i,
    {
        let name: String = spec.outputs.key_at(i).to_owned();
        let expr: &String = spec.outputs.value_at(i);
        let ghost done = all.take(i as int);
        let ghost now = all.take(i + 1);
        match interpolate(expr) {
            Ok(value) => {
                proof {
                    let before = values;
                    values = before.push(value);
                    assert(values.drop_last() =~= before);
                    lemma_named_prefix(done, now, before);
                    assert forall|k: int| 0 <= k < now.len() implies call_ensures(
                        interpolate,
                        (&(#[trigger] now[k]).1,),
                        Ok::<String, RunnerError>(values[k]),
                    ) by {
                        if k < i {
                            assert(now[k] == done[k]);
                        }
                    }
                    assert(now[i as int].0 == name@);
                }
                resolved.insert(name, value);
            },
            Err(e) => {
                assert(outputs_resolve(all.take(i as int), interpolate, resolved@));
                return Err(e);
            },
        }
        i = i + 1;
    }
    assert(all.take(all.len() as int) =~= all);
    assert(interpolated(spec.outputs@, interpolate, values, resolved@));
    Ok(resolved)
}

proof fn lemma_named_prefix(a: Seq<(Seq<char>, String)>, b: Seq<(Seq<char>, String)>, values: Seq<
    String,
>)
    requires
        values.len() <= a.len(),
        values.len() <= b.len(),
        forall|k: int| 0 <= k < values.len() ==> a[k] == b[k],
    ensures
        named(a, values) == named(b, values),
    decreases values.len(),
{
    if values.len() > 0 {
        lemma_named_prefix(a, b, values.drop_last());
        assert(a[values.len() - 1] == b[values.len() - 1]);
    }
}

/// What a step without a value of its own falls back to: the job's, else the
/// workflow's.
pub proof fn law_nearest_default_wins(
    workflow: Option<&WorkflowDefaults>,
    job: Option<&WorkflowDefaults>,
)
    ensures
        stated_shell(job) is Some ==> first_of(stated_shell(job), stated_shell(workflow))
            == stated_shell(job),
        stated_shell(job) is None ==> first_of(stated_shell(job), stated_shell(workflow))
            == stated_shell(workflow),
        stated_directory(job) is Some ==> first_of(
            stated_directory(job),
            stated_directory(workflow),
        ) == stated_directory(job),
        stated_directory(job) is None ==> first_of(
            stated_directory(job),
            stated_directory(workflow),
        ) == stated_directory(workflow),
{
}

/// A job's own default wins over its workflow's, for the shell and for the
/// working directory each on its own; what neither states is not set.
pub proof fn law_job_default_wins(
    workflow: crate::execution::workflow::types::RunDefaults,
    job: crate::execution::workflow::types::RunDefaults,
    r: RunDefaultsResolved,
)
    requires
        call_ensures(
            merge_run_defaults,
            (
                Some(&WorkflowDefaults { run: Some(workflow) }),
                Some(&WorkflowDefaults { run: Some(job) }),
            ),
            r,
        ),
    ensures
        job.shell matches Some(s) ==> (r.shell matches Some(x) && x@ == s@),
        job.shell is None ==> (workflow.shell matches Some(s) ==> (r.shell matches Some(x) && x@
            == s@)),
        job.shell is None && workflow.shell is None ==> r.shell is None,
        job.working_directory matches Some(d) ==> (r.working_directory matches Some(x) && x@ == d@),
        job.working_directory is None ==> (workflow.working_directory matches Some(d) ==> (
        r.working_directory matches Some(x) && x@ == d@)),
        job.working_directory is None && workflow.working_directory is None
            ==> r.working_directory is None,
{
}

/// The specification of a job has the job's outputs and the same fallbacks.
pub proof fn law_job_spec_has_outputs_and_fallbacks(
    outputs: StringMap<String>,
    workflow: Option<&WorkflowDefaults>,
    job: Option<&WorkflowDefaults>,
    r: JobSpec,
    merged: RunDefaultsResolved,
)
    requires
        call_ensures(JobSpec::from_workflow, (outputs, workflow, job), r),
        call_ensures(merge_run_defaults, (workflow, job), merged),
    ensures
        r.outputs@ == outputs@,
        text::text_opt(r.defaults.shell) == text::text_opt(merged.shell),
        text::text_opt(r.defaults.working_directory) == text::text_opt(merged.working_directory),
        workflow is None && job is None ==> merged.shell is None && merged.working_directory is None,
{
}

/// Each output of a job is what its own expression evaluates to; when one
/// does not evaluate, the job's outputs fail as it does.
pub proof fn law_outputs_are_what_they_evaluate_to<F>(
    spec: JobSpec,
    interpolate: F,
    r: Result<StringMap<String>, RunnerError>,
    i: int,
) where F: Fn(&String) -> Result<String, RunnerError>
    requires
        call_ensures(evaluate_job_outputs::<F>, (&spec, interpolate), r),
        strmap::keys_distinct(spec.outputs@),
        0 <= i < spec.outputs@.len(),
    ensures
        r matches Ok(m) ==> (strmap::lookup(m@, spec.outputs@[i].0) matches Some(v)
            && call_ensures(interpolate, (&spec.outputs@[i].1,), Ok::<String, RunnerError>(v))),
        r matches Err(e) ==> exists|k: int|
            0 <= k < spec.outputs@.len() && call_ensures(
                interpolate,
                (&(#[trigger] spec.outputs@[k]).1,),
                Err::<String, RunnerError>(e),
            ),
{
    let exprs = spec.outputs@;
    match r {
        Ok(m) => {
            let values = choose|values: Seq<String>| #[trigger]
                interpolated(exprs, interpolate, values, m@);
            lemma_named_values(exprs, values, i);
        },
        Err(e) => {
            let (n, resolved) = choose|n: int, resolved: Seq<(Seq<char>, String)>|
                0 <= n < exprs.len() && #[trigger] outputs_resolve(
                    exprs.take(n),
                    interpolate,
                    resolved,
                ) && call_ensures(interpolate, (&exprs[n].1,), Err::<String, RunnerError>(e));
            assert(call_ensures(interpolate, (&exprs[n].1,), Err::<String, RunnerError>(e)));
        },
    }
}

proof fn lemma_named_values(exprs: Seq<(Seq<char>, String)>, values: Seq<String>, i: int)
    requires
        strmap::keys_distinct(exprs),
        0 <= i < values.len() <= exprs.len(),
    ensures
        strmap::lookup(named(exprs, values), exprs[i].0) == Some(values[i]),
    decreases values.len(),
{
    let n = values.len() - 1;
    let before = named(exprs, values.drop_last());
    if i < n {
        lemma_named_values(exprs, values.drop_last(), i);
        assert(exprs[i].0 != exprs[n].0);
        strmap::law_read_after_write(before, exprs[n].0, values.last(), exprs[i].0);
    } else {
        strmap::law_read_after_write(before, exprs[n].0, values.last(), exprs[n].0);
    }
}

} // verus!
