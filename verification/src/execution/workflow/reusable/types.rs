//! Calling a reusable workflow: its inputs, secrets and outputs.

use vstd::prelude::*;

use crate::error::{RunnerError, RunnerErrorView};
use crate::execution::output_ref;
use crate::strmap;
use crate::strmap::StringMap;
use crate::text;

verus! {

/// A reference `{owner}/{repo}/{path}@{ref}` to a reusable workflow.
#[derive(Debug, Clone)]
pub struct ReusableWorkflowRef {
    pub owner: String,
    pub repo: String,
    pub path: String,
    pub git_ref: String,
}

/// An input that a workflow declares.
#[derive(Debug, Clone)]
pub struct InputDef {
    pub required: bool,
    pub default: Option<String>,
}

/// A secret that a workflow declares.
#[derive(Debug, Clone)]
pub struct SecretDef {
    pub required: bool,
}

/// How a caller passes secrets.
#[derive(Debug, Clone)]
pub enum SecretMode {
    /// All of the caller's.
    Inherit,
    /// The given ones.
    Explicit(StringMap<String>),
}

/// An output that a workflow declares.
#[derive(Debug, Clone)]
pub struct OutputDef {
    pub description: Option<String>,
    pub value: String,
}

/// What a reusable workflow declares.
#[derive(Debug, Clone)]
pub struct ReusableWorkflowDef {
    pub inputs: StringMap<InputDef>,
    pub outputs: StringMap<OutputDef>,
    pub secrets: StringMap<SecretDef>,
}

/// What a caller passes to a reusable workflow.
#[derive(Debug, Clone)]
pub struct CallerContext {
    pub inputs: StringMap<String>,
    pub secrets: StringMap<String>,
}

/// The first required input without a default that the caller leaves out.
pub open spec fn missing_input(
    defined: Seq<(Seq<char>, InputDef)>,
    caller: Seq<(Seq<char>, String)>,
) -> Option<Seq<char>>
    decreases defined.len(),
{
    if defined.len() == 0 {
        None
    } else {
        match missing_input(defined.drop_last(), caller) {
            Some(n) => Some(n),
            None => {
                let (name, def) = defined.last();
                if def.required && def.default is None && !strmap::has_key(caller, name) {
                    Some(name)
                } else {
                    None
                }
            },
        }
    }
}

/// The first required secret that is not given.
pub open spec fn missing_secret(
    defined: Seq<(Seq<char>, SecretDef)>,
    mapping: Seq<(Seq<char>, String)>,
) -> Option<Seq<char>>
    decreases defined.len(),
{
    if defined.len() == 0 {
        None
    } else {
        match missing_secret(defined.drop_last(), mapping) {
            Some(n) => Some(n),
            None => {
                let (name, def) = defined.last();
                if def.required && !strmap::has_key(mapping, name) {
                    Some(name)
                } else {
                    None
                }
            },
        }
    }
}

/// The failure of leaving something required out.
pub open spec fn not_provided(what: Seq<char>, name: Seq<char>) -> RunnerErrorView {
    RunnerErrorView::ReusableWorkflow(
        "required "@ + what + " '"@ + name + "' not provided by caller"@,
    )
}

fn not_provided_error(what: &str, name: &str) -> (r: RunnerError)
    ensures
        r@ == not_provided(what@, name@),
{
    RunnerError::ReusableWorkflow(
        text::cat5("required ", what, " '", name, "' not provided by caller"),
    )
}

/// Checks that the caller provides every required input.
pub fn validate_inputs(defined: &StringMap<InputDef>, caller_inputs: &StringMap<String>) -> (r:
    Result<(), RunnerError>)
    ensures
        match missing_input(defined@, caller_inputs@) {
            Some(name) => r matches Err(e) && e@ == not_provided("input"@, name),
            None => r is Ok,
        },
{
    let ghost all = defined@;
    let n: usize = defined.len();
    let mut i: usize = 0;
    while i < n
        invariant
            i <= n,
            n == all.len(),
            all == defined@,
            missing_input(all.take(i as int), caller_inputs@) is None,
        decreases n - i,
    {
        assert(all.take(i + 1).drop_last() =~= all.take(i as int));
        assert(all.take(i + 1).last() == all[i as int]);
        let name: &str = defined.key_at(i);
        let def: &InputDef = defined.value_at(i);
        if def.required && def.default.is_none() && !caller_inputs.contains_key(name) {
            proof {
                lemma_missing_input_kept(all, caller_inputs@, i + 1);
            }
            return Err(not_provided_error("input", name));
        }
        i = i + 1;
    }
    assert(all.take(all.len() as int) =~= all);
    Ok(())
}

proof fn lemma_missing_input_kept(
    defined: Seq<(Seq<char>, InputDef)>,
    caller: Seq<(Seq<char>, String)>,
    n: int,
)
    requires
        0 <= n <= defined.len(),
        missing_input(defined.take(n), caller) is Some,
    ensures
        missing_input(defined, caller) == missing_input(defined.take(n), caller),
    decreases defined.len(),
{
    if n == defined.len() {
        assert(defined.take(n) =~= defined);
    } else {
        assert(defined.drop_last().take(n) =~= defined.take(n));
        lemma_missing_input_kept(defined.drop_last(), caller, n);
    }
}

proof fn lemma_missing_secret_kept(
    defined: Seq<(Seq<char>, SecretDef)>,
    mapping: Seq<(Seq<char>, String)>,
    n: int,
)
    requires
        0 <= n <= defined.len(),
        missing_secret(defined.take(n), mapping) is Some,
    ensures
        missing_secret(defined, mapping) == missing_secret(defined.take(n), mapping),
    decreases defined.len(),
{
    if n == defined.len() {
        assert(defined.take(n) =~= defined);
    } else {
        assert(defined.drop_last().take(n) =~= defined.take(n));
        lemma_missing_secret_kept(defined.drop_last(), mapping, n);
    }
}

/// The value of a declared input: the caller's, else the default.
pub open spec fn input_value(
    name: Seq<char>,
    def: InputDef,
    caller: Seq<(Seq<char>, String)>,
) -> Option<Seq<char>> {
    match strmap::lookup_text(caller, name) {
        Some(v) => Some(v),
        None => text::text_opt(def.default),
    }
}

/// The values of the declared inputs that have one.
pub open spec fn resolved_inputs(
    defined: Seq<(Seq<char>, InputDef)>,
    caller: Seq<(Seq<char>, String)>,
) -> Seq<(Seq<char>, Seq<char>)>
    decreases defined.len(),
{
    if defined.len() == 0 {
        Seq::empty()
    } else {
        let before = resolved_inputs(defined.drop_last(), caller);
        match input_value(defined.last().0, defined.last().1, caller) {
            Some(v) => strmap::stored(before, defined.last().0, v),
            None => before,
        }
    }
}

/// The values of the declared inputs: the caller's win over the defaults.
pub fn resolve_inputs(defined: &StringMap<InputDef>, caller_inputs: &StringMap<String>) -> (r:
    StringMap<String>)
    ensures
        strmap::text_entries(r@) == resolved_inputs(defined@, caller_inputs@),
{
    let ghost all = defined@;
    let mut resolved: StringMap<String> = StringMap::new();
    let n: usize = defined.len();
    let mut i: usize = 0;
    assert(strmap::text_entries(resolved@) =~= resolved_inputs(all.take(0), caller_inputs@));
    while i < n
        invariant
            i <= n,
            n == all.len(),
            all == defined@,
            strmap::text_entries(resolved@) == resolved_inputs(
                all.take(i as int),
                caller_inputs@,
            ),
        decreases n - i,
    {
        assert(all.take(i + 1).drop_last() =~= all.take(i as int));
        assert(all.take(i + 1).last() == all[i as int]);
        let name: &str = defined.key_at(i);
        let value: Option<String> = match caller_inputs.get(name) {
            Some(v) => Some(v.clone()),
            None => text::copy_opt(&defined.value_at(i).default),
        };
        match value {
            Some(v) => {
                proof {
                    strmap::lemma_text_entries(resolved@, name@, v);
                }
                resolved.insert(name.to_owned(), v);
            },
            None => {},
        }
        i = i + 1;
    }
    assert(all.take(all.len() as int) =~= all);
    resolved
}

fn require_secrets(defined: &StringMap<SecretDef>, given: &StringMap<String>) -> (r: Result<
    (),
    RunnerError,
>)
    ensures
        match missing_secret(defined@, given@) {
            Some(name) => r matches Err(e) && e@ == not_provided("secret"@, name),
            None => r is Ok,
        },
{
    let ghost all = defined@;
    let n: usize = defined.len();
    let mut i: usize = 0;
    while i < n
        invariant
            i <= n,
            n == all.len(),
            all == defined@,
            missing_secret(all.take(i as int), given@) is None,
        decreases n - i,
    {
        assert(all.take(i + 1).drop_last() =~= all.take(i as int));
        assert(all.take(i + 1).last() == all[i as int]);
        let name: &str = defined.key_at(i);
        if defined.value_at(i).required && !given.contains_key(name) {
            proof {
                lemma_missing_secret_kept(all, given@, i + 1);
            }
            return Err(not_provided_error("secret", name));
        }
        i = i + 1;
    }
    assert(all.take(all.len() as int) =~= all);
    Ok(())
}

/// The secrets that the workflow gets: all of the caller's, or the mapping.
/// Either way every required one must be among them.
pub fn validate_secrets(
    mode: &SecretMode,
    defined: &StringMap<SecretDef>,
    caller_secrets: &StringMap<String>,
) -> (r: Result<StringMap<String>, RunnerError>)
    ensures
        match mode {
            SecretMode::Inherit => match missing_secret(defined@, caller_secrets@) {
                Some(name) => r matches Err(e) && e@ == not_provided("secret"@, name),
                None => r matches Ok(m) && m@ == caller_secrets@,
            },
            SecretMode::Explicit(mapping) => match missing_secret(defined@, mapping@) {
                Some(name) => r matches Err(e) && e@ == not_provided("secret"@, name),
                None => r matches Ok(m) && m@ == mapping@,
            },
        },
{
    let given: &StringMap<String> = match mode {
        SecretMode::Inherit => caller_secrets,
        SecretMode::Explicit(mapping) => mapping,
    };
    match require_secrets(defined, given) {
        Ok(_) => Ok(strmap::copy_map(given)),
        Err(e) => Err(e),
    }
}

/// The value of an output expression. A text without braces stands for
/// itself; a reference to no output of a job is empty.
pub open spec fn output_expression(
    expr: Seq<char>,
    jobs: Seq<(Seq<char>, StringMap<String>)>,
) -> Seq<char> {
    match output_ref::braced(expr) {
        None => text::trimmed(expr),
        Some(inner) => match output_ref::output_named(inner, "jobs"@) {
            Some((job, name)) => match output_ref::output_value(jobs, job, name) {
                Some(v) => v,
                None => Seq::empty(),
            },
            None => Seq::empty(),
        },
    }
}

/// The outputs of a workflow, each declared one with its value.
pub open spec fn workflow_outputs(
    defined: Seq<(Seq<char>, OutputDef)>,
    jobs: Seq<(Seq<char>, StringMap<String>)>,
) -> Seq<(Seq<char>, Seq<char>)>
    decreases defined.len(),
{
    if defined.len() == 0 {
        Seq::empty()
    } else {
        strmap::stored(
            workflow_outputs(defined.drop_last(), jobs),
            defined.last().0,
            output_expression(defined.last().1.value@, jobs),
        )
    }
}

fn empty_text() -> (r: String)
    ensures
        r@ == Seq::<char>::empty(),
{
    let r = String::new();
    assert(r@ =~= Seq::<char>::empty());
    r
}

/// The value of an output expression.
pub fn resolve_output_expression(expr: &str, job_outputs: &StringMap<StringMap<String>>) -> (r:
    String)
    ensures
        r@ == output_expression(expr@, job_outputs@),
{
    match output_ref::braced_text(expr) {
        None => text::trim(expr).to_owned(),
        Some(inner) => match output_ref::named_output(inner, "jobs") {
            Some((job, name)) => match output_ref::value_of_output(
                job_outputs,
                job.as_str(),
                name.as_str(),
            ) {
                Some(v) => v,
                None => empty_text(),
            },
            None => empty_text(),
        },
    }
}

/// The outputs of a workflow, from those of its jobs.
pub fn resolve_outputs(
    defined: &StringMap<OutputDef>,
    job_outputs: &StringMap<StringMap<String>>,
) -> (r: StringMap<String>)
    ensures
        strmap::text_entries(r@) == workflow_outputs(defined@, job_outputs@),
{
    let ghost all = defined@;
    let mut out: StringMap<String> = StringMap::new();
    let n: usize = defined.len();
    let mut i: usize = 0;
    assert(strmap::text_entries(out@) =~= workflow_outputs(all.take(0), job_outputs@));
    while i < n
        invariant
            i <= n,
            n == all.len(),
            all == defined@,
            strmap::text_entries(out@) == workflow_outputs(all.take(i as int), job_outputs@),
        decreases n - i,
    {
        assert(all.take(i + 1).drop_last() =~= all.take(i as int));
        assert(all.take(i + 1).last() == all[i as int]);
        let value = resolve_output_expression(defined.value_at(i).value.as_str(), job_outputs);
        let name: String = defined.key_at(i).to_owned();
        proof {
            strmap::lemma_text_entries(out@, name@, value);
        }
        out.insert(name, value);
        i = i + 1;
    }
    assert(all.take(all.len() as int) =~= all);
    out
}

/// What a caller passes to a reusable workflow.
pub fn build_caller_context(inputs: &StringMap<String>, secrets: &StringMap<String>) -> (r:
    CallerContext)
    ensures
        r.inputs@ == inputs@,
        r.secrets@ == secrets@,
{
    CallerContext { inputs: strmap::copy_map(inputs), secrets: strmap::copy_map(secrets) }
}

/// When no required input is missing, every required input gets a value.
pub proof fn law_required_inputs_get_values(
    defined: Seq<(Seq<char>, InputDef)>,
    caller: Seq<(Seq<char>, String)>,
    i: int,
)
    requires
        missing_input(defined, caller) is None,
        0 <= i < defined.len(),
        defined[i].1.required,
    ensures
        strmap::has_key(resolved_inputs(defined, caller), defined[i].0),
    decreases defined.len(),
{
    let rest = defined.drop_last();
    let before = resolved_inputs(rest, caller);
    let (name, def) = defined.last();
    if i < rest.len() {
        assert(rest[i] == defined[i]);
        law_required_inputs_get_values(rest, caller, i);
    }
    match input_value(name, def, caller) {
        Some(v) => {
            strmap::lemma_stored_has(before, name, v, defined[i].0);
        },
        None => {},
    }
}

/// A value that the caller gives to a declared input is the one it gets,
/// whatever its default.
pub proof fn law_caller_wins_over_default(
    defined: Seq<(Seq<char>, InputDef)>,
    caller: Seq<(Seq<char>, String)>,
    i: int,
)
    requires
        0 <= i < defined.len(),
        strmap::has_key(caller, defined[i].0),
    ensures
        strmap::lookup(resolved_inputs(defined, caller), defined[i].0) == strmap::lookup_text(
            caller,
            defined[i].0,
        ),
    decreases defined.len(),
{
    let rest = defined.drop_last();
    let before = resolved_inputs(rest, caller);
    let (name, def) = defined.last();
    if i < rest.len() {
        assert(rest[i] == defined[i]);
        law_caller_wins_over_default(rest, caller, i);
    }
    match input_value(name, def, caller) {
        Some(v) => {
            strmap::law_read_after_write(before, name, v, defined[i].0);
        },
        None => {},
    }
}

/// A declared input that the caller leaves out gets its default.
pub proof fn law_default_fills_in(
    defined: Seq<(Seq<char>, InputDef)>,
    caller: Seq<(Seq<char>, String)>,
    i: int,
)
    requires
        strmap::keys_distinct(defined),
        0 <= i < defined.len(),
        !strmap::has_key(caller, defined[i].0),
        defined[i].1.default is Some,
    ensures
        strmap::lookup(resolved_inputs(defined, caller), defined[i].0) == text::text_opt(
            defined[i].1.default,
        ),
    decreases defined.len(),
{
    let rest = defined.drop_last();
    let before = resolved_inputs(rest, caller);
    let (name, def) = defined.last();
    if i < rest.len() {
        assert(rest[i] == defined[i]);
        assert(strmap::keys_distinct(rest)) by {
            assert forall|x: int, y: int| 0 <= x < y < rest.len() implies (#[trigger] rest[x]).0
                != (#[trigger] rest[y]).0 by {
                assert(defined[x].0 != defined[y].0);
            }
        }
        law_default_fills_in(rest, caller, i);
        assert(defined[i].0 != defined[defined.len() - 1].0);
    }
    match input_value(name, def, caller) {
        Some(v) => {
            strmap::law_read_after_write(before, name, v, defined[i].0);
        },
        None => {},
    }
}

/// A name that the workflow does not declare is never an input, whatever the
/// caller passes.
pub proof fn law_only_declared_inputs_are_set(
    defined: Seq<(Seq<char>, InputDef)>,
    caller: Seq<(Seq<char>, String)>,
    name: Seq<char>,
)
    requires
        strmap::has_key(resolved_inputs(defined, caller), name),
    ensures
        exists|i: int| 0 <= i < defined.len() && (#[trigger] defined[i]).0 == name,
    decreases defined.len(),
{
    if defined.len() > 0 {
        let rest = defined.drop_last();
        let before = resolved_inputs(rest, caller);
        match input_value(defined.last().0, defined.last().1, caller) {
            Some(v) => {
                strmap::lemma_stored_has(before, defined.last().0, v, name);
            },
            None => {},
        }
        if strmap::has_key(before, name) {
            law_only_declared_inputs_are_set(rest, caller, name);
            let i = choose|i: int| 0 <= i < rest.len() && (#[trigger] rest[i]).0 == name;
            assert(defined[i].0 == name);
        } else {
            assert(defined[defined.len() - 1].0 == name);
        }
    }
}

/// An input is missing exactly when it is required, has no default and is not
/// passed; the first such one is named.
pub proof fn law_missing_input_is_the_first(
    defined: Seq<(Seq<char>, InputDef)>,
    caller: Seq<(Seq<char>, String)>,
)
    ensures
        missing_input(defined, caller) is Some <==> exists|i: int|
            0 <= i < defined.len() && (#[trigger] defined[i]).1.required && defined[i].1.default is None
                && !strmap::has_key(caller, defined[i].0),
        missing_input(defined, caller) matches Some(n) ==> exists|i: int|
            0 <= i < defined.len() && (#[trigger] defined[i]).0 == n && defined[i].1.required
                && defined[i].1.default is None && !strmap::has_key(caller, n) && forall|k: int|
                0 <= k < i ==> !((#[trigger] defined[k]).1.required && defined[k].1.default is None
                    && !strmap::has_key(caller, defined[k].0)),
    decreases defined.len(),
{
    if defined.len() > 0 {
        let front = defined.drop_last();
        law_missing_input_is_the_first(front, caller);
        let last = defined.last();
        assert(defined[defined.len() - 1] == last);
        match missing_input(front, caller) {
            Some(n) => {
                let i = choose|i: int|
                    0 <= i < front.len() && (#[trigger] front[i]).0 == n && front[i].1.required
                        && front[i].1.default is None && !strmap::has_key(caller, n) && forall|k: int|
                        0 <= k < i ==> !((#[trigger] front[k]).1.required && front[k].1.default is None
                            && !strmap::has_key(caller, front[k].0));
                assert(defined[i] == front[i]);
                assert forall|k: int| 0 <= k < i implies !((#[trigger] defined[k]).1.required
                    && defined[k].1.default is None && !strmap::has_key(caller, defined[k].0)) by {
                    assert(front[k] == defined[k]);
                }
            },
            None => {
                assert forall|k: int| 0 <= k < front.len() implies !((
                #[trigger] defined[k]).1.required && defined[k].1.default is None && !strmap::has_key(
                    caller,
                    defined[k].0,
                )) by {
                    assert(front[k] == defined[k]);
                }
            },
        }
    }
}

/// A secret is missing exactly when it is required and not given; the first
/// such one is named.
pub proof fn law_missing_secret_is_the_first(
    defined: Seq<(Seq<char>, SecretDef)>,
    mapping: Seq<(Seq<char>, String)>,
)
    ensures
        missing_secret(defined, mapping) is Some <==> exists|i: int|
            0 <= i < defined.len() && (#[trigger] defined[i]).1.required && !strmap::has_key(
                mapping,
                defined[i].0,
            ),
        missing_secret(defined, mapping) matches Some(n) ==> exists|i: int|
            0 <= i < defined.len() && (#[trigger] defined[i]).0 == n && defined[i].1.required
                && !strmap::has_key(mapping, n) && forall|k: int|
                0 <= k < i ==> !((#[trigger] defined[k]).1.required && !strmap::has_key(
                    mapping,
                    defined[k].0,
                )),
    decreases defined.len(),
{
    if defined.len() > 0 {
        let front = defined.drop_last();
        law_missing_secret_is_the_first(front, mapping);
        let last = defined.last();
        assert(defined[defined.len() - 1] == last);
        match missing_secret(front, mapping) {
            Some(n) => {
                let i = choose|i: int|
                    0 <= i < front.len() && (#[trigger] front[i]).0 == n && front[i].1.required
                        && !strmap::has_key(mapping, n) && forall|k: int|
                        0 <= k < i ==> !((#[trigger] front[k]).1.required && !strmap::has_key(
                            mapping,
                            front[k].0,
                        ));
                assert(defined[i] == front[i]);
                assert forall|k: int| 0 <= k < i implies !((#[trigger] defined[k]).1.required
                    && !strmap::has_key(mapping, defined[k].0)) by {
                    assert(front[k] == defined[k]);
                }
            },
            None => {
                assert forall|k: int| 0 <= k < front.len() implies !((
                #[trigger] defined[k]).1.required && !strmap::has_key(mapping, defined[k].0)) by {
                    assert(front[k] == defined[k]);
                }
            },
        }
    }
}

/// A call is accepted exactly when every required input without a default is
/// passed; the refusal names an input that is not.
pub proof fn law_required_inputs_are_needed(
    defined: StringMap<InputDef>,
    caller: StringMap<String>,
    r: Result<(), RunnerError>,
)
    requires
        call_ensures(validate_inputs, (&defined, &caller), r),
    ensures
        r is Ok <==> forall|i: int|
            0 <= i < defined@.len() && (#[trigger] defined@[i]).1.required
                && defined@[i].1.default is None ==> strmap::has_key(caller@, defined@[i].0),
        r matches Err(e) ==> exists|i: int|
            0 <= i < defined@.len() && (#[trigger] defined@[i]).1.required && e@
                == RunnerErrorView::ReusableWorkflow(
                "required "@ + "input"@ + " '"@ + defined@[i].0 + "' not provided by caller"@,
            ),
{
    law_missing_input_is_the_first(defined@, caller@);
}

/// A workflow gets all of the caller's secrets when it inherits them and the
/// mapped ones otherwise, and is refused exactly when a required one is not
/// among those.
pub proof fn law_secrets_are_those_passed(
    mode: SecretMode,
    defined: StringMap<SecretDef>,
    caller: StringMap<String>,
    r: Result<StringMap<String>, RunnerError>,
)
    requires
        call_ensures(validate_secrets, (&mode, &defined, &caller), r),
    ensures
        ({
            let given = match mode {
                SecretMode::Inherit => caller@,
                SecretMode::Explicit(mapping) => mapping@,
            };
            &&& r is Ok <==> forall|i: int|
                0 <= i < defined@.len() && (#[trigger] defined@[i]).1.required ==> strmap::has_key(
                    given,
                    defined@[i].0,
                )
            &&& r matches Ok(m) ==> m@ == given
            &&& r matches Err(e) ==> exists|i: int|
                0 <= i < defined@.len() && (#[trigger] defined@[i]).1.required && !strmap::has_key(
                    given,
                    defined@[i].0,
                ) && e@ == RunnerErrorView::ReusableWorkflow(
                    "required "@ + "secret"@ + " '"@ + defined@[i].0 + "' not provided by caller"@,
                )
        }),
{
    law_missing_secret_is_the_first(defined@, caller@);
    match mode {
        SecretMode::Explicit(mapping) => {
            law_missing_secret_is_the_first(defined@, mapping@);
        },
        SecretMode::Inherit => {},
    }
}

/// An output without braces stands for itself, without white space around
/// it. One in braces is the output of a job that it names, and empty when it
/// names none.
pub proof fn law_output_is_of_the_named_job(
    expr: Seq<char>,
    jobs: Seq<(Seq<char>, StringMap<String>)>,
    job: Seq<char>,
    name: Seq<char>,
)
    ensures
        output_ref::braced(expr) is None ==> output_expression(expr, jobs) == text::trimmed(expr),
        output_ref::braced(expr) matches Some(inner) ==> (output_ref::output_named(inner, "jobs"@)
            is None ==> output_expression(expr, jobs).len() == 0),
        output_ref::braced(expr) matches Some(inner) ==> (output_ref::output_named(inner, "jobs"@)
            == Some((job, name)) ==> (strmap::lookup(jobs, job) is None ==> output_expression(
            expr,
            jobs,
        ).len() == 0)),
        output_ref::braced(expr) matches Some(inner) ==> (output_ref::output_named(inner, "jobs"@)
            == Some((job, name)) ==> (strmap::lookup(jobs, job) matches Some(m) ==> match strmap::lookup_text(
            m@,
            name,
        ) {
            Some(v) => output_expression(expr, jobs) == v,
            None => output_expression(expr, jobs).len() == 0,
        })),
{
}

/// Every declared output is set to the value of its own expression, and
/// nothing else is set.
pub proof fn law_every_declared_output_is_set(
    defined: Seq<(Seq<char>, OutputDef)>,
    jobs: Seq<(Seq<char>, StringMap<String>)>,
    i: int,
    name: Seq<char>,
)
    requires
        strmap::keys_distinct(defined),
    ensures
        0 <= i < defined.len() ==> strmap::lookup(workflow_outputs(defined, jobs), defined[i].0)
            == Some(output_expression(defined[i].1.value@, jobs)),
        strmap::has_key(workflow_outputs(defined, jobs), name) ==> exists|k: int|
            0 <= k < defined.len() && (#[trigger] defined[k]).0 == name,
    decreases defined.len(),
{
    if defined.len() > 0 {
        let front = defined.drop_last();
        let last = defined.last();
        let before = workflow_outputs(front, jobs);
        let value = output_expression(last.1.value@, jobs);
        assert(strmap::keys_distinct(front)) by {
            assert forall|a: int, b: int| 0 <= a < b < front.len() implies (#[trigger] front[a]).0
                != (#[trigger] front[b]).0 by {
                assert(defined[a] == front[a] && defined[b] == front[b]);
            }
        }
        law_every_declared_output_is_set(front, jobs, i, name);
        assert(defined[defined.len() - 1] == last);
        if 0 <= i < front.len() {
            assert(defined[i] == front[i]);
            assert(defined[i].0 != defined[defined.len() - 1].0);
            strmap::law_read_after_write(before, last.0, value, defined[i].0);
        }
        if i == front.len() {
            strmap::law_read_after_write(before, last.0, value, last.0);
        }
        if name != last.0 {
            strmap::law_read_after_write(before, last.0, value, name);
            if strmap::has_key(workflow_outputs(defined, jobs), name) {
                assert(strmap::has_key(before, name));
                let k = choose|k: int| 0 <= k < front.len() && (#[trigger] front[k]).0 == name;
                assert(defined[k] == front[k]);
            }
        }
    }
}

/// What a caller passes is handed on as it is.
pub proof fn law_caller_context_is_what_was_passed(
    inputs: StringMap<String>,
    secrets: StringMap<String>,
    r: CallerContext,
)
    requires
        call_ensures(build_caller_context, (&inputs, &secrets), r),
    ensures
        r.inputs@ == inputs@,
        r.secrets@ == secrets@,
{
}

/// The outputs of a workflow are the declared ones, each with the value of
/// its own expression.
pub proof fn law_outputs_follow_their_declarations(
    defined: StringMap<OutputDef>,
    jobs: StringMap<StringMap<String>>,
    r: StringMap<String>,
    i: int,
)
    requires
        call_ensures(resolve_outputs, (&defined, &jobs), r),
        strmap::keys_distinct(defined@),
        0 <= i < defined@.len(),
    ensures
        strmap::lookup(strmap::text_entries(r@), defined@[i].0) == Some(
            output_expression(defined@[i].1.value@, jobs@),
        ),
{
    law_every_declared_output_is_set(defined@, jobs@, i, defined@[i].0);
}

/// An output expression is evaluated as the output it names: a plain text is
/// itself, and a reference to nothing is empty.
pub proof fn law_output_expression_is_resolved(
    expr: &str,
    jobs: StringMap<StringMap<String>>,
    r: String,
)
    requires
        call_ensures(resolve_output_expression, (expr, &jobs), r),
    ensures
        output_ref::braced(expr@) is None ==> r@ == text::trimmed(expr@),
        output_ref::braced(expr@) matches Some(inner) ==> match output_ref::output_named(
            inner,
            "jobs"@,
        ) {
            None => r@.len() == 0,
            Some((job, name)) => match strmap::lookup(jobs@, job) {
                None => r@.len() == 0,
                Some(m) => match strmap::lookup(m@, name) {
                    Some(v) => r@ == v@,
                    None => r@.len() == 0,
                },
            },
        },
{
}

/// Inputs are resolved for the declared names alone: the caller's value where
/// there is one, else the default.
pub proof fn law_inputs_are_resolved(
    defined: StringMap<InputDef>,
    caller: StringMap<String>,
    r: StringMap<String>,
    i: int,
)
    requires
        call_ensures(resolve_inputs, (&defined, &caller), r),
        strmap::keys_distinct(defined@),
        0 <= i < defined@.len(),
    ensures
        strmap::lookup_text(caller@, defined@[i].0) matches Some(v) ==> strmap::lookup(
            strmap::text_entries(r@),
            defined@[i].0,
        ) == Some(v),
        strmap::lookup_text(caller@, defined@[i].0) is None ==> (
        defined@[i].1.default matches Some(d) ==> strmap::lookup(
            strmap::text_entries(r@),
            defined@[i].0,
        ) == Some(d@)),
{
    if strmap::has_key(caller@, defined@[i].0) {
        law_caller_wins_over_default(defined@, caller@, i);
    } else if defined@[i].1.default is Some {
        law_default_fills_in(defined@, caller@, i);
    }
}

} // verus!
