//! Composite actions: their scope and their outputs.

use vstd::prelude::*;

use crate::error::RunnerError;
use crate::execution::depth_tracker;
use crate::execution::depth_tracker::{DepthTracker, MAX_COMPOSITE_DEPTH};
use crate::execution::output_ref;
use crate::strmap;
use crate::strmap::StringMap;
use crate::text;

verus! {

/// A composite action being run; `S` names the scope of its steps.
pub struct CompositeExecution<S> {
    pub scope: S,
    /// The expression of each output.
    pub outputs: StringMap<String>,
    pub step_id: String,
}

/// Enters a composite action; fails when it lies too deep.
pub fn prepare_composite<S>(
    outputs: StringMap<String>,
    scope: S,
    step_id: &str,
    depth: &mut DepthTracker,
) -> (r: Result<CompositeExecution<S>, RunnerError>)
    requires
        old(depth)@.current < u32::MAX,
    ensures
        final(depth)@ == depth_tracker::entered(old(depth)@),
        old(depth)@.max == MAX_COMPOSITE_DEPTH,
        match r {
            Ok(c) => depth_tracker::has_room(old(depth)@) && c.scope == scope && c.outputs
                == outputs && c.step_id@ == step_id@,
            Err(e) => !depth_tracker::has_room(old(depth)@) && e@ == depth_tracker::too_deep(
                old(depth)@.max,
            ),
        },
{
    match depth.enter() {
        Err(e) => Err(e),
        Ok(_) => Ok(CompositeExecution { scope, outputs, step_id: step_id.to_owned() }),
    }
}

/// What an output expression refers to: the output of a step, written with
/// or without braces.
pub open spec fn simple_output(expr: Seq<char>, steps: Seq<(Seq<char>, StringMap<String>)>) -> Option<
    Seq<char>,
> {
    let inner = match output_ref::braced(expr) {
        Some(i) => i,
        None => text::trimmed(expr),
    };
    match output_ref::output_named(inner, "steps"@) {
        Some((id, key)) => output_ref::output_value(steps, id, key),
        None => None,
    }
}

/// The outputs whose expressions refer to something, in turn.
pub open spec fn outputs_of(
    exprs: Seq<(Seq<char>, String)>,
    steps: Seq<(Seq<char>, StringMap<String>)>,
) -> Seq<(Seq<char>, Seq<char>)>
    decreases exprs.len(),
{
    if exprs.len() == 0 {
        Seq::empty()
    } else {
        let before = outputs_of(exprs.drop_last(), steps);
        match simple_output(exprs.last().1@, steps) {
            Some(v) => strmap::stored(before, exprs.last().0, v),
            None => before,
        }
    }
}

/// What an output expression refers to.
pub fn resolve_simple_output_ref(expr: &str, step_outputs: &StringMap<StringMap<String>>) -> (r:
    Option<String>)
    ensures
        text::text_opt(r) == simple_output(expr@, step_outputs@),
{
    let inner: &str = match output_ref::braced_text(expr) {
        Some(i) => i,
        None => text::trim(expr),
    };
    match output_ref::named_output(inner, "steps") {
        Some((id, key)) => output_ref::value_of_output(step_outputs, id.as_str(), key.as_str()),
        None => None,
    }
}

impl<S> CompositeExecution<S> {
    /// The outputs of the action, from those of its steps. An output that
    /// refers to nothing is left out.
    pub fn evaluate_outputs(&self, child_step_outputs: &StringMap<StringMap<String>>) -> (r:
        StringMap<String>)
        ensures
            strmap::text_entries(r@) == outputs_of(self.outputs@, child_step_outputs@),
    {
        let ghost all = self.outputs@;
        let mut result: StringMap<String> = StringMap::new();
        let n: usize = self.outputs.len();
        let mut i: usize = 0;
        assert(strmap::text_entries(result@) =~= outputs_of(all.take(0), child_step_outputs@));
        while i < n
            invariant
                i <= n,
                n == all.len(),
                all == self.outputs@,
                strmap::text_entries(result@) == outputs_of(
                    all.take(i as int),
                    child_step_outputs@,
                ),
            decreases n - i,
        {
            assert(all.take(i + 1).drop_last() =~= all.take(i as int));
            assert(all.take(i + 1).last() == all[i as int]);
            match resolve_simple_output_ref(
                self.outputs.value_at(i).as_str(),
                child_step_outputs,
            ) {
                Some(value) => {
                    let name: String = self.outputs.key_at(i).to_owned();
                    proof {
                        strmap::lemma_text_entries(result@, name@, value);
                    }
                    result.insert(name, value);
                },
                None => {},
            }
            i = i + 1;
        }
        assert(all.take(all.len() as int) =~= all);
        result
    }
}

/// Only names that the action declares as outputs are set.
pub proof fn law_only_declared_outputs_are_set(
    exprs: Seq<(Seq<char>, String)>,
    steps: Seq<(Seq<char>, StringMap<String>)>,
    name: Seq<char>,
)
    requires
        strmap::has_key(outputs_of(exprs, steps), name),
    ensures
        exists|i: int| 0 <= i < exprs.len() && (#[trigger] exprs[i]).0 == name,
    decreases exprs.len(),
{
    if exprs.len() > 0 {
        let rest = exprs.drop_last();
        let before = outputs_of(rest, steps);
        match simple_output(exprs.last().1@, steps) {
            Some(v) => {
                strmap::lemma_stored_has(before, exprs.last().0, v, name);
            },
            None => {},
        }
        if strmap::has_key(before, name) {
            law_only_declared_outputs_are_set(rest, steps, name);
            let i = choose|i: int| 0 <= i < rest.len() && (#[trigger] rest[i]).0 == name;
            assert(exprs[i].0 == name);
        } else {
            assert(exprs[exprs.len() - 1].0 == name);
        }
    }
}

/// An output refers to a step's output with braces or without, and to nothing
/// when it names no step that ran or an output that was not set.
pub proof fn law_output_refers_to_a_step(
    expr: Seq<char>,
    steps: Seq<(Seq<char>, StringMap<String>)>,
    id: Seq<char>,
    key: Seq<char>,
)
    ensures
        ({
            let inner = match output_ref::braced(expr) {
                Some(i) => i,
                None => text::trimmed(expr),
            };
            &&& output_ref::output_named(inner, "steps"@) is None ==> simple_output(expr, steps) is None
            &&& output_ref::output_named(inner, "steps"@) == Some((id, key)) ==> (strmap::lookup(
                steps,
                id,
            ) matches Some(m) ==> simple_output(expr, steps) == strmap::lookup_text(m@, key))
            &&& output_ref::output_named(inner, "steps"@) == Some((id, key)) ==> (strmap::lookup(
                steps,
                id,
            ) is None ==> simple_output(expr, steps) is None)
        }),
{
}

/// Every declared output that refers to something is set to what it refers
/// to; one that refers to nothing is left out.
pub proof fn law_outputs_are_what_they_refer_to(
    exprs: Seq<(Seq<char>, String)>,
    steps: Seq<(Seq<char>, StringMap<String>)>,
    i: int,
)
    requires
        strmap::keys_distinct(exprs),
        0 <= i < exprs.len(),
    ensures
        strmap::lookup(outputs_of(exprs, steps), exprs[i].0) == simple_output(exprs[i].1@, steps),
    decreases exprs.len(),
{
    let front = exprs.drop_last();
    let last = exprs.last();
    let before = outputs_of(front, steps);
    assert(strmap::keys_distinct(front)) by {
        assert forall|a: int, b: int| 0 <= a < b < front.len() implies (#[trigger] front[a]).0 != (
        #[trigger] front[b]).0 by {
            assert(exprs[a] == front[a] && exprs[b] == front[b]);
        }
    }
    assert(exprs[exprs.len() - 1] == last);
    if i < front.len() {
        assert(exprs[i] == front[i]);
        assert(exprs[i].0 != exprs[exprs.len() - 1].0);
        law_outputs_are_what_they_refer_to(front, steps, i);
        match simple_output(last.1@, steps) {
            Some(v) => {
                strmap::law_read_after_write(before, last.0, v, exprs[i].0);
            },
            None => {},
        }
    } else {
        match simple_output(last.1@, steps) {
            Some(v) => {
                strmap::law_read_after_write(before, last.0, v, last.0);
            },
            None => {
                if strmap::has_key(before, last.0) {
                    law_only_declared_outputs_are_set(front, steps, last.0);
                    let k = choose|k: int| 0 <= k < front.len() && (#[trigger] front[k]).0 == last.0;
                    assert(exprs[k] == front[k]);
                    assert(exprs[k].0 != exprs[exprs.len() - 1].0);
                }
            },
        }
    }
}

/// A composite action is entered exactly below ten levels, and counts as
/// entered either way; it is run under its own step with its own outputs.
pub proof fn law_composite_is_entered_below_ten<S>(
    outputs: StringMap<String>,
    scope: S,
    step_id: &str,
    depth: &mut DepthTracker,
    r: Result<CompositeExecution<S>, RunnerError>,
)
    requires
        call_ensures(prepare_composite::<S>, (outputs, scope, step_id, depth), r),
    ensures
        r is Ok <==> old(depth)@.current < 10,
        final(depth)@.current == old(depth)@.current + 1,
        r matches Ok(c) ==> c.scope == scope && c.outputs@ == outputs@ && c.step_id@ == step_id@,
        r matches Err(e) ==> e@ is StepExecution,
{
}

/// The outputs of an action are the declared ones that refer to something,
/// each with what it refers to.
pub proof fn law_action_outputs<S>(
    action: CompositeExecution<S>,
    steps: StringMap<StringMap<String>>,
    r: StringMap<String>,
    i: int,
)
    requires
        call_ensures(CompositeExecution::<S>::evaluate_outputs, (&action, &steps), r),
        strmap::keys_distinct(action.outputs@),
        0 <= i < action.outputs@.len(),
    ensures
        strmap::lookup(strmap::text_entries(r@), action.outputs@[i].0) == simple_output(
            action.outputs@[i].1@,
            steps@,
        ),
{
    law_outputs_are_what_they_refer_to(action.outputs@, steps@, i);
}

/// A reference is resolved with braces or without, to the output of the step
/// it names.
pub proof fn law_reference_is_resolved(
    expr: &str,
    steps: StringMap<StringMap<String>>,
    r: Option<String>,
    id: Seq<char>,
    key: Seq<char>,
)
    requires
        call_ensures(resolve_simple_output_ref, (expr, &steps), r),
        output_ref::output_named(
            match output_ref::braced(expr@) {
                Some(i) => i,
                None => text::trimmed(expr@),
            },
            "steps"@,
        ) == Some((id, key)),
    ensures
        strmap::lookup(steps@, id) is None ==> r is None,
        strmap::lookup(steps@, id) matches Some(m) ==> text::text_opt(r) == strmap::lookup_text(
            m@,
            key,
        ),
{
}

} // verus!
