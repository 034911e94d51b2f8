//! Whether an event starts a workflow.

use vstd::prelude::*;

use super::types::{BranchFilter, TriggerConfig};
use crate::strmap::StringMap;
use crate::text;

verus! {

/// An event.
#[derive(Debug, Clone)]
pub struct EventPayload {
    pub event_name: String,
    pub branch: Option<String>,
    pub tag: Option<String>,
    pub paths_changed: Vec<String>,
    pub inputs: StringMap<String>,
}

/// Whether a value matches a pattern. A trailing `*` or `**` stands for any
/// rest; any other pattern matches itself only.
pub open spec fn glob_matches(pattern: Seq<char>, value: Seq<char>) -> bool {
    let stars = if pattern.len() >= 2 && pattern.last() == '*' && pattern[pattern.len() - 2]
        == '*' {
        2int
    } else if pattern.len() >= 1 && pattern.last() == '*' {
        1int
    } else {
        0int
    };
    if stars == 0 {
        pattern == value
    } else {
        pattern.take(pattern.len() - stars).is_prefix_of(value)
    }
}

/// Whether a value matches one of the patterns.
pub open spec fn some_matches(patterns: Seq<Seq<char>>, value: Seq<char>) -> bool {
    exists|i: int| 0 <= i < patterns.len() && glob_matches(#[trigger] patterns[i], value)
}

/// Whether a filter lets a branch through: it has no branch patterns, or one
/// matches. No branch counts as the empty name.
pub open spec fn lets_through(filter: Option<BranchFilter>, branch: Option<Seq<char>>) -> bool {
    match filter {
        Some(f) => f.branches@.len() == 0 || some_matches(
            text::texts(f.branches@),
            match branch {
                Some(b) => b,
                None => Seq::empty(),
            },
        ),
        None => true,
    }
}

/// Whether an event starts a workflow.
pub open spec fn triggers(config: TriggerConfig, event: Seq<char>, branch: Option<Seq<char>>) -> bool {
    &&& text::texts(config.event_names@).contains(event)
    &&& event == "push"@ ==> lets_through(config.push, branch)
    &&& event == "pull_request"@ ==> lets_through(config.pull_request, branch)
}

/// Whether a value matches a pattern.
pub fn matches_glob(pattern: &str, value: &str) -> (r: bool)
    ensures
        r == glob_matches(pattern@, value@),
{
    proof {
        reveal_strlit("*");
        reveal_strlit("**");
    }
    let ghost n = pattern@.len() as int;
    if text::same(pattern, "*") || text::same(pattern, "**") {
        proof {
            let empty = Seq::<char>::empty();
            if pattern@ == "**"@ {
                assert(pattern@.take(0) =~= empty);
            } else {
                assert(pattern@.take(0) =~= empty);
            }
            assert(empty.is_prefix_of(value@));
        }
        return true;
    }
    match text::before_suffix(pattern, "**") {
        Some(prefix) => {
            proof {
                let end = pattern@.skip(n - 2);
                assert(end =~= "**"@);
                assert(end[0] == pattern@[n - 2]);
                assert(end[1] == pattern@[n - 1]);
                assert(prefix@ =~= pattern@.take(n - 2));
            }
            return text::begins_with(value, prefix);
        },
        None => {
            proof {
                if n >= 2 && pattern@[n - 1] == '*' && pattern@[n - 2] == '*' {
                    assert(pattern@.skip(n - 2) =~= "**"@);
                }
            }
        },
    }
    match text::before_suffix(pattern, "*") {
        Some(prefix) => {
            proof {
                let end = pattern@.skip(n - 1);
                assert(end =~= "*"@);
                assert(end[0] == pattern@[n - 1]);
                assert(prefix@ =~= pattern@.take(n - 1));
            }
            return text::begins_with(value, prefix);
        },
        None => {
            proof {
                if n >= 1 && pattern@[n - 1] == '*' {
                    assert(pattern@.skip(n - 1) =~= "*"@);
                }
            }
        },
    }
    text::same(pattern, value)
}

fn filter_lets_through(filter: &Option<BranchFilter>, branch: &Option<String>) -> (r: bool)
    ensures
        r == lets_through(*filter, text::text_opt(*branch)),
{
    let none: String = String::new();
    assert(none@ =~= Seq::<char>::empty());
    let value: &str = match branch {
        Some(b) => b.as_str(),
        None => none.as_str(),
    };
    match filter {
        Some(f) => {
            let ghost all = text::texts(f.branches@);
            if f.branches.len() == 0 {
                return true;
            }
            let mut i: usize = 0;
            while i < f.branches.len()
                invariant
                    i <= f.branches@.len(),
                    all == text::texts(f.branches@),
                    forall|k: int| 0 <= k < i ==> !glob_matches(#[trigger] all[k], value@),
                    lets_through(*filter, text::text_opt(*branch)) == some_matches(all, value@),
                decreases f.branches@.len() - i,
            {
                assert(all[i as int] == f.branches@[i as int]@);
                if matches_glob(f.branches[i].as_str(), value) {
                    return true;
                }
                i = i + 1;
            }
            false
        },
        None => true,
    }
}

/// Whether an event starts a workflow: it must be named, and a push or a
/// pull request must get through its branch filter.
pub fn evaluate_triggers(config: &TriggerConfig, event: &EventPayload) -> (r: bool)
    ensures
        r == triggers(*config, event.event_name@, text::text_opt(event.branch)),
{
    if !text::holds_text(&config.event_names, event.event_name.as_str()) {
        return false;
    }
    if text::same(event.event_name.as_str(), "push") && !filter_lets_through(
        &config.push,
        &event.branch,
    ) {
        return false;
    }
    if text::same(event.event_name.as_str(), "pull_request") && !filter_lets_through(
        &config.pull_request,
        &event.branch,
    ) {
        return false;
    }
    true
}

/// Every value matches a bare `*` or `**`.
pub proof fn law_stars_match_everything(value: Seq<char>)
    ensures
        glob_matches("*"@, value),
        glob_matches("**"@, value),
{
    reveal_strlit("*");
    reveal_strlit("**");
    assert("*"@.take(0) =~= Seq::<char>::empty());
    assert("**"@.take(0) =~= Seq::<char>::empty());
    assert(Seq::<char>::empty().is_prefix_of(value));
}

/// An event that a workflow does not name never starts it.
pub proof fn law_unnamed_event_never_starts(
    config: TriggerConfig,
    event: Seq<char>,
    branch: Option<Seq<char>>,
)
    requires
        !text::texts(config.event_names@).contains(event),
    ensures
        !triggers(config, event, branch),
{
}

/// A pattern that does not end in a star matches itself and nothing else.
pub proof fn law_plain_pattern_matches_itself(pattern: Seq<char>, value: Seq<char>)
    requires
        pattern.len() == 0 || pattern[pattern.len() - 1] != '*',
    ensures
        glob_matches(pattern, value) <==> value == pattern,
{
}

/// A prefix followed by one star or two matches exactly the values that
/// begin with the prefix.
pub proof fn law_star_stands_for_any_rest(prefix: Seq<char>, value: Seq<char>)
    requires
        prefix.len() == 0 || prefix[prefix.len() - 1] != '*',
    ensures
        glob_matches(prefix.push('*'), value) <==> (value.len() >= prefix.len() && forall|i: int|
            0 <= i < prefix.len() ==> value[i] == prefix[i]),
        glob_matches(prefix.push('*').push('*'), value) <==> (value.len() >= prefix.len()
            && forall|i: int| 0 <= i < prefix.len() ==> value[i] == prefix[i]),
        forall|rest: Seq<char>| glob_matches(prefix.push('*'), #[trigger] (prefix + rest)),
{
    let one = prefix.push('*');
    let two = one.push('*');
    assert(one.take(one.len() - 1) =~= prefix);
    assert(two.take(two.len() - 2) =~= prefix);
    assert(two[two.len() - 2] == '*');
    assert(prefix.len() > 0 ==> one[one.len() - 2] == prefix[prefix.len() - 1]);
    assert(prefix.is_prefix_of(value) <==> (value.len() >= prefix.len() && forall|i: int|
        0 <= i < prefix.len() ==> value[i] == prefix[i])) by {
        if prefix.is_prefix_of(value) {
            assert forall|i: int| 0 <= i < prefix.len() implies value[i] == prefix[i] by {
                assert(prefix == value.subrange(0, prefix.len() as int));
            }
        }
        if value.len() >= prefix.len() && forall|i: int|
            0 <= i < prefix.len() ==> value[i] == prefix[i] {
            assert(prefix =~= value.subrange(0, prefix.len() as int));
        }
    }
    assert forall|rest: Seq<char>| glob_matches(one, #[trigger] (prefix + rest)) by {
        assert(prefix =~= (prefix + rest).subrange(0, prefix.len() as int));
    }
}

/// A push starts a workflow whose push filter has branch patterns only when
/// one of them matches the branch; so does a pull request with the
/// pull-request filter. An event without a branch is held against the empty
/// name.
pub proof fn law_filter_is_needed(config: TriggerConfig, filter: BranchFilter, branch: Option<Seq<char>>)
    requires
        filter.branches@.len() > 0,
    ensures
        config.push == Some(filter) && triggers(config, "push"@, branch) ==> exists|i: int|
            0 <= i < filter.branches@.len() && glob_matches(
                #[trigger] filter.branches@[i]@,
                match branch {
                    Some(b) => b,
                    None => seq![],
                },
            ),
        config.pull_request == Some(filter) && triggers(config, "pull_request"@, branch)
            ==> exists|i: int|
            0 <= i < filter.branches@.len() && glob_matches(
                #[trigger] filter.branches@[i]@,
                match branch {
                    Some(b) => b,
                    None => seq![],
                },
            ),
{
    let all = text::texts(filter.branches@);
    let value = match branch {
        Some(b) => b,
        None => seq![],
    };
    assert(value == match branch {
        Some(b) => b,
        None => Seq::<char>::empty(),
    });
    if some_matches(all, value) {
        let i = choose|i: int| 0 <= i < all.len() && glob_matches(#[trigger] all[i], value);
        assert(glob_matches(filter.branches@[i]@, value));
    }
}

/// A named push or pull request starts the workflow when its filter is
/// absent, has no branch pattern, or has one that matches the branch; the
/// other event's filter does not matter.
pub proof fn law_matching_branch_starts(
    config: TriggerConfig,
    named: int,
    branch: Seq<char>,
    i: int,
)
    requires
        0 <= named < config.event_names@.len(),
    ensures
        config.event_names@[named]@ == "push"@ && (match config.push {
            None => true,
            Some(f) => f.branches@.len() == 0 || (0 <= i < f.branches@.len() && glob_matches(
                f.branches@[i]@,
                branch,
            )),
        }) ==> triggers(config, "push"@, Some(branch)),
        config.event_names@[named]@ == "pull_request"@ && (match config.pull_request {
            None => true,
            Some(f) => f.branches@.len() == 0 || (0 <= i < f.branches@.len() && glob_matches(
                f.branches@[i]@,
                branch,
            )),
        }) ==> triggers(config, "pull_request"@, Some(branch)),
{
    let names = text::texts(config.event_names@);
    assert(names[named] == config.event_names@[named]@);
    assert("push"@ != "pull_request"@) by {
        reveal_strlit("push");
        reveal_strlit("pull_request");
        assert("push"@.len() != "pull_request"@.len());
    }
    match config.push {
        Some(f) => {
            assert(0 <= i < f.branches@.len() ==> text::texts(f.branches@)[i]
                == f.branches@[i]@);
        },
        None => {},
    }
    match config.pull_request {
        Some(f) => {
            assert(0 <= i < f.branches@.len() ==> text::texts(f.branches@)[i]
                == f.branches@[i]@);
        },
        None => {},
    }
}

/// Any other event that the workflow names starts it, whatever the filters
/// and the branch.
pub proof fn law_other_named_event_starts(
    config: TriggerConfig,
    named: int,
    branch: Option<Seq<char>>,
)
    requires
        0 <= named < config.event_names@.len(),
        config.event_names@[named]@ != "push"@,
        config.event_names@[named]@ != "pull_request"@,
    ensures
        triggers(config, config.event_names@[named]@, branch),
{
    assert(text::texts(config.event_names@)[named] == config.event_names@[named]@);
}

/// Of an event itself: a push or a pull request whose filter has patterns
/// starts the workflow only when one matches its branch, and an event that
/// the workflow does not name never starts it.
pub proof fn law_started_event_got_through(
    config: TriggerConfig,
    event: EventPayload,
    filter: BranchFilter,
    r: bool,
)
    requires
        call_ensures(evaluate_triggers, (&config, &event), r),
        filter.branches@.len() > 0,
    ensures
        ({
            let branch = match event.branch {
                Some(b) => b@,
                None => seq![],
            };
            let passes = exists|i: int|
                0 <= i < filter.branches@.len() && glob_matches(
                    #[trigger] filter.branches@[i]@,
                    branch,
                );
            let named = exists|i: int|
                0 <= i < config.event_names@.len() && (#[trigger] config.event_names@[i])@
                    == event.event_name@;
            &&& r ==> named
            &&& r && event.event_name@ == "push"@ && config.push == Some(filter) ==> passes
            &&& r && event.event_name@ == "pull_request"@ && config.pull_request == Some(filter)
                ==> passes
            &&& named && event.event_name@ == "push"@ && config.push == Some(filter) && passes ==> r
            &&& named && event.event_name@ == "pull_request"@ && config.pull_request == Some(filter)
                && passes ==> r
            &&& named && event.event_name@ != "push"@ && event.event_name@ != "pull_request"@ ==> r
        }),
{
    let names = text::texts(config.event_names@);
    if names.contains(event.event_name@) {
        let i = choose|i: int| 0 <= i < names.len() && names[i] == event.event_name@;
        assert(config.event_names@[i]@ == event.event_name@);
    }
    if exists|i: int|
        0 <= i < config.event_names@.len() && (#[trigger] config.event_names@[i])@
            == event.event_name@ {
        let i = choose|i: int|
            0 <= i < config.event_names@.len() && (#[trigger] config.event_names@[i])@
                == event.event_name@;
        assert(names[i] == event.event_name@);
    }
    assert("push"@ != "pull_request"@) by {
        reveal_strlit("push");
        reveal_strlit("pull_request");
        assert("push"@.len() != "pull_request"@.len());
    }
    law_filter_is_needed(config, filter, text::text_opt(event.branch));
    let branch = match event.branch {
        Some(b) => b@,
        None => seq![],
    };
    let all = text::texts(filter.branches@);
    assert(branch == match text::text_opt(event.branch) {
        Some(b) => b,
        None => Seq::<char>::empty(),
    });
    if exists|i: int|
        0 <= i < filter.branches@.len() && glob_matches(#[trigger] filter.branches@[i]@, branch) {
        let i = choose|i: int|
            0 <= i < filter.branches@.len() && glob_matches(
                #[trigger] filter.branches@[i]@,
                branch,
            );
        assert(all[i] == filter.branches@[i]@);
        assert(some_matches(all, branch));
    }
}

/// Matching a pattern: a plain one matches itself alone, and one with a star
/// behind a prefix everything that begins with the prefix.
pub proof fn law_pattern_matching(pattern: &str, value: &str, r: bool)
    requires
        call_ensures(matches_glob, (pattern, value), r),
    ensures
        pattern@.len() == 0 || pattern@.last() != '*' ==> (r <==> value@ == pattern@),
        pattern@.len() > 0 && pattern@.last() == '*' && (pattern@.len() == 1
            || pattern@[pattern@.len() - 2] != '*') ==> (r <==> pattern@.take(
            pattern@.len() - 1,
        ).is_prefix_of(value@)),
        pattern@.len() > 1 && pattern@.last() == '*' && pattern@[pattern@.len() - 2] == '*' ==> (r
            <==> pattern@.take(pattern@.len() - 2).is_prefix_of(value@)),
{
}

} // verus!
