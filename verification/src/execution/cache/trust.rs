//! Which jobs may write the protected parts of the cache.

use vstd::prelude::*;

use crate::text;

verus! {

/// How far a job's cache writes are trusted.
#[derive(Debug, Clone, Copy, PartialEq, Eq, Structural)]
pub enum TrustLevel {
    /// May write a protected scope.
    Trusted,
    /// May write only scopes that are not protected.
    Untrusted,
}

/// Whether an event cannot be brought about from outside the repository.
pub open spec fn trusting_event(event: Seq<char>) -> bool {
    ||| event == "push"@
    ||| event == "schedule"@
    ||| event == "workflow_dispatch"@
    ||| event == "release"@
    ||| event == "merge_group"@
}

/// The trust of a job: a trusting event on a protected branch.
pub open spec fn trust_of(event: Seq<char>, branch: Seq<char>, protected: Seq<Seq<char>>) -> TrustLevel {
    if trusting_event(event) && protected.contains(branch) {
        TrustLevel::Trusted
    } else {
        TrustLevel::Untrusted
    }
}

/// Whether a job may write a scope.
pub open spec fn may_write(scope: Seq<char>, trust: TrustLevel, protected: Seq<Seq<char>>) -> bool {
    protected.contains(scope) ==> trust == TrustLevel::Trusted
}

/// The trust of a job, from its trigger event and branch.
pub fn classify_trust(trigger_event: &str, branch: &str, protected_branches: &Vec<String>) -> (r:
    TrustLevel)
    ensures
        r == trust_of(trigger_event@, branch@, text::texts(protected_branches@)),
{
    let trusting: bool = text::same(trigger_event, "push") || text::same(trigger_event, "schedule")
        || text::same(trigger_event, "workflow_dispatch") || text::same(trigger_event, "release")
        || text::same(trigger_event, "merge_group");
    if trusting && is_protected(branch, protected_branches) {
        TrustLevel::Trusted
    } else {
        TrustLevel::Untrusted
    }
}

/// Whether a branch is protected.
pub fn is_protected(branch: &str, protected: &Vec<String>) -> (r: bool)
    ensures
        r == text::texts(protected@).contains(branch@),
{
    text::holds_text(protected, branch)
}

/// Whether a job of the given trust may write a scope.
pub fn write_allowed(scope: &str, trust: TrustLevel, protected: &Vec<String>) -> (r: bool)
    ensures
        r == may_write(scope@, trust, text::texts(protected@)),
{
    !(is_protected(scope, protected) && trust == TrustLevel::Untrusted)
}

/// A job that may write a protected scope was triggered by a trusting event
/// on a protected branch; every job may write the scopes that are not
/// protected.
pub proof fn law_protected_scopes_need_trust(
    event: Seq<char>,
    branch: Seq<char>,
    protected: Seq<Seq<char>>,
    scope: Seq<char>,
)
    ensures
        protected.contains(scope) && may_write(scope, trust_of(event, branch, protected), protected)
            ==> trusting_event(event) && protected.contains(branch),
        !protected.contains(scope) ==> may_write(
            scope,
            trust_of(event, branch, protected),
            protected,
        ),
{
}

/// A job is trusted exactly when one of the five events that only the
/// repository brings about happened on a protected branch.
pub proof fn law_trust_needs_event_and_branch(
    event: &str,
    branch: &str,
    protected: Vec<String>,
    r: TrustLevel,
)
    requires
        call_ensures(classify_trust, (event, branch, &protected), r),
    ensures
        r == TrustLevel::Trusted <==> (event@ == "push"@ || event@ == "schedule"@ || event@
            == "workflow_dispatch"@ || event@ == "release"@ || event@ == "merge_group"@) && exists|
            i: int,
        |
            0 <= i < protected@.len() && (#[trigger] protected@[i])@ == branch@,
{
    let all = text::texts(protected@);
    assert(all.contains(branch@) <==> exists|i: int|
        0 <= i < protected@.len() && (#[trigger] protected@[i])@ == branch@) by {
        if all.contains(branch@) {
            let k = choose|k: int| 0 <= k < all.len() && all[k] == branch@;
            assert(protected@[k]@ == branch@);
        }
        if exists|i: int| 0 <= i < protected@.len() && (#[trigger] protected@[i])@ == branch@ {
            let k = choose|k: int|
                0 <= k < protected@.len() && (#[trigger] protected@[k])@ == branch@;
            assert(all[k] == branch@);
        }
    }
}

/// A pull request is never trusted, on whatever branch.
pub proof fn law_pull_request_is_not_trusted(branch: Seq<char>, protected: Seq<Seq<char>>)
    ensures
        trust_of("pull_request"@, branch, protected) == TrustLevel::Untrusted,
        trust_of("pull_request_target"@, branch, protected) == TrustLevel::Untrusted,
{
    reveal_strlit("pull_request");
    reveal_strlit("pull_request_target");
    reveal_strlit("push");
    reveal_strlit("schedule");
    reveal_strlit("workflow_dispatch");
    reveal_strlit("release");
    reveal_strlit("merge_group");
    assert("pull_request"@.len() == 12 && "pull_request_target"@.len() == 19);
    assert("push"@.len() == 4 && "schedule"@.len() == 8 && "workflow_dispatch"@.len() == 17
        && "release"@.len() == 7 && "merge_group"@.len() == 11);
}

/// A scope is refused exactly when it is protected and the job is not
/// trusted.
pub proof fn law_write_is_refused_to_the_untrusted(
    scope: &str,
    trust: TrustLevel,
    protected: Vec<String>,
    allowed: bool,
    guarded: bool,
)
    requires
        call_ensures(write_allowed, (scope, trust, &protected), allowed),
        call_ensures(is_protected, (scope, &protected), guarded),
    ensures
        !allowed <==> guarded && trust == TrustLevel::Untrusted,
        trust == TrustLevel::Trusted ==> allowed,
        guarded <==> text::texts(protected@).contains(scope@),
{
}

} // verus!
