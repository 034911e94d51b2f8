//! Which parts of the cache a job writes and reads.
//!
//! A job writes under its own ref. It reads its own entries, then those of
//! its base branch, then those of the protected branches, and never those
//! of a sibling branch.

use vstd::prelude::*;

use crate::strmap;
use crate::strmap::StringMap;
use crate::text;

verus! {

/// What a job knows of its trigger.
pub struct ExecutionContext {
    pub github: StringMap<String>,
}

/// The scopes of a job.
#[derive(Debug, Clone)]
pub struct CacheScopes {
    /// The scope that the job writes.
    pub write: String,
    /// The scopes that it reads, most specific first.
    pub read_ladder: Vec<String>,
}

/// The ladder with a scope at its end, unless it is already on it.
pub open spec fn with_scope(ladder: Seq<Seq<char>>, scope: Seq<char>) -> Seq<Seq<char>> {
    if ladder.contains(scope) {
        ladder
    } else {
        ladder.push(scope)
    }
}

/// The ladder with several scopes added in turn.
pub open spec fn with_scopes(ladder: Seq<Seq<char>>, scopes: Seq<Seq<char>>) -> Seq<Seq<char>>
    decreases scopes.len(),
{
    if scopes.len() == 0 {
        ladder
    } else {
        with_scope(with_scopes(ladder, scopes.drop_last()), scopes.last())
    }
}

/// The text as a list of none or one.
pub open spec fn as_list(o: Option<Seq<char>>) -> Seq<Seq<char>> {
    match o {
        Some(s) => seq![s],
        None => Seq::empty(),
    }
}

/// The scopes that a job reads: its ref, its base branch, the protected
/// branches, each once. A job without a ref reads the protected ones alone.
pub open spec fn ladder_of(
    ref_name: Option<Seq<char>>,
    base_ref: Option<Seq<char>>,
    protected: Seq<Seq<char>>,
) -> Seq<Seq<char>> {
    match ref_name {
        Some(own) => with_scopes(Seq::empty(), seq![own] + as_list(base_ref) + protected),
        None => with_scopes(Seq::empty(), protected),
    }
}

/// Adds a scope to the ladder unless it is already on it.
pub fn push_unique(ladder: &mut Vec<String>, value: String)
    ensures
        text::texts(final(ladder)@) == with_scope(text::texts(old(ladder)@), value@),
{
    let ghost before = text::texts(ladder@);
    if !text::holds_text(ladder, value.as_str()) {
        ladder.push(value);
        assert(text::texts(ladder@) =~= before.push(value@));
    }
}

impl ExecutionContext {
    /// A value of the `github` context.
    pub fn github_context(&self, key: &str) -> (r: Option<&str>)
        ensures
            text::str_opt(r) == strmap::lookup_text(self.github@, key@),
    {
        match self.github.get(key) {
            Some(v) => Some(v.as_str()),
            None => None,
        }
    }
}

/// The scopes of a job. Without a ref it writes the empty scope and reads
/// the protected ones.
pub fn scopes_for_job(ctx: &ExecutionContext, protected: &Vec<String>) -> (r: CacheScopes)
    ensures
        ({
            let ref_name = strmap::lookup_text(ctx.github@, "ref_name"@);
            let base_ref = strmap::lookup_text(ctx.github@, "base_ref"@);
            &&& r.write@ == match ref_name {
                Some(n) => n,
                None => Seq::empty(),
            }
            &&& text::texts(r.read_ladder@) == ladder_of(
                ref_name,
                base_ref,
                text::texts(protected@),
            )
        }),
{
    let ref_name = ctx.github_context("ref_name");
    let base_ref: Option<&str> = match ref_name {
        Some(_) => ctx.github_context("base_ref"),
        None => None,
    };
    let ghost own = as_list(text::str_opt(ref_name));
    let ghost base = as_list(text::str_opt(base_ref));
    let ghost all = text::texts(protected@);
    let mut read_ladder: Vec<String> = Vec::new();
    let ghost none = Seq::<Seq<char>>::empty();
    assert(text::texts(read_ladder@) =~= none);
    match ref_name {
        Some(name) => {
            push_unique(&mut read_ladder, name.to_owned());
            assert(own.drop_last() =~= none);
            assert(with_scopes(none, own.drop_last()) == none);
        },
        None => {},
    }
    assert(text::texts(read_ladder@) == with_scopes(none, own));
    match base_ref {
        Some(name) => {
            push_unique(&mut read_ladder, name.to_owned());
            assert((own + base).drop_last() =~= own);
        },
        None => {
            assert(own + base =~= own);
        },
    }
    assert(text::texts(read_ladder@) == with_scopes(none, own + base));
    let mut i: usize = 0;
    assert(own + base + all.take(0) =~= own + base);
    while i < protected.len()
        invariant
            i <= protected@.len(),
            all == text::texts(protected@),
            text::texts(read_ladder@) == with_scopes(none, own + base + all.take(i as int)),
        decreases protected@.len() - i,
    {
        proof {
            let now = own + base + all.take(i + 1);
            assert(now.drop_last() =~= own + base + all.take(i as int));
            assert(now.last() == protected@[i as int]@);
        }
        push_unique(&mut read_ladder, protected[i].clone());
        i = i + 1;
    }
    proof {
        assert(all.take(all.len() as int) =~= all);
        if ref_name is None {
            assert(own + base + all =~= all);
        }
    }
    let write: String = match ref_name {
        Some(name) => name.to_owned(),
        None => {
            let empty = String::new();
            assert(empty@ =~= Seq::<char>::empty());
            empty
        },
    };
    CacheScopes { write, read_ladder }
}

/// No scope is searched twice.
pub proof fn law_ladder_has_no_repeats(scopes: Seq<Seq<char>>)
    ensures
        with_scopes(Seq::empty(), scopes).no_duplicates(),
    decreases scopes.len(),
{
    if scopes.len() > 0 {
        law_ladder_has_no_repeats(scopes.drop_last());
    }
}

/// Exactly the job's ref, its base branch and the protected branches are
/// searched, and the protected ones alone without a ref: no other branch is
/// ever read.
pub proof fn law_ladder_holds_only_own_scopes(
    ref_name: Option<Seq<char>>,
    base_ref: Option<Seq<char>>,
    protected: Seq<Seq<char>>,
    scope: Seq<char>,
)
    ensures
        ladder_of(ref_name, base_ref, protected).contains(scope) <==> (ref_name == Some(scope) || (
        ref_name is Some && base_ref == Some(scope)) || protected.contains(scope)),
{
    let base = if ref_name is Some {
        as_list(base_ref)
    } else {
        Seq::empty()
    };
    let all = as_list(ref_name) + base + protected;
    if ref_name is None {
        assert(all =~= protected);
    }
    lemma_with_scopes_contains(all, scope);
    if all.contains(scope) {
        let k = choose|k: int| 0 <= k < all.len() && all[k] == scope;
        let a = as_list(ref_name).len();
        let b = base.len();
        if k >= a + b {
            assert(protected[k - a - b] == scope);
        }
    }
    if ref_name == Some(scope) {
        assert(all[0] == scope);
    }
    if ref_name is Some && base_ref == Some(scope) {
        assert(all[1] == scope);
    }
    if protected.contains(scope) {
        let k = choose|k: int| 0 <= k < protected.len() && protected[k] == scope;
        assert(all[as_list(ref_name).len() + base.len() + k] == scope);
    }
}

proof fn lemma_with_scopes_contains(scopes: Seq<Seq<char>>, scope: Seq<char>)
    ensures
        with_scopes(Seq::empty(), scopes).contains(scope) <==> scopes.contains(scope),
    decreases scopes.len(),
{
    let now = with_scopes(Seq::empty(), scopes);
    if scopes.len() > 0 {
        let rest = scopes.drop_last();
        let before = with_scopes(Seq::empty(), rest);
        lemma_with_scopes_contains(rest, scope);
        if scopes.contains(scope) {
            let k = choose|k: int| 0 <= k < scopes.len() && scopes[k] == scope;
            if k < rest.len() {
                assert(rest[k] == scope);
                let j = choose|j: int| 0 <= j < before.len() && before[j] == scope;
                assert(now[j] == scope);
            } else if before.contains(scope) {
                assert(now == before);
            } else {
                assert(now[before.len() as int] == scope);
            }
        }
        if now.contains(scope) {
            let j = choose|j: int| 0 <= j < now.len() && now[j] == scope;
            if j < before.len() {
                assert(before[j] == scope);
                let k = choose|k: int| 0 <= k < rest.len() && rest[k] == scope;
                assert(scopes[k] == scope);
            } else {
                assert(scopes[scopes.len() - 1] == scope);
            }
        }
    }
}

/// A job's own ref is searched first.
pub proof fn law_own_ref_comes_first(
    ref_name: Seq<char>,
    base_ref: Option<Seq<char>>,
    protected: Seq<Seq<char>>,
)
    ensures
        ladder_of(Some(ref_name), base_ref, protected).len() > 0,
        ladder_of(Some(ref_name), base_ref, protected)[0] == ref_name,
{
    lemma_first_kept(seq![ref_name] + as_list(base_ref) + protected);
}

proof fn lemma_first_kept(scopes: Seq<Seq<char>>)
    requires
        scopes.len() > 0,
    ensures
        with_scopes(Seq::empty(), scopes).len() > 0,
        with_scopes(Seq::empty(), scopes)[0] == scopes[0],
    decreases scopes.len(),
{
    let rest = scopes.drop_last();
    if rest.len() > 0 {
        lemma_first_kept(rest);
    } else {
        assert(with_scopes(Seq::empty(), rest) =~= Seq::empty());
    }
}

/// A scope that is not yet on the ladder goes to its end, and one that is on
/// it changes nothing.
pub proof fn law_scope_is_added_once(ladder: Seq<Seq<char>>, scope: Seq<char>)
    ensures
        ladder.contains(scope) ==> with_scope(ladder, scope) == ladder,
        !ladder.contains(scope) ==> with_scope(ladder, scope) == ladder + seq![scope],
        with_scope(ladder, scope).contains(scope),
{
    assert(ladder.push(scope) =~= ladder + seq![scope]);
    assert(ladder.push(scope)[ladder.len() as int] == scope);
}

/// The base branch is searched right behind the job's own ref, when it is
/// another one.
pub proof fn law_base_branch_comes_second(
    own: Seq<char>,
    base: Seq<char>,
    protected: Seq<Seq<char>>,
)
    requires
        own != base,
    ensures
        ladder_of(Some(own), Some(base), protected).len() >= 2,
        ladder_of(Some(own), Some(base), protected)[1] == base,
{
    let head = seq![own] + as_list(Some(base));
    assert(head =~= seq![own, base]);
    let none = Seq::<Seq<char>>::empty();
    assert(seq![own].drop_last() =~= none);
    assert(with_scopes(none, seq![own].drop_last()) =~= none);
    assert(!none.contains(own));
    assert(with_scopes(none, seq![own]) =~= seq![own]);
    assert(seq![own, base].drop_last() =~= seq![own]);
    assert(!seq![own].contains(base)) by {
        assert(seq![own][0] == own);
    }
    assert(with_scopes(none, seq![own, base]) =~= seq![own, base]);
    lemma_front_is_kept(seq![own, base], protected, 1);
    assert(seq![own] + as_list(Some(base)) + protected =~= seq![own, base] + protected);
}

proof fn lemma_front_is_kept(front: Seq<Seq<char>>, more: Seq<Seq<char>>, i: int)
    requires
        0 <= i < with_scopes(Seq::empty(), front).len(),
    ensures
        i < with_scopes(Seq::empty(), front + more).len(),
        with_scopes(Seq::empty(), front + more)[i] == with_scopes(Seq::empty(), front)[i],
    decreases more.len(),
{
    if more.len() == 0 {
        assert(front + more =~= front);
    } else {
        lemma_front_is_kept(front, more.drop_last(), i);
        assert((front + more).drop_last() =~= front + more.drop_last());
    }
}

/// A job writes under its own ref, and under the empty scope without one;
/// what it reads is its ladder.
pub proof fn law_job_writes_its_own_ref(
    ctx: ExecutionContext,
    protected: Vec<String>,
    r: CacheScopes,
)
    requires
        call_ensures(scopes_for_job, (&ctx, &protected), r),
    ensures
        strmap::lookup_text(ctx.github@, "ref_name"@) matches Some(own) ==> r.write@ == own
            && r.read_ladder@.len() > 0 && r.read_ladder@[0]@ == own,
        strmap::lookup_text(ctx.github@, "ref_name"@) is None ==> r.write@.len() == 0,
        text::texts(r.read_ladder@) == ladder_of(
            strmap::lookup_text(ctx.github@, "ref_name"@),
            strmap::lookup_text(ctx.github@, "base_ref"@),
            text::texts(protected@),
        ),
{
    match strmap::lookup_text(ctx.github@, "ref_name"@) {
        Some(own) => {
            law_own_ref_comes_first(
                own,
                strmap::lookup_text(ctx.github@, "base_ref"@),
                text::texts(protected@),
            );
            assert(text::texts(r.read_ladder@).len() == r.read_ladder@.len());
            assert(text::texts(r.read_ladder@)[0] == r.read_ladder@[0]@);
        },
        None => {},
    }
}

} // verus!
