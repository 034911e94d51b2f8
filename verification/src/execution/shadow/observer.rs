//! What would have been a cache hit, and whether it would have been right.
//!
//! A step is known by its command, environment, working directory and the
//! fingerprint of the workspace before it. When a step comes again, reusing
//! its result would have been a hit; the hit would have been false when the
//! workspace then looks different from after the first time. Nothing is ever
//! reused: there are only records.

use vstd::prelude::*;

use crate::execution::shadow::fingerprint;
use crate::execution::shadow::fingerprint::TreeEntry;
use crate::hex;
use crate::number;
use crate::path;
use crate::strmap;
use crate::strmap::StringMap;
use crate::text;

verus! {

/// A step, as it is observed.
pub struct StepKey<'a> {
    pub step_id: &'a str,
    /// Digest of the command, in hexadecimal.
    pub cmd_digest: &'a str,
    /// Digest of the environment, in hexadecimal.
    pub env_digest: &'a str,
    pub cwd: &'a str,
}

/// What was observed of a step.
pub struct ShadowRecord {
    pub step_id: String,
    pub cmd_digest: String,
    pub env_digest: String,
    pub cwd: String,
    pub pre_digest: String,
    pub post_digest: String,
    pub would_hit: bool,
    pub false_hit: bool,
}

/// Observes the steps of a job.
pub struct ShadowObserver {
    enabled: bool,
    dir: String,
    path: String,
    seen: StringMap<[u8; 32]>,
}

/// What an observer knows.
pub struct ObserverView {
    pub enabled: bool,
    pub dir: Seq<char>,
    pub path: Seq<char>,
    /// The fingerprint after each step, when it first came.
    pub seen: Seq<(Seq<char>, [u8; 32])>,
}

impl View for ShadowObserver {
    type V = ObserverView;

    closed spec fn view(&self) -> ObserverView {
        ObserverView {
            enabled: self.enabled,
            dir: self.dir@,
            path: self.path@,
            seen: self.seen@,
        }
    }
}

/// The key of a step: command, environment, length of the directory in bytes
/// and the directory, and the fingerprint before.
pub open spec fn step_key(
    cmd_digest: Seq<char>,
    env_digest: Seq<char>,
    cwd: Seq<char>,
    pre: Seq<u8>,
) -> Seq<char> {
    cmd_digest.push('\0') + env_digest.push('\0') + number::decimal(
        vstd::utf8::encode_utf8(cwd).len(),
    ).push(':') + cwd.push('\0') + hex::hex(pre)
}

/// The key of a step.
pub fn observe_key(cmd_digest: &str, env_digest: &str, cwd: &str, pre: &[u8; 32]) -> (r: String)
    ensures
        r@ == step_key(cmd_digest@, env_digest@, cwd@, pre@),
{
    let length = number::show_usize(cwd.as_bytes().len());
    let before = hex::to_hex(pre.as_slice());
    let mut key: String = cmd_digest.to_owned();
    key.push('\0');
    key.append(env_digest);
    key.push('\0');
    key.append(length.as_str());
    key.push(':');
    key.append(cwd);
    key.push('\0');
    key.append(before.as_str());
    assert(key@ =~= step_key(cmd_digest@, env_digest@, cwd@, pre@));
    key
}

/// What seeing a key with the fingerprint `post` means: whether it was seen
/// before, and whether the fingerprint then was another.
pub open spec fn classified(
    seen: Seq<(Seq<char>, [u8; 32])>,
    key: Seq<char>,
    post: Seq<u8>,
) -> (bool, bool) {
    match strmap::lookup(seen, key) {
        Some(first) => (true, first@ != post),
        None => (false, false),
    }
}

/// What has been seen after a key came with the fingerprint `post`: only the
/// first time counts.
pub open spec fn seen_after(
    seen: Seq<(Seq<char>, [u8; 32])>,
    key: Seq<char>,
    post: [u8; 32],
) -> Seq<(Seq<char>, [u8; 32])> {
    if strmap::has_key(seen, key) {
        seen
    } else {
        strmap::stored(seen, key, post)
    }
}

fn same_bytes(a: &[u8; 32], b: &[u8; 32]) -> (r: bool)
    ensures
        r == (a@ == b@),
{
    let mut i: usize = 0;
    while i < 32
        invariant
            i <= 32,
            forall|k: int| 0 <= k < i ==> a@[k] == b@[k],
        decreases 32 - i,
    {
        if a[i] != b[i] {
            assert(a@[i as int] != b@[i as int]);
            return false;
        }
        i = i + 1;
    }
    assert(a@ =~= b@);
    true
}

impl ShadowObserver {
    /// An observer of the job with the given id, which is safe as a file
    /// name. It does nothing unless it is enabled.
    pub fn new(enabled: bool, data_dir: &str, job_id: &str) -> (r: ShadowObserver)
        ensures
            r@.enabled == enabled,
            r@.dir == path::joined(path::joined(data_dir@, "_diag"@), "shadow"@),
            r@.path == path::joined(r@.dir, job_id@ + ".jsonl"@),
            r@.seen.len() == 0,
    {
        let diag = path::join(data_dir, "_diag");
        let dir = path::join(diag.as_str(), "shadow");
        let file = text::cat2(job_id, ".jsonl");
        let path = path::join(dir.as_str(), file.as_str());
        ShadowObserver { enabled, dir, path, seen: StringMap::new() }
    }

    /// The directory of the records.
    pub fn dir(&self) -> (r: &str)
        ensures
            r@ == self@.dir,
    {
        self.dir.as_str()
    }

    /// The file that a record is appended to, one a line.
    pub fn path(&self) -> (r: &str)
        ensures
            r@ == self@.path,
    {
        self.path.as_str()
    }

    /// The fingerprint of the workspace before a step; zeros when the
    /// observer is not enabled.
    pub fn pre(&self, tree: Option<&Vec<TreeEntry>>, workspace: &str) -> (r: [u8; 32])
        ensures
            r@ == if self@.enabled {
                fingerprint::fingerprint(
                    match tree {
                        Some(entries) => Some(entries@),
                        None => None,
                    },
                    workspace@,
                )
            } else {
                fingerprint::no_fingerprint()
            },
    {
        if !self.enabled {
            let zeros: [u8; 32] = [0u8; 32];
            assert(zeros@ =~= fingerprint::no_fingerprint());
            return zeros;
        }
        fingerprint::fingerprint_dir(tree, workspace)
    }

    /// What is to be recorded of a step once it has run; nothing when the
    /// observer is not enabled.
    pub fn post(
        &mut self,
        key: &StepKey<'_>,
        pre: &[u8; 32],
        tree: Option<&Vec<TreeEntry>>,
        workspace: &str,
    ) -> (r: Option<ShadowRecord>)
        ensures
            ({
                let post = fingerprint::fingerprint(
                    match tree {
                        Some(entries) => Some(entries@),
                        None => None,
                    },
                    workspace@,
                );
                let k = step_key(key.cmd_digest@, key.env_digest@, key.cwd@, pre@);
                if old(self)@.enabled {
                    &&& r matches Some(record) && record.step_id@ == key.step_id@
                        && record.cmd_digest@ == key.cmd_digest@ && record.env_digest@
                        == key.env_digest@ && record.cwd@ == key.cwd@ && record.pre_digest@
                        == hex::hex(pre@) && record.post_digest@ == hex::hex(post) && (
                        record.would_hit,
                        record.false_hit,
                    ) == classified(old(self)@.seen, k, post)
                    &&& exists|digest: [u8; 32]|
                        digest@ == post && final(self)@ == (ObserverView {
                            seen: #[trigger] seen_after(old(self)@.seen, k, digest),
                            ..old(self)@
                        })
                } else {
                    r is None && final(self)@ == old(self)@
                }
            }),
    {
        if !self.enabled {
            return None;
        }
        let post = fingerprint::fingerprint_dir(tree, workspace);
        let map_key = observe_key(key.cmd_digest, key.env_digest, key.cwd, pre);
        let (would_hit, false_hit) = self.classify(map_key, &post);
        Some(
            ShadowRecord {
                step_id: key.step_id.to_owned(),
                cmd_digest: key.cmd_digest.to_owned(),
                env_digest: key.env_digest.to_owned(),
                cwd: key.cwd.to_owned(),
                pre_digest: hex::to_hex(pre.as_slice()),
                post_digest: hex::to_hex(post.as_slice()),
                would_hit,
                false_hit,
            },
        )
    }

    /// Whether a key was seen before, and with another fingerprint. The
    /// first fingerprint of a key is kept for good.
    pub fn classify(&mut self, key: String, post: &[u8; 32]) -> (r: (bool, bool))
        ensures
            r == classified(old(self)@.seen, key@, post@),
            final(self)@ == (ObserverView {
                seen: seen_after(old(self)@.seen, key@, *post),
                ..old(self)@
            }),
    {
        match self.seen.get(key.as_str()) {
            Some(first) => {
                let differs = !same_bytes(first, post);
                return (true, differs);
            },
            None => {},
        }
        self.seen.insert(key, *post);
        (false, false)
    }
}

proof fn lemma_first_part(
    x: Seq<char>,
    s: Seq<char>,
    y: Seq<char>,
    t: Seq<char>,
    sep: char,
)
    requires
        x.push(sep) + s == y.push(sep) + t,
        !x.contains(sep),
        !y.contains(sep),
    ensures
        x == y,
        s == t,
{
    let a = x.push(sep) + s;
    let b = y.push(sep) + t;
    assert(a[x.len() as int] == sep);
    assert(b[y.len() as int] == sep);
    if x.len() < y.len() {
        assert(b[x.len() as int] == y[x.len() as int]);
    } else if y.len() < x.len() {
        assert(a[y.len() as int] == x[y.len() as int]);
    }
    assert forall|i: int| 0 <= i < x.len() implies x[i] == y[i] by {
        assert(a[i] == x[i]);
        assert(b[i] == y[i]);
    }
    assert(x =~= y);
    assert(a.skip(x.len() as int + 1) =~= s);
    assert(b.skip(y.len() as int + 1) =~= t);
}

/// Different steps have different keys, whatever characters their working
/// directories hold.
pub proof fn law_keys_tell_steps_apart(
    cmd: Seq<char>,
    env: Seq<char>,
    cwd: Seq<char>,
    pre: Seq<u8>,
    cmd2: Seq<char>,
    env2: Seq<char>,
    cwd2: Seq<char>,
    pre2: Seq<u8>,
)
    requires
        !cmd.contains('\0'),
        !env.contains('\0'),
        !cmd2.contains('\0'),
        !env2.contains('\0'),
        pre.len() == 32,
        pre2.len() == 32,
        step_key(cmd, env, cwd, pre) == step_key(cmd2, env2, cwd2, pre2),
    ensures
        cmd == cmd2,
        env == env2,
        cwd == cwd2,
        pre == pre2,
{
    let n = number::decimal(vstd::utf8::encode_utf8(cwd).len());
    let n2 = number::decimal(vstd::utf8::encode_utf8(cwd2).len());
    let tail = cwd.push('\0') + hex::hex(pre);
    let tail2 = cwd2.push('\0') + hex::hex(pre2);
    let from_env = env.push('\0') + (n.push(':') + tail);
    let from_env2 = env2.push('\0') + (n2.push(':') + tail2);
    assert(step_key(cmd, env, cwd, pre) =~= cmd.push('\0') + from_env);
    assert(step_key(cmd2, env2, cwd2, pre2) =~= cmd2.push('\0') + from_env2);
    lemma_first_part(cmd, from_env, cmd2, from_env2, '\0');
    lemma_first_part(env, n.push(':') + tail, env2, n2.push(':') + tail2, '\0');
    number::lemma_decimal_digits(vstd::utf8::encode_utf8(cwd).len());
    number::lemma_decimal_digits(vstd::utf8::encode_utf8(cwd2).len());
    lemma_first_part(n, tail, n2, tail2, ':');
    hex::lemma_hex_clean(pre, ' ');
    hex::lemma_hex_clean(pre2, ' ');
    assert(cwd.len() == cwd2.len());
    assert forall|i: int| 0 <= i < cwd.len() implies cwd[i] == cwd2[i] by {
        assert(tail[i] == cwd[i]);
        assert(tail2[i] == cwd2[i]);
    }
    assert(cwd =~= cwd2);
    assert(tail.skip(cwd.len() as int + 1) =~= hex::hex(pre));
    assert(tail2.skip(cwd2.len() as int + 1) =~= hex::hex(pre2));
    hex::law_hex_injective(pre, pre2);
}

/// A false hit is a hit, and the first time a step comes it is none.
pub proof fn law_false_hits_are_hits(
    seen: Seq<(Seq<char>, [u8; 32])>,
    key: Seq<char>,
    post: Seq<u8>,
)
    ensures
        classified(seen, key, post).1 ==> classified(seen, key, post).0,
        !strmap::has_key(seen, key) ==> classified(seen, key, post) == (false, false),
{
}

/// Once a step has come, it is a hit every later time, and a false one
/// exactly when the fingerprint differs from the first; steps that come in
/// between change nothing in that.
pub proof fn law_first_observation_is_kept(
    seen: Seq<(Seq<char>, [u8; 32])>,
    key: Seq<char>,
    first: [u8; 32],
    other: Seq<char>,
    between: [u8; 32],
    later: Seq<u8>,
)
    requires
        !strmap::has_key(seen, key),
    ensures
        classified(seen_after(seen, key, first), key, later) == (true, first@ != later),
        classified(
            seen_after(seen_after(seen, key, first), other, between),
            key,
            later,
        ) == (true, first@ != later),
{
    let one = seen_after(seen, key, first);
    strmap::law_read_after_write(seen, key, first, key);
    strmap::law_read_after_write(one, other, between, key);
}

/// A step that was seen before is a hit, and a false one exactly when the
/// workspace looked different then.
pub proof fn law_seen_step_is_a_hit(
    seen: Seq<(Seq<char>, [u8; 32])>,
    key: Seq<char>,
    first: [u8; 32],
    post: Seq<u8>,
)
    requires
        strmap::lookup(seen, key) == Some(first),
    ensures
        classified(seen, key, post).0,
        classified(seen, key, post).1 <==> first@ != post,
{
}

/// Before a step the workspace is fingerprinted only when the observer is
/// enabled; otherwise nothing but zeros stands for it.
pub proof fn law_disabled_observer_looks_at_nothing(
    observer: ShadowObserver,
    tree: Option<&Vec<TreeEntry>>,
    workspace: &str,
    r: [u8; 32],
    now: [u8; 32],
)
    requires
        call_ensures(ShadowObserver::pre, (&observer, tree, workspace), r),
        call_ensures(fingerprint::fingerprint_dir, (tree, workspace), now),
    ensures
        observer@.enabled ==> r@ == now@,
        !observer@.enabled ==> r@ == Seq::new(32, |i: int| 0u8),
{
}

/// A disabled observer records nothing and learns nothing. An enabled one
/// records the step with the digests before and after, a hit exactly when the
/// step was seen before, and a false one exactly when it then looked
/// different.
pub proof fn law_step_is_recorded(
    observer: &mut ShadowObserver,
    key: StepKey<'_>,
    pre: [u8; 32],
    tree: Option<&Vec<TreeEntry>>,
    workspace: &str,
    r: Option<ShadowRecord>,
    now: [u8; 32],
)
    requires
        call_ensures(ShadowObserver::post, (observer, &key, &pre, tree, workspace), r),
        call_ensures(fingerprint::fingerprint_dir, (tree, workspace), now),
    ensures
        r is Some <==> old(observer)@.enabled,
        r is None ==> final(observer)@ == old(observer)@,
        r matches Some(record) ==> {
            let k = step_key(key.cmd_digest@, key.env_digest@, key.cwd@, pre@);
            &&& record.step_id@ == key.step_id@ && record.cmd_digest@ == key.cmd_digest@
            &&& record.env_digest@ == key.env_digest@ && record.cwd@ == key.cwd@
            &&& record.pre_digest@ == hex::hex(pre@) && record.post_digest@ == hex::hex(now@)
            &&& record.would_hit <==> strmap::lookup(old(observer)@.seen, k) is Some
            &&& strmap::lookup(old(observer)@.seen, k) matches Some(first) ==> (record.false_hit
                <==> first@ != now@)
            &&& strmap::lookup(old(observer)@.seen, k) is None ==> !record.false_hit
            &&& strmap::has_key(final(observer)@.seen, k)
            &&& strmap::lookup(old(observer)@.seen, k) is None ==> (strmap::lookup(
                final(observer)@.seen,
                k,
            ) matches Some(d) && d@ == now@)
            &&& strmap::lookup(old(observer)@.seen, k) is Some ==> final(observer)@.seen == old(observer)@.seen
        },
{
    if old(observer)@.enabled {
        let k = step_key(key.cmd_digest@, key.env_digest@, key.cwd@, pre@);
        let digest = choose|digest: [u8; 32]|
            digest@ == now@ && final(observer)@ == (ObserverView {
                seen: #[trigger] seen_after(old(observer)@.seen, k, digest),
                ..old(observer)@
            });
        strmap::law_read_after_write(old(observer)@.seen, k, digest, k);
    }
}

/// Records lie in `_diag/shadow`, in a file named after the job; nothing was
/// seen at first.
pub proof fn law_records_are_named_after_the_job(
    enabled: bool,
    data_dir: &str,
    job_id: &str,
    r: ShadowObserver,
)
    requires
        call_ensures(ShadowObserver::new, (enabled, data_dir, job_id), r),
    ensures
        r@.enabled == enabled,
        r@.dir == path::joined(path::joined(data_dir@, "_diag"@), "shadow"@),
        r@.path == path::joined(r@.dir, job_id@ + ".jsonl"@),
        r@.seen.len() == 0,
{
}

/// Seeing a key tells whether it was seen before and whether it looked
/// different then; only the first time is kept.
pub proof fn law_key_is_classified(
    observer: &mut ShadowObserver,
    key: String,
    post: [u8; 32],
    r: (bool, bool),
)
    requires
        call_ensures(ShadowObserver::classify, (observer, key, &post), r),
    ensures
        r.0 <==> strmap::lookup(old(observer)@.seen, key@) is Some,
        strmap::lookup(old(observer)@.seen, key@) matches Some(first) ==> (r.1 <==> first@ != post@)
            && final(observer)@.seen == old(observer)@.seen,
        strmap::lookup(old(observer)@.seen, key@) is None ==> !r.1 && strmap::lookup(
            final(observer)@.seen,
            key@,
        ) == Some(post),
{
    strmap::law_read_after_write(old(observer)@.seen, key@, post, key@);
}

/// The key of a step is its command, its environment, its directory behind
/// the number of its bytes, and the fingerprint before it.
pub proof fn law_key_is_made_of_its_parts(
    cmd_digest: &str,
    env_digest: &str,
    cwd: &str,
    pre: [u8; 32],
    r: String,
)
    requires
        call_ensures(observe_key, (cmd_digest, env_digest, cwd, &pre), r),
    ensures
        r@ == cmd_digest@ + seq!['\0'] + env_digest@ + seq!['\0'] + number::decimal(
            vstd::utf8::encode_utf8(cwd@).len(),
        ) + seq![':'] + cwd@ + seq!['\0'] + hex::hex(pre@),
{
    assert(r@ =~= cmd_digest@ + seq!['\0'] + env_digest@ + seq!['\0'] + number::decimal(
        vstd::utf8::encode_utf8(cwd@).len(),
    ) + seq![':'] + cwd@ + seq!['\0'] + hex::hex(pre@));
}

} // verus!
