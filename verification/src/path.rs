//! Unix paths as text: components, joining, parents, prefixes.
//!
//! A path is a `Seq<char>`. Two paths are the same path when their
//! components are equal: repeated and trailing separators and inner `.`
//! segments carry no meaning.

use vstd::prelude::*;

use crate::text;

verus! {

/// The text of one path separator.
pub open spec fn slash() -> Seq<char> {
    seq!['/']
}

/// The text of the current-directory segment.
pub open spec fn dot() -> Seq<char> {
    seq!['.']
}

/// The text of the parent-directory segment.
pub open spec fn dot_dot() -> Seq<char> {
    seq!['.', '.']
}

/// Whether the path starts at the root.
pub open spec fn absolute(p: Seq<char>) -> bool {
    p.len() > 0 && p[0] == '/'
}

/// The segments that carry meaning: neither empty nor `.`.
pub open spec fn meaningful(parts: Seq<Seq<char>>) -> Seq<Seq<char>>
    decreases parts.len(),
{
    if parts.len() == 0 {
        Seq::empty()
    } else {
        let head = meaningful(parts.drop_last());
        if parts.last().len() == 0 || parts.last() == dot() {
            head
        } else {
            head.push(parts.last())
        }
    }
}

/// What precedes the meaningful segments: the root of an absolute path, or
/// the leading `.` of a relative one.
pub open spec fn lead(p: Seq<char>) -> Seq<Seq<char>> {
    if absolute(p) {
        seq![slash()]
    } else if text::split(p, '/')[0] == dot() {
        seq![dot()]
    } else {
        Seq::empty()
    }
}

/// The components of a path. The root is `/`, a leading current directory
/// is `.`, and every other component is a file name or `..`.
pub open spec fn components(p: Seq<char>) -> Seq<Seq<char>> {
    lead(p) + meaningful(text::split(p, '/'))
}

/// Whether two texts name the same path.
pub open spec fn same_path(a: Seq<char>, b: Seq<char>) -> bool {
    components(a) == components(b)
}

/// Whether `p` is `base` or lies under it.
pub open spec fn under(p: Seq<char>, base: Seq<char>) -> bool {
    components(base).is_prefix_of(components(p))
}

/// `base` extended by `rel`; an absolute `rel` replaces it.
pub open spec fn joined(base: Seq<char>, rel: Seq<char>) -> Seq<char> {
    if absolute(rel) {
        rel
    } else if base.len() == 0 || base.last() == '/' {
        base + rel
    } else {
        base.push('/') + rel
    }
}

/// `p` without trailing separators and trailing `.` segments.
pub open spec fn stripped_tail(p: Seq<char>) -> Seq<char>
    decreases p.len(),
{
    if p.len() > 1 && p.last() == '/' {
        stripped_tail(p.drop_last())
    } else if p.len() > 1 && p.last() == '.' && p[p.len() - 2] == '/' {
        stripped_tail(p.drop_last())
    } else {
        p
    }
}

/// Where the last segment of `p` begins: just past its last separator.
pub open spec fn last_segment_at(p: Seq<char>) -> nat
    decreases p.len(),
{
    if p.len() == 0 || p.last() == '/' {
        p.len()
    } else {
        last_segment_at(p.drop_last())
    }
}

/// The path without its last component; none for the root and the empty
/// path.
pub open spec fn parent(p: Seq<char>) -> Option<Seq<char>> {
    let q = stripped_tail(p);
    if q.len() == 0 || q == slash() {
        None
    } else {
        Some(stripped_tail(q.take(last_segment_at(q) as int)))
    }
}

/// The last component when it is a name.
pub open spec fn file_name(p: Seq<char>) -> Option<Seq<char>> {
    let q = stripped_tail(p);
    let name = q.skip(last_segment_at(q) as int);
    if q.len() == 0 || q == slash() || name == dot() || name == dot_dot() {
        None
    } else {
        Some(name)
    }
}

/// Where the last `.` of a file name stands.
pub open spec fn last_dot_at(name: Seq<char>) -> int
    decreases name.len(),
{
    if name.len() == 0 {
        -1
    } else if name.last() == '.' {
        name.len() - 1
    } else {
        last_dot_at(name.drop_last())
    }
}

/// The part of the file name behind its last `.`; none when the name has no
/// `.` but a leading one.
pub open spec fn extension(p: Seq<char>) -> Option<Seq<char>> {
    match file_name(p) {
        None => None,
        Some(name) => if last_dot_at(name) <= 0 {
            None
        } else {
            Some(name.skip(last_dot_at(name) + 1))
        },
    }
}

/// `p` without leading separators and leading `.` segments.
pub open spec fn stripped_head(p: Seq<char>) -> Seq<char>
    decreases p.len(),
{
    if p.len() > 0 && p[0] == '/' {
        stripped_head(p.drop_first())
    } else if p.len() == 1 && p[0] == '.' {
        Seq::empty()
    } else if p.len() > 1 && p[0] == '.' && p[1] == '/' {
        stripped_head(p.skip(2))
    } else {
        p
    }
}

/// Where the first segment of `p` ends.
pub open spec fn first_segment_end(p: Seq<char>) -> nat
    decreases p.len(),
{
    if p.len() == 0 || p[0] == '/' {
        0
    } else {
        1 + first_segment_end(p.drop_first())
    }
}

/// What is left of `p` behind its first component.
pub open spec fn past_first(p: Seq<char>) -> Seq<char> {
    p.skip(
        if absolute(p) {
            1
        } else {
            first_segment_end(p) as int
        },
    )
}

/// What is left of `p` behind `n` components. Leading `.` segments count as
/// a component only at the very start of a relative path.
pub open spec fn past(p: Seq<char>, n: nat) -> Seq<char>
    decreases n,
{
    if n == 0 {
        p
    } else {
        past(stripped_head(past_first(p)), (n - 1) as nat)
    }
}

/// `p` relative to `base`, when it lies under it.
pub open spec fn relative_to(p: Seq<char>, base: Seq<char>) -> Option<Seq<char>> {
    if under(p, base) {
        Some(stripped_tail(past(p, components(base).len())))
    } else {
        None
    }
}

fn is_dot(s: &str) -> (r: bool)
    ensures
        r == (s@ == dot()),
{
    proof {
        reveal_strlit(".");
        assert("."@ =~= dot());
    }
    text::same(s, ".")
}

/// The components of a path.
pub fn components_of(p: &str) -> (r: Vec<String>)
    ensures
        text::texts(r@) == components(p@),
{
    let parts = text::split_char(p, '/');
    let ghost all = text::texts(parts@);
    let mut out: Vec<String> = Vec::new();
    let rooted: bool = is_absolute(p);
    if rooted {
        let mut s = String::new();
        s.push('/');
        assert(s@ =~= slash());
        out.push(s);
        assert(text::texts(out@) =~= lead(p@));
    } else if is_dot(parts[0].as_str()) {
        assert(all[0] == dot());
        out.push(parts[0].clone());
        assert(text::texts(out@) =~= lead(p@));
    } else {
        assert(all[0] != dot());
        assert(text::texts(out@) =~= lead(p@));
    }
    let mut i: usize = 0;
    assert(text::texts(out@) =~= lead(p@) + meaningful(all.take(0)));
    while i < parts.len()
        invariant
            i <= parts@.len(),
            all == text::texts(parts@),
            text::texts(out@) == lead(p@) + meaningful(all.take(i as int)),
        decreases parts@.len() - i,
    {
        let part: String = parts[i].clone();
        let ghost before = out@;
        proof {
            assert(all.take(i + 1).drop_last() == all.take(i as int));
            assert(all.take(i + 1).last() == part@);
        }
        if part.as_str().is_empty() || is_dot(part.as_str()) {
        } else {
            out.push(part);
            assert(text::texts(out@) =~= text::texts(before).push(part@));
        }
        i = i + 1;
    }
    assert(all.take(all.len() as int) == all);
    out
}

/// Whether the path starts at the root.
pub fn is_absolute(p: &str) -> (r: bool)
    ensures
        r == absolute(p@),
{
    let v = text::chars_of(p);
    v.len() > 0 && v[0] == '/'
}

fn same_texts(a: &Vec<String>, b: &Vec<String>) -> (r: bool)
    ensures
        r == (text::texts(a@) == text::texts(b@)),
{
    if a.len() != b.len() {
        assert(text::texts(a@).len() != text::texts(b@).len());
        return false;
    }
    prefix_texts(a, b)
}

/// Whether `a` begins the list `b`.
fn prefix_texts(a: &Vec<String>, b: &Vec<String>) -> (r: bool)
    ensures
        r == text::texts(a@).is_prefix_of(text::texts(b@)),
        a@.len() == b@.len() ==> r == (text::texts(a@) == text::texts(b@)),
{
    let ghost x = text::texts(a@);
    let ghost y = text::texts(b@);
    if a.len() > b.len() {
        return false;
    }
    let mut i: usize = 0;
    while i < a.len()
        invariant
            i <= a@.len() <= b@.len(),
            x == text::texts(a@),
            y == text::texts(b@),
            forall|k: int| 0 <= k < i ==> x[k] == y[k],
        decreases a@.len() - i,
    {
        if !text::same(a[i].as_str(), b[i].as_str()) {
            assert(x[i as int] != y[i as int]);
            assert(y.subrange(0, x.len() as int)[i as int] == y[i as int]);
            return false;
        }
        assert(x[i as int] == y[i as int]);
        i = i + 1;
    }
    assert(y.subrange(0, x.len() as int) =~= x);
    assert(a@.len() == b@.len() ==> x =~= y);
    true
}

/// Whether two texts name the same path.
pub fn is_same(a: &str, b: &str) -> (r: bool)
    ensures
        r == same_path(a@, b@),
{
    let x = components_of(a);
    let y = components_of(b);
    same_texts(&x, &y)
}

/// Whether `p` is `base` or lies under it.
pub fn is_under(p: &str, base: &str) -> (r: bool)
    ensures
        r == under(p@, base@),
{
    let x = components_of(base);
    let y = components_of(p);
    prefix_texts(&x, &y)
}

/// `base` extended by `rel`.
pub fn join(base: &str, rel: &str) -> (r: String)
    ensures
        r@ == joined(base@, rel@),
{
    if is_absolute(rel) {
        return rel.to_owned();
    }
    let v = text::chars_of(base);
    let mut out: String = base.to_owned();
    if v.len() > 0 && v[v.len() - 1] != '/' {
        out.push('/');
    }
    out.append(rel);
    out
}

fn strip_tail<'a>(p: &'a str) -> (r: &'a str)
    ensures
        r@ == stripped_tail(p@),
{
    let v = text::chars_of(p);
    let mut to: usize = v.len();
    assert(v@.take(to as int) == v@);
    while to > 1 && (v[to - 1] == '/' || (v[to - 1] == '.' && v[to - 2] == '/'))
        invariant
            to <= v@.len(),
            v@ == p@,
            stripped_tail(p@) == stripped_tail(v@.take(to as int)),
        decreases to,
    {
        assert(v@.take(to as int).drop_last() == v@.take(to - 1));
        to = to - 1;
    }
    assert(p@.subrange(0, to as int) == v@.take(to as int));
    p.substring_char(0, to)
}

fn segment_start(p: &str) -> (r: usize)
    ensures
        r == last_segment_at(p@),
        r <= p@.len(),
{
    let v = text::chars_of(p);
    let mut to: usize = v.len();
    assert(v@.take(to as int) == v@);
    while to > 0 && v[to - 1] != '/'
        invariant
            to <= v@.len(),
            v@ == p@,
            last_segment_at(p@) == last_segment_at(v@.take(to as int)),
        decreases to,
    {
        assert(v@.take(to as int).drop_last() == v@.take(to - 1));
        to = to - 1;
    }
    to
}

fn is_slash(s: &str) -> (r: bool)
    ensures
        r == (s@ == slash()),
{
    proof {
        reveal_strlit("/");
        assert("/"@ =~= slash());
    }
    text::same(s, "/")
}

fn is_dot_dot(s: &str) -> (r: bool)
    ensures
        r == (s@ == dot_dot()),
{
    proof {
        reveal_strlit("..");
        assert(".."@ =~= dot_dot());
    }
    text::same(s, "..")
}

/// The path without its last component.
pub fn parent_of(p: &str) -> (r: Option<&str>)
    ensures
        text::str_opt(r) == parent(p@),
{
    let q = strip_tail(p);
    if q.is_empty() || is_slash(q) {
        return None;
    }
    let at: usize = segment_start(q);
    let head = q.substring_char(0, at);
    assert(head@ == q@.take(at as int));
    Some(strip_tail(head))
}

/// The last component when it is a name.
pub fn file_name_of(p: &str) -> (r: Option<&str>)
    ensures
        text::str_opt(r) == file_name(p@),
{
    let q = strip_tail(p);
    if q.is_empty() || is_slash(q) {
        return None;
    }
    let at: usize = segment_start(q);
    let n: usize = q.unicode_len();
    let name = q.substring_char(at, n);
    assert(name@ == q@.skip(at as int));
    if is_dot(name) || is_dot_dot(name) {
        None
    } else {
        Some(name)
    }
}

/// The part of the file name behind its last `.`.
pub fn extension_of(p: &str) -> (r: Option<&str>)
    ensures
        text::str_opt(r) == extension(p@),
{
    match file_name_of(p) {
        None => None,
        Some(name) => {
            let v = text::chars_of(name);
            let mut to: usize = v.len();
            assert(v@.take(to as int) == v@);
            while to > 0 && v[to - 1] != '.'
                invariant
                    to <= v@.len(),
                    v@ == name@,
                    last_dot_at(name@) == last_dot_at(v@.take(to as int)),
                decreases to,
            {
                assert(v@.take(to as int).drop_last() == v@.take(to - 1));
                to = to - 1;
            }
            if to <= 1 {
                None
            } else {
                let ext = name.substring_char(to, v.len());
                assert(ext@ == name@.skip(to as int));
                Some(ext)
            }
        },
    }
}

fn strip_head<'a>(p: &'a str) -> (r: &'a str)
    ensures
        r@ == stripped_head(p@),
{
    let v = text::chars_of(p);
    let mut from: usize = 0;
    let n: usize = v.len();
    assert(v@.skip(0) == v@);
    while from < n && (v[from] == '/' || (v[from] == '.' && (from == n - 1 || v[from + 1] == '/')))
        invariant
            from <= n == v@.len(),
            v@ == p@,
            stripped_head(p@) == stripped_head(v@.skip(from as int)),
        decreases n - from,
    {
        let ghost rest = v@.skip(from as int);
        if v[from] == '/' {
            assert(rest.drop_first() == v@.skip(from + 1));
            from = from + 1;
        } else if from == n - 1 {
            assert(v@.skip(n as int) == Seq::<char>::empty());
            assert(stripped_head(rest) == Seq::<char>::empty());
            assert(stripped_head(Seq::<char>::empty()) == Seq::<char>::empty());
            from = from + 1;
        } else {
            assert(rest.skip(2) == v@.skip(from + 2));
            from = from + 2;
        }
    }
    assert(p@.subrange(from as int, n as int) == v@.skip(from as int));
    p.substring_char(from, n)
}

fn skip_first<'a>(p: &'a str) -> (r: &'a str)
    ensures
        r@ == past_first(p@),
{
    let v = text::chars_of(p);
    let n: usize = v.len();
    if n > 0 && v[0] == '/' {
        let rest = p.substring_char(1, n);
        assert(rest@ == p@.skip(1));
        return rest;
    }
    let mut at: usize = 0;
    assert(v@.skip(0) == v@);
    while at < n && v[at] != '/'
        invariant
            at <= n == v@.len(),
            v@ == p@,
            first_segment_end(p@) == at + first_segment_end(v@.skip(at as int)),
        decreases n - at,
    {
        assert(v@.skip(at as int).drop_first() == v@.skip(at + 1));
        at = at + 1;
    }
    let rest = p.substring_char(at, n);
    assert(rest@ == p@.skip(at as int));
    rest
}

/// `p` relative to `base`, when it lies under it.
pub fn strip_base<'a>(p: &'a str, base: &str) -> (r: Option<&'a str>)
    ensures
        text::str_opt(r) == relative_to(p@, base@),
{
    let x = components_of(base);
    let y = components_of(p);
    if !prefix_texts(&x, &y) {
        return None;
    }
    let mut rest: &'a str = p;
    let mut left: usize = x.len();
    while left > 0
        invariant
            past(p@, components(base@).len()) == past(rest@, left as nat),
        decreases left,
    {
        rest = strip_head(skip_first(rest));
        left = left - 1;
    }
    Some(strip_tail(rest))
}

/// Whether a segment is a name or `..`: not empty, not `.`, and without a
/// separator.
pub open spec fn plain_segment(s: Seq<char>) -> bool {
    s.len() > 0 && s != dot() && !s.contains('/')
}

/// The absolute path of the segments, written without anything that carries
/// no meaning.
pub open spec fn rooted(segments: Seq<Seq<char>>) -> Seq<char>
    decreases segments.len(),
{
    if segments.len() == 0 {
        Seq::empty()
    } else {
        rooted(segments.drop_last()).push('/') + segments.last()
    }
}

/// Whether a relative path starts with a name or `..`.
pub open spec fn starts_plain(rel: Seq<char>) -> bool {
    rel.len() > 0 && !absolute(rel) && stripped_head(rel) == rel
}

/// The segments, each followed by a separator, and then `rel`.
spec fn led_by(segments: Seq<Seq<char>>, rel: Seq<char>) -> Seq<char>
    decreases segments.len(),
{
    if segments.len() == 0 {
        rel
    } else {
        segments[0].push('/') + led_by(segments.drop_first(), rel)
    }
}

proof fn lemma_rooted_led(segments: Seq<Seq<char>>, rel: Seq<char>)
    ensures
        rooted(segments).push('/') + rel == seq!['/'] + led_by(segments, rel),
    decreases segments.len(),
{
    if segments.len() == 0 {
        assert(rooted(segments).push('/') + rel =~= seq!['/'] + rel);
    } else {
        let front = segments.drop_last();
        let longer = segments.last().push('/') + rel;
        lemma_rooted_led(front, longer);
        lemma_led_by_last(segments, rel);
        assert(rooted(segments).push('/') + rel =~= rooted(front).push('/') + longer);
    }
}

proof fn lemma_led_by_last(segments: Seq<Seq<char>>, rel: Seq<char>)
    requires
        segments.len() > 0,
    ensures
        led_by(segments, rel) == led_by(segments.drop_last(), segments.last().push('/') + rel),
    decreases segments.len(),
{
    let longer = segments.last().push('/') + rel;
    if segments.len() == 1 {
        assert(segments.drop_first() =~= Seq::empty());
        assert(segments.drop_last() =~= Seq::empty());
        assert(led_by(segments.drop_first(), rel) == rel);
    } else {
        let rest = segments.drop_first();
        assert(rest.drop_last() =~= segments.drop_last().drop_first());
        lemma_led_by_last(rest, rel);
    }
}

proof fn lemma_plain_head(s: Seq<char>, t: Seq<char>)
    requires
        plain_segment(s),
    ensures
        stripped_head(s.push('/') + t) == s.push('/') + t,
        first_segment_end(s.push('/') + t) == s.len(),
        !absolute(s.push('/') + t),
    decreases s.len(),
{
    let p = s.push('/') + t;
    assert(p[0] == s[0]);
    assert(s[0] != '/') by {
        assert(s.contains(s[0]));
    }
    if s[0] == '.' {
        if s.len() == 1 {
            assert(s =~= dot());
        }
        assert(p[1] == s[1]);
        assert(s[1] != '/') by {
            assert(s.contains(s[1]));
        }
    }
    lemma_segment_end(s, t);
}

proof fn lemma_segment_end(s: Seq<char>, t: Seq<char>)
    requires
        !s.contains('/'),
    ensures
        first_segment_end(s.push('/') + t) == s.len(),
    decreases s.len(),
{
    let p = s.push('/') + t;
    if s.len() > 0 {
        assert(p[0] == s[0]);
        assert(s[0] != '/') by {
            assert(s.contains(s[0]));
        }
        let rest = s.drop_first();
        assert(!rest.contains('/')) by {
            if rest.contains('/') {
                let k = choose|k: int| 0 <= k < rest.len() && rest[k] == '/';
                assert(s[k + 1] == '/');
            }
        }
        assert(p.drop_first() =~= rest.push('/') + t);
        lemma_segment_end(rest, t);
    } else {
        assert(p[0] == '/');
    }
}

proof fn lemma_led_starts_plain(segments: Seq<Seq<char>>, rel: Seq<char>)
    requires
        forall|i: int| 0 <= i < segments.len() ==> plain_segment(#[trigger] segments[i]),
        starts_plain(rel),
    ensures
        starts_plain(led_by(segments, rel)),
{
    if segments.len() > 0 {
        lemma_plain_head(segments[0], led_by(segments.drop_first(), rel));
    }
}

proof fn lemma_past_led(segments: Seq<Seq<char>>, rel: Seq<char>)
    requires
        forall|i: int| 0 <= i < segments.len() ==> plain_segment(#[trigger] segments[i]),
        starts_plain(rel),
    ensures
        past(led_by(segments, rel), segments.len()) == rel,
    decreases segments.len(),
{
    if segments.len() > 0 {
        let s = segments[0];
        let rest = segments.drop_first();
        let t = led_by(rest, rel);
        let p = s.push('/') + t;
        lemma_plain_head(s, t);
        assert(past_first(p) =~= seq!['/'] + t);
        let tail = seq!['/'] + t;
        assert(tail[0] == '/');
        assert(tail.drop_first() =~= t);
        assert forall|i: int| 0 <= i < rest.len() implies plain_segment(#[trigger] rest[i]) by {
            assert(rest[i] == segments[i + 1]);
        }
        lemma_led_starts_plain(rest, rel);
        assert(stripped_head(tail) == t);
        lemma_past_led(rest, rel);
    }
}

proof fn lemma_split_concat(a: Seq<char>, b: Seq<char>)
    ensures
        text::split(a.push('/') + b, '/') == text::split(a, '/') + text::split(b, '/'),
    decreases b.len(),
{
    let whole = a.push('/') + b;
    text::lemma_split_nonempty(b, '/');
    if b.len() == 0 {
        assert(whole =~= a.push('/'));
        assert(whole.drop_last() =~= a);
        assert(text::split(b, '/') =~= seq![Seq::<char>::empty()]);
        assert(text::split(whole, '/') =~= text::split(a, '/') + text::split(b, '/'));
    } else {
        assert(whole.drop_last() =~= a.push('/') + b.drop_last());
        lemma_split_concat(a, b.drop_last());
        text::lemma_split_nonempty(b.drop_last(), '/');
        assert(text::split(whole, '/') =~= text::split(a, '/') + text::split(b, '/'));
    }
}

proof fn lemma_meaningful_concat(a: Seq<Seq<char>>, b: Seq<Seq<char>>)
    ensures
        meaningful(a + b) == meaningful(a) + meaningful(b),
    decreases b.len(),
{
    if b.len() == 0 {
        assert(a + b =~= a);
        assert(meaningful(a) + meaningful(b) =~= meaningful(a));
    } else {
        assert((a + b).drop_last() =~= a + b.drop_last());
        lemma_meaningful_concat(a, b.drop_last());
        assert(meaningful(a + b) =~= meaningful(a) + meaningful(b));
    }
}

proof fn lemma_split_plain(s: Seq<char>)
    requires
        !s.contains('/'),
    ensures
        text::split(s, '/') == seq![s],
    decreases s.len(),
{
    if s.len() > 0 {
        let front = s.drop_last();
        assert(!front.contains('/')) by {
            if front.contains('/') {
                let k = choose|k: int| 0 <= k < front.len() && front[k] == '/';
                assert(s[k] == '/');
            }
        }
        lemma_split_plain(front);
        assert(s.last() != '/') by {
            assert(s.contains(s[s.len() - 1]));
        }
        assert(front.push(s.last()) =~= s);
        assert(text::split(s, '/') =~= seq![s]);
    } else {
        assert(s =~= Seq::<char>::empty());
    }
}

proof fn lemma_rooted_meaningful(segments: Seq<Seq<char>>)
    requires
        forall|i: int| 0 <= i < segments.len() ==> plain_segment(#[trigger] segments[i]),
    ensures
        meaningful(text::split(rooted(segments), '/')) == segments,
    decreases segments.len(),
{
    if segments.len() == 0 {
        let parts = text::split(rooted(segments), '/');
        assert(parts =~= seq![Seq::<char>::empty()]);
        assert(parts.drop_last() =~= Seq::empty());
        assert(meaningful(parts.drop_last()) =~= Seq::empty());
        assert(meaningful(parts) =~= segments);
    } else {
        let front = segments.drop_last();
        let last = segments.last();
        assert(plain_segment(last)) by {
            assert(last == segments[segments.len() - 1]);
        }
        assert forall|i: int| 0 <= i < front.len() implies plain_segment(#[trigger] front[i]) by {
            assert(front[i] == segments[i]);
        }
        lemma_rooted_meaningful(front);
        lemma_split_concat(rooted(front), last);
        lemma_split_plain(last);
        let parts = text::split(rooted(front), '/') + seq![last];
        assert(parts.drop_last() =~= text::split(rooted(front), '/'));
        assert(parts.last() == last);
        assert(meaningful(parts) =~= segments);
    }
}

/// Stripping a base undoes joining to it: what was joined comes back,
/// without trailing separators, whatever the base.
pub proof fn law_strip_undoes_join(segments: Seq<Seq<char>>, rel: Seq<char>)
    requires
        segments.len() > 0,
        forall|i: int| 0 <= i < segments.len() ==> plain_segment(#[trigger] segments[i]),
        starts_plain(rel),
    ensures
        relative_to(joined(rooted(segments), rel), rooted(segments)) == Some(stripped_tail(rel)),
{
    let base = rooted(segments);
    let last = segments.last();
    assert(plain_segment(last)) by {
        assert(last == segments[segments.len() - 1]);
    }
    assert(base.last() == last.last());
    assert(last.last() != '/') by {
        assert(last.contains(last[last.len() - 1]));
    }
    let p = base.push('/') + rel;
    assert(!absolute(rel));
    assert(joined(base, rel) == p);
    lemma_rooted_led(segments, rel);
    assert(p[0] == '/');
    lemma_base_absolute(segments);
    lemma_rooted_meaningful(segments);
    lemma_split_concat(base, rel);
    lemma_meaningful_concat(text::split(base, '/'), text::split(rel, '/'));
    assert(components(base) =~= seq![slash()] + segments);
    assert(components(p) =~= components(base) + meaningful(text::split(rel, '/')));
    assert(components(base).is_prefix_of(components(p)));
    let led = led_by(segments, rel);
    assert(past_first(p) =~= led);
    lemma_led_starts_plain(segments, rel);
    lemma_past_led(segments, rel);
    assert(past(p, components(base).len()) == past(led, segments.len()));
}

proof fn lemma_base_absolute(segments: Seq<Seq<char>>)
    requires
        segments.len() > 0,
    ensures
        absolute(rooted(segments)),
    decreases segments.len(),
{
    let front = segments.drop_last();
    if front.len() > 0 {
        lemma_base_absolute(front);
        assert(rooted(segments)[0] == rooted(front)[0]);
    } else {
        assert(rooted(front) =~= Seq::<char>::empty());
        assert(rooted(front).push('/')[0] == '/');
    }
}

/// Joining a relative path adds its segments behind those of the base; an
/// absolute path replaces the base.
pub proof fn law_join_adds_segments(base: Seq<char>, rel: Seq<char>)
    requires
        base.len() > 0,
    ensures
        absolute(rel) ==> joined(base, rel) == rel,
        !absolute(rel) ==> meaningful(text::split(joined(base, rel), '/')) == meaningful(
            text::split(base, '/'),
        ) + meaningful(text::split(rel, '/')),
        !absolute(rel) ==> base.is_prefix_of(joined(base, rel)),
        !absolute(rel) ==> rel.is_suffix_of(joined(base, rel)),
{
    if !absolute(rel) {
        let whole = joined(base, rel);
        if base.last() == '/' {
            let b = base.drop_last();
            assert(b.push('/') =~= base);
            assert(whole =~= b.push('/') + rel);
            lemma_split_concat(b, rel);
            let none = Seq::<char>::empty();
            lemma_split_concat(b, none);
            assert(b.push('/') + none =~= base);
            lemma_meaningful_concat(text::split(b, '/'), text::split(none, '/'));
            let nothing = text::split(none, '/');
            assert(nothing.last().len() == 0);
            assert(nothing.drop_last() =~= Seq::<Seq<char>>::empty());
            assert(meaningful(nothing.drop_last()) =~= Seq::<Seq<char>>::empty());
            assert(meaningful(nothing) =~= Seq::<Seq<char>>::empty());
            assert(meaningful(text::split(base, '/')) =~= meaningful(text::split(b, '/')));
            lemma_meaningful_concat(text::split(b, '/'), text::split(rel, '/'));
        } else {
            lemma_split_concat(base, rel);
            lemma_meaningful_concat(text::split(base, '/'), text::split(rel, '/'));
        }
        assert(base =~= whole.subrange(0, base.len() as int));
        assert(rel =~= whole.subrange(whole.len() - rel.len(), whole.len() as int));
    }
}

/// A segment carries meaning unless it is empty or `.`; those that do are
/// kept in order.
pub proof fn law_meaningful_segments(parts: Seq<Seq<char>>, part: Seq<char>)
    ensures
        part.len() == 0 || part == seq!['.'] ==> meaningful(parts.push(part)) == meaningful(parts),
        part.len() > 0 && part != seq!['.'] ==> meaningful(parts.push(part)) == meaningful(
            parts,
        ).push(part),
        meaningful(seq![]).len() == 0,
{
    assert(parts.push(part).drop_last() =~= parts);
}

/// One path is under another exactly when the components of the other are
/// its first ones; so every path is under itself, and what is under a path is
/// under everything that the path is under.
pub proof fn law_under_is_by_components(a: Seq<char>, b: Seq<char>, c: Seq<char>)
    ensures
        under(a, b) <==> components(b).len() <= components(a).len() && forall|i: int|
            0 <= i < components(b).len() ==> components(a)[i] == components(b)[i],
        under(a, a),
        under(a, b) && under(b, c) ==> under(a, c),
        under(a, b) && under(b, a) <==> same_path(a, b),
{
    let x = components(a);
    let y = components(b);
    let z = components(c);
    assert(x =~= x.subrange(0, x.len() as int));
    assert(y =~= y.subrange(0, y.len() as int));
    if y.is_prefix_of(x) {
        assert forall|i: int| 0 <= i < y.len() implies x[i] == y[i] by {
            assert(y == x.subrange(0, y.len() as int));
        }
    }
    if y.len() <= x.len() && forall|i: int| 0 <= i < y.len() ==> x[i] == y[i] {
        assert(y =~= x.subrange(0, y.len() as int));
    }
    if under(a, b) && under(b, c) {
        assert(x.subrange(0, z.len() as int) =~= y.subrange(0, z.len() as int));
    }
    if under(a, b) && under(b, a) {
        assert(x =~= y);
    }
}

/// What is joined to an absolute base lies under it.
pub proof fn law_joined_lies_under_base(base: Seq<char>, rel: Seq<char>)
    requires
        absolute(base),
        !absolute(rel),
    ensures
        under(joined(base, rel), base),
{
    law_join_adds_segments(base, rel);
    let whole = joined(base, rel);
    assert(whole[0] == base[0]);
    assert(components(base) =~= components(whole).subrange(0, components(base).len() as int));
}

/// A name behind a separator is the file name of the path, and what stands
/// before it the parent.
pub proof fn law_parent_and_name(dir: Seq<char>, name: Seq<char>)
    requires
        dir.len() > 0,
        dir.last() != '/',
        stripped_tail(dir) == dir,
        plain_segment(name),
    ensures
        parent(dir.push('/') + name) == Some(dir),
        name != seq!['.', '.'] ==> file_name(dir.push('/') + name) == Some(name),
{
    let p = dir.push('/') + name;
    let n = p.len() as int;
    assert(p[n - 1] == name.last());
    assert(name.last() != '/') by {
        assert(name.contains(name.last()));
    }
    if name.len() == 1 {
        assert(name =~= seq![name[0]]);
        assert(name[0] != '.') by {
            if name[0] == '.' {
                assert(name =~= dot());
            }
        }
    } else {
        assert(p[n - 2] == name[name.len() - 2]);
        assert(name[name.len() - 2] != '/') by {
            assert(name.contains(name[name.len() - 2]));
        }
    }
    assert(stripped_tail(p) == p);
    lemma_last_segment(dir.push('/'), name);
    assert(p.take(dir.len() as int + 1) =~= dir.push('/'));
    assert(dir.push('/').drop_last() =~= dir);
    assert(p.skip(dir.len() as int + 1) =~= name);
    assert(p != slash()) by {
        assert(p.len() > 1);
    }
    assert(stripped_tail(dir.push('/')) == stripped_tail(dir));
}

proof fn lemma_last_segment(front: Seq<char>, name: Seq<char>)
    requires
        front.len() > 0,
        front.last() == '/',
        !name.contains('/'),
    ensures
        last_segment_at(front + name) == front.len(),
    decreases name.len(),
{
    let p = front + name;
    if name.len() == 0 {
        assert(p =~= front);
    } else {
        assert(p.last() == name.last());
        assert(name.contains(name.last()));
        let rest = name.drop_last();
        assert(!rest.contains('/')) by {
            if rest.contains('/') {
                let k = choose|k: int| 0 <= k < rest.len() && rest[k] == '/';
                assert(name[k] == '/');
            }
        }
        assert(p.drop_last() =~= front + rest);
        lemma_last_segment(front, rest);
    }
}

/// The extension of a file is what stands behind the last dot of its name;
/// a name that only begins with a dot has none.
pub proof fn law_extension_is_behind_last_dot(p: Seq<char>, stem: Seq<char>, ext: Seq<char>)
    requires
        !ext.contains('.'),
        file_name(p) == Some(stem.push('.') + ext),
    ensures
        stem.len() > 0 ==> extension(p) == Some(ext),
        stem.len() == 0 ==> extension(p) is None,
{
    let name = stem.push('.') + ext;
    lemma_last_dot(stem.push('.'), ext);
    assert(name.skip(stem.len() as int + 1) =~= ext);
}

proof fn lemma_last_dot(front: Seq<char>, ext: Seq<char>)
    requires
        front.len() > 0,
        front.last() == '.',
        !ext.contains('.'),
    ensures
        last_dot_at(front + ext) == front.len() - 1,
    decreases ext.len(),
{
    let p = front + ext;
    if ext.len() == 0 {
        assert(p =~= front);
    } else {
        assert(p.last() == ext.last());
        assert(ext.contains(ext.last()));
        let rest = ext.drop_last();
        assert(!rest.contains('.')) by {
            if rest.contains('.') {
                let k = choose|k: int| 0 <= k < rest.len() && rest[k] == '.';
                assert(ext[k] == '.');
            }
        }
        assert(p.drop_last() =~= front + rest);
        lemma_last_dot(front, rest);
    }
}

} // verus!
