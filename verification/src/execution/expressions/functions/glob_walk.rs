//! Directory traversal for `hashFiles()`.
//!
//! Traversal is depth-first and pre-order from each search root; a
//! directory's entries are visited in byte-wise name order. Digests are
//! folded in that order, so the order decides the resulting hash.
//!
//! Reading directories is left to the caller: a [`Walk`] names the next
//! path, the caller says what lies there, and the walk answers whether that
//! path is to be visited.

use vstd::prelude::*;

use crate::error::{RunnerError, RunnerErrorView};
use crate::order;
use crate::path;
use crate::text;

verus! {

/// Whether the text holds a character that ends a pattern's literal prefix.
pub open spec fn has_meta(s: Seq<char>) -> bool {
    s.contains('*') || s.contains('?') || s.contains('[')
}

/// `root` extended by the leading components without glob characters.
pub open spec fn literal_from(root: Seq<char>, parts: Seq<Seq<char>>) -> Seq<char>
    decreases parts.len(),
{
    if parts.len() == 0 || has_meta(parts[0]) {
        root
    } else {
        literal_from(path::joined(root, parts[0]), parts.drop_first())
    }
}

/// The literal directory prefix of a pattern.
pub open spec fn literal_root(pattern: Seq<char>) -> Seq<char> {
    literal_from(Seq::empty(), path::components(pattern))
}

/// The literal directory prefix of `pattern`, used as a search root.
///
/// `<ws>/**/Cargo.lock` roots at `<ws>`; a fully literal pattern roots at
/// itself.
pub fn literal_prefix(pattern: &str) -> (r: String)
    ensures
        r@ == literal_root(pattern@),
{
    let parts = path::components_of(pattern);
    let ghost all = text::texts(parts@);
    let mut root = String::new();
    let mut i: usize = 0;
    assert(all.skip(0) == all);
    while i < parts.len()
        invariant
            i <= parts@.len(),
            all == text::texts(parts@),
            all == path::components(pattern@),
            literal_root(pattern@) == literal_from(root@, all.skip(i as int)),
        decreases parts@.len() - i,
    {
        let part = parts[i].as_str();
        assert(all.skip(i as int)[0] == part@);
        if text::has_char(part, '*') || text::has_char(part, '?') || text::has_char(part, '[') {
            return root;
        }
        assert(all.skip(i as int).drop_first() == all.skip(i + 1));
        root = path::join(root.as_str(), part);
        i = i + 1;
    }
    root
}

/// Whether some path of the list is the same path as `p`.
pub open spec fn lists_path(list: Seq<Seq<char>>, p: Seq<char>) -> bool {
    exists|i: int| 0 <= i < list.len() && path::same_path(#[trigger] list[i], p)
}

/// The paths without repeats, in order of first occurrence.
pub open spec fn without_repeats(roots: Seq<Seq<char>>) -> Seq<Seq<char>>
    decreases roots.len(),
{
    if roots.len() == 0 {
        Seq::empty()
    } else {
        let head = without_repeats(roots.drop_last());
        if lists_path(head, roots.last()) {
            head
        } else {
            head.push(roots.last())
        }
    }
}

/// Whether `p` lies strictly inside some path of the list.
pub open spec fn nested(list: Seq<Seq<char>>, p: Seq<char>) -> bool {
    exists|i: int|
        0 <= i < list.len() && !path::same_path(#[trigger] list[i], p) && path::under(p, list[i])
}

/// The first `n` paths of the list that lie inside no other of it.
pub open spec fn outermost(list: Seq<Seq<char>>, n: nat) -> Seq<Seq<char>>
    decreases n,
{
    if n == 0 {
        Seq::empty()
    } else {
        let head = outermost(list, (n - 1) as nat);
        if nested(list, list[n - 1]) {
            head
        } else {
            head.push(list[n - 1])
        }
    }
}

/// The search roots: repeats dropped, then every root inside another one.
pub open spec fn roots_kept(roots: Seq<Seq<char>>) -> Seq<Seq<char>> {
    outermost(without_repeats(roots), without_repeats(roots).len())
}

/// Deduplicates search roots: drops repeats and any root inside another,
/// keeping the declared order.
pub fn search_roots(roots: &Vec<String>) -> (r: Vec<String>)
    ensures
        text::texts(r@) == roots_kept(text::texts(roots@)),
{
    let ghost all = text::texts(roots@);
    let mut unique: Vec<String> = Vec::new();
    let mut i: usize = 0;
    assert(text::texts(unique@) =~= without_repeats(all.take(0)));
    while i < roots.len()
        invariant
            i <= roots@.len(),
            all == text::texts(roots@),
            text::texts(unique@) == without_repeats(all.take(i as int)),
        decreases roots@.len() - i,
    {
        let ghost before = text::texts(unique@);
        proof {
            assert(all.take(i + 1).drop_last() == all.take(i as int));
            assert(all.take(i + 1).last() == roots@[i as int]@);
        }
        let mut seen: bool = false;
        let mut j: usize = 0;
        while j < unique.len()
            invariant
                i < roots@.len(),
                j <= unique@.len(),
                before == text::texts(unique@),
                seen == exists|k: int|
                    0 <= k < j && path::same_path(#[trigger] before[k], roots@[i as int]@),
            decreases unique@.len() - j,
        {
            assert(before[j as int] == unique@[j as int]@);
            if path::is_same(unique[j].as_str(), roots[i].as_str()) {
                seen = true;
            }
            j = j + 1;
        }
        assert(seen == lists_path(before, roots@[i as int]@));
        if !seen {
            unique.push(roots[i].clone());
            assert(text::texts(unique@) =~= before.push(roots@[i as int]@));
        }
        i = i + 1;
    }
    assert(all.take(all.len() as int) == all);
    let ghost list = text::texts(unique@);
    let mut out: Vec<String> = Vec::new();
    let mut n: usize = 0;
    assert(text::texts(out@) =~= outermost(list, 0));
    while n < unique.len()
        invariant
            n <= unique@.len(),
            list == text::texts(unique@),
            text::texts(out@) == outermost(list, n as nat),
        decreases unique@.len() - n,
    {
        let ghost before = text::texts(out@);
        let ghost p = unique@[n as int]@;
        assert(list[n as int] == p);
        let mut inside: bool = false;
        let mut j: usize = 0;
        while j < unique.len()
            invariant
                n < unique@.len(),
                j <= unique@.len(),
                list == text::texts(unique@),
                p == unique@[n as int]@,
                inside == exists|k: int|
                    0 <= k < j && !path::same_path(#[trigger] list[k], p) && path::under(
                        p,
                        list[k],
                    ),
            decreases unique@.len() - j,
        {
            assert(list[j as int] == unique@[j as int]@);
            if !path::is_same(unique[j].as_str(), unique[n].as_str()) && path::is_under(
                unique[n].as_str(),
                unique[j].as_str(),
            ) {
                inside = true;
            }
            j = j + 1;
        }
        assert(inside == nested(list, p));
        if !inside {
            out.push(unique[n].clone());
            assert(text::texts(out@) =~= before.push(p));
        }
        n = n + 1;
    }
    out
}

proof fn lemma_without_repeats(roots: Seq<Seq<char>>)
    ensures
        forall|i: int, j: int|
            0 <= i < j < without_repeats(roots).len() ==> !path::same_path(
                #[trigger] without_repeats(roots)[i],
                #[trigger] without_repeats(roots)[j],
            ),
        forall|i: int|
            0 <= i < roots.len() ==> lists_path(without_repeats(roots), #[trigger] roots[i]),
    decreases roots.len(),
{
    let u = without_repeats(roots);
    if roots.len() > 0 {
        let rest = roots.drop_last();
        let head = without_repeats(rest);
        lemma_without_repeats(rest);
        assert forall|i: int, j: int| 0 <= i < j < u.len() implies !path::same_path(
            #[trigger] u[i],
            #[trigger] u[j],
        ) by {
            if j == head.len() {
                assert(u[i] == head[i]);
                assert(!lists_path(head, roots.last()));
            } else {
                assert(u[i] == head[i] && u[j] == head[j]);
            }
        }
        assert forall|i: int| 0 <= i < roots.len() implies lists_path(u, #[trigger] roots[i]) by {
            if i < rest.len() {
                assert(rest[i] == roots[i]);
                let k = choose|k: int|
                    0 <= k < head.len() && path::same_path(#[trigger] head[k], roots[i]);
                assert(path::same_path(u[k], roots[i]));
            } else if lists_path(head, roots.last()) {
                assert(u == head);
            } else {
                assert(path::same_path(u[head.len() as int], roots[i]));
            }
        }
    }
}

proof fn lemma_outermost(list: Seq<Seq<char>>, n: nat)
    requires
        n <= list.len(),
    ensures
        forall|i: int|
            0 <= i < outermost(list, n).len() ==> list.take(n as int).contains(
                #[trigger] outermost(list, n)[i],
            ) && !nested(list, outermost(list, n)[i]),
        forall|i: int|
            0 <= i < n && !nested(list, #[trigger] list[i]) ==> outermost(list, n).contains(list[i]),
    decreases n,
{
    if n > 0 {
        let m = (n - 1) as nat;
        lemma_outermost(list, m);
        let head = outermost(list, m);
        let now = outermost(list, n);
        assert forall|i: int| 0 <= i < now.len() implies list.take(n as int).contains(
            #[trigger] now[i],
        ) && !nested(list, now[i]) by {
            if i < head.len() {
                assert(now[i] == head[i]);
                let k = choose|k: int| 0 <= k < m && list.take(m as int)[k] == head[i];
                assert(list.take(n as int)[k] == head[i]);
            } else {
                assert(list.take(n as int)[n - 1] == now[i]);
            }
        }
        assert forall|i: int| 0 <= i < n && !nested(list, #[trigger] list[i]) implies now.contains(
            list[i],
        ) by {
            if i < m {
                assert(head.contains(list[i]));
                let k = choose|k: int| 0 <= k < head.len() && head[k] == list[i];
                assert(now[k] == list[i]);
            } else {
                assert(now[head.len() as int] == list[i]);
            }
        }
    }
}

proof fn lemma_under_transitive(a: Seq<char>, b: Seq<char>, c: Seq<char>)
    requires
        path::under(a, b),
        path::under(b, c),
    ensures
        path::under(a, c),
{
    let x = path::components(a);
    let y = path::components(b);
    let z = path::components(c);
    assert(x.subrange(0, z.len() as int) =~= y.subrange(0, z.len() as int));
}

proof fn lemma_some_outermost(list: Seq<Seq<char>>, p: Seq<char>)
    requires
        list.contains(p),
    ensures
        exists|q: Seq<char>|
            list.contains(q) && !nested(list, q) && #[trigger] path::under(p, q),
    decreases path::components(p).len(),
{
    if !nested(list, p) {
        assert(path::components(p).subrange(0, path::components(p).len() as int)
            =~= path::components(p));
        assert(path::under(p, p));
    } else {
        let k = choose|k: int|
            0 <= k < list.len() && !path::same_path(#[trigger] list[k], p) && path::under(
                p,
                list[k],
            );
        let o = list[k];
        let x = path::components(p);
        let y = path::components(o);
        if y.len() == x.len() {
            assert(x.subrange(0, y.len() as int) =~= x);
        }
        lemma_some_outermost(list, o);
        let q = choose|q: Seq<char>|
            list.contains(q) && !nested(list, q) && #[trigger] path::under(o, q);
        lemma_under_transitive(p, o, q);
        assert(path::under(p, q));
    }
}

/// No search root that is kept lies inside another kept one, so no file is
/// reached twice.
pub proof fn law_roots_are_apart(roots: Seq<Seq<char>>, i: int, j: int)
    requires
        0 <= i < roots_kept(roots).len(),
        0 <= j < roots_kept(roots).len(),
        i != j,
    ensures
        !path::under(roots_kept(roots)[i], roots_kept(roots)[j]),
{
    let u = without_repeats(roots);
    let kept = roots_kept(roots);
    lemma_without_repeats(roots);
    lemma_outermost(u, u.len());
    assert(u.take(u.len() as int) =~= u);
    if path::under(kept[i], kept[j]) {
        let p = kept[i];
        let o = kept[j];
        assert(u.contains(p) && u.contains(o));
        let a = choose|a: int| 0 <= a < u.len() && u[a] == p;
        let b = choose|b: int| 0 <= b < u.len() && u[b] == o;
        if path::same_path(o, p) {
            if a < b {
                assert(!path::same_path(u[a], u[b]));
            } else if b < a {
                assert(!path::same_path(u[b], u[a]));
            } else {
                assert(kept[i] == kept[j]);
                lemma_kept_distinct(u, u.len(), i, j);
            }
        } else {
            assert(nested(u, p)) by {
                assert(!path::same_path(u[b], p) && path::under(p, u[b]));
            }
        }
    }
}

proof fn lemma_kept_distinct(list: Seq<Seq<char>>, n: nat, i: int, j: int)
    requires
        n <= list.len(),
        forall|a: int, b: int|
            0 <= a < b < list.len() ==> !path::same_path(#[trigger] list[a], #[trigger] list[b]),
        0 <= i < outermost(list, n).len(),
        0 <= j < outermost(list, n).len(),
        i != j,
    ensures
        outermost(list, n)[i] != outermost(list, n)[j],
    decreases n,
{
    if n > 0 {
        let m = (n - 1) as nat;
        let head = outermost(list, m);
        let now = outermost(list, n);
        lemma_outermost(list, m);
        if i < head.len() && j < head.len() {
            lemma_kept_distinct(list, m, i, j);
        } else {
            let k = if i < head.len() {
                i
            } else {
                j
            };
            assert(now[k] == head[k]);
            let a = choose|a: int| 0 <= a < m && list.take(m as int)[a] == head[k];
            assert(list[a] == head[k]);
            assert(!path::same_path(list[a], list[n - 1]));
        }
    }
}

/// Every search root lies under one that is kept, so no file is lost.
pub proof fn law_roots_are_covered(roots: Seq<Seq<char>>, i: int)
    requires
        0 <= i < roots.len(),
    ensures
        exists|j: int|
            0 <= j < roots_kept(roots).len() && path::under(roots[i], #[trigger] roots_kept(roots)[j]),
{
    let u = without_repeats(roots);
    let kept = roots_kept(roots);
    lemma_without_repeats(roots);
    lemma_outermost(u, u.len());
    assert(lists_path(u, roots[i]));
    let k = choose|k: int| 0 <= k < u.len() && path::same_path(#[trigger] u[k], roots[i]);
    lemma_some_outermost(u, u[k]);
    let q = choose|q: Seq<char>| u.contains(q) && !nested(u, q) && #[trigger] path::under(u[k], q);
    let a = choose|a: int| 0 <= a < u.len() && u[a] == q;
    assert(!nested(u, u[a]));
    assert(kept.contains(q));
    let j = choose|j: int| 0 <= j < kept.len() && kept[j] == q;
    assert(path::under(roots[i], kept[j]));
}

/// What lies at a path.
pub enum Found {
    /// Nothing, or a link that leads nowhere.
    Missing,
    /// A directory with entries of these names.
    Directory(Vec<String>),
    /// Anything else.
    Other,
}

/// What lies at a path, with the names as text.
pub enum FoundView {
    Missing,
    Directory(Seq<Seq<char>>),
    Other,
}

impl View for Found {
    type V = FoundView;

    open spec fn view(&self) -> FoundView {
        match self {
            Found::Missing => FoundView::Missing,
            Found::Directory(names) => FoundView::Directory(text::texts(names@)),
            Found::Other => FoundView::Other,
        }
    }
}

/// The paths of a directory's entries, in visiting order.
pub open spec fn children(dir: Seq<char>, names: Seq<Seq<char>>) -> Seq<Seq<char>> {
    order::ascending(names).map_values(|name: Seq<char>| path::joined(dir, name))
}

/// The paths still to be looked at after `item` was found to be `found`.
/// The last one is next.
pub open spec fn pending_after(
    pending: Seq<Seq<char>>,
    item: Seq<char>,
    found: FoundView,
) -> Seq<Seq<char>> {
    match found {
        FoundView::Directory(names) => pending + children(item, names).reverse(),
        _ => pending,
    }
}

/// A depth-first, pre-order walk in progress.
pub struct Walk {
    pending: Vec<String>,
}

impl View for Walk {
    type V = Seq<Seq<char>>;

    closed spec fn view(&self) -> Seq<Seq<char>> {
        text::texts(self.pending@)
    }
}

/// Starts a walk at `root`.
pub fn walk(root: &str) -> (r: Walk)
    ensures
        r@ == seq![root@],
{
    let mut pending: Vec<String> = Vec::new();
    pending.push(root.to_owned());
    let r = Walk { pending };
    assert(r@ =~= seq![root@]);
    r
}

impl Walk {
    /// A walk with nothing left to look at.
    pub fn finished() -> (r: Walk)
        ensures
            r@ == Seq::<Seq<char>>::empty(),
    {
        let r = Walk { pending: Vec::new() };
        assert(r@ =~= Seq::empty());
        r
    }

    /// The next path to look at; none when the walk is over.
    pub fn next_path(&mut self) -> (r: Option<String>)
        ensures
            match r {
                Some(p) => old(self)@.len() > 0 && p@ == old(self)@.last() && final(self)@
                    == old(self)@.drop_last(),
                None => old(self)@.len() == 0 && final(self)@ == old(self)@,
            },
    {
        let ghost before = self@;
        let r = self.pending.pop();
        match r {
            Some(p) => {
                assert(self@ =~= before.drop_last());
                Some(p)
            },
            None => None,
        }
    }

    /// Takes what lies at `item`: a directory's entries are looked at next,
    /// and anything else that exists is to be visited.
    pub fn settle(&mut self, item: &str, found: Found) -> (visit: bool)
        ensures
            final(self)@ == pending_after(old(self)@, item@, found@),
            visit == (found is Other),
    {
        match found {
            Found::Missing => false,
            Found::Other => true,
            Found::Directory(names) => {
                let sorted = order::sort_names(&names);
                let ghost before = self@;
                let ghost kids = children(item@, text::texts(names@));
                let mut left: usize = sorted.len();
                proof {
                    assert(kids.skip(left as int) =~= Seq::empty());
                    assert(self@ =~= before + kids.skip(left as int).reverse());
                }
                while left > 0
                    invariant
                        left <= sorted@.len(),
                        text::texts(sorted@) == order::ascending(text::texts(names@)),
                        kids == children(item@, text::texts(names@)),
                        kids.len() == sorted@.len(),
                        self@ == before + kids.skip(left as int).reverse(),
                    decreases left,
                {
                    left = left - 1;
                    let ghost mid = self@;
                    let kid = path::join(item, sorted[left].as_str());
                    proof {
                        assert(text::texts(sorted@)[left as int] == sorted@[left as int]@);
                        assert(kid@ == kids[left as int]);
                    }
                    self.pending.push(kid);
                    proof {
                        assert(self@ =~= mid.push(kid@));
                        assert(kids.skip(left as int).reverse() =~= kids.skip(
                            left + 1,
                        ).reverse().push(kid@));
                    }
                }
                assert(kids.skip(0) =~= kids);
                false
            },
        }
    }
}

/// The files a walk visits when what lies at each path is given by `disk`,
/// as far as `fuel` looks go.
pub open spec fn visited(
    disk: spec_fn(Seq<char>) -> FoundView,
    pending: Seq<Seq<char>>,
    fuel: nat,
) -> Option<Seq<Seq<char>>>
    decreases fuel,
{
    if pending.len() == 0 {
        Some(Seq::empty())
    } else if fuel == 0 {
        None
    } else {
        let item = pending.last();
        let found = disk(item);
        match visited(disk, pending_after(pending.drop_last(), item, found), (fuel - 1) as nat) {
            None => None,
            Some(rest) => if found is Other {
                Some(seq![item] + rest)
            } else {
                Some(rest)
            },
        }
    }
}

/// The files under `item` in pre-order, when the tree is at most `depth`
/// directories deep.
pub open spec fn preorder(
    disk: spec_fn(Seq<char>) -> FoundView,
    item: Seq<char>,
    depth: nat,
) -> Option<Seq<Seq<char>>>
    decreases depth, 0nat,
{
    match disk(item) {
        FoundView::Missing => Some(Seq::empty()),
        FoundView::Other => Some(seq![item]),
        FoundView::Directory(names) => if depth == 0 {
            None
        } else {
            let kids = children(item, names);
            preorder_each(disk, kids, kids.len(), (depth - 1) as nat)
        },
    }
}

/// The files under the last `n` of the paths, one path after the other.
pub open spec fn preorder_each(
    disk: spec_fn(Seq<char>) -> FoundView,
    items: Seq<Seq<char>>,
    n: nat,
    depth: nat,
) -> Option<Seq<Seq<char>>>
    decreases depth, 1nat + n,
{
    if n == 0 {
        Some(Seq::empty())
    } else {
        match (
            preorder(disk, items[items.len() - n], depth),
            preorder_each(disk, items, (n - 1) as nat, depth),
        ) {
            (Some(a), Some(b)) => Some(a + b),
            _ => None,
        }
    }
}

proof fn lemma_walk_item(
    disk: spec_fn(Seq<char>) -> FoundView,
    pending: Seq<Seq<char>>,
    item: Seq<char>,
    depth: nat,
    fuel: nat,
) -> (cost: nat)
    requires
        preorder(disk, item, depth) is Some,
        visited(disk, pending, fuel) is Some,
    ensures
        visited(disk, pending.push(item), cost) == Some(
            preorder(disk, item, depth)->0 + visited(disk, pending, fuel)->0,
        ),
    decreases depth, 0nat,
{
    let full = pending.push(item);
    assert(full.drop_last() =~= pending);
    let rest = visited(disk, pending, fuel)->0;
    match disk(item) {
        FoundView::Missing => {
            assert(Seq::<Seq<char>>::empty() + rest =~= rest);
            fuel + 1
        },
        FoundView::Other => fuel + 1,
        FoundView::Directory(names) => {
            let kids = children(item, names);
            let inner = lemma_walk_each(disk, pending, kids, kids.len(), (depth - 1) as nat, fuel);
            assert(kids.skip(0) =~= kids);
            inner + 1
        },
    }
}

proof fn lemma_walk_each(
    disk: spec_fn(Seq<char>) -> FoundView,
    pending: Seq<Seq<char>>,
    items: Seq<Seq<char>>,
    n: nat,
    depth: nat,
    fuel: nat,
) -> (cost: nat)
    requires
        n <= items.len(),
        preorder_each(disk, items, n, depth) is Some,
        visited(disk, pending, fuel) is Some,
    ensures
        visited(disk, pending + items.skip(items.len() - n).reverse(), cost) == Some(
            preorder_each(disk, items, n, depth)->0 + visited(disk, pending, fuel)->0,
        ),
    decreases depth, 1nat + n,
{
    let at = items.len() - n;
    if n == 0 {
        assert(pending + items.skip(at).reverse() =~= pending);
        assert(Seq::<Seq<char>>::empty() + visited(disk, pending, fuel)->0 =~= visited(
            disk,
            pending,
            fuel,
        )->0);
        fuel
    } else {
        let m = (n - 1) as nat;
        let inner = lemma_walk_each(disk, pending, items, m, depth, fuel);
        let below = pending + items.skip(at + 1).reverse();
        assert(items.len() - m == at + 1);
        let cost = lemma_walk_item(disk, below, items[at], depth, inner);
        assert(below.push(items[at]) =~= pending + items.skip(at).reverse());
        let a = preorder(disk, items[at], depth)->0;
        let b = preorder_each(disk, items, m, depth)->0;
        let c = visited(disk, pending, fuel)->0;
        assert((a + b) + c =~= a + (b + c));
        cost
    }
}

/// A walk from `root` over a tree of finite depth ends, and visits the files
/// in depth-first pre-order with each directory's entries in byte-wise name
/// order.
pub proof fn law_walk_is_preorder(
    disk: spec_fn(Seq<char>) -> FoundView,
    root: Seq<char>,
    depth: nat,
)
    requires
        preorder(disk, root, depth) is Some,
    ensures
        exists|fuel: nat| #[trigger] visited(disk, seq![root], fuel) == preorder(disk, root, depth),
{
    let none = Seq::<Seq<char>>::empty();
    assert(visited(disk, none, 0) == Some(none));
    let cost = lemma_walk_item(disk, none, root, depth, 0);
    assert(none.push(root) =~= seq![root]);
    assert(preorder(disk, root, depth)->0 + none =~= preorder(disk, root, depth)->0);
    assert(visited(disk, seq![root], cost) == preorder(disk, root, depth));
}

/// The failure reported when a directory cannot be listed.
pub open spec fn read_dir_failure(dir: Seq<char>, cause: Seq<char>) -> RunnerErrorView {
    RunnerErrorView::Expression("hashFiles read_dir "@ + dir + ": "@ + cause)
}

/// The failure reported when a directory cannot be listed.
pub fn read_dir_error(dir: &str, cause: &str) -> (r: RunnerError)
    ensures
        r@ == read_dir_failure(dir@, cause@),
{
    RunnerError::Expression(text::cat4("hashFiles read_dir ", dir, ": ", cause))
}

/// Whether looking into directories leads from `item` to `file` within
/// `depth` steps, each to an entry of the directory before it.
pub open spec fn leads_to(
    disk: spec_fn(Seq<char>) -> FoundView,
    item: Seq<char>,
    file: Seq<char>,
    depth: nat,
) -> bool
    decreases depth,
{
    if item == file {
        disk(item) is Other
    } else if depth == 0 {
        false
    } else {
        match disk(item) {
            FoundView::Directory(names) => exists|k: int|
                0 <= k < names.len() && leads_to(
                    disk,
                    path::joined(item, #[trigger] names[k]),
                    file,
                    (depth - 1) as nat,
                ),
            _ => false,
        }
    }
}

/// Every file that directories lead to from a search root is visited.
pub proof fn law_every_file_is_visited(
    disk: spec_fn(Seq<char>) -> FoundView,
    root: Seq<char>,
    file: Seq<char>,
    depth: nat,
)
    requires
        leads_to(disk, root, file, depth),
        preorder(disk, root, depth) is Some,
    ensures
        preorder(disk, root, depth)->0.contains(file),
    decreases depth, 0nat,
{
    match disk(root) {
        FoundView::Other => {
            assert(root == file);
            assert(seq![root][0] == file);
        },
        FoundView::Directory(names) => {
            let k = choose|k: int|
                0 <= k < names.len() && leads_to(
                    disk,
                    path::joined(root, #[trigger] names[k]),
                    file,
                    (depth - 1) as nat,
                );
            let kids = children(root, names);
            let sorted = order::ascending(names);
            order::law_ascending_sorts(names);
            assert(sorted.contains(names[k])) by {
                broadcast use vstd::seq_lib::group_to_multiset_ensures;

                assert(names.contains(names[k]));
                assert(names.to_multiset().count(names[k]) > 0);
                assert(sorted.to_multiset().count(names[k]) > 0);
            }
            let j = choose|j: int| 0 <= j < sorted.len() && sorted[j] == names[k];
            assert(kids[j] == path::joined(root, names[k]));
            law_every_file_of_each_is_visited(disk, kids, kids.len(), j, file, (depth - 1) as nat);
        },
        FoundView::Missing => {},
    }
}

/// Every file that directories lead to from one of several paths is visited.
pub proof fn law_every_file_of_each_is_visited(
    disk: spec_fn(Seq<char>) -> FoundView,
    items: Seq<Seq<char>>,
    n: nat,
    j: int,
    file: Seq<char>,
    depth: nat,
)
    requires
        n <= items.len(),
        items.len() - n <= j < items.len(),
        leads_to(disk, items[j], file, depth),
        preorder_each(disk, items, n, depth) is Some,
    ensures
        preorder_each(disk, items, n, depth)->0.contains(file),
    decreases depth, 1nat + n,
{
    let a = preorder(disk, items[items.len() - n], depth)->0;
    let b = preorder_each(disk, items, (n - 1) as nat, depth)->0;
    if j == items.len() - n {
        law_every_file_is_visited(disk, items[j], file, depth);
        let k = choose|k: int| 0 <= k < a.len() && a[k] == file;
        assert((a + b)[k] == file);
    } else {
        law_every_file_of_each_is_visited(disk, items, (n - 1) as nat, j, file, depth);
        let k = choose|k: int| 0 <= k < b.len() && b[k] == file;
        assert((a + b)[a.len() + k] == file);
    }
}

/// The search roots that are kept are among those declared.
pub proof fn law_kept_roots_were_declared(roots: Seq<Seq<char>>, j: int)
    requires
        0 <= j < roots_kept(roots).len(),
    ensures
        roots.contains(roots_kept(roots)[j]),
{
    let u = without_repeats(roots);
    lemma_outermost(u, u.len());
    assert(u.take(u.len() as int) =~= u);
    assert(u.contains(roots_kept(roots)[j]));
    lemma_repeats_are_declared(roots, roots_kept(roots)[j]);
}

proof fn lemma_repeats_are_declared(roots: Seq<Seq<char>>, p: Seq<char>)
    requires
        without_repeats(roots).contains(p),
    ensures
        roots.contains(p),
    decreases roots.len(),
{
    let head = without_repeats(roots.drop_last());
    if head.contains(p) {
        lemma_repeats_are_declared(roots.drop_last(), p);
        let k = choose|k: int| 0 <= k < roots.drop_last().len() && roots.drop_last()[k] == p;
        assert(roots[k] == p);
    } else {
        let k = choose|k: int| 0 <= k < without_repeats(roots).len() && without_repeats(roots)[k] == p;
        if k < head.len() {
            assert(head[k] == p);
        }
        assert(roots.last() == p);
        assert(roots[roots.len() - 1] == p);
    }
}

/// A text holds a glob character exactly when a `*`, a `?` or a `[` stands
/// somewhere in it.
pub proof fn law_glob_characters(s: Seq<char>)
    ensures
        has_meta(s) <==> exists|i: int|
            0 <= i < s.len() && (#[trigger] s[i] == '*' || s[i] == '?' || s[i] == '['),
{
    if s.contains('*') {
        let i = choose|i: int| 0 <= i < s.len() && s[i] == '*';
        assert(s[i] == '*');
    }
    if s.contains('?') {
        let i = choose|i: int| 0 <= i < s.len() && s[i] == '?';
        assert(s[i] == '?');
    }
    if s.contains('[') {
        let i = choose|i: int| 0 <= i < s.len() && s[i] == '[';
        assert(s[i] == '[');
    }
}

/// The literal prefix takes in every component before the first one with a
/// glob character, and none from there on.
pub proof fn law_literal_prefix_stops_at_glob(root: Seq<char>, parts: Seq<Seq<char>>, n: int)
    requires
        0 <= n <= parts.len(),
        forall|i: int| 0 <= i < n ==> !has_meta(#[trigger] parts[i]),
        n < parts.len() ==> has_meta(parts[n]),
    ensures
        literal_from(root, parts) == parts.take(n).fold_left(
            root,
            |dir: Seq<char>, part: Seq<char>| path::joined(dir, part),
        ),
    decreases n,
{
    let step = |dir: Seq<char>, part: Seq<char>| path::joined(dir, part);
    if n == 0 {
        assert(parts.take(0).fold_left(root, step) == root);
    } else {
        let rest = parts.drop_first();
        assert forall|i: int| 0 <= i < n - 1 implies !has_meta(#[trigger] rest[i]) by {
            assert(rest[i] == parts[i + 1]);
        }
        assert(!has_meta(parts[0]));
        law_literal_prefix_stops_at_glob(step(root, parts[0]), rest, n - 1);
        parts.take(n).lemma_fold_left_alt(root, step);
        rest.take(n - 1).lemma_fold_left_alt(step(root, parts[0]), step);
        assert(parts.take(n).drop_first() =~= rest.take(n - 1));
        assert(parts.take(n).subrange(1, n) =~= rest.take(n - 1));
    }
}

/// A directory's entries are looked at before anything that was waiting, in
/// ascending order of their names, each below the directory; anything else
/// adds nothing.
pub proof fn law_entries_come_next(
    pending: Seq<Seq<char>>,
    item: Seq<char>,
    names: Seq<Seq<char>>,
    k: int,
)
    requires
        0 <= k < names.len(),
    ensures
        pending_after(pending, item, FoundView::Missing) == pending,
        pending_after(pending, item, FoundView::Other) == pending,
        pending_after(pending, item, FoundView::Directory(names)).len() == pending.len()
            + names.len(),
        pending_after(pending, item, FoundView::Directory(names)).take(pending.len() as int)
            == pending,
        pending_after(pending, item, FoundView::Directory(names))[pending.len() + names.len() - 1
            - k] == path::joined(item, order::ascending(names)[k]),
{
    order::law_ascending_sorts(names);
    let after = pending_after(pending, item, FoundView::Directory(names));
    let kids = children(item, names);
    assert(kids.len() == names.len());
    assert(kids.reverse().len() == names.len());
    assert(kids.reverse()[names.len() - 1 - k] == kids[k]);
    assert(after.take(pending.len() as int) =~= pending);
}

/// The failure to list a directory names the directory and the cause.
pub proof fn law_read_dir_failure_names_directory(dir: &str, cause: &str, r: RunnerError)
    requires
        call_ensures(read_dir_error, (dir, cause), r),
    ensures
        r@ matches RunnerErrorView::Expression(m) && m == "hashFiles read_dir "@ + dir@ + ": "@
            + cause@,
{
}

/// A pattern is searched for from the path that its components make up to
/// the first one with a glob character.
pub proof fn law_search_begins_at_literal_prefix(pattern: &str, n: int, r: String)
    requires
        call_ensures(literal_prefix, (pattern,), r),
        0 <= n <= path::components(pattern@).len(),
        forall|i: int| 0 <= i < n ==> !has_meta(#[trigger] path::components(pattern@)[i]),
        n < path::components(pattern@).len() ==> has_meta(path::components(pattern@)[n]),
    ensures
        r@ == path::components(pattern@).take(n).fold_left(
            Seq::<char>::empty(),
            |dir: Seq<char>, part: Seq<char>| path::joined(dir, part),
        ),
        literal_root(pattern@) == r@,
{
    law_literal_prefix_stops_at_glob(Seq::empty(), path::components(pattern@), n);
}

/// A walk looks at the path that came last, starting with its root, and is
/// over when none is left. Only what is neither missing nor a directory is
/// visited.
pub proof fn law_walk_looks_at_the_last_path(
    root: &str,
    begun: Walk,
    w: &mut Walk,
    next: Option<String>,
    s: &mut Walk,
    item: &str,
    found: Found,
    visit: bool,
)
    requires
        call_ensures(walk, (root,), begun),
        call_ensures(Walk::next_path, (w,), next),
        call_ensures(Walk::settle, (s, item, found), visit),
    ensures
        begun@.len() == 1 && begun@[0] == root@,
        next is Some <==> old(w)@.len() > 0,
        next matches Some(p) ==> old(w)@ == final(w)@ + seq![p@],
        visit <==> found is Other,
        !(found is Directory) ==> final(s)@ == old(s)@,
        found matches Found::Directory(names) ==> final(s)@.len() == old(s)@.len() + names@.len(),
{
    if next is Some {
        assert(old(w)@ =~= final(w)@ + seq![next->0@]);
    }
    match found {
        Found::Directory(names) => {
            order::law_ascending_sorts(text::texts(names@));
            assert(children(item@, text::texts(names@)).len() == names@.len());
        },
        _ => {},
    }
}

/// Of the roots to search, each is among those declared, no kept one lies in
/// another, and every declared one lies under a kept one.
pub proof fn law_searched_roots(declared: Vec<String>, r: Vec<String>, i: int, j: int, k: int)
    requires
        call_ensures(search_roots, (&declared,), r),
        0 <= i < declared@.len(),
        0 <= j < r@.len(),
        0 <= k < r@.len(),
    ensures
        exists|m: int| 0 <= m < r@.len() && path::under(declared@[i]@, (#[trigger] r@[m])@),
        j != k ==> !path::under(r@[j]@, r@[k]@),
        exists|m: int| 0 <= m < declared@.len() && (#[trigger] declared@[m])@ == r@[j]@,
{
    let all = text::texts(declared@);
    let kept = text::texts(r@);
    assert(kept == roots_kept(all));
    assert(all[i] == declared@[i]@);
    assert(kept[j] == r@[j]@ && kept[k] == r@[k]@);
    law_roots_are_covered(all, i);
    let m = choose|m: int|
        0 <= m < roots_kept(all).len() && path::under(all[i], #[trigger] roots_kept(all)[m]);
    assert(kept[m] == r@[m]@);
    if j != k {
        law_roots_are_apart(all, j, k);
    }
    law_kept_roots_were_declared(all, j);
    let d = choose|d: int| 0 <= d < all.len() && all[d] == kept[j];
    assert(declared@[d]@ == r@[j]@);
}

} // verus!
