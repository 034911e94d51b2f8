//! The fingerprint of a directory tree: its structure and its contents.
//!
//! The entries of each directory are visited in the order of their names,
//! depth first. Every file and link adds its path and its content to one
//! message, whose digest is the fingerprint.

use vstd::prelude::*;

use crate::order;
use crate::outside::{digest, utf8};
use crate::path;
use crate::text;

verus! {

/// An entry of a directory. Its name need not be text.
pub struct TreeEntry {
    pub name: Vec<u8>,
    pub node: TreeNode,
}

/// What an entry is.
pub enum TreeNode {
    /// A directory with its entries, in any order.
    Dir(Vec<TreeEntry>),
    /// A file with the digest of its content.
    File([u8; 32]),
    /// A symbolic link with its target, which need not be text.
    Link(Vec<u8>),
}

/// The fingerprint of a missing directory, and of one without files.
pub open spec fn no_fingerprint() -> Seq<u8> {
    Seq::new(32, |i: int| 0u8)
}

/// The target of a link, as a text of one character per byte: relative to
/// the root when it lies under it, so that the fingerprint does not depend on
/// where the root is.
pub open spec fn portable_target(target: Seq<u8>, root: Seq<char>) -> Seq<char> {
    let shown = text::byte_text(target);
    match path::relative_to(shown, text::byte_text(vstd::utf8::encode_utf8(root))) {
        Some(t) => t,
        None => shown,
    }
}

/// Bytes as they enter the message: as they are when they are text, else with
/// every invalid part replaced.
pub open spec fn legible(bytes: Seq<u8>) -> Seq<u8> {
    if vstd::utf8::valid_utf8(bytes) {
        bytes
    } else {
        vstd::utf8::encode_utf8(utf8::utf8_lossy(bytes))
    }
}

/// What a path adds to the message ahead of its content.
pub open spec fn path_bytes(rel: Seq<u8>, tag: u8) -> Seq<u8> {
    legible(rel).push(0u8).push(tag)
}

/// What a file adds to the message.
pub open spec fn file_bytes(rel: Seq<u8>, content: Seq<u8>) -> Seq<u8> {
    (path_bytes(rel, 70u8) + content).push(0u8)
}

/// What a link adds to the message.
pub open spec fn link_bytes(rel: Seq<u8>, target: Seq<char>) -> Seq<u8> {
    (path_bytes(rel, 76u8) + legible(text::text_bytes(target))).push(0u8)
}

/// An entry's name as a text of one character per byte.
pub open spec fn called(e: TreeEntry) -> Seq<char> {
    text::byte_text(e.name@)
}

/// The names of the entries.
pub open spec fn names(entries: Seq<TreeEntry>) -> Seq<Seq<char>> {
    entries.map_values(|e: TreeEntry| called(e))
}

/// The place of the entry with the name that `k` others with that name come
/// before, or the number of entries.
pub open spec fn place(entries: Seq<TreeEntry>, name: Seq<char>, k: nat) -> int
    decreases entries.len(),
{
    if entries.len() == 0 {
        0
    } else if called(entries[0]) != name {
        1 + place(entries.drop_first(), name, k)
    } else if k == 0 {
        0
    } else {
        1 + place(entries.drop_first(), name, (k - 1) as nat)
    }
}

/// How often a name occurs in a list.
pub open spec fn times(listed: Seq<Seq<char>>, name: Seq<char>) -> nat {
    listed.to_multiset().count(name)
}

/// The place of the entry that the last of the listed names stands for: the
/// second time that a name is listed it stands for the second entry of that
/// name, and so on.
pub open spec fn last_place(entries: Seq<TreeEntry>, listed: Seq<Seq<char>>) -> int {
    place(entries, listed.last(), times(listed.drop_last(), listed.last()))
}

/// A name below a path; the path of the root itself is empty.
pub open spec fn below(rel: Seq<u8>, name: Seq<u8>) -> Seq<u8> {
    if rel.len() == 0 {
        name
    } else {
        rel.push(47u8) + name
    }
}

/// What an entry at `rel` adds to the message.
pub open spec fn node_message(node: TreeNode, rel: Seq<u8>, root: Seq<char>) -> Seq<u8>
    decreases node, 0nat,
{
    match node {
        TreeNode::Dir(entries) => {
            proof {
                assert(decreases_to!(node => entries));
                assert(decreases_to!(entries => entries@));
            }
            entries_message(entries@, order::ascending(names(entries@)), rel, root)
        },
        TreeNode::File(content) => file_bytes(rel, content@),
        TreeNode::Link(target) => link_bytes(rel, portable_target(target@, root)),
    }
}

/// What the named entries of the directory at `rel` add to the message.
pub open spec fn entries_message(
    entries: Seq<TreeEntry>,
    listed: Seq<Seq<char>>,
    rel: Seq<u8>,
    root: Seq<char>,
) -> Seq<u8>
    decreases entries, listed.len(),
{
    if listed.len() == 0 {
        Seq::empty()
    } else {
        let at = last_place(entries, listed);
        let before = entries_message(entries, listed.drop_last(), rel, root);
        if 0 <= at < entries.len() {
            proof {
                assert(decreases_to!(entries => entries[at]));
                assert(decreases_to!(entries[at] => entries[at].node));
            }
            before + node_message(entries[at].node, below(rel, entries[at].name@), root)
        } else {
            before
        }
    }
}

/// What the tree under a root adds up to.
pub open spec fn tree_message(entries: Seq<TreeEntry>, root: Seq<char>) -> Seq<u8> {
    entries_message(entries, order::ascending(names(entries)), Seq::empty(), root)
}

/// The fingerprint of a tree: the digest of its message, or nothing but
/// zeros when there is no tree or no file in it.
pub open spec fn fingerprint(tree: Option<Seq<TreeEntry>>, root: Seq<char>) -> Seq<u8> {
    match tree {
        Some(entries) => if tree_message(entries, root).len() == 0 {
            no_fingerprint()
        } else {
            digest::blake3_hash(tree_message(entries, root))
        },
        None => no_fingerprint(),
    }
}

/// The digest of a file's content.
pub fn hash_file(content: &Vec<u8>) -> (r: [u8; 32])
    ensures
        r@ == digest::blake3_hash(content@),
{
    digest::blake3_of(content)
}

fn push_all(out: &mut Vec<u8>, bytes: &[u8])
    ensures
        final(out)@ == old(out)@ + bytes@,
{
    let ghost before = out@;
    let mut i: usize = 0;
    assert(before + bytes@.take(0) =~= before);
    while i < bytes.len()
        invariant
            i <= bytes@.len(),
            out@ == before + bytes@.take(i as int),
        decreases bytes@.len() - i,
    {
        out.push(bytes[i]);
        assert(out@ =~= before + bytes@.take(i + 1));
        i = i + 1;
    }
    assert(bytes@.take(bytes@.len() as int) =~= bytes@);
}

/// Adds bytes to the message, every part that is no text replaced.
fn push_legible(out: &mut Vec<u8>, bytes: &[u8])
    ensures
        final(out)@ == old(out)@ + legible(bytes@),
{
    let shown = utf8::decode_lossy(bytes);
    push_all(out, shown.as_str().as_bytes());
}

/// The names of the entries in order.
fn sorted_entries(entries: &Vec<TreeEntry>) -> (r: Vec<String>)
    ensures
        text::texts(r@) == order::ascending(names(entries@)),
{
    let ghost all = names(entries@);
    let mut out: Vec<String> = Vec::new();
    let mut i: usize = 0;
    assert(text::texts(out@) =~= all.take(0));
    while i < entries.len()
        invariant
            i <= entries@.len(),
            all == names(entries@),
            text::texts(out@) == all.take(i as int),
        decreases entries@.len() - i,
    {
        let ghost before = text::texts(out@);
        let name: String = text::text_of_bytes(entries[i].name.as_slice());
        out.push(name);
        assert(text::texts(out@) =~= before.push(name@));
        assert(all.take(i + 1) =~= all.take(i as int).push(all[i as int]));
        i = i + 1;
    }
    assert(all.take(all.len() as int) =~= all);
    order::sort_names(&out)
}

proof fn lemma_none_listed(name: Seq<char>)
    ensures
        times(Seq::empty(), name) == 0,
{
    vstd::seq_lib::to_multiset_contains(Seq::<Seq<char>>::empty(), name);
}

/// How often the name at `at` is listed before.
fn times_before(listed: &Vec<String>, at: usize) -> (r: usize)
    requires
        at < listed@.len(),
    ensures
        r == times(text::texts(listed@).take(at as int), listed@[at as int]@),
{
    let ghost all = text::texts(listed@);
    let ghost name = listed@[at as int]@;
    let mut k: usize = 0;
    let mut i: usize = 0;
    proof {
        assert(all.take(0) =~= Seq::empty());
        lemma_none_listed(name);
    }
    while i < at
        invariant
            i <= at,
            at < listed@.len(),
            all == text::texts(listed@),
            name == listed@[at as int]@,
            k <= i,
            k == times(all.take(i as int), name),
        decreases at - i,
    {
        proof {
            assert(all.take(i + 1) =~= all.take(i as int).push(all[i as int]));
            vstd::seq_lib::to_multiset_build(all.take(i as int), all[i as int]);
        }
        if text::same(listed[i].as_str(), listed[at].as_str()) {
            k = k + 1;
        }
        i = i + 1;
    }
    k
}

fn place_of(entries: &Vec<TreeEntry>, name: &str, k: usize) -> (r: usize)
    ensures
        r == place(entries@, name@, k as nat),
        r <= entries@.len(),
{
    let ghost all = entries@;
    let mut left: usize = k;
    let mut i: usize = 0;
    assert(all.skip(0) =~= all);
    while i < entries.len()
        invariant
            i <= entries@.len(),
            all == entries@,
            place(all, name@, k as nat) == i + place(all.skip(i as int), name@, left as nat),
        decreases entries@.len() - i,
    {
        assert(all.skip(i as int)[0] == all[i as int]);
        assert(all.skip(i as int).drop_first() =~= all.skip(i + 1));
        let shown = text::text_of_bytes(entries[i].name.as_slice());
        if text::same(shown.as_str(), name) {
            if left == 0 {
                return i;
            }
            left = left - 1;
        }
        i = i + 1;
    }
    i
}

fn name_below(rel: &Vec<u8>, name: &Vec<u8>) -> (r: Vec<u8>)
    ensures
        r@ == below(rel@, name@),
{
    let mut out: Vec<u8> = Vec::new();
    if rel.len() > 0 {
        push_all(&mut out, rel.as_slice());
        out.push(47);
    }
    push_all(&mut out, name.as_slice());
    assert(out@ =~= below(rel@, name@));
    out
}

/// The target of a link as it enters the message.
fn target_of(target: &Vec<u8>, root: &str) -> (r: Vec<u8>)
    ensures
        r@ == text::text_bytes(portable_target(target@, root@)),
{
    let shown = text::text_of_bytes(target.as_slice());
    let base = text::text_of_bytes(root.as_bytes());
    match path::strip_base(shown.as_str(), base.as_str()) {
        Some(t) => text::narrowed(t),
        None => text::narrowed(shown.as_str()),
    }
}

/// Adds one entry to the message.
fn fold_entry(node: &TreeNode, rel: &Vec<u8>, root: &str, out: &mut Vec<u8>)
    ensures
        final(out)@ == old(out)@ + node_message(*node, rel@, root@),
    decreases *node,
{
    let ghost before = out@;
    match node {
        TreeNode::Dir(entries) => {
            proof {
                assert(decreases_to!(node => entries));
                assert(decreases_to!(entries => entries@));
            }
            fold_dir(entries, rel, root, out);
        },
        TreeNode::File(content) => {
            push_legible(out, rel.as_slice());
            out.push(0);
            out.push(70);
            push_all(out, content.as_slice());
            out.push(0);
            assert(out@ =~= before + file_bytes(rel@, content@));
        },
        TreeNode::Link(target) => {
            let portable: Vec<u8> = target_of(target, root);
            push_legible(out, rel.as_slice());
            out.push(0);
            out.push(76);
            push_legible(out, portable.as_slice());
            out.push(0);
            assert(out@ =~= before + link_bytes(rel@, portable_target(target@, root@)));
        },
    }
}

/// Adds the entries of a directory to the message, in the order of their
/// names.
fn fold_dir(entries: &Vec<TreeEntry>, rel: &Vec<u8>, root: &str, out: &mut Vec<u8>)
    ensures
        final(out)@ == old(out)@ + entries_message(
            entries@,
            order::ascending(names(entries@)),
            rel@,
            root@,
        ),
    decreases entries@,
{
    let ghost before = out@;
    let listed = sorted_entries(entries);
    let ghost all = text::texts(listed@);
    let mut i: usize = 0;
    assert(before + entries_message(entries@, all.take(0), rel@, root@) =~= before);
    while i < listed.len()
        invariant
            i <= listed@.len(),
            all == text::texts(listed@),
            out@ == before + entries_message(entries@, all.take(i as int), rel@, root@),
        decreases listed@.len() - i,
    {
        let ghost now = all.take(i + 1);
        let ghost done = entries_message(entries@, all.take(i as int), rel@, root@);
        assert(now.drop_last() =~= all.take(i as int));
        assert(now.last() == listed@[i as int]@);
        let k: usize = times_before(&listed, i);
        let at: usize = place_of(entries, listed[i].as_str(), k);
        assert(at == last_place(entries@, now));
        if at < entries.len() {
            let inner = name_below(rel, &entries[at].name);
            proof {
                assert(decreases_to!(entries@ => entries@[at as int]));
                assert(decreases_to!(entries@[at as int] => entries@[at as int].node));
            }
            fold_entry(&entries[at].node, &inner, root, out);
            proof {
                let piece = node_message(entries@[at as int].node, inner@, root@);
                assert(entries_message(entries@, now, rel@, root@) == done + piece);
                assert(before + done + piece =~= before + (done + piece));
            }
        }
        i = i + 1;
    }
    assert(all.take(all.len() as int) =~= all);
}

/// The fingerprint of the tree under `root`; none stands for a missing
/// directory.
pub fn fingerprint_dir(tree: Option<&Vec<TreeEntry>>, root: &str) -> (r: [u8; 32])
    ensures
        r@ == fingerprint(
            match tree {
                Some(entries) => Some(entries@),
                None => None,
            },
            root@,
        ),
{
    let zeros: [u8; 32] = [0u8; 32];
    assert(zeros@ =~= no_fingerprint());
    match tree {
        None => zeros,
        Some(entries) => {
            let mut message: Vec<u8> = Vec::new();
            let top: Vec<u8> = Vec::new();
            fold_dir(entries, &top, root, &mut message);
            assert(message@ =~= tree_message(entries@, root@));
            if message.len() == 0 {
                zeros
            } else {
                digest::blake3_of(&message)
            }
        },
    }
}

/// One more name at the front of a list.
proof fn lemma_front(entries: Seq<TreeEntry>, name: Seq<char>)
    requires
        entries.len() > 0,
    ensures
        times(names(entries), name) == times(names(entries.drop_first()), name) + if called(
            entries[0],
        ) == name {
            1nat
        } else {
            0nat
        },
{
    let rest = names(entries.drop_first());
    assert(names(entries) =~= rest.insert(0, called(entries[0])));
    vstd::seq_lib::to_multiset_insert(rest, 0, called(entries[0]));
}

proof fn lemma_place(entries: Seq<TreeEntry>, name: Seq<char>, k: nat)
    ensures
        0 <= place(entries, name, k) <= entries.len(),
        place(entries, name, k) < entries.len() <==> k < times(names(entries), name),
        place(entries, name, k) < entries.len() ==> {
            &&& called(entries[place(entries, name, k)]) == name
            &&& times(names(entries.take(place(entries, name, k))), name) == k
        },
    decreases entries.len(),
{
    lemma_none_listed(name);
    if entries.len() == 0 {
        assert(names(entries) =~= Seq::empty());
    } else {
        let rest = entries.drop_first();
        let here = called(entries[0]) == name;
        lemma_front(entries, name);
        if here && k == 0 {
            assert(names(entries.take(0)) =~= Seq::empty());
        } else {
            let next = if here {
                (k - 1) as nat
            } else {
                k
            };
            lemma_place(rest, name, next);
            let p = place(entries, name, k);
            if p < entries.len() {
                assert(rest[p - 1] == entries[p]);
                assert(entries.take(p).drop_first() =~= rest.take(p - 1));
                lemma_front(entries.take(p), name);
            }
        }
    }
}

/// The place of the entry that the `i`-th listed name stands for.
pub open spec fn place_in(entries: Seq<TreeEntry>, listed: Seq<Seq<char>>, i: int) -> int {
    last_place(entries, listed.take(i + 1))
}

proof fn lemma_place_in(entries: Seq<TreeEntry>, i: int)
    requires
        0 <= i < entries.len(),
    ensures
        ({
            let listed = order::ascending(names(entries));
            let p = place_in(entries, listed, i);
            &&& listed.len() == entries.len()
            &&& 0 <= p < entries.len()
            &&& called(entries[p]) == listed[i]
            &&& times(names(entries.take(p)), listed[i]) == times(listed.take(i), listed[i])
        }),
{
    let listed = order::ascending(names(entries));
    order::law_ascending_sorts(names(entries));
    let name = listed[i];
    assert(listed.take(i + 1).drop_last() =~= listed.take(i));
    assert(listed.take(i + 1).last() == name);
    vstd::seq_lib::to_multiset_build(listed.take(i), name);
    assert(listed.take(i + 1) =~= listed.take(i).push(name));
    assert(listed =~= listed.take(i + 1) + listed.skip(i + 1));
    vstd::seq_lib::lemma_multiset_commutative(listed.take(i + 1), listed.skip(i + 1));
    lemma_place(entries, name, times(listed.take(i), name));
}

/// Every entry of a directory counts once, whatever the names are: the
/// listed names stand for as many different entries as there are.
pub proof fn law_every_entry_counts_once(entries: Seq<TreeEntry>, i: int, j: int)
    requires
        0 <= i < j < entries.len(),
    ensures
        ({
            let listed = order::ascending(names(entries));
            &&& listed.len() == entries.len()
            &&& 0 <= place_in(entries, listed, i) < entries.len()
            &&& 0 <= place_in(entries, listed, j) < entries.len()
            &&& called(entries[place_in(entries, listed, i)]) == listed[i]
            &&& called(entries[place_in(entries, listed, j)]) == listed[j]
            &&& place_in(entries, listed, i) != place_in(entries, listed, j)
        }),
{
    let listed = order::ascending(names(entries));
    lemma_place_in(entries, i);
    lemma_place_in(entries, j);
    if listed[i] == listed[j] {
        let name = listed[i];
        let between = listed.subrange(i + 1, j);
        assert(listed.take(j) =~= listed.take(i + 1) + between);
        vstd::seq_lib::lemma_multiset_commutative(listed.take(i + 1), between);
        assert(listed.take(i + 1) =~= listed.take(i).push(name));
        vstd::seq_lib::to_multiset_build(listed.take(i), name);
    }
}

/// Whether two listings show one directory: the same names, and the same
/// thing under each.
pub open spec fn same_directory(a: Seq<TreeEntry>, b: Seq<TreeEntry>) -> bool {
    &&& names(a).to_multiset() == names(b).to_multiset()
    &&& forall|i: int, j: int|
        0 <= i < a.len() && 0 <= j < b.len() && called(#[trigger] a[i]) == called(
            #[trigger] b[j],
        ) ==> a[i].node == b[j].node
}

proof fn lemma_listing_order(
    a: Seq<TreeEntry>,
    b: Seq<TreeEntry>,
    listed: Seq<Seq<char>>,
    rel: Seq<u8>,
    root: Seq<char>,
)
    requires
        same_directory(a, b),
    ensures
        entries_message(a, listed, rel, root) == entries_message(b, listed, rel, root),
    decreases listed.len(),
{
    if listed.len() > 0 {
        let name = listed.last();
        let k = times(listed.drop_last(), name);
        lemma_listing_order(a, b, listed.drop_last(), rel, root);
        lemma_place(a, name, k);
        lemma_place(b, name, k);
        let i = last_place(a, listed);
        let j = last_place(b, listed);
        if i < a.len() {
            assert(called(a[i]) == called(b[j]));
            text::law_byte_text_injective(a[i].name@, b[j].name@);
            assert(a[i].node == b[j].node);
        }
    }
}

/// The order in which a directory is listed does not matter to the
/// fingerprint.
pub proof fn law_listing_order_does_not_matter(
    a: Seq<TreeEntry>,
    b: Seq<TreeEntry>,
    root: Seq<char>,
)
    requires
        same_directory(a, b),
    ensures
        fingerprint(Some(a), root) == fingerprint(Some(b), root),
{
    order::law_ascending_ignores_listing_order(names(a), names(b));
    lemma_listing_order(a, b, order::ascending(names(a)), Seq::empty(), root);
}

/// Whether two entries show the same, one under `at` and the other under
/// `to`: the same files, and links that lead to the same place from their
/// own roots.
pub open spec fn alike(a: TreeNode, at: Seq<char>, b: TreeNode, to: Seq<char>) -> bool
    decreases a, 0nat,
{
    match (a, b) {
        (TreeNode::Dir(x), TreeNode::Dir(y)) => {
            proof {
                assert(decreases_to!(a => x));
                assert(decreases_to!(x => x@));
            }
            entries_alike(x@, at, y@, to, x@.len())
        },
        (TreeNode::File(x), TreeNode::File(y)) => x@ == y@,
        (TreeNode::Link(x), TreeNode::Link(y)) => portable_target(x@, at) == portable_target(
            y@,
            to,
        ),
        _ => false,
    }
}

/// Whether two directories have the same names, and their first `n` entries
/// show the same.
pub open spec fn entries_alike(
    a: Seq<TreeEntry>,
    at: Seq<char>,
    b: Seq<TreeEntry>,
    to: Seq<char>,
    n: nat,
) -> bool
    decreases a, n,
{
    &&& names(a) == names(b)
    &&& n > 0 ==> {
        let i = n - 1;
        &&& i < a.len()
        &&& {
            proof {
                assert(decreases_to!(a => a[i]));
                assert(decreases_to!(a[i] => a[i].node));
            }
            alike(a[i].node, at, b[i].node, to)
        }
        &&& entries_alike(a, at, b, to, i as nat)
    }
}

proof fn lemma_place_by_name(a: Seq<TreeEntry>, b: Seq<TreeEntry>, name: Seq<char>, k: nat)
    requires
        names(a) == names(b),
    ensures
        place(a, name, k) == place(b, name, k),
        a.len() == b.len(),
    decreases a.len(),
{
    assert(names(a).len() == a.len());
    assert(names(b).len() == b.len());
    if a.len() > 0 {
        assert(names(a)[0] == called(a[0]));
        assert(names(b)[0] == called(b[0]));
        assert(names(a.drop_first()) =~= names(a).drop_first());
        assert(names(b.drop_first()) =~= names(b).drop_first());
        lemma_place_by_name(a.drop_first(), b.drop_first(), name, k);
        if k > 0 {
            lemma_place_by_name(a.drop_first(), b.drop_first(), name, (k - 1) as nat);
        }
    }
}

proof fn lemma_entry_alike(
    a: Seq<TreeEntry>,
    at: Seq<char>,
    b: Seq<TreeEntry>,
    to: Seq<char>,
    n: nat,
    i: int,
)
    requires
        entries_alike(a, at, b, to, n),
        0 <= i < n,
        n <= a.len(),
    ensures
        alike(a[i].node, at, b[i].node, to),
    decreases n,
{
    if i < n - 1 {
        lemma_entry_alike(a, at, b, to, (n - 1) as nat, i);
    }
}

proof fn lemma_alike_entries(
    a: Seq<TreeEntry>,
    at: Seq<char>,
    b: Seq<TreeEntry>,
    to: Seq<char>,
    listed: Seq<Seq<char>>,
    rel: Seq<u8>,
)
    requires
        entries_alike(a, at, b, to, a.len()),
    ensures
        entries_message(a, listed, rel, at) == entries_message(b, listed, rel, to),
    decreases a, listed.len(),
{
    if listed.len() > 0 {
        let name = listed.last();
        let k = times(listed.drop_last(), name);
        lemma_alike_entries(a, at, b, to, listed.drop_last(), rel);
        lemma_place_by_name(a, b, name, k);
        lemma_place(a, name, k);
        lemma_place(b, name, k);
        let i = last_place(a, listed);
        if i < a.len() {
            lemma_entry_alike(a, at, b, to, a.len(), i);
            text::law_byte_text_injective(a[i].name@, b[i].name@);
            assert(decreases_to!(a => a[i]));
            assert(decreases_to!(a[i] => a[i].node));
            lemma_alike_nodes(a[i].node, at, b[i].node, to, below(rel, a[i].name@));
        }
    }
}

proof fn lemma_alike_nodes(
    a: TreeNode,
    at: Seq<char>,
    b: TreeNode,
    to: Seq<char>,
    rel: Seq<u8>,
)
    requires
        alike(a, at, b, to),
    ensures
        node_message(a, rel, at) == node_message(b, rel, to),
    decreases a, 0nat,
{
    match (a, b) {
        (TreeNode::Dir(x), TreeNode::Dir(y)) => {
            assert(decreases_to!(a => x));
            assert(decreases_to!(x => x@));
            lemma_alike_entries(x@, at, y@, to, order::ascending(names(x@)), rel);
        },
        _ => {},
    }
}

/// Two trees that show the same have the same fingerprint, wherever their
/// roots are.
pub proof fn law_fingerprint_is_portable(
    a: Seq<TreeEntry>,
    at: Seq<char>,
    b: Seq<TreeEntry>,
    to: Seq<char>,
)
    requires
        entries_alike(a, at, b, to, a.len()),
    ensures
        fingerprint(Some(a), at) == fingerprint(Some(b), to),
{
    lemma_alike_entries(a, at, b, to, order::ascending(names(a)), Seq::empty());
}

/// What lies at a path of a tree, given as the names on the way, each as a
/// text of one character per byte; none when nothing does.
pub open spec fn node_at(entries: Seq<TreeEntry>, names_down: Seq<Seq<char>>) -> Option<TreeNode>
    decreases names_down.len(),
{
    if names_down.len() == 0 {
        None
    } else {
        let i = place(entries, names_down[0], 0);
        if 0 <= i < entries.len() {
            if names_down.len() == 1 {
                Some(entries[i].node)
            } else {
                match entries[i].node {
                    TreeNode::Dir(inner) => node_at(inner@, names_down.drop_first()),
                    _ => None,
                }
            }
        } else {
            None
        }
    }
}

/// A file with the digest of its content, or a link with where it leads.
pub enum Item {
    File(Seq<u8>),
    Link(Seq<char>),
}

/// The file or link at a path of a tree; none when there is no entry, or a
/// directory.
pub open spec fn item_at(
    entries: Seq<TreeEntry>,
    root: Seq<char>,
    names_down: Seq<Seq<char>>,
) -> Option<Item> {
    match node_at(entries, names_down) {
        Some(TreeNode::File(content)) => Some(Item::File(content@)),
        Some(TreeNode::Link(target)) => Some(Item::Link(portable_target(target@, root))),
        _ => None,
    }
}

/// Whether no directory of a tree lists a name twice.
pub open spec fn names_once(entries: Seq<TreeEntry>) -> bool {
    &&& names(entries).no_duplicates()
    &&& forall|names_down: Seq<Seq<char>>|
        match #[trigger] node_at(entries, names_down) {
            Some(TreeNode::Dir(inner)) => names(inner@).no_duplicates(),
            _ => true,
        }
}

/// Whether two trees, one under `at` and the other under `to`, hold the same
/// files and links at the same paths.
pub open spec fn same_items(
    a: Seq<TreeEntry>,
    at: Seq<char>,
    b: Seq<TreeEntry>,
    to: Seq<char>,
) -> bool {
    forall|names_down: Seq<Seq<char>>|
        #![trigger item_at(a, at, names_down)]
        #![trigger item_at(b, to, names_down)]
        item_at(a, at, names_down) == item_at(b, to, names_down)
}

/// Whether a file or link lies at or under an entry's name.
pub open spec fn bears(entries: Seq<TreeEntry>, root: Seq<char>, name: Seq<char>) -> bool {
    exists|names_down: Seq<Seq<char>>|
        names_down.len() > 0 && names_down[0] == name && (#[trigger] item_at(
            entries,
            root,
            names_down,
        )) is Some
}

/// Going down into a directory: what lies at a path below it.
proof fn lemma_go_down(
    entries: Seq<TreeEntry>,
    root: Seq<char>,
    name: Seq<char>,
    inner: Seq<TreeEntry>,
    down: Seq<Seq<char>>,
)
    requires
        0 <= place(entries, name, 0) < entries.len(),
        entries[place(entries, name, 0)].node matches TreeNode::Dir(x) && x@ == inner,
        down.len() > 0,
    ensures
        node_at(entries, seq![name] + down) == node_at(inner, down),
        item_at(entries, root, seq![name] + down) == item_at(inner, root, down),
{
    assert((seq![name] + down).drop_first() =~= down);
    assert((seq![name] + down)[0] == name);
}

proof fn lemma_inner_names_once(
    entries: Seq<TreeEntry>,
    name: Seq<char>,
    inner: Seq<TreeEntry>,
)
    requires
        names_once(entries),
        0 <= place(entries, name, 0) < entries.len(),
        entries[place(entries, name, 0)].node matches TreeNode::Dir(x) && x@ == inner,
    ensures
        names_once(inner),
{
    assert(node_at(entries, seq![name]) == Some(entries[place(entries, name, 0)].node));
    assert forall|down: Seq<Seq<char>>|
        match #[trigger] node_at(inner, down) {
            Some(TreeNode::Dir(x)) => names(x@).no_duplicates(),
            _ => true,
        } by {
        if down.len() > 0 {
            lemma_go_down(entries, Seq::empty(), name, inner, down);
            let there = node_at(entries, seq![name] + down);
            assert(there == node_at(inner, down));
        }
    }
}

/// Whether an entry is a directory under which there are only directories.
pub open spec fn bare(node: TreeNode) -> bool
    decreases node, 0nat,
{
    match node {
        TreeNode::Dir(entries) => {
            proof {
                assert(decreases_to!(node => entries));
                assert(decreases_to!(entries => entries@));
            }
            bare_entries(entries@, entries@.len())
        },
        _ => false,
    }
}

/// Whether the first `n` entries are directories under which there are only
/// directories.
pub open spec fn bare_entries(entries: Seq<TreeEntry>, n: nat) -> bool
    decreases entries, n,
{
    n > 0 ==> {
        let i = n - 1;
        &&& i < entries.len()
        &&& {
            proof {
                assert(decreases_to!(entries => entries[i]));
                assert(decreases_to!(entries[i] => entries[i].node));
            }
            bare(entries[i].node)
        }
        &&& bare_entries(entries, i as nat)
    }
}

proof fn lemma_bare_entry(entries: Seq<TreeEntry>, n: nat, i: int)
    requires
        bare_entries(entries, n),
        0 <= i < n,
    ensures
        bare(entries[i].node),
    decreases n,
{
    if i < n - 1 {
        lemma_bare_entry(entries, (n - 1) as nat, i);
    }
}

proof fn lemma_bare_entries_message(
    entries: Seq<TreeEntry>,
    listed: Seq<Seq<char>>,
    rel: Seq<u8>,
    root: Seq<char>,
)
    requires
        bare_entries(entries, entries.len()),
    ensures
        entries_message(entries, listed, rel, root) == Seq::<u8>::empty(),
    decreases entries, listed.len(),
{
    if listed.len() > 0 {
        lemma_bare_entries_message(entries, listed.drop_last(), rel, root);
        lemma_place(entries, listed.last(), times(listed.drop_last(), listed.last()));
        let i = last_place(entries, listed);
        if i < entries.len() {
            lemma_bare_entry(entries, entries.len(), i);
            assert(decreases_to!(entries => entries[i]));
            assert(decreases_to!(entries[i] => entries[i].node));
            lemma_bare_message(entries[i].node, below(rel, entries[i].name@), root);
        }
    }
}

proof fn lemma_bare_message(node: TreeNode, rel: Seq<u8>, root: Seq<char>)
    requires
        bare(node),
    ensures
        node_message(node, rel, root) == Seq::<u8>::empty(),
    decreases node, 0nat,
{
    match node {
        TreeNode::Dir(inner) => {
            assert(decreases_to!(node => inner));
            assert(decreases_to!(inner => inner@));
            lemma_bare_entries_message(inner@, order::ascending(names(inner@)), rel, root);
        },
        _ => {},
    }
}

/// When names occur once, each stands for its first entry.
proof fn lemma_first(entries: Seq<TreeEntry>, i: int)
    requires
        names(entries).no_duplicates(),
        0 <= i < entries.len(),
    ensures
        place(entries, called(entries[i]), 0) == i,
{
    let name = called(entries[i]);
    assert(names(entries)[i] == name);
    names(entries).lemma_multiset_has_no_duplicates();
    vstd::seq_lib::to_multiset_contains(names(entries), name);
    assert(names(entries).contains(name));
    lemma_place(entries, name, 0);
    let p = place(entries, name, 0);
    assert(names(entries)[p] == name);
}

/// The first `n` entries of a tree without files and links.
proof fn lemma_no_items(entries: Seq<TreeEntry>, n: nat, root: Seq<char>)
    requires
        names_once(entries),
        n <= entries.len(),
        forall|down: Seq<Seq<char>>| (#[trigger] item_at(entries, root, down)) is None,
    ensures
        bare_entries(entries, n),
    decreases entries, n,
{
    if n > 0 {
        let i = n - 1;
        let name = called(entries[i]);
        lemma_no_items(entries, (n - 1) as nat, root);
        lemma_first(entries, i);
        assert(decreases_to!(entries => entries[i]));
        assert(decreases_to!(entries[i] => entries[i].node));
        lemma_barren(entries, name, root);
    }
}

/// An entry at and under which no file or link lies.
proof fn lemma_barren(entries: Seq<TreeEntry>, name: Seq<char>, root: Seq<char>)
    requires
        names_once(entries),
        0 <= place(entries, name, 0) < entries.len(),
        !bears(entries, root, name),
    ensures
        bare(entries[place(entries, name, 0)].node),
    decreases entries, 0nat,
{
    let i = place(entries, name, 0);
    let node = entries[i].node;
    let here = item_at(entries, root, seq![name]);
    assert(here is None) by {
        assert(seq![name][0] == name);
    }
    assert(node_at(entries, seq![name]) == Some(node));
    match node {
        TreeNode::Dir(inner) => {
            lemma_inner_names_once(entries, name, inner@);
            assert forall|down: Seq<Seq<char>>| (#[trigger] item_at(inner@, root, down)) is None by {
                if down.len() > 0 {
                    lemma_go_down(entries, root, name, inner@, down);
                    assert((seq![name] + down)[0] == name);
                }
            }
            assert(decreases_to!(entries => entries[i]));
            assert(decreases_to!(entries[i] => node));
            assert(decreases_to!(node => inner));
            assert(decreases_to!(inner => inner@));
            lemma_no_items(inner@, inner@.len(), root);
        },
        _ => {},
    }
}

/// The last name of a list without repeats stands for its first entry.
proof fn lemma_last_is_first(entries: Seq<TreeEntry>, listed: Seq<Seq<char>>)
    requires
        listed.len() > 0,
        !listed.drop_last().contains(listed.last()),
    ensures
        last_place(entries, listed) == place(entries, listed.last(), 0),
{
    vstd::seq_lib::to_multiset_contains(listed.drop_last(), listed.last());
}

/// Names under which nothing lies can be left out of a listing.
proof fn lemma_leave_out(
    entries: Seq<TreeEntry>,
    listed: Seq<Seq<char>>,
    keep: spec_fn(Seq<char>) -> bool,
    rel: Seq<u8>,
    root: Seq<char>,
)
    requires
        names_once(entries),
        listed.no_duplicates(),
        forall|n: Seq<char>| bears(entries, root, n) ==> #[trigger] keep(n),
    ensures
        entries_message(entries, listed, rel, root) == entries_message(
            entries,
            order::among(listed, keep),
            rel,
            root,
        ),
    decreases listed.len(),
{
    if listed.len() > 0 {
        let name = listed.last();
        let before = order::among(listed.drop_last(), keep);
        lemma_leave_out(entries, listed.drop_last(), keep, rel, root);
        lemma_last_is_first(entries, listed);
        lemma_place(entries, name, 0);
        if keep(name) {
            assert(before.push(name).drop_last() =~= before);
            if before.contains(name) {
                order::lemma_among_listed(listed.drop_last(), keep, name);
            }
            lemma_last_is_first(entries, before.push(name));
        } else if place(entries, name, 0) < entries.len() {
            lemma_barren(entries, name, root);
            lemma_bare_message(
                entries[place(entries, name, 0)].node,
                below(rel, entries[place(entries, name, 0)].name@),
                root,
            );
        }
    }
}

proof fn lemma_bears_listed(entries: Seq<TreeEntry>, root: Seq<char>, name: Seq<char>)
    requires
        bears(entries, root, name),
    ensures
        0 <= place(entries, name, 0) < entries.len(),
        names(entries).contains(name),
{
    let down = choose|down: Seq<Seq<char>>|
        down.len() > 0 && down[0] == name && (#[trigger] item_at(entries, root, down)) is Some;
    lemma_place(entries, name, 0);
    assert(names(entries)[place(entries, name, 0)] == name);
}

proof fn lemma_same_bearing(
    a: Seq<TreeEntry>,
    at: Seq<char>,
    b: Seq<TreeEntry>,
    to: Seq<char>,
    name: Seq<char>,
)
    requires
        same_items(a, at, b, to),
        bears(a, at, name),
    ensures
        bears(b, to, name),
{
    let down = choose|down: Seq<Seq<char>>|
        down.len() > 0 && down[0] == name && (#[trigger] item_at(a, at, down)) is Some;
    assert(item_at(b, to, down) is Some);
}

proof fn lemma_same_items(
    a: Seq<TreeEntry>,
    at: Seq<char>,
    b: Seq<TreeEntry>,
    to: Seq<char>,
    rel: Seq<u8>,
)
    requires
        same_items(a, at, b, to),
        names_once(a),
        names_once(b),
    ensures
        entries_message(a, order::ascending(names(a)), rel, at) == entries_message(
            b,
            order::ascending(names(b)),
            rel,
            to,
        ),
    decreases a, 1nat, 0nat,
{
    let keep = |n: Seq<char>| bears(a, at, n);
    assert forall|n: Seq<char>| #[trigger] keep(n) implies names(a).contains(n) && names(
        b,
    ).contains(n) by {
        lemma_bears_listed(a, at, n);
        lemma_same_bearing(a, at, b, to, n);
        lemma_bears_listed(b, to, n);
    }
    assert forall|n: Seq<char>| bears(b, to, n) implies #[trigger] keep(n) by {
        lemma_same_bearing(b, to, a, at, n);
    }
    let la = order::ascending(names(a));
    let lb = order::ascending(names(b));
    order::lemma_ascending_among(names(a), names(b), keep);
    lemma_leave_out(a, la, keep, rel, at);
    lemma_leave_out(b, lb, keep, rel, to);
    let common = order::among(la, keep);
    assert forall|i: int| 0 <= i < common.len() implies bears(a, at, #[trigger] common[i]) by {
        assert(common.contains(common[i]));
        assert(keep(common[i]));
    }
    lemma_same_listed(a, at, b, to, common, rel);
}

proof fn lemma_same_listed(
    a: Seq<TreeEntry>,
    at: Seq<char>,
    b: Seq<TreeEntry>,
    to: Seq<char>,
    listed: Seq<Seq<char>>,
    rel: Seq<u8>,
)
    requires
        same_items(a, at, b, to),
        names_once(a),
        names_once(b),
        listed.no_duplicates(),
        forall|i: int| 0 <= i < listed.len() ==> bears(a, at, #[trigger] listed[i]),
    ensures
        entries_message(a, listed, rel, at) == entries_message(b, listed, rel, to),
    decreases a, 0nat, listed.len(),
{
    if listed.len() > 0 {
        let name = listed.last();
        lemma_same_listed(a, at, b, to, listed.drop_last(), rel);
        assert(bears(a, at, listed[listed.len() - 1]));
        lemma_bears_listed(a, at, name);
        lemma_same_bearing(a, at, b, to, name);
        lemma_bears_listed(b, to, name);
        lemma_last_is_first(a, listed);
        lemma_last_is_first(b, listed);
        lemma_place(a, name, 0);
        lemma_place(b, name, 0);
        let i = place(a, name, 0);
        let j = place(b, name, 0);
        let x = a[i].node;
        let y = b[j].node;
        text::law_byte_text_injective(a[i].name@, b[j].name@);
        assert(node_at(a, seq![name]) == Some(x));
        assert(node_at(b, seq![name]) == Some(y));
        assert(item_at(a, at, seq![name]) == item_at(b, to, seq![name]));
        let da = choose|down: Seq<Seq<char>>|
            down.len() > 0 && down[0] == name && (#[trigger] item_at(a, at, down)) is Some;
        assert(item_at(b, to, da) is Some);
        if da.len() == 1 {
            assert(da =~= seq![name]);
        }
        match (x, y) {
            (TreeNode::Dir(xs), TreeNode::Dir(ys)) => {
                lemma_inner_names_once(a, name, xs@);
                lemma_inner_names_once(b, name, ys@);
                assert forall|down: Seq<Seq<char>>|
                    #![trigger item_at(xs@, at, down)]
                    #![trigger item_at(ys@, to, down)]
                    item_at(xs@, at, down) == item_at(ys@, to, down) by {
                    if down.len() > 0 {
                        lemma_go_down(a, at, name, xs@, down);
                        lemma_go_down(b, to, name, ys@, down);
                        assert(item_at(a, at, seq![name] + down) == item_at(
                            b,
                            to,
                            seq![name] + down,
                        ));
                    }
                }
                assert(decreases_to!(a => a[i]));
                assert(decreases_to!(a[i] => x));
                assert(decreases_to!(x => xs));
                assert(decreases_to!(xs => xs@));
                lemma_same_items(xs@, at, ys@, to, below(rel, a[i].name@));
            },
            (TreeNode::File(c), TreeNode::File(d)) => {
                assert(c@ == d@);
            },
            (TreeNode::Link(s), TreeNode::Link(t)) => {
                assert(portable_target(s@, at) == portable_target(t@, to));
            },
            _ => {
                assert(false);
            },
        }
        assert(node_message(x, below(rel, a[i].name@), at) == node_message(
            y,
            below(rel, b[j].name@),
            to,
        ));
    }
}

/// Two trees that hold the same files and links at the same paths have the
/// same fingerprint, at any depth, in whatever order their directories are
/// listed and wherever their roots are. Links into the own root count by
/// what lies below it, and empty directories do not count.
pub proof fn law_same_items_same_fingerprint(
    a: Seq<TreeEntry>,
    at: Seq<char>,
    b: Seq<TreeEntry>,
    to: Seq<char>,
)
    requires
        same_items(a, at, b, to),
        names_once(a),
        names_once(b),
    ensures
        fingerprint(Some(a), at) == fingerprint(Some(b), to),
{
    lemma_same_items(a, at, b, to, Seq::empty());
}

/// A tree of nothing but directories has the fingerprint of a missing one.
pub proof fn law_bare_tree_has_no_fingerprint(entries: Seq<TreeEntry>, root: Seq<char>)
    requires
        bare_entries(entries, entries.len()),
    ensures
        fingerprint(Some(entries), root) == no_fingerprint(),
{
    lemma_bare_entries_message(entries, order::ascending(names(entries)), Seq::empty(), root);
}

/// A tree without a file or link at any path has the fingerprint of a missing
/// one.
pub proof fn law_no_items_no_fingerprint(entries: Seq<TreeEntry>, root: Seq<char>)
    requires
        names_once(entries),
        forall|down: Seq<Seq<char>>| (#[trigger] item_at(entries, root, down)) is None,
    ensures
        fingerprint(Some(entries), root) == no_fingerprint(),
{
    lemma_no_items(entries, entries.len(), root);
    law_bare_tree_has_no_fingerprint(entries, root);
}

/// A link to a place under the root counts the same wherever the root is:
/// only the part below the root enters the fingerprint. `at` and `to` are the
/// segments of the two roots, and `rel` the part below, as texts of one
/// character per byte.
pub proof fn law_inner_links_are_portable(
    x: Seq<u8>,
    root_x: Seq<char>,
    at: Seq<Seq<char>>,
    y: Seq<u8>,
    root_y: Seq<char>,
    to: Seq<Seq<char>>,
    rel: Seq<char>,
)
    requires
        at.len() > 0,
        to.len() > 0,
        forall|i: int| 0 <= i < at.len() ==> path::plain_segment(#[trigger] at[i]),
        forall|i: int| 0 <= i < to.len() ==> path::plain_segment(#[trigger] to[i]),
        path::starts_plain(rel),
        text::byte_text(vstd::utf8::encode_utf8(root_x)) == path::rooted(at),
        text::byte_text(vstd::utf8::encode_utf8(root_y)) == path::rooted(to),
        text::byte_text(x) == path::joined(path::rooted(at), rel),
        text::byte_text(y) == path::joined(path::rooted(to), rel),
    ensures
        portable_target(x, root_x) == portable_target(y, root_y),
{
    path::law_strip_undoes_join(at, rel);
    path::law_strip_undoes_join(to, rel);
}

/// A file adds its path, a mark, the digest of its content and an end to the
/// message; a link adds its path, another mark, and where it leads. What is no
/// text is repaired first.
pub proof fn law_file_and_link_in_the_message(
    content: [u8; 32],
    target: Vec<u8>,
    rel: Seq<u8>,
    root: Seq<char>,
)
    ensures
        node_message(TreeNode::File(content), rel, root) == legible(rel) + seq![0u8, 70u8]
            + content@ + seq![0u8],
        node_message(TreeNode::Link(target), rel, root) == legible(rel) + seq![0u8, 76u8] + legible(
            text::text_bytes(portable_target(target@, root)),
        ) + seq![0u8],
        vstd::utf8::valid_utf8(rel) ==> legible(rel) == rel,
        !vstd::utf8::valid_utf8(rel) ==> legible(rel) == vstd::utf8::encode_utf8(
            utf8::utf8_lossy(rel),
        ),
{
    assert(node_message(TreeNode::File(content), rel, root) =~= legible(rel) + seq![0u8, 70u8]
        + content@ + seq![0u8]);
    assert(node_message(TreeNode::Link(target), rel, root) =~= legible(rel) + seq![0u8, 76u8]
        + legible(text::text_bytes(portable_target(target@, root))) + seq![0u8]);
}

/// A directory adds what its entries add, one after the other in the order of
/// their names, each under its own path and nothing in between.
pub proof fn law_directory_adds_its_entries(
    entries: Seq<TreeEntry>,
    rel: Seq<u8>,
    root: Seq<char>,
    i: int,
)
    requires
        0 <= i < entries.len(),
    ensures
        ({
            let listed = order::ascending(names(entries));
            let e = entries[place_in(entries, listed, i)];
            &&& called(e) == listed[i]
            &&& entries_message(entries, listed.take(i + 1), rel, root) == entries_message(
                entries,
                listed.take(i),
                rel,
                root,
            ) + node_message(e.node, below(rel, e.name@), root)
            &&& entries_message(entries, listed.take(0), rel, root).len() == 0
            &&& listed.take(entries.len() as int) == listed
        }),
{
    let listed = order::ascending(names(entries));
    lemma_place_in(entries, i);
    assert(listed.take(i + 1).drop_last() =~= listed.take(i));
    assert(listed.take(entries.len() as int) =~= listed);
}

/// The message of a tree is that of a directory whose path is empty; a name
/// at the top stands by itself, and one below stands behind its directory and
/// a slash.
pub proof fn law_paths_in_the_message(
    entries: Vec<TreeEntry>,
    rel: Seq<u8>,
    name: Seq<u8>,
    root: Seq<char>,
)
    ensures
        tree_message(entries@, root) == node_message(TreeNode::Dir(entries), seq![], root),
        below(seq![], name) == name,
        rel.len() > 0 ==> below(rel, name) == rel + seq![47u8] + name,
{
    assert(rel.len() > 0 ==> below(rel, name) =~= rel + seq![47u8] + name);
}

/// The fingerprint is the digest of the message, and zeros only when there is
/// nothing in it.
pub proof fn law_fingerprint_is_digest_of_message(
    tree: Option<&Vec<TreeEntry>>,
    root: &str,
    r: [u8; 32],
)
    requires
        call_ensures(fingerprint_dir, (tree, root), r),
    ensures
        tree is None ==> r@ == Seq::new(32, |i: int| 0u8),
        tree matches Some(entries) ==> (tree_message(entries@, root@).len() > 0 ==> r@
            == digest::blake3_hash(tree_message(entries@, root@))),
        tree matches Some(entries) ==> (tree_message(entries@, root@).len() == 0 ==> r@ == Seq::new(
            32,
            |i: int| 0u8,
        )),
{
}

/// A change to one file's content changes the message, so that the
/// fingerprint covers every file of a directory.
pub proof fn law_content_change_shows(
    a: Seq<TreeEntry>,
    b: Seq<TreeEntry>,
    k: int,
    x: [u8; 32],
    y: [u8; 32],
    rel: Seq<u8>,
    root: Seq<char>,
)
    requires
        names(a) == names(b),
        names(a).no_duplicates(),
        0 <= k < a.len(),
        a[k].node == TreeNode::File(x),
        b[k].node == TreeNode::File(y),
        x@ != y@,
        forall|i: int| 0 <= i < a.len() && i != k ==> (#[trigger] a[i]).node == b[i].node,
    ensures
        entries_message(a, order::ascending(names(a)), rel, root) != entries_message(
            b,
            order::ascending(names(b)),
            rel,
            root,
        ),
{
    broadcast use vstd::seq_lib::group_to_multiset_ensures;

    let listed = order::ascending(names(a));
    order::law_ascending_sorts(names(a));
    let name = called(a[k]);
    assert(names(a)[k] == name);
    assert(names(a).contains(name));
    assert(names(a).to_multiset().count(name) > 0);
    assert(listed.contains(name));
    lemma_change_shows(a, b, k, x, y, listed, rel, root);
}

proof fn lemma_change_shows(
    a: Seq<TreeEntry>,
    b: Seq<TreeEntry>,
    k: int,
    x: [u8; 32],
    y: [u8; 32],
    listed: Seq<Seq<char>>,
    rel: Seq<u8>,
    root: Seq<char>,
)
    requires
        names(a) == names(b),
        names(a).no_duplicates(),
        0 <= k < a.len(),
        a[k].node == TreeNode::File(x),
        b[k].node == TreeNode::File(y),
        x@ != y@,
        forall|i: int| 0 <= i < a.len() && i != k ==> (#[trigger] a[i]).node == b[i].node,
    ensures
        entries_message(a, listed, rel, root).len() == entries_message(b, listed, rel, root).len(),
        listed.contains(called(a[k])) ==> entries_message(a, listed, rel, root) != entries_message(
            b,
            listed,
            rel,
            root,
        ),
    decreases listed.len(),
{
    if listed.len() > 0 {
        let name = listed.last();
        let front = listed.drop_last();
        let at = last_place(a, listed);
        lemma_place_by_name(a, b, name, times(front, name));
        lemma_place(a, name, times(front, name));
        lemma_change_shows(a, b, k, x, y, front, rel, root);
        let fa = entries_message(a, front, rel, root);
        let fb = entries_message(b, front, rel, root);
        let ma = entries_message(a, listed, rel, root);
        let mb = entries_message(b, listed, rel, root);
        assert(at == last_place(b, listed));
        assert(names(a).len() == a.len() && names(b).len() == b.len());
        if 0 <= at < a.len() {
            assert(names(a)[at] == called(a[at]));
            assert(names(b)[at] == called(b[at]));
            assert(a[at].name@ == b[at].name@) by {
                text::law_byte_text_injective(a[at].name@, b[at].name@);
            }
            let path = below(rel, a[at].name@);
            let na = node_message(a[at].node, path, root);
            let nb = node_message(b[at].node, path, root);
            assert(ma == fa + na);
            assert(mb == fb + nb);
            if at == k {
                let p = path_bytes(path, 70u8);
                assert(na == (p + x@).push(0u8));
                assert(nb == (p + y@).push(0u8));
                assert(x@.len() == 32 && y@.len() == 32);
                let d = choose|d: int| 0 <= d < 32 && x@[d] != y@[d];
                assert(exists|d: int| 0 <= d < 32 && x@[d] != y@[d]) by {
                    if forall|d: int| 0 <= d < 32 ==> x@[d] == y@[d] {
                        assert(x@ =~= y@);
                    }
                }
                assert(na[p.len() + d] == x@[d]);
                assert(nb[p.len() + d] == y@[d]);
                assert(ma[fa.len() + p.len() + d] == x@[d]);
                assert(mb[fb.len() + p.len() + d] == y@[d]);
            } else {
                assert(na == nb);
                if fa != fb {
                    assert(ma.take(fa.len() as int) =~= fa);
                    assert(mb.take(fb.len() as int) =~= fb);
                }
            }
        }
        if listed.contains(called(a[k])) && at != k {
            if front.contains(called(a[k])) {
                assert(fa != fb);
            } else {
                let j = choose|j: int| 0 <= j < listed.len() && listed[j] == called(a[k]);
                assert(j == listed.len() - 1) by {
                    if j < front.len() {
                        assert(front[j] == called(a[k]));
                    }
                }
                assert(name == called(a[k]));
                lemma_first_of_name(a, name, k, front);
            }
        }
    }
}

proof fn lemma_first_of_name(
    a: Seq<TreeEntry>,
    name: Seq<char>,
    k: int,
    front: Seq<Seq<char>>,
)
    requires
        names(a).no_duplicates(),
        0 <= k < a.len(),
        called(a[k]) == name,
        !front.contains(name),
    ensures
        place(a, name, times(front, name)) == k,
{
    broadcast use vstd::seq_lib::group_to_multiset_ensures;

    assert(times(front, name) == 0);
    lemma_place(a, name, 0);
    assert(names(a)[k] == name);
    assert(names(a).contains(name));
    assert(times(names(a), name) > 0);
    let p = place(a, name, 0);
    assert(names(a)[p] == name);
}

/// A link that leads out of the root, or that is relative, counts by its
/// target as it is.
pub proof fn law_outer_links_count_as_they_are(target: Seq<u8>, root: Seq<char>)
    requires
        !path::under(
            text::byte_text(target),
            text::byte_text(vstd::utf8::encode_utf8(root)),
        ),
    ensures
        portable_target(target, root) == text::byte_text(target),
        text::text_bytes(portable_target(target, root)) == target,
{
    text::law_text_bytes_undoes_byte_text(target);
}

} // verus!
