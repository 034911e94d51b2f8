//! Byte-wise ordering of texts, and sorting by it.
//!
//! Comparing UTF-8 byte by byte and comparing code points one by one give
//! the same order, so the order is stated over characters.

use vstd::prelude::*;
use vstd::relations::{antisymmetric, reflexive, sorted_by, strongly_connected, total_ordering, transitive};

use crate::text;

verus! {

/// The texts that are to be kept, in turn.
pub open spec fn among(names: Seq<Seq<char>>, keep: spec_fn(Seq<char>) -> bool) -> Seq<Seq<char>>
    decreases names.len(),
{
    if names.len() == 0 {
        Seq::empty()
    } else if keep(names.last()) {
        among(names.drop_last(), keep).push(names.last())
    } else {
        among(names.drop_last(), keep)
    }
}

/// What is kept of a list stands in the list.
pub proof fn lemma_among_listed(
    names: Seq<Seq<char>>,
    keep: spec_fn(Seq<char>) -> bool,
    name: Seq<char>,
)
    requires
        among(names, keep).contains(name),
    ensures
        names.contains(name),
    decreases names.len(),
{
    let kept = among(names, keep);
    if names.len() > 0 {
        let before = among(names.drop_last(), keep);
        let k = choose|k: int| 0 <= k < kept.len() && kept[k] == name;
        if k < before.len() {
            assert(before[k] == name);
            lemma_among_listed(names.drop_last(), keep, name);
            let j = choose|j: int| 0 <= j < names.drop_last().len() && names.drop_last()[j] == name;
            assert(names[j] == name);
        } else {
            assert(names[names.len() - 1] == name);
        }
    }
}

proof fn lemma_among(names: Seq<Seq<char>>, keep: spec_fn(Seq<char>) -> bool)
    requires
        names.no_duplicates(),
        sorted_by(names, name_order()),
    ensures
        among(names, keep).no_duplicates(),
        sorted_by(among(names, keep), name_order()),
        forall|n: Seq<char>| #[trigger]
            among(names, keep).contains(n) <==> names.contains(n) && keep(n),
    decreases names.len(),
{
    let kept = among(names, keep);
    if names.len() > 0 {
        let rest = names.drop_last();
        let before = among(rest, keep);
        let last = names.last();
        assert(sorted_by(rest, name_order()));
        lemma_among(rest, keep);
        assert forall|n: Seq<char>| names.contains(n) <==> rest.contains(n) || n == last by {
            if rest.contains(n) {
                let k = choose|k: int| 0 <= k < rest.len() && rest[k] == n;
                assert(names[k] == n);
            }
            if n == last {
                assert(names[names.len() - 1] == n);
            }
            if names.contains(n) && n != last {
                let k = choose|k: int| 0 <= k < names.len() && names[k] == n;
                assert(rest[k] == n);
            }
        }
        assert(!rest.contains(last));
        if keep(last) {
            assert(!before.contains(last));
            assert forall|i: int, j: int| 0 <= i < j < kept.len() implies #[trigger] name_order()(
                kept[i],
                kept[j],
            ) by {
                if j < before.len() {
                    assert(name_order()(before[i], before[j]));
                } else {
                    assert(before.contains(before[i]));
                    let k = choose|k: int| 0 <= k < rest.len() && rest[k] == before[i];
                    assert(name_order()(names[k], names[names.len() - 1]));
                }
            }
            assert forall|n: Seq<char>| #[trigger] kept.contains(n) <==> names.contains(n)
                && keep(n) by {
                if kept.contains(n) {
                    let k = choose|k: int| 0 <= k < kept.len() && kept[k] == n;
                    if k < before.len() {
                        assert(before[k] == n);
                        assert(before.contains(n));
                    }
                }
                if before.contains(n) {
                    let k = choose|k: int| 0 <= k < before.len() && before[k] == n;
                    assert(kept[k] == n);
                }
                if n == last {
                    assert(kept[before.len() as int] == n);
                }
                if names.contains(n) && keep(n) && n != last {
                    assert(before.contains(n));
                }
            }
            assert forall|i: int, j: int| 0 <= i < j < kept.len() implies kept[i] != kept[j] by {
                if j < before.len() {
                    assert(before[i] != before[j]);
                } else {
                    assert(before.contains(before[i]));
                }
            }
        } else {
            assert forall|n: Seq<char>| #[trigger] kept.contains(n) <==> names.contains(n)
                && keep(n) by {
                assert(kept == before);
            }
        }
    }
}

/// Two lists of texts without repeats sort to the same list once only those
/// texts are kept that stand in both.
pub proof fn lemma_ascending_among(
    a: Seq<Seq<char>>,
    b: Seq<Seq<char>>,
    keep: spec_fn(Seq<char>) -> bool,
)
    requires
        a.no_duplicates(),
        b.no_duplicates(),
        forall|n: Seq<char>| #[trigger] keep(n) ==> a.contains(n) && b.contains(n),
    ensures
        ascending(a).no_duplicates(),
        ascending(b).no_duplicates(),
        among(ascending(a), keep).no_duplicates(),
        among(ascending(a), keep) == among(ascending(b), keep),
        forall|n: Seq<char>| #[trigger] among(ascending(a), keep).contains(n) ==> keep(n),
{
    broadcast use vstd::seq_lib::group_to_multiset_ensures;

    law_name_order_total();
    law_ascending_sorts(a);
    law_ascending_sorts(b);
    a.lemma_multiset_has_no_duplicates();
    b.lemma_multiset_has_no_duplicates();
    ascending(a).lemma_multiset_has_no_duplicates_conv();
    ascending(b).lemma_multiset_has_no_duplicates_conv();
    lemma_among(ascending(a), keep);
    lemma_among(ascending(b), keep);
    let x = among(ascending(a), keep);
    let y = among(ascending(b), keep);
    assert forall|n: Seq<char>| x.contains(n) <==> y.contains(n) by {
        assert(a.contains(n) <==> a.to_multiset().contains(n));
        assert(ascending(a).contains(n) <==> ascending(a).to_multiset().contains(n));
        assert(b.contains(n) <==> b.to_multiset().contains(n));
        assert(ascending(b).contains(n) <==> ascending(b).to_multiset().contains(n));
    }
    x.lemma_multiset_has_no_duplicates();
    y.lemma_multiset_has_no_duplicates();
    assert forall|n: Seq<char>| x.to_multiset().count(n) == y.to_multiset().count(n) by {
        assert(x.contains(n) <==> x.to_multiset().contains(n));
        assert(y.contains(n) <==> y.to_multiset().contains(n));
    }
    assert(x.to_multiset() =~= y.to_multiset());
    vstd::seq_lib::lemma_sorted_unique(x, y, name_order());
}

/// Whether `a` comes no later than `b`.
pub open spec fn precedes(a: Seq<char>, b: Seq<char>) -> bool
    decreases a.len(),
{
    if a.len() == 0 {
        true
    } else if b.len() == 0 {
        false
    } else if a[0] != b[0] {
        a[0] < b[0]
    } else {
        precedes(a.drop_first(), b.drop_first())
    }
}

/// The order as a relation.
pub open spec fn name_order() -> spec_fn(Seq<char>, Seq<char>) -> bool {
    |a: Seq<char>, b: Seq<char>| precedes(a, b)
}

/// The texts in ascending order.
pub open spec fn ascending(names: Seq<Seq<char>>) -> Seq<Seq<char>> {
    names.sort_by(name_order())
}

proof fn lemma_reflexive(a: Seq<char>)
    ensures
        precedes(a, a),
    decreases a.len(),
{
    if a.len() > 0 {
        lemma_reflexive(a.drop_first());
    }
}

proof fn lemma_antisymmetric(a: Seq<char>, b: Seq<char>)
    requires
        precedes(a, b),
        precedes(b, a),
    ensures
        a == b,
    decreases a.len(),
{
    if a.len() > 0 && b.len() > 0 {
        lemma_antisymmetric(a.drop_first(), b.drop_first());
        assert(a =~= seq![a[0]] + a.drop_first());
        assert(b =~= seq![b[0]] + b.drop_first());
    } else {
        assert(a =~= b);
    }
}

proof fn lemma_transitive(a: Seq<char>, b: Seq<char>, c: Seq<char>)
    requires
        precedes(a, b),
        precedes(b, c),
    ensures
        precedes(a, c),
    decreases a.len(),
{
    if a.len() > 0 && b.len() > 0 && c.len() > 0 && a[0] == b[0] && b[0] == c[0] {
        lemma_transitive(a.drop_first(), b.drop_first(), c.drop_first());
    }
}

proof fn lemma_total(a: Seq<char>, b: Seq<char>)
    ensures
        precedes(a, b) || precedes(b, a),
    decreases a.len(),
{
    if a.len() > 0 && b.len() > 0 && a[0] == b[0] {
        lemma_total(a.drop_first(), b.drop_first());
    }
}

/// Byte-wise order is a total order: any two texts compare, and only equal
/// texts compare both ways.
pub proof fn law_name_order_total()
    ensures
        total_ordering(name_order()),
{
    let r = name_order();
    assert(reflexive(r)) by {
        assert forall|x: Seq<char>| #[trigger] r(x, x) by {
            lemma_reflexive(x);
        }
    }
    assert(antisymmetric(r)) by {
        assert forall|x: Seq<char>, y: Seq<char>| #[trigger] r(x, y) && #[trigger] r(y, x) implies x
            == y by {
            lemma_antisymmetric(x, y);
        }
    }
    assert(transitive(r)) by {
        assert forall|x: Seq<char>, y: Seq<char>, z: Seq<char>| #[trigger]
            r(x, y) && #[trigger] r(y, z) implies r(x, z) by {
            lemma_transitive(x, y, z);
        }
    }
    assert(strongly_connected(r)) by {
        assert forall|x: Seq<char>, y: Seq<char>| #[trigger] r(x, y) || #[trigger] r(y, x) by {
            lemma_total(x, y);
        }
    }
}

/// Sorting keeps the texts and puts them in ascending order.
pub proof fn law_ascending_sorts(names: Seq<Seq<char>>)
    ensures
        ascending(names).to_multiset() == names.to_multiset(),
        ascending(names).len() == names.len(),
        sorted_by(ascending(names), name_order()),
{
    broadcast use vstd::seq_lib::group_to_multiset_ensures;

    law_name_order_total();
    names.lemma_sort_by_ensures(name_order());
    assert(ascending(names).to_multiset().len() == names.to_multiset().len());
}

/// The order in which texts are listed does not matter to the sorted list.
pub proof fn law_ascending_ignores_listing_order(a: Seq<Seq<char>>, b: Seq<Seq<char>>)
    requires
        a.to_multiset() == b.to_multiset(),
    ensures
        ascending(a) == ascending(b),
{
    law_name_order_total();
    law_ascending_sorts(a);
    law_ascending_sorts(b);
    vstd::seq_lib::lemma_sorted_unique(ascending(a), ascending(b), name_order());
}

/// Whether `a` comes no later than `b`.
pub fn comes_first(a: &str, b: &str) -> (r: bool)
    ensures
        r == precedes(a@, b@),
{
    let x = text::chars_of(a);
    let y = text::chars_of(b);
    let mut i: usize = 0;
    assert(x@.skip(0) == x@);
    assert(y@.skip(0) == y@);
    while i < x.len() && i < y.len()
        invariant
            i <= x@.len(),
            i <= y@.len(),
            x@ == a@,
            y@ == b@,
            precedes(x@, y@) == precedes(x@.skip(i as int), y@.skip(i as int)),
        decreases x@.len() - i,
    {
        if x[i] != y[i] {
            assert(x@.skip(i as int)[0] == x@[i as int]);
            assert(y@.skip(i as int)[0] == y@[i as int]);
            return x[i] < y[i];
        }
        assert(x@.skip(i as int).drop_first() == x@.skip(i + 1));
        assert(y@.skip(i as int).drop_first() == y@.skip(i + 1));
        i = i + 1;
    }
    i == x.len()
}

/// Puts `name` into the sorted list `v`.
fn insert_name(v: &mut Vec<String>, name: String)
    requires
        sorted_by(text::texts(old(v)@), name_order()),
    ensures
        sorted_by(text::texts(final(v)@), name_order()),
        text::texts(final(v)@).to_multiset() == text::texts(old(v)@).to_multiset().insert(name@),
{
    let ghost all = text::texts(v@);
    proof {
        law_name_order_total();
    }
    let mut at: usize = 0;
    while at < v.len() && comes_first(v[at].as_str(), name.as_str())
        invariant
            at <= v@.len(),
            all == text::texts(v@),
            forall|k: int| 0 <= k < at ==> precedes(#[trigger] all[k], name@),
        decreases v@.len() - at,
    {
        assert(all[at as int] == v@[at as int]@);
        at = at + 1;
    }
    let ghost spot = at as int;
    assert(spot < all.len() ==> precedes(name@, all[spot])) by {
        if spot < all.len() {
            assert(all[spot] == v@[spot]@);
            lemma_total(all[spot], name@);
        }
    }
    v.insert(at, name);
    proof {
        let now = text::texts(v@);
        assert(now =~= all.insert(spot, name@));
        vstd::seq_lib::to_multiset_insert(all, spot, name@);
        let leq = name_order();
        assert forall|i: int, j: int| 0 <= i < j < now.len() implies #[trigger] leq(
            now[i],
            now[j],
        ) by {
            let a = now[i];
            let b = now[j];
            if j < spot {
                assert(leq(all[i], all[j]));
            } else if i < spot && j == spot {
                assert(precedes(all[i], name@));
            } else if i < spot {
                assert(leq(all[i], all[j - 1]));
            } else if i == spot {
                if j - 1 > spot {
                    assert(leq(all[spot], all[j - 1]));
                    lemma_transitive(name@, all[spot], all[j - 1]);
                }
            } else {
                assert(leq(all[i - 1], all[j - 1]));
            }
        }
    }
}

/// The texts of `names` in ascending order.
pub fn sort_names(names: &Vec<String>) -> (r: Vec<String>)
    ensures
        text::texts(r@) == ascending(text::texts(names@)),
{
    let ghost all = text::texts(names@);
    let mut out: Vec<String> = Vec::new();
    let mut i: usize = 0;
    proof {
        assert(text::texts(out@) =~= Seq::empty());
        assert(all.take(0) =~= Seq::empty());
    }
    while i < names.len()
        invariant
            i <= names@.len(),
            all == text::texts(names@),
            sorted_by(text::texts(out@), name_order()),
            text::texts(out@).to_multiset() == all.take(i as int).to_multiset(),
        decreases names@.len() - i,
    {
        let name: String = names[i].clone();
        proof {
            assert(all.take(i + 1) =~= all.take(i as int).push(name@));
            vstd::seq_lib::to_multiset_build(all.take(i as int), name@);
        }
        insert_name(&mut out, name);
        i = i + 1;
    }
    proof {
        assert(all.take(all.len() as int) =~= all);
        law_name_order_total();
        law_ascending_sorts(all);
        vstd::seq_lib::lemma_sorted_unique(text::texts(out@), ascending(all), name_order());
    }
    out
}

/// Texts are ordered by the first character in which they differ, and a text
/// comes before every longer one that begins with it.
pub proof fn law_first_difference_decides(
    common: Seq<char>,
    a: Seq<char>,
    b: Seq<char>,
    rest: Seq<char>,
)
    requires
        a.len() > 0,
        b.len() > 0,
        a[0] < b[0],
    ensures
        precedes(common + a, common + b),
        !precedes(common + b, common + a),
        precedes(common, common + rest),
        rest.len() > 0 ==> !precedes(common + rest, common),
    decreases common.len(),
{
    if common.len() == 0 {
        assert(common + a =~= a);
        assert(common + b =~= b);
        assert(common + rest =~= rest);
    } else {
        let c = common.drop_first();
        law_first_difference_decides(c, a, b, rest);
        assert((common + a).drop_first() =~= c + a);
        assert((common + b).drop_first() =~= c + b);
        assert((common + rest).drop_first() =~= c + rest);
    }
}

} // verus!
