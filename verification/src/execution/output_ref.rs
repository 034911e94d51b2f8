//! References to outputs, as in `${{ steps.build.outputs.result }}`.

use vstd::prelude::*;

use crate::strmap;
use crate::strmap::StringMap;
use crate::text;

verus! {

/// The text between `${{` and `}}`, without surrounding space.
pub open spec fn braced(expr: Seq<char>) -> Option<Seq<char>> {
    let t = text::trimmed(expr);
    let open = "${{"@;
    let close = "}}"@;
    if open.is_prefix_of(t) && close.is_suffix_of(t.skip(open.len() as int)) {
        Some(text::trimmed(t.subrange(open.len() as int, t.len() - close.len())))
    } else {
        None
    }
}

/// The owner and the key that `<root>.<owner>.outputs.<key>` names.
pub open spec fn output_named(inner: Seq<char>, root: Seq<char>) -> Option<(Seq<char>, Seq<char>)> {
    let parts = text::split(inner, '.');
    if parts.len() == 4 && parts[0] == root && parts[2] == "outputs"@ {
        Some((parts[1], parts[3]))
    } else {
        None
    }
}

/// The value of an owner's output.
pub open spec fn output_value(
    outputs: Seq<(Seq<char>, StringMap<String>)>,
    owner: Seq<char>,
    key: Seq<char>,
) -> Option<Seq<char>> {
    match strmap::lookup(outputs, owner) {
        Some(m) => strmap::lookup_text(m@, key),
        None => None,
    }
}

/// The text between `${{` and `}}`, without surrounding space.
pub fn braced_text(expr: &str) -> (r: Option<&str>)
    ensures
        text::str_opt(r) == braced(expr@),
{
    let t = text::trim(expr);
    let ghost open = "${{"@;
    let ghost close = "}}"@;
    match text::after_prefix(t, "${{") {
        Some(rest) => {
            assert(rest@ =~= t@.skip(open.len() as int));
            match text::before_suffix(rest, "}}") {
                Some(inner) => {
                    assert(inner@ =~= t@.subrange(open.len() as int, t@.len() - close.len()));
                    Some(text::trim(inner))
                },
                None => None,
            }
        },
        None => None,
    }
}

/// The owner and the key that `<root>.<owner>.outputs.<key>` names.
pub fn named_output(inner: &str, root: &str) -> (r: Option<(String, String)>)
    ensures
        match r {
            Some((owner, key)) => output_named(inner@, root@) == Some((owner@, key@)),
            None => output_named(inner@, root@) is None,
        },
{
    let parts = text::split_char(inner, '.');
    let ghost all = text::texts(parts@);
    if parts.len() != 4 {
        return None;
    }
    assert(all[0] == parts@[0]@ && all[1] == parts@[1]@ && all[2] == parts@[2]@ && all[3]
        == parts@[3]@);
    if text::same(parts[0].as_str(), root) && text::same(parts[2].as_str(), "outputs") {
        Some((parts[1].clone(), parts[3].clone()))
    } else {
        None
    }
}

/// The value of an owner's output.
pub fn value_of_output(outputs: &StringMap<StringMap<String>>, owner: &str, key: &str) -> (r: Option<
    String,
>)
    ensures
        text::text_opt(r) == output_value(outputs@, owner@, key@),
{
    match outputs.get(owner) {
        Some(m) => match m.get(key) {
            Some(v) => Some(v.clone()),
            None => None,
        },
        None => None,
    }
}

/// A text in braces is read without the braces and without white space
/// around it; a text that does not begin with `${{` or end with `}}` is not
/// in braces.
pub proof fn law_braces_are_taken_off(inner: Seq<char>, t: Seq<char>)
    requires
        text::trimmed("${{"@ + inner + "}}"@) == "${{"@ + inner + "}}"@,
        text::trimmed(t) == t,
    ensures
        braced("${{"@ + inner + "}}"@) == Some(text::trimmed(inner)),
        !"${{"@.is_prefix_of(t) ==> braced(t) is None,
        !"}}"@.is_suffix_of(t) ==> braced(t) is None,
{
    reveal_strlit("${{");
    reveal_strlit("}}");
    let open = "${{"@;
    let close = "}}"@;
    let whole = open + inner + close;
    assert(open =~= whole.subrange(0, 3));
    let rest = whole.skip(3);
    assert(rest =~= inner + close);
    assert(close =~= rest.subrange(rest.len() - 2, rest.len() as int));
    assert(whole.subrange(3, whole.len() - 2) =~= inner);
    if open.is_prefix_of(t) && close.is_suffix_of(t.skip(3)) {
        let u = t.skip(3);
        assert(close =~= t.subrange(t.len() - 2, t.len() as int)) by {
            assert(u.subrange(u.len() - 2, u.len() as int) =~= t.subrange(
                t.len() - 2,
                t.len() as int,
            ));
        }
    }
}

/// `<root>.<owner>.outputs.<key>` names the owner and the key, under that
/// root and no other.
pub proof fn law_reference_names_owner_and_key(
    root: Seq<char>,
    other: Seq<char>,
    owner: Seq<char>,
    key: Seq<char>,
)
    requires
        !root.contains('.'),
        !owner.contains('.'),
        !key.contains('.'),
        other != root,
    ensures
        output_named(root.push('.') + (owner.push('.') + ("outputs"@.push('.') + key)), root)
            == Some((owner, key)),
        output_named(root.push('.') + (owner.push('.') + ("outputs"@.push('.') + key)), other) is None,
        output_named(root.push('.') + owner, root) is None,
        output_named(root.push('.') + (owner.push('.') + key), root) is None,
{
    reveal_strlit("outputs");
    let word = "outputs"@;
    assert(!word.contains('.'));
    let empty = Seq::<char>::empty();
    let c = word.push('.') + key;
    let b = owner.push('.') + c;
    let a = root.push('.') + b;
    text::law_split_at_separator(word, key, '.');
    text::law_split_at_separator(owner, c, '.');
    text::law_split_at_separator(root, b, '.');
    text::law_split_at_separator(empty, word, '.');
    text::law_split_at_separator(empty, owner, '.');
    text::law_split_at_separator(empty, root, '.');
    text::law_split_at_separator(root, owner, '.');
    text::law_split_at_separator(owner, key, '.');
    text::law_split_at_separator(root, owner.push('.') + key, '.');
    assert(text::split(a, '.') =~= seq![root, owner, word, key]);
    assert(text::split(root.push('.') + owner, '.') =~= seq![root, owner]);
    assert(text::split(root.push('.') + (owner.push('.') + key), '.') =~= seq![root, owner, key]);
}

/// An output has a value exactly when its owner is known and set it, and it
/// is the value that the owner set.
pub proof fn law_value_is_the_owners(
    outputs: Seq<(Seq<char>, StringMap<String>)>,
    owner: Seq<char>,
    key: Seq<char>,
)
    ensures
        strmap::lookup(outputs, owner) is None ==> output_value(outputs, owner, key) is None,
        strmap::lookup(outputs, owner) matches Some(m) ==> output_value(outputs, owner, key)
            == strmap::lookup_text(m@, key),
{
}

} // verus!
