//! Text primitives over `Seq<char>`: trimming, splitting, prefix and suffix
//! tests, ASCII case folding, and concatenation.
//!
//! Every function states its result as an equation over the views of its
//! arguments, so callers reason about text and never about bytes.

use vstd::prelude::*;

verus! {

/// `String::push`: appends one character to the end of the string.
pub assume_specification[ std::string::String::push ](s: &mut std::string::String, c: char)
    ensures
        final(s)@ == old(s)@.push(c),
;

/// The text of each string of a sequence.
pub open spec fn texts(v: Seq<String>) -> Seq<Seq<char>> {
    v.map_values(|s: String| s@)
}

/// The text of an optional string.
pub open spec fn text_opt(o: Option<String>) -> Option<Seq<char>> {
    match o {
        Some(s) => Some(s@),
        None => None,
    }
}

/// The text of an optional string slice.
pub open spec fn str_opt(o: Option<&str>) -> Option<Seq<char>> {
    match o {
        Some(s) => Some(s@),
        None => None,
    }
}

/// Unicode `White_Space`, the class that trimming removes.
pub open spec fn is_space(c: char) -> bool {
    ||| '\u{9}' <= c <= '\u{d}'
    ||| c == ' '
    ||| c == '\u{85}'
    ||| c == '\u{a0}'
    ||| c == '\u{1680}'
    ||| '\u{2000}' <= c <= '\u{200a}'
    ||| c == '\u{2028}'
    ||| c == '\u{2029}'
    ||| c == '\u{202f}'
    ||| c == '\u{205f}'
    ||| c == '\u{3000}'
}

/// Whether `c` is one of the ten ASCII digits.
pub open spec fn is_digit(c: char) -> bool {
    '0' <= c <= '9'
}

/// The text without its leading white space.
pub open spec fn trim_front(s: Seq<char>) -> Seq<char>
    decreases s.len(),
{
    if s.len() > 0 && is_space(s[0]) {
        trim_front(s.drop_first())
    } else {
        s
    }
}

/// The text without its trailing white space.
pub open spec fn trim_back(s: Seq<char>) -> Seq<char>
    decreases s.len(),
{
    if s.len() > 0 && is_space(s.last()) {
        trim_back(s.drop_last())
    } else {
        s
    }
}

/// The text without white space at either end.
pub open spec fn trimmed(s: Seq<char>) -> Seq<char> {
    trim_back(trim_front(s))
}

/// The text without the trailing run of `c`.
pub open spec fn trim_end_of(s: Seq<char>, c: char) -> Seq<char>
    decreases s.len(),
{
    if s.len() > 0 && s.last() == c {
        trim_end_of(s.drop_last(), c)
    } else {
        s
    }
}

/// The pieces of `s` between occurrences of `sep`; never empty.
pub open spec fn split(s: Seq<char>, sep: char) -> Seq<Seq<char>>
    decreases s.len(),
{
    if s.len() == 0 {
        seq![Seq::<char>::empty()]
    } else {
        let pieces = split(s.drop_last(), sep);
        if s.last() == sep {
            pieces.push(Seq::<char>::empty())
        } else {
            pieces.update(pieces.len() - 1, pieces.last().push(s.last()))
        }
    }
}

/// The pieces put back together with `sep` between neighbours.
pub open spec fn joined(pieces: Seq<Seq<char>>, sep: Seq<char>) -> Seq<char>
    decreases pieces.len(),
{
    if pieces.len() == 0 {
        Seq::empty()
    } else if pieces.len() == 1 {
        pieces[0]
    } else {
        joined(pieces.drop_last(), sep) + sep + pieces.last()
    }
}

/// `s` with the ASCII capitals replaced by small letters.
pub open spec fn lower(s: Seq<char>) -> Seq<char> {
    s.map_values(|c: char| lower_char(c))
}

/// One character, an ASCII capital replaced by its small letter.
pub open spec fn lower_char(c: char) -> char {
    if 'A' <= c <= 'Z' {
        ((c as u32) + 32) as char
    } else {
        c
    }
}

/// Whether `needle` occurs in `s` as a contiguous run.
pub open spec fn has_run(s: Seq<char>, needle: Seq<char>) -> bool {
    exists|i: int| #[trigger] run_at(s, needle, i)
}

/// Whether `needle` occurs in `s` at position `i`.
pub open spec fn run_at(s: Seq<char>, needle: Seq<char>, i: int) -> bool {
    &&& 0 <= i <= s.len() - needle.len()
    &&& s.subrange(i, i + needle.len()) == needle
}

/// The characters of `s`.
pub fn chars_of(s: &str) -> (r: Vec<char>)
    ensures
        r@ == s@,
{
    let mut out: Vec<char> = Vec::new();
    for c in it: s.chars()
        invariant
            out@ == it.seq().take(it.index() as int),
            it.seq() == s@,
    {
        out.push(c);
    }
    out
}

/// Whether two texts are equal.
pub fn same(a: &str, b: &str) -> (r: bool)
    ensures
        r == (a@ == b@),
{
    let x: String = a.to_owned();
    let y: String = b.to_owned();
    x == y
}

/// `a` followed by `b`.
pub fn cat2(a: &str, b: &str) -> (r: String)
    ensures
        r@ == a@ + b@,
{
    let mut out: String = a.to_owned();
    out.append(b);
    out
}

/// `a`, `b`, and `c` in a row.
pub fn cat3(a: &str, b: &str, c: &str) -> (r: String)
    ensures
        r@ == a@ + b@ + c@,
{
    let mut out: String = a.to_owned();
    out.append(b);
    out.append(c);
    out
}

/// Four texts in a row.
pub fn cat4(a: &str, b: &str, c: &str, d: &str) -> (r: String)
    ensures
        r@ == a@ + b@ + c@ + d@,
{
    let mut out: String = a.to_owned();
    out.append(b);
    out.append(c);
    out.append(d);
    out
}

/// Five texts in a row.
pub fn cat5(a: &str, b: &str, c: &str, d: &str, e: &str) -> (r: String)
    ensures
        r@ == a@ + b@ + c@ + d@ + e@,
{
    let mut out: String = a.to_owned();
    out.append(b);
    out.append(c);
    out.append(d);
    out.append(e);
    out
}

/// Whether `c` is white space.
pub fn space(c: char) -> (r: bool)
    ensures
        r == is_space(c),
{
    ('\u{9}' <= c && c <= '\u{d}') || c == ' ' || c == '\u{85}' || c == '\u{a0}' || c == '\u{1680}'
        || ('\u{2000}' <= c && c <= '\u{200a}') || c == '\u{2028}' || c == '\u{2029}' || c
        == '\u{202f}' || c == '\u{205f}' || c == '\u{3000}'
}

/// `s` without white space at either end.
pub fn trim(s: &str) -> (r: &str)
    ensures
        r@ == trimmed(s@),
{
    let v = chars_of(s);
    let mut from: usize = 0;
    assert(v@.subrange(0, v@.len() as int) == v@);
    while from < v.len() && space(v[from])
        invariant
            from <= v@.len(),
            trim_front(v@) == trim_front(v@.subrange(from as int, v@.len() as int)),
        decreases v@.len() - from,
    {
        proof {
            let rest = v@.subrange(from as int, v@.len() as int);
            assert(rest.drop_first() == v@.subrange(from + 1, v@.len() as int));
        }
        from = from + 1;
    }
    let mut to: usize = v.len();
    assert(trim_front(v@) == v@.subrange(from as int, to as int));
    while to > from && space(v[to - 1])
        invariant
            from <= to <= v@.len(),
            trimmed(v@) == trim_back(v@.subrange(from as int, to as int)),
        decreases to,
    {
        proof {
            let rest = v@.subrange(from as int, to as int);
            assert(rest.drop_last() == v@.subrange(from as int, to - 1));
        }
        to = to - 1;
    }
    s.substring_char(from, to)
}

/// `s` without its trailing run of `c`.
pub fn trim_end_char(s: &str, c: char) -> (r: &str)
    ensures
        r@ == trim_end_of(s@, c),
{
    let v = chars_of(s);
    let mut to: usize = v.len();
    assert(v@.subrange(0, to as int) == v@);
    while to > 0 && v[to - 1] == c
        invariant
            to <= v@.len(),
            trim_end_of(v@, c) == trim_end_of(v@.subrange(0, to as int), c),
        decreases to,
    {
        proof {
            assert(v@.subrange(0, to as int).drop_last() == v@.subrange(0, to - 1));
        }
        to = to - 1;
    }
    s.substring_char(0, to)
}

/// Whether `s` begins with `p`.
pub fn begins_with(s: &str, p: &str) -> (r: bool)
    ensures
        r == p@.is_prefix_of(s@),
{
    let a = chars_of(s);
    let b = chars_of(p);
    if b.len() > a.len() {
        return false;
    }
    let mut i: usize = 0;
    while i < b.len()
        invariant
            i <= b@.len() <= a@.len(),
            a@ == s@,
            b@ == p@,
            forall|k: int| 0 <= k < i ==> a@[k] == b@[k],
        decreases b@.len() - i,
    {
        if a[i] != b[i] {
            proof {
                if p@.is_prefix_of(s@) {
                    assert(s@.subrange(0, p@.len() as int)[i as int] == a@[i as int]);
                }
            }
            return false;
        }
        i = i + 1;
    }
    assert(s@.subrange(0, p@.len() as int) == p@);
    true
}

/// Whether `s` ends with `p`.
pub fn finishes_with(s: &str, p: &str) -> (r: bool)
    ensures
        r == p@.is_suffix_of(s@),
{
    let a = chars_of(s);
    let b = chars_of(p);
    if b.len() > a.len() {
        return false;
    }
    let n: usize = a.len();
    let off: usize = n - b.len();
    let mut i: usize = 0;
    while i < b.len()
        invariant
            i <= b@.len() <= a@.len(),
            a@.len() == n,
            off == a@.len() - b@.len(),
            a@ == s@,
            b@ == p@,
            forall|k: int| 0 <= k < i ==> a@[off + k] == b@[k],
        decreases b@.len() - i,
    {
        if a[off + i] != b[i] {
            proof {
                if p@.is_suffix_of(s@) {
                    assert(s@.subrange(off as int, s@.len() as int)[i as int] == a@[off + i]);
                }
            }
            return false;
        }
        i = i + 1;
    }
    assert(s@.subrange(off as int, s@.len() as int) == p@);
    true
}

/// What follows the prefix `p` in `s`, when `s` begins with `p`.
pub fn after_prefix<'a>(s: &'a str, p: &str) -> (r: Option<&'a str>)
    ensures
        match r {
            Some(rest) => s@ == p@ + rest@,
            None => !p@.is_prefix_of(s@),
        },
{
    if begins_with(s, p) {
        let n: usize = p.unicode_len();
        let m: usize = s.unicode_len();
        let rest = s.substring_char(n, m);
        assert(s@ == p@ + rest@);
        Some(rest)
    } else {
        None
    }
}

/// What precedes the suffix `p` in `s`, when `s` ends with `p`.
pub fn before_suffix<'a>(s: &'a str, p: &str) -> (r: Option<&'a str>)
    ensures
        match r {
            Some(rest) => s@ == rest@ + p@,
            None => !p@.is_suffix_of(s@),
        },
{
    if finishes_with(s, p) {
        let n: usize = p.unicode_len();
        let m: usize = s.unicode_len();
        let rest = s.substring_char(0, m - n);
        assert(s@ == rest@ + p@);
        Some(rest)
    } else {
        None
    }
}

/// Whether `c` occurs in `s`.
pub fn has_char(s: &str, c: char) -> (r: bool)
    ensures
        r == s@.contains(c),
{
    let v = chars_of(s);
    let mut i: usize = 0;
    while i < v.len()
        invariant
            i <= v@.len(),
            v@ == s@,
            forall|k: int| 0 <= k < i ==> v@[k] != c,
        decreases v@.len() - i,
    {
        if v[i] == c {
            assert(s@[i as int] == c);
            return true;
        }
        i = i + 1;
    }
    false
}

/// Whether `needle` occurs in `s`.
pub fn contains_text(s: &str, needle: &str) -> (r: bool)
    ensures
        r == has_run(s@, needle@),
{
    let a = chars_of(s);
    let b = chars_of(needle);
    if b.len() > a.len() {
        return false;
    }
    let n: usize = a.len();
    let last: usize = n - b.len();
    let mut i: usize = 0;
    loop
        invariant
            i <= last,
            a@.len() == n,
            last == a@.len() - b@.len(),
            a@ == s@,
            b@ == needle@,
            forall|k: int| 0 <= k < i ==> !#[trigger] run_at(s@, needle@, k),
        decreases last - i,
    {
        let mut j: usize = 0;
        while j < b.len() && a[i + j] == b[j]
            invariant
                j <= b@.len(),
                i + b@.len() <= a@.len() == n,
                forall|k: int| 0 <= k < j ==> a@[i + k] == b@[k],
            decreases b@.len() - j,
        {
            j = j + 1;
        }
        if j == b.len() {
            assert(s@.subrange(i as int, i + needle@.len()) == needle@);
            assert(run_at(s@, needle@, i as int));
            return true;
        }
        proof {
            if run_at(s@, needle@, i as int) {
                assert(s@.subrange(i as int, i + needle@.len())[j as int] == a@[i + j]);
            }
        }
        if i == last {
            return false;
        }
        i = i + 1;
    }
}

/// The part of `s` before the first occurrence of `needle`, or all of it.
pub open spec fn before_run(s: Seq<char>, needle: Seq<char>) -> Seq<char>
    decreases s.len(),
{
    if run_at(s, needle, 0) {
        Seq::empty()
    } else if s.len() == 0 {
        s
    } else {
        seq![s[0]] + before_run(s.drop_first(), needle)
    }
}

/// The part of `s` before the first occurrence of `needle`, or all of it.
pub fn before_text<'a>(s: &'a str, needle: &str) -> (r: &'a str)
    ensures
        r@ == before_run(s@, needle@),
{
    let n: usize = s.unicode_len();
    let mut i: usize = 0;
    assert(s@.skip(0) =~= s@);
    assert(before_run(s@, needle@) =~= s@.take(0) + before_run(s@.skip(0), needle@));
    while i < n
        invariant
            i <= n == s@.len(),
            before_run(s@, needle@) == s@.take(i as int) + before_run(s@.skip(i as int), needle@),
        decreases n - i,
    {
        let rest = s.substring_char(i, n);
        assert(rest@ =~= s@.skip(i as int));
        if begins_with(rest, needle) {
            proof {
                assert(rest@.subrange(0, needle@.len() as int) == needle@);
                assert(run_at(rest@, needle@, 0));
                assert(s@.take(i as int) + Seq::<char>::empty() =~= s@.take(i as int));
            }
            let head = s.substring_char(0, i);
            assert(head@ =~= s@.take(i as int));
            return head;
        }
        proof {
            let cut = s@.skip(i as int);
            assert(!run_at(cut, needle@, 0));
            assert(cut.drop_first() =~= s@.skip(i + 1));
            assert(s@.take(i as int) + (seq![cut[0]] + before_run(cut.drop_first(), needle@))
                =~= s@.take(i + 1) + before_run(s@.skip(i + 1), needle@));
        }
        i = i + 1;
    }
    assert(s@.skip(n as int) =~= Seq::<char>::empty());
    assert(before_run(s@, needle@) =~= s@);
    s
}

/// The pieces of `s` between occurrences of `sep`.
pub fn split_char(s: &str, sep: char) -> (r: Vec<String>)
    ensures
        texts(r@) == split(s@, sep),
        r@.len() > 0,
{
    let v = chars_of(s);
    let mut out: Vec<String> = Vec::new();
    let mut cur = String::new();
    let mut i: usize = 0;
    proof {
        assert(v@.take(0) == Seq::<char>::empty());
        assert(texts(out@).push(cur@) == split(v@.take(0), sep));
    }
    while i < v.len()
        invariant
            i <= v@.len(),
            texts(out@).push(cur@) == split(v@.take(i as int), sep),
        decreases v@.len() - i,
    {
        let c = v[i];
        let ghost before = texts(out@).push(cur@);
        let ghost out0 = out@;
        proof {
            assert(v@.take(i + 1).drop_last() == v@.take(i as int));
        }
        if c == sep {
            out.push(cur);
            cur = String::new();
            assert(texts(out@) == before);
        } else {
            cur.push(c);
            assert(texts(out@).push(cur@) == before.update(before.len() - 1, before.last().push(c)));
        }
        i = i + 1;
    }
    assert(v@.take(v@.len() as int) == v@);
    let ghost done = texts(out@).push(cur@);
    out.push(cur);
    assert(texts(out@) == done);
    out
}

/// The pieces put back together with `sep` between neighbours.
pub fn join(pieces: &Vec<String>, sep: &str) -> (r: String)
    ensures
        r@ == joined(texts(pieces@), sep@),
{
    let mut out = String::new();
    let mut i: usize = 0;
    let ghost all = texts(pieces@);
    while i < pieces.len()
        invariant
            i <= pieces@.len(),
            all == texts(pieces@),
            out@ == joined(all.take(i as int), sep@),
        decreases pieces@.len() - i,
    {
        proof {
            assert(all.take(i + 1).drop_last() == all.take(i as int));
            assert(all.take(i + 1).last() == pieces@[i as int]@);
        }
        if i > 0 {
            out.append(sep);
        } else {
            assert(out@ + pieces@[0]@ == pieces@[0]@);
        }
        out.append(pieces[i].as_str());
        i = i + 1;
    }
    assert(all.take(all.len() as int) == all);
    out
}

/// One character with an ASCII capital replaced.
pub fn to_lower_char(c: char) -> (r: char)
    ensures
        r == lower_char(c),
{
    if 'A' <= c && c <= 'Z' {
        let b: u8 = c as u8;
        (b + 32u8) as char
    } else {
        c
    }
}

/// `s` with the ASCII capitals replaced by small letters.
pub fn to_lower(s: &str) -> (r: String)
    ensures
        r@ == lower(s@),
{
    let v = chars_of(s);
    let mut out = String::new();
    let mut i: usize = 0;
    while i < v.len()
        invariant
            i <= v@.len(),
            out@ == lower(v@.take(i as int)),
        decreases v@.len() - i,
    {
        let c = to_lower_char(v[i]);
        out.push(c);
        assert(out@ == lower(v@.take(i + 1)));
        i = i + 1;
    }
    assert(v@.take(v@.len() as int) == v@);
    out
}

/// Whether two texts are equal when ASCII case is disregarded.
pub fn same_ignoring_case(a: &str, b: &str) -> (r: bool)
    ensures
        r == (lower(a@) == lower(b@)),
{
    let x = to_lower(a);
    let y = to_lower(b);
    x == y
}

/// Whether `v` holds the text `s`.
pub fn holds_text(v: &Vec<String>, s: &str) -> (r: bool)
    ensures
        r == texts(v@).contains(s@),
{
    let mut i: usize = 0;
    while i < v.len()
        invariant
            i <= v@.len(),
            forall|k: int| 0 <= k < i ==> v@[k]@ != s@,
        decreases v@.len() - i,
    {
        if same(v[i].as_str(), s) {
            assert(texts(v@)[i as int] == s@);
            return true;
        }
        i = i + 1;
    }
    proof {
        if texts(v@).contains(s@) {
            let k = choose|k: int| 0 <= k < texts(v@).len() && texts(v@)[k] == s@;
            assert(v@[k]@ == s@);
        }
    }
    false
}

/// A copy of a list of texts.
pub fn copy_texts(v: &Vec<String>) -> (r: Vec<String>)
    ensures
        texts(r@) == texts(v@),
{
    let mut out: Vec<String> = Vec::new();
    let mut i: usize = 0;
    while i < v.len()
        invariant
            i <= v@.len(),
            texts(out@) == texts(v@).take(i as int),
        decreases v@.len() - i,
    {
        let s: String = v[i].clone();
        let ghost before = out@;
        out.push(s);
        proof {
            assert(texts(out@) =~= texts(before).push(s@));
            assert(texts(v@).take(i + 1) =~= texts(v@).take(i as int).push(v@[i as int]@));
        }
        i = i + 1;
    }
    assert(texts(v@).take(v@.len() as int) == texts(v@));
    out
}

/// A copy of an optional text.
pub fn copy_opt(o: &Option<String>) -> (r: Option<String>)
    ensures
        text_opt(r) == text_opt(*o),
{
    match o {
        Some(s) => Some(s.clone()),
        None => None,
    }
}

/// Trimming never lengthens a text.
pub proof fn lemma_trim_shorter(s: Seq<char>)
    ensures
        trimmed(s).len() <= s.len(),
{
    lemma_trim_front_shorter(s);
    lemma_trim_back_shorter(trim_front(s));
}

proof fn lemma_trim_front_shorter(s: Seq<char>)
    ensures
        trim_front(s).len() <= s.len(),
    decreases s.len(),
{
    if s.len() > 0 && is_space(s[0]) {
        lemma_trim_front_shorter(s.drop_first());
    }
}

proof fn lemma_trim_back_shorter(s: Seq<char>)
    ensures
        trim_back(s).len() <= s.len(),
    decreases s.len(),
{
    if s.len() > 0 && is_space(s.last()) {
        lemma_trim_back_shorter(s.drop_last());
    }
}

/// Splitting never yields an empty list.
pub proof fn lemma_split_nonempty(s: Seq<char>, sep: char)
    ensures
        split(s, sep).len() > 0,
    decreases s.len(),
{
    if s.len() > 0 {
        lemma_split_nonempty(s.drop_last(), sep);
    }
}

/// No piece of a split holds the separator.
pub proof fn law_split_pieces_hold_no_separator(s: Seq<char>, sep: char)
    ensures
        forall|i: int| 0 <= i < split(s, sep).len() ==> !(#[trigger] split(s, sep)[i]).contains(sep),
    decreases s.len(),
{
    lemma_split_nonempty(s, sep);
    if s.len() > 0 {
        let prev = split(s.drop_last(), sep);
        lemma_split_nonempty(s.drop_last(), sep);
        law_split_pieces_hold_no_separator(s.drop_last(), sep);
        assert forall|i: int| 0 <= i < split(s, sep).len() implies !(#[trigger] split(
            s,
            sep,
        )[i]).contains(sep) by {
            let p = split(s, sep)[i];
            if s.last() != sep && i == prev.len() - 1 {
                assert(!prev[i].contains(sep));
                if p.contains(sep) {
                    let k = choose|k: int| 0 <= k < p.len() && p[k] == sep;
                    assert(prev[i][k] == sep);
                }
            } else if i < prev.len() {
                assert(p == prev[i]);
            }
        }
    }
}

/// Splitting at `sep` and putting the pieces back with `sep` restores the
/// text.
pub proof fn law_split_then_join(s: Seq<char>, sep: char)
    ensures
        joined(split(s, sep), seq![sep]) == s,
    decreases s.len(),
{
    lemma_split_nonempty(s, sep);
    if s.len() == 0 {
        assert(joined(split(s, sep), seq![sep]) == s);
    } else {
        let head = s.drop_last();
        let prev = split(head, sep);
        law_split_then_join(head, sep);
        lemma_split_nonempty(head, sep);
        let now = split(s, sep);
        assert(s == head.push(s.last()));
        if s.last() == sep {
            assert(now.drop_last() == prev);
            assert(joined(now, seq![sep]) == joined(prev, seq![sep]) + seq![sep] + Seq::<char>::empty());
            assert(joined(now, seq![sep]) == s);
        } else {
            assert(now.drop_last() == prev.drop_last());
            if prev.len() == 1 {
                assert(joined(now, seq![sep]) == prev[0].push(s.last()));
            } else {
                assert(joined(now, seq![sep]) == joined(prev.drop_last(), seq![sep]) + seq![sep]
                    + prev.last().push(s.last()));
                assert(joined(now, seq![sep]) == s);
            }
        }
    }
}

/// Bytes as a text of as many characters: each stands for the byte of its
/// own number.
pub open spec fn byte_text(bytes: Seq<u8>) -> Seq<char> {
    bytes.map_values(|b: u8| b as char)
}

/// Bytes as a text of as many characters.
pub fn text_of_bytes(bytes: &[u8]) -> (r: String)
    ensures
        r@ == byte_text(bytes@),
{
    let ghost all = byte_text(bytes@);
    let mut out = String::new();
    let mut i: usize = 0;
    assert(out@ =~= all.take(0));
    while i < bytes.len()
        invariant
            i <= bytes@.len(),
            all == byte_text(bytes@),
            out@ == all.take(i as int),
        decreases bytes@.len() - i,
    {
        out.push(bytes[i] as char);
        assert(all.take(i + 1) =~= all.take(i as int).push(all[i as int]));
        i = i + 1;
    }
    assert(all.take(all.len() as int) =~= all);
    out
}

/// The bytes of a text whose characters each stand for a byte.
pub open spec fn text_bytes(s: Seq<char>) -> Seq<u8> {
    s.map_values(|c: char| c as u8)
}

/// The bytes of a text whose characters each stand for a byte.
pub fn narrowed(s: &str) -> (r: Vec<u8>)
    ensures
        r@ == text_bytes(s@),
{
    let v = chars_of(s);
    let mut out: Vec<u8> = Vec::new();
    let mut i: usize = 0;
    assert(out@ =~= text_bytes(v@.take(0)));
    while i < v.len()
        invariant
            i <= v@.len(),
            v@ == s@,
            out@ == text_bytes(v@.take(i as int)),
        decreases v@.len() - i,
    {
        let ghost before = out@;
        out.push(v[i] as u8);
        proof {
            assert(v@.take(i + 1) =~= v@.take(i as int).push(v@[i as int]));
            assert(out@ =~= text_bytes(v@.take(i + 1)));
        }
        i = i + 1;
    }
    assert(v@.take(v@.len() as int) =~= v@);
    out
}

/// The bytes of the text that stands for bytes are those bytes.
pub proof fn law_text_bytes_undoes_byte_text(bytes: Seq<u8>)
    ensures
        text_bytes(byte_text(bytes)) == bytes,
{
    assert(text_bytes(byte_text(bytes)) =~= bytes);
}

/// The byte that a character stands for, when it stands for one.
fn byte_of_char(c: char) -> (r: Option<u8>)
    ensures
        match r {
            Some(b) => b as char == c,
            None => c as int > 255,
        },
{
    let code: u32 = c as u32;
    if code > 255 {
        None
    } else {
        Some(code as u8)
    }
}

/// The bytes that a text stands for; none when a character stands for no
/// byte.
pub fn bytes_of_text(s: &str) -> (r: Option<Vec<u8>>)
    ensures
        match r {
            Some(bytes) => byte_text(bytes@) == s@,
            None => exists|i: int| 0 <= i < s@.len() && #[trigger] s@[i] as int > 255,
        },
{
    let v = chars_of(s);
    let mut out: Vec<u8> = Vec::new();
    let mut i: usize = 0;
    assert(byte_text(out@) =~= v@.take(0));
    while i < v.len()
        invariant
            i <= v@.len(),
            v@ == s@,
            byte_text(out@) == v@.take(i as int),
        decreases v@.len() - i,
    {
        let b: u8 = match byte_of_char(v[i]) {
            Some(b) => b,
            None => {
                return None;
            },
        };
        let ghost before = out@;
        out.push(b);
        proof {
            assert(byte_text(out@) =~= byte_text(before).push(v@[i as int]));
            assert(v@.take(i + 1) =~= v@.take(i as int).push(v@[i as int]));
        }
        i = i + 1;
    }
    assert(v@.take(v@.len() as int) =~= v@);
    Some(out)
}

proof fn lemma_byte_char(b: u8)
    ensures
        (b as char) as int == b as int,
{
}

/// Bytes come back from the text that stands for them, and only theirs does.
pub proof fn law_byte_text_injective(a: Seq<u8>, b: Seq<u8>)
    requires
        byte_text(a) == byte_text(b),
    ensures
        a == b,
{
    assert(byte_text(a).len() == a.len());
    assert(byte_text(b).len() == b.len());
    assert forall|i: int| 0 <= i < a.len() implies a[i] == b[i] by {
        assert(byte_text(a)[i] == a[i] as char);
        assert(byte_text(b)[i] == b[i] as char);
        lemma_byte_char(a[i]);
        lemma_byte_char(b[i]);
    }
    assert(a =~= b);
}

/// Trimming takes away white space at both ends and nothing else: what is
/// left stands in the text as it is, does not begin or end with white space,
/// and everything before and behind it is white space.
pub proof fn law_trim_takes_outer_space(s: Seq<char>)
    ensures
        exists|from: int, to: int|
            0 <= from <= to <= s.len() && #[trigger] s.subrange(from, to) == trimmed(s) && (forall|
                i: int,
            |
                0 <= i < from || to <= i < s.len() ==> is_space(#[trigger] s[i])),
        trimmed(s).len() > 0 ==> !is_space(trimmed(s)[0]) && !is_space(trimmed(s).last()),
{
    let from = lemma_trim_front_part(s);
    let front = trim_front(s);
    let n = lemma_trim_back_part(front);
    let to: int = if n == 0 {
        s.len() as int
    } else {
        from + n
    };
    if n == 0 {
        assert(trimmed(s) =~= s.subrange(s.len() as int, s.len() as int));
        assert forall|i: int| 0 <= i < s.len() implies is_space(#[trigger] s[i]) by {
            if i >= from {
                assert(front[i - from] == s[i]);
            }
        }
        assert(s.subrange(s.len() as int, s.len() as int) == trimmed(s));
    } else {
        assert(trimmed(s) =~= s.subrange(from, from + n));
        assert(trimmed(s)[0] == front[0]);
        assert forall|i: int| 0 <= i < from || from + n <= i < s.len() implies is_space(
            #[trigger] s[i],
        ) by {
            if i >= from {
                assert(front[i - from] == s[i]);
            }
        }
    }
}

proof fn lemma_trim_front_part(s: Seq<char>) -> (from: int)
    ensures
        0 <= from <= s.len(),
        trim_front(s) == s.skip(from),
        forall|i: int| 0 <= i < from ==> is_space(#[trigger] s[i]),
        trim_front(s).len() > 0 ==> !is_space(trim_front(s)[0]),
    decreases s.len(),
{
    if s.len() > 0 && is_space(s[0]) {
        let rest = s.drop_first();
        let k = lemma_trim_front_part(rest);
        assert(s.skip(k + 1) =~= rest.skip(k));
        assert forall|i: int| 0 <= i < k + 1 implies is_space(#[trigger] s[i]) by {
            if i > 0 {
                assert(rest[i - 1] == s[i]);
            }
        }
        k + 1
    } else {
        assert(s.skip(0) =~= s);
        0
    }
}

proof fn lemma_trim_back_part(s: Seq<char>) -> (to: int)
    ensures
        0 <= to <= s.len(),
        trim_back(s) == s.take(to),
        forall|i: int| to <= i < s.len() ==> is_space(#[trigger] s[i]),
        trim_back(s).len() > 0 ==> !is_space(trim_back(s).last()),
    decreases s.len(),
{
    if s.len() > 0 && is_space(s.last()) {
        let rest = s.drop_last();
        let k = lemma_trim_back_part(rest);
        assert(s.take(k) =~= rest.take(k));
        assert forall|i: int| k <= i < s.len() implies is_space(#[trigger] s[i]) by {
            if i < rest.len() {
                assert(rest[i] == s[i]);
            }
        }
        k
    } else {
        assert(s.take(s.len() as int) =~= s);
        s.len() as int
    }
}

/// Taking off a trailing run takes off every such character at the end and
/// nothing before.
pub proof fn law_trailing_run_is_taken_off(s: Seq<char>, c: char)
    ensures
        trim_end_of(s, c).is_prefix_of(s),
        trim_end_of(s, c).len() > 0 ==> trim_end_of(s, c).last() != c,
        forall|i: int| trim_end_of(s, c).len() <= i < s.len() ==> #[trigger] s[i] == c,
    decreases s.len(),
{
    if s.len() > 0 && s.last() == c {
        let rest = s.drop_last();
        law_trailing_run_is_taken_off(rest, c);
        let t = trim_end_of(s, c);
        assert(t == rest.subrange(0, t.len() as int));
        assert(t =~= s.subrange(0, t.len() as int));
        assert forall|i: int| t.len() <= i < s.len() implies #[trigger] s[i] == c by {
            if i < rest.len() {
                assert(rest[i] == s[i]);
            }
        }
    } else {
        assert(s =~= s.subrange(0, s.len() as int));
    }
}

/// Small letters: the text keeps its length, an ASCII capital becomes the
/// letter 32 places further on, and every other character stays.
pub proof fn law_lower_changes_capitals_only(s: Seq<char>, i: int)
    requires
        0 <= i < s.len(),
    ensures
        lower(s).len() == s.len(),
        'A' <= s[i] <= 'Z' ==> lower(s)[i] as int == s[i] as int + 32,
        !('A' <= s[i] <= 'Z') ==> lower(s)[i] == s[i],
        lower(lower(s)) == lower(s),
{
    assert(lower(lower(s)) =~= lower(s));
}

/// What stands before the first occurrence of a run: a prefix of the text in
/// which the run does not begin, followed by the run; all of the text when
/// the run does not occur.
pub proof fn law_before_first_occurrence(s: Seq<char>, needle: Seq<char>)
    ensures
        before_run(s, needle).is_prefix_of(s),
        forall|i: int| 0 <= i < before_run(s, needle).len() ==> !#[trigger] run_at(s, needle, i),
        has_run(s, needle) ==> run_at(s, needle, before_run(s, needle).len() as int),
        !has_run(s, needle) ==> before_run(s, needle) == s,
    decreases s.len(),
{
    if run_at(s, needle, 0) {
        assert(Seq::<char>::empty() =~= s.subrange(0, 0));
    } else if s.len() == 0 {
        assert(s =~= s.subrange(0, 0));
        assert forall|i: int| !#[trigger] run_at(s, needle, i) by {
            if run_at(s, needle, i) {
                assert(i == 0);
            }
        }
    } else {
        let rest = s.drop_first();
        law_before_first_occurrence(rest, needle);
        let b = before_run(rest, needle);
        let t = before_run(s, needle);
        assert(t == seq![s[0]] + b);
        assert(b == rest.subrange(0, b.len() as int));
        assert(t =~= s.subrange(0, t.len() as int));
        assert forall|i: int| 1 <= i implies (#[trigger] run_at(s, needle, i) <==> run_at(
            rest,
            needle,
            i - 1,
        )) by {
            if 0 <= i - 1 <= rest.len() - needle.len() {
                assert(s.subrange(i, i + needle.len()) =~= rest.subrange(
                    i - 1,
                    i - 1 + needle.len(),
                ));
            }
        }
        assert forall|i: int| 0 <= i < t.len() implies !#[trigger] run_at(s, needle, i) by {
            if i > 0 {
                assert(!run_at(rest, needle, i - 1));
            }
        }
        if has_run(s, needle) {
            let i = choose|i: int| #[trigger] run_at(s, needle, i);
            assert(i > 0);
            assert(run_at(rest, needle, i - 1));
            assert(run_at(rest, needle, b.len() as int));
            assert(run_at(s, needle, b.len() as int + 1));
        } else {
            assert(!has_run(rest, needle)) by {
                if has_run(rest, needle) {
                    let i = choose|i: int| #[trigger] run_at(rest, needle, i);
                    assert(run_at(s, needle, i + 1));
                }
            }
            assert(t =~= s);
        }
    }
}

/// The texts of a list are those of its strings, one by one.
pub proof fn law_texts_are_those_of_the_strings(v: Seq<String>, o: Option<String>)
    ensures
        texts(v).len() == v.len(),
        forall|i: int| 0 <= i < v.len() ==> #[trigger] texts(v)[i] == v[i]@,
        text_opt(o) is Some <==> o is Some,
        o matches Some(s) ==> text_opt(o) == Some(s@),
{
}

/// Putting pieces together: nothing gives the empty text, one piece itself,
/// and a further piece follows behind the separator.
pub proof fn law_join_separates_neighbours(
    pieces: Seq<Seq<char>>,
    piece: Seq<char>,
    sep: Seq<char>,
)
    ensures
        joined(seq![], sep).len() == 0,
        joined(seq![piece], sep) == piece,
        pieces.len() > 0 ==> joined(pieces.push(piece), sep) == joined(pieces, sep) + sep + piece,
{
    assert(pieces.push(piece).drop_last() =~= pieces);
}

/// Splitting goes on behind a separator as if the text began there; a text
/// without the separator is one piece.
pub proof fn law_split_at_separator(a: Seq<char>, b: Seq<char>, sep: char)
    ensures
        split(a.push(sep) + b, sep) == split(a, sep) + split(b, sep),
        !b.contains(sep) ==> split(b, sep) == seq![b],
    decreases b.len(),
{
    let whole = a.push(sep) + b;
    lemma_split_nonempty(b, sep);
    if b.len() == 0 {
        assert(whole =~= a.push(sep));
        assert(whole.drop_last() =~= a);
        assert(split(b, sep) =~= seq![Seq::<char>::empty()]);
        assert(split(whole, sep) =~= split(a, sep) + split(b, sep));
        assert(b =~= Seq::<char>::empty());
    } else {
        let front = b.drop_last();
        assert(whole.drop_last() =~= a.push(sep) + front);
        law_split_at_separator(a, front, sep);
        lemma_split_nonempty(front, sep);
        assert(split(whole, sep) =~= split(a, sep) + split(b, sep));
        if !b.contains(sep) {
            assert(!front.contains(sep)) by {
                if front.contains(sep) {
                    let k = choose|k: int| 0 <= k < front.len() && front[k] == sep;
                    assert(b[k] == sep);
                }
            }
            assert(b.last() != sep) by {
                assert(b.contains(b.last()));
            }
            assert(split(b, sep) =~= seq![front.push(b.last())]);
            assert(front.push(b.last()) =~= b);
        }
    }
}

} // verus!
