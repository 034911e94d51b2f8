//! A map from text to values that remembers insertion order.
//!
//! The view is the sequence of entries. `lookup` and `stored` say what
//! reading and writing mean on it.

use vstd::prelude::*;

use crate::text;

verus! {

/// A map from text to `V`.
#[derive(Debug)]
pub struct StringMap<V> {
    entries: Vec<(String, V)>,
}

/// The position of the entry with key `key`, or the number of entries.
pub open spec fn position<V>(entries: Seq<(Seq<char>, V)>, key: Seq<char>) -> nat
    decreases entries.len(),
{
    if entries.len() == 0 || entries[0].0 == key {
        0
    } else {
        1 + position(entries.drop_first(), key)
    }
}

/// Whether some entry has the key.
pub open spec fn has_key<V>(entries: Seq<(Seq<char>, V)>, key: Seq<char>) -> bool {
    position(entries, key) < entries.len()
}

/// The value stored under the key.
pub open spec fn lookup<V>(entries: Seq<(Seq<char>, V)>, key: Seq<char>) -> Option<V> {
    if has_key(entries, key) {
        Some(entries[position(entries, key) as int].1)
    } else {
        None
    }
}

/// The text stored under the key, for a map of texts.
pub open spec fn lookup_text(entries: Seq<(Seq<char>, String)>, key: Seq<char>) -> Option<Seq<char>> {
    match lookup(entries, key) {
        Some(s) => Some(s@),
        None => None,
    }
}

/// The entries after `value` was stored under `key`: the entry of that key
/// is replaced where it stands, or a new one is added at the end.
pub open spec fn stored<V>(entries: Seq<(Seq<char>, V)>, key: Seq<char>, value: V) -> Seq<
    (Seq<char>, V),
> {
    if has_key(entries, key) {
        entries.update(position(entries, key) as int, (key, value))
    } else {
        entries.push((key, value))
    }
}

/// Whether no key occurs twice.
pub open spec fn keys_distinct<V>(entries: Seq<(Seq<char>, V)>) -> bool {
    forall|i: int, j: int|
        0 <= i < j < entries.len() ==> (#[trigger] entries[i]).0 != (#[trigger] entries[j]).0
}

/// Entries with each value given as text.
pub open spec fn text_entries(entries: Seq<(Seq<char>, String)>) -> Seq<(Seq<char>, Seq<char>)> {
    entries.map_values(|e: (Seq<char>, String)| (e.0, e.1@))
}

impl<V> View for StringMap<V> {
    type V = Seq<(Seq<char>, V)>;

    closed spec fn view(&self) -> Seq<(Seq<char>, V)> {
        self.entries@.map_values(|e: (String, V)| (e.0@, e.1))
    }
}

impl<V> Default for StringMap<V> {
    fn default() -> (r: StringMap<V>)
        ensures
            r@ == Seq::<(Seq<char>, V)>::empty(),
    {
        StringMap::new()
    }
}

proof fn lemma_position<V>(entries: Seq<(Seq<char>, V)>, key: Seq<char>)
    ensures
        position(entries, key) <= entries.len(),
        has_key(entries, key) ==> entries[position(entries, key) as int].0 == key,
        forall|i: int| 0 <= i < position(entries, key) ==> (#[trigger] entries[i]).0 != key,
    decreases entries.len(),
{
    if entries.len() > 0 && entries[0].0 != key {
        let rest = entries.drop_first();
        lemma_position(rest, key);
        assert forall|i: int| 0 <= i < position(entries, key) implies (#[trigger] entries[i]).0
            != key by {
            if i > 0 {
                assert(rest[i - 1] == entries[i]);
            }
        }
    }
}

proof fn lemma_position_at<V>(entries: Seq<(Seq<char>, V)>, key: Seq<char>, at: int)
    requires
        0 <= at <= entries.len(),
        at < entries.len() ==> entries[at].0 == key,
        forall|i: int| 0 <= i < at ==> (#[trigger] entries[i]).0 != key,
    ensures
        position(entries, key) == at,
{
    lemma_position(entries, key);
    let p = position(entries, key) as int;
    if p < at {
        assert(entries[p].0 != key);
    }
}

/// Giving the values of a map as texts commutes with reading and writing.
pub proof fn lemma_text_entries(entries: Seq<(Seq<char>, String)>, key: Seq<char>, value: String)
    ensures
        position(text_entries(entries), key) == position(entries, key),
        has_key(text_entries(entries), key) == has_key(entries, key),
        lookup(text_entries(entries), key) == lookup_text(entries, key),
        text_entries(stored(entries, key, value)) == stored(text_entries(entries), key, value@),
    decreases entries.len(),
{
    let views = text_entries(entries);
    if entries.len() > 0 && entries[0].0 != key {
        assert(views.drop_first() =~= text_entries(entries.drop_first()));
        lemma_text_entries(entries.drop_first(), key, value);
    }
    lemma_position(entries, key);
    assert(text_entries(stored(entries, key, value)) =~= stored(views, key, value@));
}

/// Writing a key never removes another.
pub proof fn lemma_stored_has<V>(
    entries: Seq<(Seq<char>, V)>,
    key: Seq<char>,
    value: V,
    other: Seq<char>,
)
    ensures
        has_key(stored(entries, key, value), other) <==> other == key || has_key(entries, other),
{
    law_read_after_write(entries, key, value, other);
    lemma_position(stored(entries, key, value), key);
}

/// Reading the key that was just written gives the value that was written;
/// every other key reads as before.
pub proof fn law_read_after_write<V>(
    entries: Seq<(Seq<char>, V)>,
    key: Seq<char>,
    value: V,
    other: Seq<char>,
)
    ensures
        lookup(stored(entries, key, value), key) == Some(value),
        other != key ==> lookup(stored(entries, key, value), other) == lookup(entries, other),
{
    let now = stored(entries, key, value);
    lemma_position(entries, key);
    lemma_position(entries, other);
    let at = position(entries, key) as int;
    lemma_position_at(now, key, at);
    if other != key {
        let p = position(entries, other) as int;
        if p < entries.len() {
            lemma_position_at(now, other, p);
        } else {
            lemma_position_at(now, other, now.len() as int);
        }
    }
}

/// Writing keeps the keys distinct.
pub proof fn law_write_keeps_keys_distinct<V>(
    entries: Seq<(Seq<char>, V)>,
    key: Seq<char>,
    value: V,
)
    requires
        keys_distinct(entries),
    ensures
        keys_distinct(stored(entries, key, value)),
{
    lemma_position(entries, key);
}

impl<V> StringMap<V> {
    #[verifier::type_invariant]
    spec fn inv(self) -> bool {
        keys_distinct(self@)
    }

    /// An empty map.
    pub fn new() -> (r: StringMap<V>)
        ensures
            r@ == Seq::<(Seq<char>, V)>::empty(),
            keys_distinct(r@),
    {
        let r = StringMap { entries: Vec::new() };
        assert(r@ =~= Seq::empty());
        r
    }

    /// How many entries there are.
    pub fn len(&self) -> (r: usize)
        ensures
            r == self@.len(),
            keys_distinct(self@),
    {
        proof {
            use_type_invariant(self);
        }
        self.entries.len()
    }

    /// Whether there is no entry.
    pub fn is_empty(&self) -> (r: bool)
        ensures
            r == (self@.len() == 0),
            keys_distinct(self@),
    {
        proof {
            use_type_invariant(self);
        }
        self.entries.len() == 0
    }

    /// The key of the entry at `i`.
    pub fn key_at(&self, i: usize) -> (r: &str)
        requires
            i < self@.len(),
        ensures
            r@ == self@[i as int].0,
    {
        self.entries[i].0.as_str()
    }

    /// The value of the entry at `i`.
    pub fn value_at(&self, i: usize) -> (r: &V)
        requires
            i < self@.len(),
        ensures
            *r == self@[i as int].1,
    {
        &self.entries[i].1
    }

    fn find(&self, key: &str) -> (r: usize)
        ensures
            r == position(self@, key@),
            r <= self@.len(),
    {
        let mut i: usize = 0;
        while i < self.entries.len()
            invariant
                i <= self@.len(),
                self@.len() == self.entries@.len(),
                forall|k: int| 0 <= k < i ==> (#[trigger] self@[k]).0 != key@,
            decreases self.entries@.len() - i,
        {
            if text::same(self.entries[i].0.as_str(), key) {
                assert(self@[i as int].0 == key@);
                proof {
                    lemma_position_at(self@, key@, i as int);
                }
                return i;
            }
            assert(self@[i as int].0 != key@);
            i = i + 1;
        }
        proof {
            lemma_position_at(self@, key@, i as int);
        }
        i
    }

    /// The value stored under `key`.
    pub fn get(&self, key: &str) -> (r: Option<&V>)
        ensures
            match r {
                Some(v) => lookup(self@, key@) == Some(*v),
                None => lookup(self@, key@) is None,
            },
            keys_distinct(self@),
    {
        proof {
            use_type_invariant(self);
        }
        let i: usize = self.find(key);
        if i < self.entries.len() {
            Some(&self.entries[i].1)
        } else {
            None
        }
    }

    /// Whether `key` has a value.
    pub fn contains_key(&self, key: &str) -> (r: bool)
        ensures
            r == has_key(self@, key@),
            keys_distinct(self@),
    {
        proof {
            use_type_invariant(self);
        }
        self.find(key) < self.entries.len()
    }

    /// Stores `value` under `key`.
    pub fn insert(&mut self, key: String, value: V)
        ensures
            final(self)@ == stored(old(self)@, key@, value),
            keys_distinct(final(self)@),
    {
        proof {
            use_type_invariant(&*self);
        }
        let ghost before = self@;
        let i: usize = self.find(key.as_str());
        let mut entries: Vec<(String, V)> = Vec::new();
        std::mem::swap(&mut entries, &mut self.entries);
        if i < entries.len() {
            entries.set(i, (key, value));
        } else {
            entries.push((key, value));
        }
        proof {
            law_write_keeps_keys_distinct(before, key@, value);
            let now = entries@.map_values(|e: (String, V)| (e.0@, e.1));
            assert(now =~= stored(before, key@, value));
        }
        self.entries = entries;
    }
}

impl<V: Clone> Clone for StringMap<V> {
    /// A map with the same keys in the same order, each value cloned.
    fn clone(&self) -> (r: StringMap<V>)
        ensures
            r@.len() == self@.len(),
            forall|i: int|
                0 <= i < self@.len() ==> (#[trigger] r@[i]).0 == self@[i].0 && cloned::<V>(
                    self@[i].1,
                    r@[i].1,
                ),
            keys_distinct(self@),
    {
        proof {
            use_type_invariant(self);
        }
        let mut out: Vec<(String, V)> = Vec::new();
        let mut i: usize = 0;
        while i < self.entries.len()
            invariant
                i <= self.entries@.len(),
                out@.len() == i,
                forall|j: int|
                    0 <= j < i ==> (#[trigger] out@[j]).0@ == self.entries@[j].0@ && cloned::<V>(
                        self.entries@[j].1,
                        out@[j].1,
                    ),
            decreases self.entries@.len() - i,
        {
            let key: String = self.entries[i].0.clone();
            let value: V = self.entries[i].1.clone();
            out.push((key, value));
            i = i + 1;
        }
        let ghost copied = out@.map_values(|e: (String, V)| (e.0@, e.1));
        proof {
            assert forall|x: int, y: int| 0 <= x < y < copied.len() implies (#[trigger] copied[x]).0
                != (#[trigger] copied[y]).0 by {
                assert(out@[x].0@ == self@[x].0);
                assert(out@[y].0@ == self@[y].0);
            }
        }
        StringMap { entries: out }
    }
}

/// A copy of a map of texts.
pub fn copy_map(m: &StringMap<String>) -> (r: StringMap<String>)
    ensures
        r@ == m@,
        keys_distinct(m@),
{
    proof {
        use_type_invariant(m);
    }
    let ghost all = m@;
    let mut out: Vec<(String, String)> = Vec::new();
    let mut i: usize = 0;
    while i < m.entries.len()
        invariant
            i <= m.entries@.len(),
            all == m@,
            all.len() == m.entries@.len(),
            out@.map_values(|e: (String, String)| (e.0@, e.1)) =~= all.take(i as int),
        decreases m.entries@.len() - i,
    {
        let ghost before = out@.map_values(|e: (String, String)| (e.0@, e.1));
        let key: String = m.entries[i].0.clone();
        let value: String = m.entries[i].1.clone();
        out.push((key, value));
        proof {
            assert(out@.map_values(|e: (String, String)| (e.0@, e.1)) =~= before.push(
                (key@, value),
            ));
            assert(all.take(i + 1) =~= all.take(i as int).push(all[i as int]));
        }
        i = i + 1;
    }
    assert(all.take(all.len() as int) =~= all);
    StringMap { entries: out }
}

/// A key is in the map exactly when an entry has it, and it reads as the
/// first such entry's value.
pub proof fn law_first_entry_is_read<V>(entries: Seq<(Seq<char>, V)>, key: Seq<char>, i: int)
    requires
        0 <= i <= entries.len(),
        forall|k: int| 0 <= k < i ==> (#[trigger] entries[k]).0 != key,
    ensures
        i == entries.len() ==> lookup(entries, key) is None && !has_key(entries, key),
        i < entries.len() && entries[i].0 == key ==> lookup(entries, key) == Some(entries[i].1)
            && has_key(entries, key),
    decreases entries.len(),
{
    if i > 0 {
        let rest = entries.drop_first();
        assert(entries[0].0 != key);
        assert forall|k: int| 0 <= k < i - 1 implies (#[trigger] rest[k]).0 != key by {
            assert(rest[k] == entries[k + 1]);
        }
        law_first_entry_is_read(rest, key, i - 1);
        if i < entries.len() {
            assert(rest[i - 1] == entries[i]);
            if entries[i].0 == key {
                assert(position(entries, key) == 1 + position(rest, key));
                assert(entries[position(entries, key) as int] == rest[position(rest, key) as int]);
            }
        }
    }
}

/// A new key is added behind all others; a known one keeps its place.
pub proof fn law_write_keeps_order<V>(entries: Seq<(Seq<char>, V)>, key: Seq<char>, value: V)
    ensures
        !has_key(entries, key) ==> stored(entries, key, value) == entries.push((key, value)),
        has_key(entries, key) ==> stored(entries, key, value).len() == entries.len(),
        forall|i: int|
            0 <= i < entries.len() && (#[trigger] entries[i]).0 != key ==> stored(
                entries,
                key,
                value,
            )[i] == entries[i],
{
    lemma_position_is_of_key(entries, key);
}

proof fn lemma_position_is_of_key<V>(entries: Seq<(Seq<char>, V)>, key: Seq<char>)
    ensures
        position(entries, key) <= entries.len(),
        position(entries, key) < entries.len() ==> entries[position(entries, key) as int].0 == key,
    decreases entries.len(),
{
    if entries.len() > 0 && entries[0].0 != key {
        lemma_position_is_of_key(entries.drop_first(), key);
    }
}

} // verus!
