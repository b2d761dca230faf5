//! A map from names to values that keeps the order in which names came in.

use vstd::prelude::*;
use crate::text;

verus! {

/// The value that a list of entries holds under `key`.
pub open spec fn lookup<V>(s: Seq<(Seq<char>, V)>, key: Seq<char>) -> Option<V>
    decreases s.len(),
{
    if s.len() == 0 {
        None
    } else if s[0].0 == key {
        Some(s[0].1)
    } else {
        lookup(s.drop_first(), key)
    }
}

/// The entries after `value` was stored under `key`: in place of the value that
/// stood there, or behind all others.
pub open spec fn stored<V>(s: Seq<(Seq<char>, V)>, key: Seq<char>, value: V) -> Seq<
    (Seq<char>, V),
>
    decreases s.len(),
{
    if s.len() == 0 {
        seq![(key, value)]
    } else if s[0].0 == key {
        seq![(key, value)] + s.drop_first()
    } else {
        seq![s[0]] + stored(s.drop_first(), key, value)
    }
}

/// The names of a list of entries.
pub open spec fn names<V>(s: Seq<(Seq<char>, V)>) -> Seq<Seq<char>> {
    Seq::new(s.len(), |i: int| s[i].0)
}

/// What was stored is found again, and nothing else changes.
pub proof fn law_lookup_after_stored<V>(
    s: Seq<(Seq<char>, V)>,
    key: Seq<char>,
    value: V,
    other: Seq<char>,
)
    ensures
        lookup(stored(s, key, value), other) == (if other == key {
            Some(value)
        } else {
            lookup(s, other)
        }),
    decreases s.len(),
{
    let t = stored(s, key, value);
    if s.len() == 0 {
        assert(t.drop_first() =~= Seq::<(Seq<char>, V)>::empty());
        assert(lookup(t.drop_first(), other) is None);
    } else if s[0].0 == key {
        assert(t.drop_first() =~= s.drop_first());
    } else {
        law_lookup_after_stored(s.drop_first(), key, value, other);
        assert(t.drop_first() =~= stored(s.drop_first(), key, value));
    }
}

/// A name is found exactly where some entry has it.
pub proof fn lemma_lookup<V>(s: Seq<(Seq<char>, V)>, key: Seq<char>)
    ensures
        lookup(s, key) is Some <==> names(s).contains(key),
    decreases s.len(),
{
    if s.len() > 0 {
        lemma_lookup(s.drop_first(), key);
        if s[0].0 == key {
            assert(names(s)[0] == key);
        } else {
            if names(s.drop_first()).contains(key) {
                let i = choose|i: int|
                    0 <= i < names(s.drop_first()).len() && names(s.drop_first())[i] == key;
                assert(names(s)[i + 1] == key);
            }
            if names(s).contains(key) {
                let i = choose|i: int| 0 <= i < names(s).len() && names(s)[i] == key;
                assert(names(s.drop_first())[i - 1] == key);
            }
        }
    }
}

/// Where the names differ, the entry at `i` is what its name finds.
pub proof fn lemma_lookup_at<V>(s: Seq<(Seq<char>, V)>, i: int)
    requires
        0 <= i < s.len(),
        forall|j: int| 0 <= j < i ==> (#[trigger] s[j]).0 != s[i].0,
    ensures
        lookup(s, s[i].0) == Some(s[i].1),
    decreases i,
{
    if i > 0 {
        assert(s[0].0 != s[i].0);
        let t = s.drop_first();
        assert forall|j: int| 0 <= j < i - 1 implies (#[trigger] t[j]).0 != t[i - 1].0 by {
            assert(t[j] == s[j + 1]);
        }
        lemma_lookup_at(t, i - 1);
    }
}

proof fn lemma_stored_at<V>(s: Seq<(Seq<char>, V)>, key: Seq<char>, value: V, i: int)
    requires
        0 <= i <= s.len(),
        forall|j: int| 0 <= j < i ==> (#[trigger] s[j]).0 != key,
        i < s.len() ==> s[i].0 == key,
    ensures
        stored(s, key, value) == (if i < s.len() {
            s.update(i, (key, value))
        } else {
            s.push((key, value))
        }),
    decreases i,
{
    if i > 0 {
        assert(s[0].0 != key);
        let t = s.drop_first();
        assert forall|j: int| 0 <= j < i - 1 implies (#[trigger] t[j]).0 != key by {
            assert(t[j] == s[j + 1]);
        }
        lemma_stored_at(t, key, value, i - 1);
        if i < s.len() {
            assert(seq![s[0]] + t.update(i - 1, (key, value)) =~= s.update(i, (key, value)));
        } else {
            assert(seq![s[0]] + t.push((key, value)) =~= s.push((key, value)));
        }
    } else if s.len() > 0 {
        assert(seq![(key, value)] + s.drop_first() =~= s.update(0, (key, value)));
    } else {
        assert(s.push((key, value)) =~= seq![(key, value)]);
    }
}

/// The entries of a vector of pairs.
pub open spec fn entries_of<V>(v: Seq<(String, V)>) -> Seq<(Seq<char>, V)> {
    Seq::new(v.len(), |i: int| (v[i].0@, v[i].1))
}

/// A map from names to values. No name occurs twice; the entries stand in the
/// order in which their names first came in.
#[derive(Debug, PartialEq)]
pub struct StringMap<V> {
    entries: Vec<(String, V)>,
}

impl<V> View for StringMap<V> {
    type V = Seq<(Seq<char>, V)>;

    closed spec fn view(&self) -> Seq<(Seq<char>, V)> {
        entries_of(self.entries@)
    }
}

impl<V> StringMap<V> {
    #[verifier::type_invariant]
    spec fn inv(&self) -> bool {
        names(entries_of(self.entries@)).no_duplicates()
    }

    /// The map without entries.
    pub fn new() -> (r: Self)
        ensures
            r@ == Seq::<(Seq<char>, V)>::empty(),
    {
        let r = StringMap { entries: Vec::new() };
        assert(r@ =~= Seq::<(Seq<char>, V)>::empty());
        r
    }

    /// How many names the map holds.
    pub fn len(&self) -> (n: usize)
        ensures
            n == self@.len(),
            names(self@).no_duplicates(),
    {
        proof {
            use_type_invariant(self);
        }
        self.entries.len()
    }

    /// Whether the map holds no name.
    pub fn is_empty(&self) -> (r: bool)
        ensures
            r == (self@.len() == 0),
    {
        self.entries.len() == 0
    }

    /// The name of the entry at `i`.
    pub fn name_at(&self, i: usize) -> (r: &String)
        requires
            i < self@.len(),
        ensures
            r@ == self@[i as int].0,
    {
        &self.entries[i].0
    }

    /// The value of the entry at `i`.
    pub fn value_at(&self, i: usize) -> (r: &V)
        requires
            i < self@.len(),
        ensures
            *r == self@[i as int].1,
    {
        &self.entries[i].1
    }

    fn find(&self, key: &str) -> (i: usize)
        ensures
            i <= self@.len(),
            forall|j: int| 0 <= j < i ==> (#[trigger] self@[j]).0 != key@,
            i < self@.len() ==> self@[i as int].0 == key@,
            i < self@.len() ==> lookup(self@, key@) == Some(self@[i as int].1),
            i == self@.len() ==> lookup(self@, key@) is None,
    {
        let mut i: usize = 0;
        while i < self.entries.len() && !text::same(self.entries[i].0.as_str(), key)
            invariant
                i <= self@.len(),
                self@.len() == self.entries@.len(),
                self@ == entries_of(self.entries@),
                forall|j: int| 0 <= j < i ==> (#[trigger] self@[j]).0 != key@,
            decreases self@.len() - i,
        {
            i += 1;
        }
        proof {
            if i < self@.len() {
                lemma_lookup_at(self@, i as int);
            } else {
                lemma_lookup(self@, key@);
                if names(self@).contains(key@) {
                    let j = choose|j: int| 0 <= j < names(self@).len() && names(self@)[j] == key@;
                    assert(self@[j].0 == key@);
                }
            }
        }
        i
    }

    /// The value under `key`.
    pub fn get(&self, key: &str) -> (r: Option<&V>)
        ensures
            match r {
                Some(v) => lookup(self@, key@) == Some(*v),
                None => lookup(self@, key@) is None,
            },
    {
        let i = self.find(key);
        if i < self.entries.len() {
            Some(&self.entries[i].1)
        } else {
            None
        }
    }

    /// Whether the map holds `key`.
    pub fn contains_key(&self, key: &str) -> (r: bool)
        ensures
            r == (lookup(self@, key@) is Some),
            r == names(self@).contains(key@),
    {
        proof {
            lemma_lookup(self@, key@);
        }
        let i = self.find(key);
        i < self.entries.len()
    }

    /// Stores `value` under `key`, in place of what stood there.
    pub fn insert(&mut self, key: String, value: V)
        ensures
            final(self)@ == stored(old(self)@, key@, value),
    {
        proof {
            use_type_invariant(&*self);
        }
        let ghost before = self@;
        let i = self.find(key.as_str());
        let mut e: Vec<(String, V)> = Vec::new();
        std::mem::swap(&mut e, &mut self.entries);
        assert(before == entries_of(e@));
        proof {
            lemma_stored_at(before, key@, value, i as int);
        }
        let ghost k = key@;
        if i < e.len() {
            e[i] = (key, value);
            assert(entries_of(e@) =~= before.update(i as int, (k, value)));
            assert(names(entries_of(e@)) =~= names(before));
        } else {
            e.push((key, value));
            assert(entries_of(e@) =~= before.push((k, value)));
            assert(names(entries_of(e@)) =~= names(before).push(k));
        }
        self.entries = e;
    }

    /// The names in the order in which they came in.
    pub fn names(&self) -> (r: Vec<String>)
        ensures
            text::strs(r@) == names(self@),
            names(self@).no_duplicates(),
    {
        proof {
            use_type_invariant(self);
        }
        let mut r: Vec<String> = Vec::new();
        let mut i: usize = 0;
        while i < self.entries.len()
            invariant
                i <= self.entries@.len(),
                self@ == entries_of(self.entries@),
                r@.len() == i,
                forall|j: int| 0 <= j < i ==> (#[trigger] r@[j])@ == self@[j].0,
            decreases self.entries@.len() - i,
        {
            r.push(self.entries[i].0.clone());
            i += 1;
        }
        assert(text::strs(r@) =~= names(self@));
        r
    }
}

/// A map of strings to strings, such as an environment.
pub type TextMap = StringMap<String>;

impl StringMap<String> {
    /// A copy of the map.
    pub fn copy(&self) -> (r: Self)
        ensures
            r@ == self@,
    {
        proof {
            use_type_invariant(self);
        }
        let mut e: Vec<(String, String)> = Vec::new();
        let mut i: usize = 0;
        while i < self.entries.len()
            invariant
                i <= self.entries@.len(),
                e@ == self.entries@.take(i as int),
            decreases self.entries@.len() - i,
        {
            e.push((self.entries[i].0.clone(), self.entries[i].1.clone()));
            i += 1;
        }
        assert(e@ =~= self.entries@);
        StringMap { entries: e }
    }
}

/// A name finds the first entry that has it, and nothing where none has it.
pub proof fn law_lookup_finds_the_first<V>(s: Seq<(Seq<char>, V)>, key: Seq<char>, i: int)
    ensures
        0 <= i < s.len() && s[i].0 == key && (forall|j: int|
            0 <= j < i ==> (#[trigger] s[j]).0 != key) ==> lookup(s, key) == Some(s[i].1),
        (forall|j: int| 0 <= j < s.len() ==> (#[trigger] s[j]).0 != key) ==> lookup(s, key) is None,
        forall|j: int|
            0 <= j < names(s).len() ==> names(s).len() == s.len() && #[trigger] names(s)[j]
                == s[j].0,
{
    if 0 <= i < s.len() && s[i].0 == key && (forall|j: int|
        0 <= j < i ==> (#[trigger] s[j]).0 != key) {
        lemma_lookup_at(s, i);
    }
    if forall|j: int| 0 <= j < s.len() ==> (#[trigger] s[j]).0 != key {
        lemma_lookup(s, key);
        if names(s).contains(key) {
            let j = choose|j: int| 0 <= j < names(s).len() && names(s)[j] == key;
            assert(s[j].0 == key);
        }
    }
}

/// Storing leaves every other entry in its place, and puts a new name behind all
/// others.
pub proof fn law_stored_keeps_the_others<V>(s: Seq<(Seq<char>, V)>, key: Seq<char>, value: V)
    ensures
        s.len() <= stored(s, key, value).len() <= s.len() + 1,
        forall|i: int|
            0 <= i < s.len() ==> (#[trigger] stored(s, key, value)[i]).0 == s[i].0 && (s[i].0 != key
                ==> stored(s, key, value)[i] == s[i]),
        (forall|i: int| 0 <= i < s.len() ==> (#[trigger] s[i]).0 != key) ==> stored(s, key, value)
            == s.push((key, value)),
        (exists|i: int| 0 <= i < s.len() && (#[trigger] s[i]).0 == key) ==> stored(
            s,
            key,
            value,
        ).len() == s.len(),
    decreases s.len(),
{
    let r = stored(s, key, value);
    if s.len() == 0 {
        assert(r =~= s.push((key, value)));
    } else if s[0].0 == key {
        assert forall|i: int| 0 <= i < s.len() implies (#[trigger] r[i]).0 == s[i].0 && (s[i].0
            != key ==> r[i] == s[i]) by {
            if i > 0 {
                assert(r[i] == s.drop_first()[i - 1]);
            }
        }
    } else {
        let d = s.drop_first();
        law_stored_keeps_the_others(d, key, value);
        let q = stored(d, key, value);
        assert forall|i: int| 0 <= i < s.len() implies (#[trigger] r[i]).0 == s[i].0 && (s[i].0
            != key ==> r[i] == s[i]) by {
            if i > 0 {
                assert(r[i] == q[i - 1]);
                assert(d[i - 1] == s[i]);
            }
        }
        if forall|i: int| 0 <= i < s.len() ==> (#[trigger] s[i]).0 != key {
            assert forall|i: int| 0 <= i < d.len() implies (#[trigger] d[i]).0 != key by {
                assert(d[i] == s[i + 1]);
            }
            assert(r =~= s.push((key, value)));
        }
        if exists|i: int| 0 <= i < s.len() && (#[trigger] s[i]).0 == key {
            let i = choose|i: int| 0 <= i < s.len() && (#[trigger] s[i]).0 == key;
            assert(d[i - 1] == s[i]);
        }
    }
}

} // verus!
