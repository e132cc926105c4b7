//! A string-keyed table: an association list whose keys are distinct, seen
//! through its view as a finite `Map`.

use vstd::prelude::*;

verus! {

/// No two entries share a key (compared by their text).
pub open spec fn keys_distinct<V>(s: Seq<(String, V)>) -> bool {
    forall|i: int, j: int|
        0 <= i < s.len() && 0 <= j < s.len() && i != j ==> #[trigger] s[i].0@ != #[trigger] s[j].0@
}

/// Entry `i` of `s` has key `k`.
pub open spec fn key_at<V>(s: Seq<(String, V)>, k: Seq<char>, i: int) -> bool {
    0 <= i < s.len() && s[i].0@ == k
}

/// The map that an association list denotes under a value function `f`:
/// later entries win.
pub open spec fn map_by<V, W>(s: Seq<(String, V)>, f: spec_fn(V) -> W) -> Map<Seq<char>, W>
    decreases s.len(),
{
    if s.len() == 0 {
        Map::empty()
    } else {
        map_by(s.drop_last(), f).insert(s.last().0@, f(s.last().1))
    }
}

/// The view function of a viewable type.
pub open spec fn view_fn<V: View>() -> spec_fn(V) -> V::V {
    |v: V| v@
}

/// The map that an association list denotes, values taken by their view.
pub open spec fn table_map<V: View>(s: Seq<(String, V)>) -> Map<Seq<char>, V::V> {
    map_by(s, view_fn::<V>())
}

/// The keys of an association list, in order.
pub open spec fn key_seq<V>(s: Seq<(String, V)>) -> Seq<Seq<char>> {
    s.map_values(|e: (String, V)| e.0@)
}

pub proof fn lemma_table_dom<V, W>(s: Seq<(String, V)>, f: spec_fn(V) -> W)
    ensures
        forall|k: Seq<char>| #[trigger] map_by(s, f).contains_key(k) <==> exists|i: int| key_at(s, k, i),
        map_by(s, f).dom().finite(),
    decreases s.len(),
{
    if s.len() > 0 {
        let p = s.drop_last();
        lemma_table_dom(p, f);
        assert forall|k: Seq<char>| #[trigger] map_by(s, f).contains_key(k) <==> exists|i: int| key_at(s, k, i) by {
            if map_by(s, f).contains_key(k) {
                if k == s.last().0@ {
                    assert(key_at(s, k, s.len() - 1));
                } else {
                    assert(map_by(p, f).contains_key(k));
                    let i = choose|i: int| key_at(p, k, i);
                    assert(key_at(s, k, i));
                }
            }
            if exists|i: int| key_at(s, k, i) {
                let i = choose|i: int| key_at(s, k, i);
                if i < s.len() - 1 {
                    assert(key_at(p, k, i));
                }
            }
        }
    }
}

pub proof fn lemma_table_value<V, W>(s: Seq<(String, V)>, f: spec_fn(V) -> W, i: int)
    requires
        keys_distinct(s),
        0 <= i < s.len(),
    ensures
        map_by(s, f).contains_key(s[i].0@),
        map_by(s, f)[s[i].0@] == f(s[i].1),
    decreases s.len(),
{
    let p = s.drop_last();
    if i < s.len() - 1 {
        assert(keys_distinct(p));
        lemma_table_value(p, f, i);
        assert(s[i].0@ != s[s.len() - 1].0@);
        assert(p[i] == s[i]);
    }
}

pub proof fn lemma_table_len<V, W>(s: Seq<(String, V)>, f: spec_fn(V) -> W)
    requires
        keys_distinct(s),
    ensures
        map_by(s, f).dom().finite(),
        map_by(s, f).len() == s.len(),
    decreases s.len(),
{
    lemma_table_dom(s, f);
    if s.len() > 0 {
        let p = s.drop_last();
        assert(keys_distinct(p));
        lemma_table_len(p, f);
        lemma_table_dom(p, f);
        if map_by(p, f).contains_key(s.last().0@) {
            let i = choose|i: int| key_at(p, s.last().0@, i);
            assert(s[i].0@ == s[s.len() - 1].0@);
        }
    }
}

pub proof fn lemma_table_update<V, W>(s: Seq<(String, V)>, f: spec_fn(V) -> W, i: int, e: (String, V))
    requires
        keys_distinct(s),
        0 <= i < s.len(),
        e.0@ == s[i].0@,
    ensures
        keys_distinct(s.update(i, e)),
        map_by(s.update(i, e), f) == map_by(s, f).insert(e.0@, f(e.1)),
{
    let t = s.update(i, e);
    assert(keys_distinct(t)) by {
        assert forall|a: int, b: int| 0 <= a < t.len() && 0 <= b < t.len() && a != b implies #[trigger] t[a].0@ != #[trigger] t[b].0@ by {
            assert(t[a].0@ == s[a].0@);
            assert(t[b].0@ == s[b].0@);
        }
    }
    lemma_table_dom(s, f);
    lemma_table_dom(t, f);
    let m = map_by(s, f).insert(e.0@, f(e.1));
    assert forall|k: Seq<char>| #[trigger] map_by(t, f).contains_key(k) <==> m.contains_key(k) by {
        if exists|j: int| key_at(t, k, j) {
            let j = choose|j: int| key_at(t, k, j);
            assert(key_at(s, k, j));
        }
        if exists|j: int| key_at(s, k, j) {
            let j = choose|j: int| key_at(s, k, j);
            assert(key_at(t, k, j));
        }
        if k == e.0@ {
            assert(key_at(t, k, i));
        }
    }
    assert forall|k: Seq<char>| #[trigger] map_by(t, f).contains_key(k) implies map_by(t, f)[k] == m[k] by {
        let j = choose|j: int| key_at(t, k, j);
        lemma_table_value(t, f, j);
        if j != i {
            lemma_table_value(s, f, j);
        }
    }
    assert(map_by(t, f) =~= m);
}

pub proof fn lemma_table_remove<V, W>(s: Seq<(String, V)>, f: spec_fn(V) -> W, i: int)
    requires
        keys_distinct(s),
        0 <= i < s.len(),
    ensures
        keys_distinct(s.remove(i)),
        map_by(s.remove(i), f) == map_by(s, f).remove(s[i].0@),
{
    let t = s.remove(i);
    assert(keys_distinct(t)) by {
        assert forall|a: int, b: int| 0 <= a < t.len() && 0 <= b < t.len() && a != b implies #[trigger] t[a].0@ != #[trigger] t[b].0@ by {
            let sa = if a < i { a } else { a + 1 };
            let sb = if b < i { b } else { b + 1 };
            assert(t[a] == s[sa]);
            assert(t[b] == s[sb]);
        }
    }
    lemma_table_dom(s, f);
    lemma_table_dom(t, f);
    let m = map_by(s, f).remove(s[i].0@);
    assert forall|k: Seq<char>| #[trigger] map_by(t, f).contains_key(k) <==> m.contains_key(k) by {
        if exists|j: int| key_at(t, k, j) {
            let j = choose|j: int| key_at(t, k, j);
            let sj = if j < i { j } else { j + 1 };
            assert(t[j] == s[sj]);
            assert(key_at(s, k, sj));
            assert(sj != i);
        }
        if m.contains_key(k) {
            let j = choose|j: int| key_at(s, k, j);
            assert(j != i);
            let tj = if j < i { j } else { j - 1 };
            assert(t[tj] == s[j]);
            assert(key_at(t, k, tj));
        }
    }
    assert forall|k: Seq<char>| #[trigger] map_by(t, f).contains_key(k) implies map_by(t, f)[k] == m[k] by {
        let j = choose|j: int| key_at(t, k, j);
        let sj = if j < i { j } else { j + 1 };
        assert(t[j] == s[sj]);
        lemma_table_value(t, f, j);
        lemma_table_value(s, f, sj);
    }
    assert(map_by(t, f) =~= m);
}

/// A table from text keys to values, keys distinct.
#[derive(Debug, PartialEq)]
pub struct Table<V> {
    entries: Vec<(String, V)>,
}

impl<V: View> View for Table<V> {
    type V = Map<Seq<char>, V::V>;

    open spec fn view(&self) -> Map<Seq<char>, V::V> {
        table_map(self.entry_seq())
    }
}

impl<V> Table<V> {
    #[verifier::type_invariant]
    spec fn distinct(&self) -> bool {
        keys_distinct(self.entries@)
    }

    /// The entries in their order.
    pub closed spec fn entry_seq(&self) -> Seq<(String, V)> {
        self.entries@
    }
}

impl<V: View> Table<V> {
    /// An empty table.
    pub fn new() -> (t: Self)
        ensures
            t@ == Map::<Seq<char>, V::V>::empty(),
            t.entry_seq().len() == 0,
    {
        Table { entries: Vec::new() }
    }

    fn position(&self, key: &String) -> (r: Option<usize>)
        ensures
            match r {
                Some(i) => key_at(self.entry_seq(), key@, i as int),
                None => forall|j: int| 0 <= j < self.entry_seq().len() ==> !key_at(self.entry_seq(), key@, j),
            },
    {
        let mut i: usize = 0;
        while i < self.entries.len()
            invariant
                i <= self.entries@.len(),
                forall|j: int| 0 <= j < i ==> !key_at(self.entries@, key@, j),
            decreases self.entries@.len() - i,
        {
            if self.entries[i].0 == *key {
                return Some(i);
            }
            i = i + 1;
        }
        None
    }

    /// Number of entries.
    pub fn len(&self) -> (n: usize)
        ensures
            n == self@.len(),
            n == self.entry_seq().len(),
    {
        proof {
            use_type_invariant(self);
            lemma_table_len(self.entries@, view_fn::<V>());
        }
        self.entries.len()
    }

    /// True when the table has no entry.
    pub fn is_empty(&self) -> (b: bool)
        ensures
            b == (self@.len() == 0),
            b == (self@ =~= Map::<Seq<char>, V::V>::empty()),
    {
        proof {
            use_type_invariant(self);
            lemma_table_len(self.entries@, view_fn::<V>());
            lemma_table_dom(self.entries@, view_fn::<V>());
            if self.entries@.len() > 0 {
                lemma_table_value(self.entries@, view_fn::<V>(), 0);
            }
        }
        self.entries.len() == 0
    }

    /// The value under `key`, if any.
    pub fn get(&self, key: &str) -> (r: Option<&V>)
        ensures
            r is Some <==> self@.contains_key(key@),
            r matches Some(v) ==> v@ == self@[key@],
    {
        proof {
            use_type_invariant(self);
            lemma_table_dom(self.entries@, view_fn::<V>());
        }
        let k = crate::data::text::owned(key);
        match self.position(&k) {
            Some(i) => {
                proof {
                    lemma_table_value(self.entries@, view_fn::<V>(), i as int);
                }
                Some(&self.entries[i].1)
            },
            None => None,
        }
    }

    /// True when `key` has an entry.
    pub fn contains(&self, key: &str) -> (b: bool)
        ensures
            b == self@.contains_key(key@),
    {
        self.get(key).is_some()
    }

    /// Sets the value under `key`, replacing any earlier one in place.
    pub fn insert(&mut self, key: String, value: V)
        ensures
            final(self)@ == old(self)@.insert(key@, value@),
    {
        proof {
            use_type_invariant(&*self);
            lemma_table_dom(self.entries@, view_fn::<V>());
        }
        match self.position(&key) {
            Some(i) => {
                proof {
                    lemma_table_update(self.entries@, view_fn::<V>(), i as int, (key, value));
                }
                let mut entries: Vec<(String, V)> = Vec::new();
                std::mem::swap(&mut entries, &mut self.entries);
                entries.set(i, (key, value));
                self.entries = entries;
            },
            None => {
                let ghost old_entries = self.entries@;
                proof {
                    let t = old_entries.push((key, value));
                    assert forall|a: int, b: int| 0 <= a < t.len() && 0 <= b < t.len() && a != b implies #[trigger] t[a].0@ != #[trigger] t[b].0@ by {
                        if a == t.len() - 1 {
                            assert(!key_at(self.entry_seq(), key@, b));
                        } else if b == t.len() - 1 {
                            assert(!key_at(self.entry_seq(), key@, a));
                        } else {
                            assert(t[a] == old_entries[a]);
                            assert(t[b] == old_entries[b]);
                        }
                    }
                    assert(old_entries.push((key, value)).drop_last() =~= old_entries);
                }
                let mut entries: Vec<(String, V)> = Vec::new();
                std::mem::swap(&mut entries, &mut self.entries);
                entries.push((key, value));
                self.entries = entries;
            },
        }
    }

    /// Removes the entry under `key` and hands back its value.
    pub fn remove(&mut self, key: &str) -> (r: Option<V>)
        ensures
            final(self)@ == old(self)@.remove(key@),
            r is Some <==> old(self)@.contains_key(key@),
            r matches Some(v) ==> v@ == old(self)@[key@],
    {
        proof {
            use_type_invariant(&*self);
            lemma_table_dom(self.entries@, view_fn::<V>());
        }
        let k = crate::data::text::owned(key);
        match self.position(&k) {
            Some(i) => {
                proof {
                    lemma_table_remove(self.entries@, view_fn::<V>(), i as int);
                    lemma_table_value(self.entries@, view_fn::<V>(), i as int);
                }
                let mut entries: Vec<(String, V)> = Vec::new();
                std::mem::swap(&mut entries, &mut self.entries);
                let (_, v) = entries.remove(i);
                self.entries = entries;
                Some(v)
            },
            None => {
                proof {
                    assert(self@.remove(key@) =~= self@);
                }
                None
            },
        }
    }

    /// The keys, one per entry, in entry order.
    pub fn keys(&self) -> (r: Vec<&String>)
        ensures
            r@.len() == self@.len(),
            r@.len() == self.entry_seq().len(),
            forall|i: int| 0 <= i < r@.len() ==> #[trigger] r@[i]@ == self.entry_seq()[i].0@,
            forall|k: Seq<char>| self@.contains_key(k) ==> exists|i: int| 0 <= i < r@.len() && #[trigger] r@[i]@ == k,
            forall|i: int| 0 <= i < r@.len() ==> self@.contains_key(#[trigger] r@[i]@),
            forall|i: int, j: int| 0 <= i < r@.len() && 0 <= j < r@.len() && i != j ==> #[trigger] r@[i]@ != #[trigger] r@[j]@,
    {
        proof {
            use_type_invariant(self);
            lemma_table_len(self.entries@, view_fn::<V>());
            lemma_table_dom(self.entries@, view_fn::<V>());
        }
        let mut out: Vec<&String> = Vec::new();
        let mut i: usize = 0;
        while i < self.entries.len()
            invariant
                i <= self.entries@.len(),
                keys_distinct(self.entries@),
                out@.len() == i,
                forall|j: int| 0 <= j < i ==> #[trigger] out@[j]@ == self.entries@[j].0@,
            decreases self.entries@.len() - i,
        {
            out.push(&self.entries[i].0);
            i = i + 1;
        }
        proof {
            assert forall|a: int| 0 <= a < out@.len() implies self@.contains_key(#[trigger] out@[a]@) by {
                assert(key_at(self.entries@, out@[a]@, a));
            }
            assert forall|a: int, b: int| 0 <= a < out@.len() && 0 <= b < out@.len() && a != b implies #[trigger] out@[a]@ != #[trigger] out@[b]@ by {
                assert(out@[a]@ == self.entries@[a].0@);
                assert(out@[b]@ == self.entries@[b].0@);
            }
            assert forall|k: Seq<char>| self@.contains_key(k) implies exists|i: int| 0 <= i < out@.len() && #[trigger] out@[i]@ == k by {
                let i = choose|i: int| key_at(self.entries@, k, i);
                assert(out@[i]@ == k);
            }
        }
        out
    }

    /// The entries, for iteration in entry order.
    pub fn entries(&self) -> (r: &[(String, V)])
        ensures
            r@ == self.entry_seq(),
            keys_distinct(r@),
            table_map(r@) == self@,
    {
        proof {
            use_type_invariant(self);
        }
        self.entries.as_slice()
    }

    /// Takes the entries out, in entry order.
    pub fn into_entries(self) -> (r: Vec<(String, V)>)
        ensures
            r@ == self.entry_seq(),
            keys_distinct(r@),
            table_map(r@) == self@,
    {
        proof {
            use_type_invariant(&self);
        }
        self.entries
    }
}

impl<V: Clone> Clone for Table<V> {
    /// Keys are copied exactly; each value is copied by its own `clone`.
    fn clone(&self) -> (res: Self)
        ensures
            res.entry_seq().len() == self.entry_seq().len(),
            forall|i: int| 0 <= i < self.entry_seq().len() ==> #[trigger] res.entry_seq()[i].0 == self.entry_seq()[i].0,
    {
        proof {
            use_type_invariant(self);
        }
        let mut out: Vec<(String, V)> = Vec::new();
        let mut i: usize = 0;
        while i < self.entries.len()
            invariant
                i <= self.entries@.len(),
                keys_distinct(self.entries@),
                out@.len() == i,
                forall|j: int| 0 <= j < i ==> #[trigger] out@[j].0 == self.entries@[j].0,
            decreases self.entries@.len() - i,
        {
            let k = self.entries[i].0.clone();
            let v = self.entries[i].1.clone();
            out.push((k, v));
            i = i + 1;
        }
        proof {
            assert forall|a: int, b: int| 0 <= a < out@.len() && 0 <= b < out@.len() && a != b implies #[trigger] out@[a].0@ != #[trigger] out@[b].0@ by {
                assert(out@[a].0 == self.entries@[a].0);
                assert(out@[b].0 == self.entries@[b].0);
            }
        }
        Table { entries: out }
    }
}

impl Table<String> {
    /// A copy of a table of strings.
    pub fn copy(&self) -> (r: Self)
        ensures
            r@ == self@,
    {
        proof {
            use_type_invariant(self);
        }
        let mut out: Vec<(String, String)> = Vec::new();
        let mut i: usize = 0;
        while i < self.entries.len()
            invariant
                i <= self.entries@.len(),
                keys_distinct(self.entries@),
                out@ =~= self.entries@.take(i as int),
            decreases self.entries@.len() - i,
        {
            let k = self.entries[i].0.clone();
            let v = self.entries[i].1.clone();
            out.push((k, v));
            i = i + 1;
        }
        assert(out@ =~= self.entries@);
        Table { entries: out }
    }
}

} // verus!
