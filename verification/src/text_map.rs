//! A small associative table keyed by text, such as a service alias.
//!
//! Entries are kept in insertion order; no key occurs twice. The table is
//! viewed as a mathematical map from key text to value.

use vstd::prelude::*;

verus! {

/// No two entries of `s` carry the same alias.
pub open spec fn distinct_aliases<V>(s: Seq<(String, V)>) -> bool {
    forall|i: int, j: int| 0 <= i < j < s.len() ==> s[i].0@ != s[j].0@
}

/// Some entry of `s` carries the alias `k`.
pub open spec fn has_alias<V>(s: Seq<(String, V)>, k: Seq<char>) -> bool {
    exists|i: int| 0 <= i < s.len() && #[trigger] s[i].0@ == k
}

/// The position of an entry of `s` that carries the alias `k`.
pub open spec fn position_of<V>(s: Seq<(String, V)>, k: Seq<char>) -> int {
    choose|i: int| 0 <= i < s.len() && #[trigger] s[i].0@ == k
}

/// The map that a sequence of entries stands for.
pub open spec fn entries_map<V>(s: Seq<(String, V)>) -> Map<Seq<char>, V> {
    Map::new(|k: Seq<char>| has_alias(s, k), |k: Seq<char>| s[position_of(s, k)].1)
}

/// An entry found at position `i` is what the map holds for its alias.
pub proof fn lemma_entry_in_map<V>(s: Seq<(String, V)>, i: int)
    requires
        distinct_aliases(s),
        0 <= i < s.len(),
    ensures
        entries_map(s).contains_key(s[i].0@),
        entries_map(s)[s[i].0@] == s[i].1,
{
    let k = s[i].0@;
    assert(has_alias(s, k));
    let p = position_of(s, k);
    assert(0 <= p < s.len() && s[p].0@ == k);
    assert(p == i);
}

/// An alias that no entry carries is not in the map.
pub proof fn lemma_absent_from_map<V>(s: Seq<(String, V)>, k: Seq<char>)
    requires
        forall|i: int| 0 <= i < s.len() ==> s[i].0@ != k,
    ensures
        !entries_map(s).contains_key(k),
{
}

/// Appending an entry with a fresh alias inserts it into the map.
pub proof fn lemma_push_inserts<V>(s: Seq<(String, V)>, e: (String, V))
    requires
        distinct_aliases(s),
        !has_alias(s, e.0@),
    ensures
        distinct_aliases(s.push(e)),
        entries_map(s.push(e)) == entries_map(s).insert(e.0@, e.1),
{
    let t = s.push(e);
    assert(distinct_aliases(t)) by {
        assert forall|i: int, j: int| 0 <= i < j < t.len() implies t[i].0@ != t[j].0@ by {
            if j == s.len() {
                assert(s[i].0@ != e.0@);
            }
        }
    }
    let m = entries_map(s).insert(e.0@, e.1);
    assert forall|k: Seq<char>| entries_map(t).contains_key(k) <==> m.contains_key(k) by {
        if has_alias(t, k) {
            let p = position_of(t, k);
            if p < s.len() {
                assert(s[p].0@ == k);
            }
        }
        if has_alias(s, k) {
            let p = position_of(s, k);
            assert(t[p].0@ == k);
        }
        if k == e.0@ {
            assert(t[s.len() as int].0@ == k);
        }
    }
    assert forall|k: Seq<char>| entries_map(t).contains_key(k) implies entries_map(t)[k] == m[k] by {
        let p = position_of(t, k);
        lemma_entry_in_map(t, p);
        if p < s.len() {
            lemma_entry_in_map(s, p);
        }
    }
    assert(entries_map(t) =~= m);
}

/// Replacing the value at position `i` updates the map at that alias.
pub proof fn lemma_update_inserts<V>(s: Seq<(String, V)>, i: int, e: (String, V))
    requires
        distinct_aliases(s),
        0 <= i < s.len(),
        e.0@ == s[i].0@,
    ensures
        distinct_aliases(s.update(i, e)),
        entries_map(s.update(i, e)) == entries_map(s).insert(e.0@, e.1),
{
    let t = s.update(i, e);
    assert(distinct_aliases(t)) by {
        assert forall|a: int, b: int| 0 <= a < b < t.len() implies t[a].0@ != t[b].0@ by {
            assert(s[a].0@ != s[b].0@);
        }
    }
    let m = entries_map(s).insert(e.0@, e.1);
    assert forall|k: Seq<char>| entries_map(t).contains_key(k) <==> m.contains_key(k) by {
        if has_alias(t, k) {
            let p = position_of(t, k);
            assert(s[p].0@ == k);
        }
        if has_alias(s, k) {
            let p = position_of(s, k);
            assert(t[p].0@ == k);
        }
        if k == e.0@ {
            assert(t[i].0@ == k);
        }
    }
    assert forall|k: Seq<char>| entries_map(t).contains_key(k) implies entries_map(t)[k] == m[k] by {
        let p = position_of(t, k);
        lemma_entry_in_map(t, p);
        lemma_entry_in_map(s, p);
    }
    assert(entries_map(t) =~= m);
}

/// Taking out the entry at position `i` removes its alias from the map.
pub proof fn lemma_remove_removes<V>(s: Seq<(String, V)>, i: int)
    requires
        distinct_aliases(s),
        0 <= i < s.len(),
    ensures
        distinct_aliases(s.remove(i)),
        entries_map(s.remove(i)) == entries_map(s).remove(s[i].0@),
{
    let t = s.remove(i);
    assert(distinct_aliases(t)) by {
        assert forall|a: int, b: int| 0 <= a < b < t.len() implies t[a].0@ != t[b].0@ by {
            let a_at = if a < i { a } else { a + 1 };
            let b_at = if b < i { b } else { b + 1 };
            assert(s[a_at].0@ != s[b_at].0@);
        }
    }
    let m = entries_map(s).remove(s[i].0@);
    assert forall|k: Seq<char>| entries_map(t).contains_key(k) <==> m.contains_key(k) by {
        if has_alias(t, k) {
            let p = position_of(t, k);
            let q = if p < i { p } else { p + 1 };
            assert(s[q].0@ == k);
            assert(q != i);
            if k == s[i].0@ {
                assert(s[q].0@ != s[i].0@);
            }
        }
        if has_alias(s, k) && k != s[i].0@ {
            let p = position_of(s, k);
            let q = if p < i { p } else { p - 1 };
            assert(t[q].0@ == k);
        }
    }
    assert forall|k: Seq<char>| entries_map(t).contains_key(k) implies entries_map(t)[k] == m[k] by {
        let p = position_of(t, k);
        let q = if p < i { p } else { p + 1 };
        lemma_entry_in_map(t, p);
        lemma_entry_in_map(s, q);
    }
    assert(entries_map(t) =~= m);
}

/// Values of type `V` filed under text keys.
pub struct TextMap<V> {
    entries: Vec<(String, V)>,
}

impl<V> TextMap<V> {
    #[verifier::type_invariant]
    spec fn aliases_are_distinct(&self) -> bool {
        distinct_aliases(self.entries@)
    }

    /// The entries in insertion order.
    pub closed spec fn entries(&self) -> Seq<(String, V)> {
        self.entries@
    }

    /// The table as a map from alias text to value.
    pub open spec fn map(&self) -> Map<Seq<char>, V> {
        entries_map(self.entries())
    }

    /// Whether the entries carry pairwise distinct aliases. This holds of
    /// every table that executable code can build.
    pub open spec fn distinct(&self) -> bool {
        distinct_aliases(self.entries())
    }

    /// An empty table.
    pub fn new() -> (t: Self)
        ensures
            t.entries() == Seq::<(String, V)>::empty(),
            t.map() == Map::<Seq<char>, V>::empty(),
    {
        let t = TextMap { entries: Vec::new() };
        assert(t.map() =~= Map::<Seq<char>, V>::empty());
        t
    }

    /// Number of entries.
    pub fn len(&self) -> (n: usize)
        ensures
            n == self.entries().len(),
            self.distinct(),
    {
        proof {
            use_type_invariant(self);
        }
        self.entries.len()
    }

    /// The keys in insertion order.
    pub fn keys(&self) -> (keys: Vec<String>)
        ensures
            keys@.len() == self.entries().len(),
            forall|i: int| 0 <= i < keys@.len() ==> (#[trigger] keys@[i])@ == self.entries()[i].0@,
    {
        let mut keys: Vec<String> = Vec::new();
        let mut i: usize = 0;
        while i < self.entries.len()
            invariant
                i <= self.entries@.len(),
                keys@.len() == i,
                forall|j: int| 0 <= j < i ==> (#[trigger] keys@[j])@ == self.entries@[j].0@,
            decreases self.entries@.len() - i,
        {
            keys.push(self.entries[i].0.clone());
            i += 1;
        }
        keys
    }

    /// Gives up the table for its entries, in insertion order.
    pub fn into_entries(self) -> (entries: Vec<(String, V)>)
        ensures
            entries@ == self.entries(),
            distinct_aliases(entries@),
    {
        proof {
            use_type_invariant(&self);
        }
        self.entries
    }

    /// Position of the entry filed under `alias`, if there is one.
    pub fn position(&self, alias: &str) -> (at: Option<usize>)
        ensures
            self.distinct(),
            match at {
                Some(i) => i < self.entries().len() && self.entries()[i as int].0@ == alias@
                    && self.map().contains_key(alias@)
                    && self.map()[alias@] == self.entries()[i as int].1,
                None => !self.map().contains_key(alias@),
            },
    {
        proof {
            use_type_invariant(self);
        }
        let wanted = alias.to_owned();
        let mut i: usize = 0;
        while i < self.entries.len()
            invariant
                i <= self.entries@.len(),
                wanted@ == alias@,
                distinct_aliases(self.entries@),
                forall|j: int| 0 <= j < i ==> self.entries@[j].0@ != alias@,
            decreases self.entries@.len() - i,
        {
            if self.entries[i].0 == wanted {
                proof {
                    lemma_entry_in_map(self.entries@, i as int);
                }
                return Some(i);
            }
            i += 1;
        }
        proof {
            lemma_absent_from_map(self.entries@, alias@);
        }
        None
    }

    /// Whether an entry is filed under `alias`.
    pub fn contains(&self, alias: &str) -> (found: bool)
        ensures
            found == self.map().contains_key(alias@),
    {
        self.position(alias).is_some()
    }

    /// The value filed under `alias`, if there is one.
    pub fn get(&self, alias: &str) -> (value: Option<&V>)
        ensures
            match value {
                Some(v) => self.map().contains_key(alias@) && *v == self.map()[alias@],
                None => !self.map().contains_key(alias@),
            },
    {
        match self.position(alias) {
            Some(i) => Some(&self.entries[i].1),
            None => None,
        }
    }

    /// The alias at position `i`.
    pub fn alias_at(&self, i: usize) -> (alias: &String)
        requires
            i < self.entries().len(),
        ensures
            *alias == self.entries()[i as int].0,
    {
        &self.entries[i].0
    }

    /// The value at position `i`.
    pub fn value_at(&self, i: usize) -> (value: &V)
        requires
            i < self.entries().len(),
        ensures
            *value == self.entries()[i as int].1,
            self.distinct(),
            self.map().contains_key(self.entries()[i as int].0@),
            self.map()[self.entries()[i as int].0@] == *value,
    {
        proof {
            use_type_invariant(self);
            lemma_entry_in_map(self.entries@, i as int);
        }
        &self.entries[i].1
    }

    /// Moves the entries out, leaving the table empty for the moment.
    fn take_entries(&mut self) -> (entries: Vec<(String, V)>)
        ensures
            entries@ == old(self).entries@,
            final(self).entries@ == Seq::<(String, V)>::empty(),
    {
        let mut entries: Vec<(String, V)> = Vec::new();
        std::mem::swap(&mut self.entries, &mut entries);
        entries
    }

    /// Files `value` under `alias`, replacing and returning what was there.
    pub fn insert(&mut self, alias: String, value: V) -> (previous: Option<V>)
        ensures
            final(self).map() == old(self).map().insert(alias@, value),
            match previous {
                Some(v) => old(self).map().contains_key(alias@) && v == old(self).map()[alias@]
                    && final(self).entries().len() == old(self).entries().len(),
                None => !old(self).map().contains_key(alias@)
                    && final(self).entries() == old(self).entries().push((alias, value)),
            },
    {
        proof {
            use_type_invariant(&*self);
        }
        let found = self.position(alias.as_str());
        let mut entries = self.take_entries();
        match found {
            Some(i) => {
                proof {
                    lemma_update_inserts(entries@, i as int, (alias, value));
                }
                let mut entry = (alias, value);
                std::mem::swap(&mut entries[i], &mut entry);
                self.entries = entries;
                Some(entry.1)
            },
            None => {
                proof {
                    assert(!has_alias(entries@, alias@));
                    lemma_push_inserts(entries@, (alias, value));
                }
                entries.push((alias, value));
                self.entries = entries;
                None
            },
        }
    }

    /// Replaces the value at position `i` and returns the one that was there.
    pub fn set_at(&mut self, i: usize, value: V) -> (previous: V)
        requires
            i < old(self).entries().len(),
        ensures
            previous == old(self).entries()[i as int].1,
            final(self).entries() == old(self).entries().update(
                i as int,
                (old(self).entries()[i as int].0, value),
            ),
            final(self).map() == old(self).map().insert(old(self).entries()[i as int].0@, value),
    {
        proof {
            use_type_invariant(&*self);
        }
        let mut entries = self.take_entries();
        let mut slot = value;
        proof {
            lemma_update_inserts(entries@, i as int, (entries@[i as int].0, value));
        }
        std::mem::swap(&mut entries[i].1, &mut slot);
        self.entries = entries;
        slot
    }

    /// Takes out and returns the value filed under `alias`, if there is one.
    pub fn remove(&mut self, alias: &str) -> (removed: Option<V>)
        ensures
            final(self).map() == old(self).map().remove(alias@),
            match removed {
                Some(v) => old(self).map().contains_key(alias@) && v == old(self).map()[alias@],
                None => !old(self).map().contains_key(alias@)
                    && final(self).entries() == old(self).entries(),
            },
    {
        proof {
            use_type_invariant(&*self);
        }
        match self.position(alias) {
            Some(i) => {
                let mut entries = self.take_entries();
                proof {
                    lemma_remove_removes(entries@, i as int);
                }
                let entry = entries.remove(i);
                self.entries = entries;
                Some(entry.1)
            },
            None => {
                assert(old(self).map().remove(alias@) =~= old(self).map());
                None
            },
        }
    }
}

} // verus!
