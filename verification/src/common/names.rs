use vstd::prelude::*;

use crate::common::text::str_eq;

verus! {

/// The map that a list of named entries stands for: a later entry for a name
/// overrides an earlier one.
pub open spec fn entries_map<V>(s: Seq<(String, V)>) -> Map<Seq<char>, V>
    decreases s.len(),
{
    if s.len() == 0 {
        Map::empty()
    } else {
        entries_map(s.drop_last()).insert(s.last().0@, s.last().1)
    }
}

/// No name occurs twice in the list.
pub open spec fn names_distinct<V>(s: Seq<(String, V)>) -> bool {
    forall|i: int, j: int| 0 <= i < j < s.len() ==> s[i].0@ != s[j].0@
}

/// The names of the list, in order.
pub open spec fn entry_names<V>(s: Seq<(String, V)>) -> Seq<Seq<char>> {
    s.map_values(|e: (String, V)| e.0@)
}

pub proof fn lemma_entries_map_domain<V>(s: Seq<(String, V)>, k: Seq<char>)
    ensures
        entries_map(s).contains_key(k) <==> exists|i: int| 0 <= i < s.len() && s[i].0@ == k,
    decreases s.len(),
{
    if s.len() > 0 {
        lemma_entries_map_domain(s.drop_last(), k);
        if entries_map(s).contains_key(k) && s.last().0@ != k {
            let i = choose|i: int| 0 <= i < s.len() - 1 && s.drop_last()[i].0@ == k;
            assert(s[i].0@ == k);
        }
        if exists|i: int| 0 <= i < s.len() && s[i].0@ == k {
            let i = choose|i: int| 0 <= i < s.len() && s[i].0@ == k;
            if i < s.len() - 1 {
                assert(s.drop_last()[i].0@ == k);
            }
        }
    }
}

pub proof fn lemma_entries_map_at<V>(s: Seq<(String, V)>, i: int)
    requires
        names_distinct(s),
        0 <= i < s.len(),
    ensures
        entries_map(s).contains_key(s[i].0@),
        entries_map(s)[s[i].0@] == s[i].1,
    decreases s.len(),
{
    if i < s.len() - 1 {
        let t = s.drop_last();
        assert(names_distinct(t));
        lemma_entries_map_at(t, i);
        assert(t[i] == s[i]);
        assert(s[i].0@ != s.last().0@);
    }
}

pub proof fn lemma_entries_map_finite<V>(s: Seq<(String, V)>)
    ensures
        entries_map(s).dom().finite(),
        names_distinct(s) ==> entries_map(s).len() == s.len(),
    decreases s.len(),
{
    if s.len() > 0 {
        let t = s.drop_last();
        lemma_entries_map_finite(t);
        if names_distinct(s) {
            assert(names_distinct(t));
            lemma_entries_map_domain(t, s.last().0@);
            if entries_map(t).contains_key(s.last().0@) {
                let i = choose|i: int| 0 <= i < t.len() && t[i].0@ == s.last().0@;
                assert(s[i].0@ == s[s.len() - 1].0@);
            }
        }
    }
}

/// A list of named entries in which each name occurs at most once.
/// Entries keep the order in which their names were first added.
pub struct NameMap<V> {
    entries: Vec<(String, V)>,
}

impl<V> NameMap<V> {
    pub closed spec fn view(&self) -> Map<Seq<char>, V> {
        entries_map(self.entries@)
    }

    /// The names, in the order they were first added.
    pub closed spec fn names(&self) -> Seq<Seq<char>> {
        entry_names(self.entries@)
    }

    pub closed spec fn wf(&self) -> bool {
        names_distinct(self.entries@)
    }

    /// The name and value at position `i`.
    pub closed spec fn entry_at(&self, i: int) -> (Seq<char>, V) {
        (self.entries@[i].0@, self.entries@[i].1)
    }

    pub proof fn lemma_wf(&self)
        requires
            self.wf(),
        ensures
            self.names().len() == self.view().len(),
            self.view().dom().finite(),
            forall|i: int| 0 <= i < self.names().len() ==> #[trigger] self.view().contains_key(self.names()[i])
                && self.view()[self.names()[i]] == self.entry_at(i).1
                && self.entry_at(i).0 == self.names()[i],
            forall|k: Seq<char>| #[trigger] self.view().contains_key(k) ==> self.names().contains(k),
            forall|i: int, j: int| 0 <= i < j < self.names().len() ==> self.names()[i] != self.names()[j],
    {
        lemma_entries_map_finite(self.entries@);
        assert forall|i: int| 0 <= i < self.names().len() implies #[trigger] self.view().contains_key(self.names()[i])
            && self.view()[self.names()[i]] == self.entry_at(i).1
            && self.entry_at(i).0 == self.names()[i] by {
            lemma_entries_map_at(self.entries@, i);
        }
        assert forall|k: Seq<char>| #[trigger] self.view().contains_key(k) implies self.names().contains(k) by {
            lemma_entries_map_domain(self.entries@, k);
            let i = choose|i: int| 0 <= i < self.entries@.len() && self.entries@[i].0@ == k;
            assert(self.names()[i] == k);
        }
    }

    pub fn new() -> (r: Self)
        ensures
            r.wf(),
            r@ == Map::<Seq<char>, V>::empty(),
            r.names() == Seq::<Seq<char>>::empty(),
    {
        let r = NameMap { entries: Vec::new() };
        assert(r.names() =~= Seq::<Seq<char>>::empty());
        r
    }

    pub fn len(&self) -> (n: usize)
        requires
            self.wf(),
        ensures
            n == self@.len(),
            n == self.names().len(),
    {
        proof {
            lemma_entries_map_finite(self.entries@);
        }
        self.entries.len()
    }

    pub fn is_empty(&self) -> (b: bool)
        requires
            self.wf(),
        ensures
            b == (self@.len() == 0),
            b == (self@ == Map::<Seq<char>, V>::empty()),
    {
        proof {
            lemma_entries_map_finite(self.entries@);
            if self.entries.len() > 0 {
                lemma_entries_map_at(self.entries@, 0);
            }
        }
        assert(self.entries.len() == 0 ==> self@ =~= Map::<Seq<char>, V>::empty());
        self.entries.len() == 0
    }

    /// The position of `name`, if present.
    pub fn position(&self, name: &str) -> (r: Option<usize>)
        requires
            self.wf(),
        ensures
            r matches Some(i) ==> i < self.names().len() && self.names()[i as int] == name@
                && self@.contains_key(name@) && self@[name@] == self.entry_at(i as int).1,
            r is None ==> !self@.contains_key(name@),
    {
        let mut i: usize = 0;
        while i < self.entries.len()
            invariant
                self.wf(),
                i <= self.entries.len(),
                forall|j: int| 0 <= j < i ==> self.entries@[j].0@ != name@,
            decreases self.entries.len() - i,
        {
            if str_eq(self.entries[i].0.as_str(), name) {
                proof {
                    lemma_entries_map_at(self.entries@, i as int);
                }
                return Some(i);
            }
            i = i + 1;
        }
        proof {
            lemma_entries_map_domain(self.entries@, name@);
        }
        None
    }

    /// The value bound to `name`, if any.
    pub fn get(&self, name: &str) -> (r: Option<&V>)
        requires
            self.wf(),
        ensures
            r matches Some(v) ==> self@.contains_key(name@) && *v == self@[name@],
            r is None ==> !self@.contains_key(name@),
    {
        match self.position(name) {
            Some(i) => Some(&self.entries[i].1),
            None => None,
        }
    }

    /// The name and value at position `i`.
    pub fn at(&self, i: usize) -> (r: (&String, &V))
        requires
            i < self.names().len(),
        ensures
            r.0@ == self.entry_at(i as int).0,
            *r.1 == self.entry_at(i as int).1,
    {
        (&self.entries[i].0, &self.entries[i].1)
    }

    /// Binds `name` to `v`, replacing any earlier value, and gives back the
    /// value it replaced.
    pub fn insert(&mut self, name: String, v: V) -> (r: Option<V>)
        requires
            old(self).wf(),
        ensures
            final(self).wf(),
            final(self)@ == old(self)@.insert(name@, v),
            r matches Some(w) ==> old(self)@.contains_key(name@) && w == old(self)@[name@],
            r is None ==> !old(self)@.contains_key(name@),
            old(self)@.contains_key(name@) ==> final(self).names() == old(self).names(),
            !old(self)@.contains_key(name@) ==> final(self).names() == old(self).names().push(name@),
    {
        match self.position(name.as_str()) {
            Some(i) => {
                let ghost old_entries = self.entries@;
                let (n, prev) = self.entries.remove(i);
                self.entries.insert(i, (n, v));
                proof {
                    assert(self.entries@ =~= old_entries.update(i as int, (old_entries[i as int].0, v)));
                    lemma_update_map(old_entries, i as int, v);
                    assert(entry_names(self.entries@) =~= entry_names(old_entries));
                }
                Some(prev)
            },
            None => {
                let ghost old_entries = self.entries@;
                self.entries.push((name, v));
                proof {
                    assert(self.entries@.drop_last() =~= old_entries);
                    lemma_entries_map_domain(old_entries, name@);
                    assert(entry_names(self.entries@) =~= entry_names(old_entries).push(name@));
                }
                None
            },
        }
    }

    /// Removes every entry.
    pub fn clear(&mut self)
        ensures
            final(self).wf(),
            final(self)@ == Map::<Seq<char>, V>::empty(),
            final(self).names() == Seq::<Seq<char>>::empty(),
    {
        self.entries.clear();
        assert(self.names() =~= Seq::<Seq<char>>::empty());
    }
}

proof fn lemma_update_map<V>(s: Seq<(String, V)>, i: int, v: V)
    requires
        names_distinct(s),
        0 <= i < s.len(),
    ensures
        names_distinct(s.update(i, (s[i].0, v))),
        entries_map(s.update(i, (s[i].0, v))) == entries_map(s).insert(s[i].0@, v),
    decreases s.len(),
{
    let u = s.update(i, (s[i].0, v));
    if i == s.len() - 1 {
        assert(u.drop_last() =~= s.drop_last());
    } else {
        let t = s.drop_last();
        assert(names_distinct(t));
        lemma_update_map(t, i, v);
        assert(u.drop_last() =~= t.update(i, (t[i].0, v)));
        assert(s[i].0@ != s.last().0@);
        assert(entries_map(u) =~= entries_map(s).insert(s[i].0@, v));
    }
}

} // verus!
