//! A table keyed by strings, holding each key at most once.
//!
//! The table is viewed as a `Map` from key text to value; the order in which
//! entries are held is not part of the view.

use vstd::prelude::*;

use crate::text::{owned, same_text};

verus! {

broadcast use vstd::string::group_string_axioms;

pub struct StrTable<V> {
    entries: Vec<(String, V)>,
}

/// No key occurs twice.
pub open spec fn distinct_keys<V>(s: Seq<(String, V)>) -> bool {
    forall|i: int, j: int|
        #![trigger s[i], s[j]]
        0 <= i < s.len() && 0 <= j < s.len() && i != j ==> s[i].0@ != s[j].0@
}

pub open spec fn has_key<V>(s: Seq<(String, V)>, k: Seq<char>) -> bool {
    exists|i: int| 0 <= i < s.len() && #[trigger] s[i].0@ == k
}

pub open spec fn position_of<V>(s: Seq<(String, V)>, k: Seq<char>) -> int {
    choose|i: int| 0 <= i < s.len() && #[trigger] s[i].0@ == k
}

/// The map that a sequence of entries with distinct keys stands for.
pub open spec fn entries_map<V>(s: Seq<(String, V)>) -> Map<Seq<char>, V> {
    Map::new(|k: Seq<char>| has_key(s, k), |k: Seq<char>| s[position_of(s, k)].1)
}

proof fn lemma_lookup<V>(s: Seq<(String, V)>, i: int)
    requires
        distinct_keys(s),
        0 <= i < s.len(),
    ensures
        entries_map(s).contains_key(s[i].0@),
        entries_map(s)[s[i].0@] == s[i].1,
{
    assert(has_key(s, s[i].0@));
    let p = position_of(s, s[i].0@);
    assert(s[p].0@ == s[i].0@);
}

/// How many of the first `n` entries satisfy `p`.
pub open spec fn count_matching<V>(s: Seq<(String, V)>, p: spec_fn(Seq<char>, V) -> bool, n: int) -> nat
    decreases n,
{
    if n <= 0 {
        0
    } else {
        count_matching(s, p, n - 1) + if p(s[n - 1].0@, s[n - 1].1) {
            1nat
        } else {
            0nat
        }
    }
}

/// The keys among the first `n` entries whose entry satisfies `p`.
pub open spec fn matching_prefix<V>(s: Seq<(String, V)>, p: spec_fn(Seq<char>, V) -> bool, n: int) -> Set<
    Seq<char>,
> {
    Set::new(|k: Seq<char>| exists|j: int| 0 <= j < n && #[trigger] s[j].0@ == k && p(k, s[j].1))
}

proof fn lemma_matching_prefix<V>(s: Seq<(String, V)>, p: spec_fn(Seq<char>, V) -> bool, n: int)
    requires
        distinct_keys(s),
        0 <= n <= s.len(),
    ensures
        matching_prefix(s, p, n).finite(),
        matching_prefix(s, p, n).len() == count_matching(s, p, n),
    decreases n,
{
    if n == 0 {
        assert(matching_prefix(s, p, n) =~= Set::<Seq<char>>::empty());
    } else {
        lemma_matching_prefix(s, p, n - 1);
        let prev = matching_prefix(s, p, n - 1);
        let k = s[n - 1].0@;
        assert(!prev.contains(k)) by {
            if prev.contains(k) {
                let j = choose|j: int| 0 <= j < n - 1 && #[trigger] s[j].0@ == k && p(k, s[j].1);
                assert(s[j].0@ == s[n - 1].0@);
            }
        }
        if p(k, s[n - 1].1) {
            assert(matching_prefix(s, p, n) =~= prev.insert(k));
        } else {
            assert(matching_prefix(s, p, n) =~= prev) by {
                assert forall|k2: Seq<char>| matching_prefix(s, p, n).contains(k2) implies prev.contains(
                    k2,
                ) by {
                    let j = choose|j: int| 0 <= j < n && #[trigger] s[j].0@ == k2 && p(k2, s[j].1);
                    if j == n - 1 {
                        assert(false);
                    }
                }
            }
        }
    }
}

/// Counting the entries that satisfy `p` counts the keys of the map whose
/// value satisfies it.
pub proof fn lemma_count_matching<V>(s: Seq<(String, V)>, p: spec_fn(Seq<char>, V) -> bool)
    requires
        distinct_keys(s),
    ensures
        entries_map(s).dom().filter(|k: Seq<char>| p(k, entries_map(s)[k])).len() == count_matching(
            s,
            p,
            s.len() as int,
        ),
{
    lemma_matching_prefix(s, p, s.len() as int);
    let m = entries_map(s);
    assert forall|k: Seq<char>|
        m.dom().filter(|k: Seq<char>| p(k, m[k])).contains(k) == matching_prefix(
            s,
            p,
            s.len() as int,
        ).contains(k) by {
        if m.dom().contains(k) {
            let i = choose|i: int| 0 <= i < s.len() && #[trigger] s[i].0@ == k;
            lemma_lookup(s, i);
        }
        if matching_prefix(s, p, s.len() as int).contains(k) {
            let j = choose|j: int| 0 <= j < s.len() && #[trigger] s[j].0@ == k && p(k, s[j].1);
            lemma_lookup(s, j);
        }
    }
    assert(m.dom().filter(|k: Seq<char>| p(k, m[k])) =~= matching_prefix(s, p, s.len() as int));
}

impl<V> StrTable<V> {
    /// The table's view is the map its entries stand for, and its entries
    /// hold each key once.
    pub proof fn lemma_view(&self)
        requires
            self.wf(),
        ensures
            distinct_keys(self.entries()),
            self.view() == entries_map(self.entries()),
    {
    }

    /// A table holds finitely many keys.
    pub proof fn lemma_finite(&self)
        ensures
            self.view().dom().finite(),
    {
        let s = self.entries@;
        let keys = s.map_values(|e: (String, V)| e.0@);
        vstd::seq_lib::seq_to_set_is_finite(keys);
        assert forall|k: Seq<char>| #[trigger] self.view().dom().contains(k) implies keys.to_set().contains(k) by {
            let i = choose|i: int| 0 <= i < s.len() && #[trigger] s[i].0@ == k;
            assert(keys[i] == k);
        }
        vstd::set_lib::lemma_set_subset_finite(keys.to_set(), self.view().dom());
    }

    pub closed spec fn entries(&self) -> Seq<(String, V)> {
        self.entries@
    }

    pub closed spec fn view(&self) -> Map<Seq<char>, V> {
        entries_map(self.entries@)
    }

    pub closed spec fn wf(&self) -> bool {
        distinct_keys(self.entries@)
    }

    pub fn new() -> (t: Self)
        ensures
            t.wf(),
            t.view() == Map::<Seq<char>, V>::empty(),
            t.entries().len() == 0,
    {
        let t = StrTable { entries: Vec::new() };
        assert(t.view() =~= Map::<Seq<char>, V>::empty());
        t
    }

    pub fn len(&self) -> (r: usize)
        requires
            self.wf(),
        ensures
            r == self.entries().len(),
    {
        self.entries.len()
    }

    /// The entry at position `i`.
    pub fn entry(&self, i: usize) -> (r: &(String, V))
        requires
            i < self.entries().len(),
        ensures
            *r == self.entries()[i as int],
    {
        &self.entries[i]
    }

    /// Position of `k`, if present.
    pub fn find(&self, k: &str) -> (r: Option<usize>)
        requires
            self.wf(),
        ensures
            match r {
                Some(i) => i < self.entries().len() && self.entries()[i as int].0@ == k@,
                None => !self.view().contains_key(k@),
            },
    {
        let mut i: usize = 0;
        while i < self.entries.len()
            invariant
                i <= self.entries@.len(),
                forall|j: int| 0 <= j < i ==> #[trigger] self.entries@[j].0@ != k@,
            decreases self.entries@.len() - i,
        {
            if same_text(self.entries[i].0.as_str(), k) {
                return Some(i);
            }
            i = i + 1;
        }
        None
    }

    pub fn get(&self, k: &str) -> (r: Option<&V>)
        requires
            self.wf(),
        ensures
            match r {
                Some(v) => self.view().contains_key(k@) && *v == self.view()[k@],
                None => !self.view().contains_key(k@),
            },
    {
        match self.find(k) {
            Some(i) => {
                proof {
                    lemma_lookup(self.entries@, i as int);
                }
                Some(&self.entries[i].1)
            },
            None => None,
        }
    }

    pub fn contains_key(&self, k: &str) -> (r: bool)
        requires
            self.wf(),
        ensures
            r == self.view().contains_key(k@),
    {
        match self.find(k) {
            Some(i) => {
                proof {
                    lemma_lookup(self.entries@, i as int);
                }
                true
            },
            None => false,
        }
    }

    /// Insert or replace the value for `k`.
    pub fn insert(&mut self, k: &str, v: V)
        requires
            old(self).wf(),
        ensures
            final(self).wf(),
            final(self).view() == old(self).view().insert(k@, v),
    {
        let ghost s0 = self.entries@;
        match self.find(k) {
            Some(i) => {
                let (key, _) = self.entries.remove(i);
                self.entries.insert(i, (key, v));
                let ghost s1 = self.entries@;
                assert(s1 =~= s0.update(i as int, (s0[i as int].0, v)));
                assert forall|a: int, b: int|
                    0 <= a < s1.len() && 0 <= b < s1.len() && a != b implies s1[a].0@
                    != s1[b].0@ by {
                    assert(s0[a].0@ == s1[a].0@);
                    assert(s0[b].0@ == s1[b].0@);
                }
                assert forall|key2: Seq<char>|
                    #![auto]
                    entries_map(s1).contains_key(key2) == old(self).view().insert(
                        k@,
                        v,
                    ).contains_key(key2) by {
                    if has_key(s1, key2) {
                        let p = choose|p: int| 0 <= p < s1.len() && s1[p].0@ == key2;
                        assert(s0[p].0@ == key2);
                    }
                    if has_key(s0, key2) {
                        let p = choose|p: int| 0 <= p < s0.len() && s0[p].0@ == key2;
                        assert(s1[p].0@ == key2);
                    }
                    if key2 == k@ {
                        assert(s1[i as int].0@ == key2);
                    }
                }
                assert forall|key2: Seq<char>|
                    #![auto]
                    entries_map(s1).contains_key(key2) implies entries_map(s1)[key2]
                    == old(self).view().insert(k@, v)[key2] by {
                    let p = choose|p: int| 0 <= p < s1.len() && s1[p].0@ == key2;
                    lemma_lookup(s1, p);
                    if p != i {
                        lemma_lookup(s0, p);
                    }
                }
                assert(entries_map(s1) =~= old(self).view().insert(k@, v));
            },
            None => {
                self.entries.push((owned(k), v));
                let ghost s1 = self.entries@;
                assert(s1 =~= s0.push(s1[s0.len() as int]));
                assert forall|a: int, b: int|
                    0 <= a < s1.len() && 0 <= b < s1.len() && a != b implies s1[a].0@
                    != s1[b].0@ by {
                    if a < s0.len() && b < s0.len() {
                        assert(s0[a] == s1[a]);
                        assert(s0[b] == s1[b]);
                    } else if a < s0.len() {
                        assert(s0[a] == s1[a]);
                        assert(has_key(s0, s1[a].0@));
                    } else {
                        assert(s0[b] == s1[b]);
                        assert(has_key(s0, s1[b].0@));
                    }
                }
                assert forall|key2: Seq<char>|
                    #![auto]
                    entries_map(s1).contains_key(key2) == old(self).view().insert(
                        k@,
                        v,
                    ).contains_key(key2) by {
                    if has_key(s1, key2) {
                        let p = choose|p: int| 0 <= p < s1.len() && s1[p].0@ == key2;
                        if p < s0.len() {
                            assert(s0[p] == s1[p]);
                        }
                    }
                    if has_key(s0, key2) {
                        let p = choose|p: int| 0 <= p < s0.len() && s0[p].0@ == key2;
                        assert(s1[p] == s0[p]);
                    }
                    if key2 == k@ {
                        assert(s1[s0.len() as int].0@ == key2);
                    }
                }
                assert forall|key2: Seq<char>|
                    #![auto]
                    entries_map(s1).contains_key(key2) implies entries_map(s1)[key2]
                    == old(self).view().insert(k@, v)[key2] by {
                    let p = choose|p: int| 0 <= p < s1.len() && s1[p].0@ == key2;
                    lemma_lookup(s1, p);
                    if p < s0.len() {
                        assert(s0[p] == s1[p]);
                        lemma_lookup(s0, p);
                    }
                }
                assert(entries_map(s1) =~= old(self).view().insert(k@, v));
            },
        }
    }

    /// Remove `k` if present.
    pub fn remove(&mut self, k: &str)
        requires
            old(self).wf(),
        ensures
            final(self).wf(),
            final(self).view() == old(self).view().remove(k@),
    {
        let ghost s0 = self.entries@;
        match self.find(k) {
            Some(i) => {
                let _ = self.entries.remove(i);
                let ghost s1 = self.entries@;
                assert(s1 =~= s0.remove(i as int));
                assert forall|a: int, b: int|
                    0 <= a < s1.len() && 0 <= b < s1.len() && a != b implies s1[a].0@
                    != s1[b].0@ by {
                    let a0 = if a < i { a } else { a + 1 };
                    let b0 = if b < i { b } else { b + 1 };
                    assert(s1[a] == s0[a0]);
                    assert(s1[b] == s0[b0]);
                }
                assert forall|key2: Seq<char>|
                    #![auto]
                    entries_map(s1).contains_key(key2) == old(self).view().remove(
                        k@,
                    ).contains_key(key2) by {
                    if has_key(s1, key2) {
                        let p = choose|p: int| 0 <= p < s1.len() && s1[p].0@ == key2;
                        let p0 = if p < i { p } else { p + 1 };
                        assert(s1[p] == s0[p0]);
                        assert(s0[p0].0@ == key2);
                    }
                    if has_key(s0, key2) && key2 != k@ {
                        let p = choose|p: int| 0 <= p < s0.len() && s0[p].0@ == key2;
                        assert(p != i);
                        let p1 = if p < i { p } else { p - 1 };
                        assert(s1[p1] == s0[p]);
                    }
                }
                assert forall|key2: Seq<char>|
                    #![auto]
                    entries_map(s1).contains_key(key2) implies entries_map(s1)[key2]
                    == old(self).view().remove(k@)[key2] by {
                    let p = choose|p: int| 0 <= p < s1.len() && s1[p].0@ == key2;
                    lemma_lookup(s1, p);
                    let p0 = if p < i { p } else { p + 1 };
                    assert(s1[p] == s0[p0]);
                    lemma_lookup(s0, p0);
                }
                assert(entries_map(s1) =~= old(self).view().remove(k@));
            },
            None => {
                assert(old(self).view().remove(k@) =~= old(self).view());
            },
        }
    }
}

} // verus!
