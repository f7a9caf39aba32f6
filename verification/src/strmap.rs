//! A string-to-string map kept in increasing key order, as `BTreeMap<String,
//! String>` keeps it.

use vstd::prelude::*;
use crate::scan::{lex_lt, chars_lt, chars_eq, lemma_lex_irreflexive, lemma_lex_transitive,
    lemma_lex_total, lemma_lex_asymmetric};
use crate::text::chars_of;

verus! {

/// A sequence of entries whose keys strictly increase.
pub open spec fn keys_sorted(s: Seq<(Seq<char>, Seq<char>)>) -> bool {
    forall|i: int, j: int| 0 <= i < j < s.len() ==> lex_lt(#[trigger] s[i].0, #[trigger] s[j].0)
}

/// A position of `s` whose key is `k`, when there is one.
pub open spec fn key_index(s: Seq<(Seq<char>, Seq<char>)>, k: Seq<char>) -> int {
    choose|i: int| 0 <= i < s.len() && s[i].0 == k
}

/// The map that a sequence of entries with distinct keys denotes.
pub open spec fn seq_to_map(s: Seq<(Seq<char>, Seq<char>)>) -> Map<Seq<char>, Seq<char>> {
    Map::new(
        |k: Seq<char>| exists|i: int| 0 <= i < s.len() && s[i].0 == k,
        |k: Seq<char>| s[key_index(s, k)].1,
    )
}

/// The entries of `m` in increasing key order.
pub open spec fn sorted_entries(m: Map<Seq<char>, Seq<char>>) -> Seq<(Seq<char>, Seq<char>)> {
    choose|s: Seq<(Seq<char>, Seq<char>)>| keys_sorted(s) && seq_to_map(s) == m
}

pub open spec fn entry_views(v: Seq<(String, String)>) -> Seq<(Seq<char>, Seq<char>)> {
    v.map_values(|e: (String, String)| (e.0@, e.1@))
}

/// A sorted entry sequence is the only sorted sequence with its map.
pub proof fn lemma_sorted_unique(s1: Seq<(Seq<char>, Seq<char>)>, s2: Seq<(Seq<char>, Seq<char>)>)
    requires
        keys_sorted(s1),
        keys_sorted(s2),
        seq_to_map(s1) == seq_to_map(s2),
    ensures
        s1 == s2,
    decreases s1.len(),
{
    let m = seq_to_map(s1);
    if s1.len() == 0 {
        if s2.len() > 0 {
            assert(seq_to_map(s2).dom().contains(s2[0].0));
        }
        assert(s1 =~= s2);
    } else {
        if s2.len() == 0 {
            assert(seq_to_map(s1).dom().contains(s1[0].0));
            assert(false);
        }
        let k1 = s1[0].0;
        let k2 = s2[0].0;
        assert(m.dom().contains(k1));
        assert(m.dom().contains(k2));
        let j1 = choose|i: int| 0 <= i < s1.len() && s1[i].0 == k2;
        let j2 = choose|i: int| 0 <= i < s2.len() && s2[i].0 == k1;
        if k1 != k2 {
            assert(j1 > 0);
            assert(lex_lt(k1, k2));
            assert(j2 > 0);
            assert(lex_lt(k2, k1));
            lemma_lex_asymmetric(k1, k2);
        }
        lemma_choose_unique(s1, k1, 0);
        lemma_choose_unique(s2, k1, 0);
        assert(s1[0].1 == m[k1]);
        assert(s2[0].1 == m[k1]);
        lemma_drop_first_map(s1);
        lemma_drop_first_map(s2);
        lemma_sorted_unique(s1.drop_first(), s2.drop_first());
        assert(s1 =~= seq![s1[0]] + s1.drop_first());
        assert(s2 =~= seq![s2[0]] + s2.drop_first());
    }
}

proof fn lemma_choose_unique(s: Seq<(Seq<char>, Seq<char>)>, k: Seq<char>, j: int)
    requires
        keys_sorted(s),
        0 <= j < s.len(),
        s[j].0 == k,
    ensures
        seq_to_map(s).dom().contains(k),
        seq_to_map(s)[k] == s[j].1,
{
    let c = key_index(s, k);
    assert(0 <= c < s.len() && s[c].0 == k);
    assert(seq_to_map(s).dom().contains(k));
    assert(seq_to_map(s)[k] == s[c].1);
    if c < j {
        assert(lex_lt(s[c].0, s[j].0));
        lemma_lex_irreflexive(k);
    } else if c > j {
        assert(lex_lt(s[j].0, s[c].0));
        lemma_lex_irreflexive(k);
    }
}

proof fn lemma_drop_first_map(s: Seq<(Seq<char>, Seq<char>)>)
    requires
        keys_sorted(s),
        s.len() > 0,
    ensures
        keys_sorted(s.drop_first()),
        seq_to_map(s.drop_first()) == seq_to_map(s).remove(s[0].0),
{
    let t = s.drop_first();
    let m = seq_to_map(s);
    assert forall|i: int, j: int| 0 <= i < j < t.len() implies lex_lt(#[trigger] t[i].0, #[trigger] t[j].0) by {
        assert(t[i] == s[i + 1] && t[j] == s[j + 1]);
    }
    assert forall|k: Seq<char>| seq_to_map(t).dom().contains(k) <==> m.remove(s[0].0).dom().contains(k) by {
        if seq_to_map(t).dom().contains(k) {
            let i = choose|i: int| 0 <= i < t.len() && t[i].0 == k;
            assert(s[i + 1].0 == k);
            assert(lex_lt(s[0].0, s[i + 1].0));
            if k == s[0].0 {
                lemma_lex_irreflexive(k);
            }
        }
        if m.remove(s[0].0).dom().contains(k) {
            let i = choose|i: int| 0 <= i < s.len() && s[i].0 == k;
            assert(i != 0);
            assert(t[i - 1].0 == k);
        }
    }
    assert forall|k: Seq<char>| #[trigger] seq_to_map(t).dom().contains(k) implies seq_to_map(t)[k] == m[k] by {
        let i = choose|i: int| 0 <= i < t.len() && t[i].0 == k;
        lemma_choose_unique(t, k, i);
        lemma_choose_unique(s, k, i + 1);
    }
    assert(seq_to_map(t) =~= m.remove(s[0].0));
}

/// Existence half of `sorted_entries`: a sorted sequence is the sorted
/// entries of its own map.
pub proof fn lemma_sorted_entries_of(s: Seq<(Seq<char>, Seq<char>)>)
    requires
        keys_sorted(s),
    ensures
        sorted_entries(seq_to_map(s)) == s,
{
    let m = seq_to_map(s);
    let c = sorted_entries(m);
    assert(keys_sorted(c) && seq_to_map(c) == m);
    lemma_sorted_unique(c, s);
}

/// Growing a sorted sequence by one entry adds that entry to its map.
pub proof fn lemma_take_step(s: Seq<(Seq<char>, Seq<char>)>, i: int)
    requires
        keys_sorted(s),
        0 <= i < s.len(),
    ensures
        keys_sorted(s.take(i + 1)),
        seq_to_map(s.take(i + 1)) == seq_to_map(s.take(i)).insert(s[i].0, s[i].1),
        !seq_to_map(s.take(i)).dom().contains(s[i].0),
{
    let a = s.take(i);
    let b = s.take(i + 1);
    assert forall|x: int, y: int| 0 <= x < y < b.len() implies lex_lt(#[trigger] b[x].0, #[trigger] b[y].0) by {
        assert(b[x] == s[x] && b[y] == s[y]);
    }
    assert forall|x: int, y: int| 0 <= x < y < a.len() implies lex_lt(#[trigger] a[x].0, #[trigger] a[y].0) by {
        assert(a[x] == s[x] && a[y] == s[y]);
    }
    if seq_to_map(a).dom().contains(s[i].0) {
        let j = choose|j: int| 0 <= j < a.len() && a[j].0 == s[i].0;
        assert(lex_lt(s[j].0, s[i].0));
        lemma_lex_irreflexive(s[i].0);
    }
    let m = seq_to_map(a).insert(s[i].0, s[i].1);
    assert forall|k: Seq<char>| #[trigger] seq_to_map(b).dom().contains(k) <==> m.dom().contains(k) by {
        if seq_to_map(b).dom().contains(k) {
            let j = choose|j: int| 0 <= j < b.len() && b[j].0 == k;
            if j < i {
                assert(a[j].0 == k);
            }
        }
        if seq_to_map(a).dom().contains(k) {
            let j = choose|j: int| 0 <= j < a.len() && a[j].0 == k;
            assert(b[j].0 == k);
        }
        if k == s[i].0 {
            assert(b[i].0 == k);
        }
    }
    assert forall|k: Seq<char>| #[trigger] seq_to_map(b).dom().contains(k) implies seq_to_map(b)[k] == m[k] by {
        let j = choose|j: int| 0 <= j < b.len() && b[j].0 == k;
        lemma_choose_unique(b, k, j);
        if j < i {
            lemma_choose_unique(a, k, j);
        }
    }
    assert(seq_to_map(b) =~= m);
}

/// A string map whose entries are kept in increasing key order.
#[derive(Clone, Debug)]
pub struct StrMap {
    entries: Vec<(String, String)>,
}

impl StrMap {
    /// The entries in increasing key order.
    pub closed spec fn view_entries(&self) -> Seq<(Seq<char>, Seq<char>)> {
        entry_views(self.entries@)
    }

    /// The map this value denotes.
    pub open spec fn view_map(&self) -> Map<Seq<char>, Seq<char>> {
        seq_to_map(self.view_entries())
    }

    /// Well-formedness: keys strictly increase.
    pub open spec fn wf(&self) -> bool {
        keys_sorted(self.view_entries())
    }

    pub fn new() -> (m: StrMap)
        ensures
            m.wf(),
            m.view_entries() == Seq::<(Seq<char>, Seq<char>)>::empty(),
    {
        let m = StrMap { entries: Vec::new() };
        assert(m.view_entries() =~= Seq::<(Seq<char>, Seq<char>)>::empty());
        m
    }

    pub fn len(&self) -> (n: usize)
        ensures
            n == self.view_entries().len(),
    {
        self.entries.len()
    }

    /// The key and value of the entry at position `i`.
    pub fn entry(&self, i: usize) -> (e: (&String, &String))
        requires
            i < self.view_entries().len(),
        ensures
            (e.0@, e.1@) == self.view_entries()[i as int],
    {
        let e = &self.entries[i];
        (&e.0, &e.1)
    }

    /// Sets `key` to `value`, replacing any value it had.
    pub fn insert(&mut self, key: String, value: String)
        requires
            old(self).wf(),
        ensures
            final(self).wf(),
            final(self).view_map() == old(self).view_map().insert(key@, value@),
    {
        let ghost s = self.view_entries();
        let kc = chars_of(key.as_str());
        let mut i: usize = 0;
        while i < self.entries.len()
            invariant
                i <= self.entries.len(),
                s == entry_views(self.entries@),
                keys_sorted(s),
                kc@ == key@,
                forall|j: int| 0 <= j < i ==> lex_lt(#[trigger] s[j].0, key@),
            ensures
                i <= self.entries.len(),
                s == entry_views(self.entries@),
                i < self.entries.len() ==> !lex_lt(s[i as int].0, key@),
                forall|j: int| 0 <= j < i ==> lex_lt(#[trigger] s[j].0, key@),
            decreases self.entries.len() - i,
        {
            let ec = chars_of(self.entries[i].0.as_str());
            if !chars_lt(&ec, &kc) {
                break;
            }
            i = i + 1;
        }
        let ghost m = seq_to_map(s);
        if i < self.entries.len() {
            let ec = chars_of(self.entries[i].0.as_str());
            if chars_eq(&ec, &kc) {
                self.entries.set(i, (key, value));
                proof {
                    let t = self.view_entries();
                    assert(s[i as int].0 == key@);
                    assert(t =~= s.update(i as int, (key@, value@)));
                    assert forall|a: int, b: int| 0 <= a < b < t.len() implies lex_lt(#[trigger] t[a].0, #[trigger] t[b].0) by {
                        assert(t[a].0 == s[a].0 && t[b].0 == s[b].0);
                    }
                    assert forall|k: Seq<char>| #[trigger] seq_to_map(t).dom().contains(k) <==> m.insert(key@, value@).dom().contains(k) by {
                        if m.dom().contains(k) {
                            let j = choose|j: int| 0 <= j < s.len() && s[j].0 == k;
                            assert(t[j].0 == k);
                        }
                        if k == key@ {
                            assert(t[i as int].0 == k);
                        }
                        if seq_to_map(t).dom().contains(k) {
                            let j = choose|j: int| 0 <= j < t.len() && t[j].0 == k;
                            assert(s[j].0 == k);
                        }
                    }
                    assert forall|k: Seq<char>| #[trigger] seq_to_map(t).dom().contains(k) implies seq_to_map(t)[k] == m.insert(key@, value@)[k] by {
                        let j = choose|j: int| 0 <= j < t.len() && t[j].0 == k;
                        lemma_choose_unique(t, k, j);
                        if j != i {
                            lemma_choose_unique(s, k, j);
                        }
                    }
                    assert(seq_to_map(t) =~= m.insert(key@, value@));
                }
                return;
            }
            proof {
                lemma_lex_total(s[i as int].0, key@);
                assert(lex_lt(key@, s[i as int].0));
            }
        }
        self.entries.insert(i, (key, value));
        proof {
            let t = self.view_entries();
            assert(t =~= s.insert(i as int, (key@, value@)));
            assert forall|j: int| i < j < s.len() implies lex_lt(key@, #[trigger] s[j].0) by {
                if j > i {
                    lemma_lex_transitive(key@, s[i as int].0, s[j].0);
                }
            }
            assert forall|a: int, b: int| 0 <= a < b < t.len() implies lex_lt(#[trigger] t[a].0, #[trigger] t[b].0) by {
                if a < i && b > i {
                    assert(t[b] == s[b - 1]);
                    if b - 1 > i {
                    }
                    lemma_lex_transitive(s[a].0, key@, s[b - 1].0);
                } else if b > i && a > i {
                    assert(t[a] == s[a - 1] && t[b] == s[b - 1]);
                } else if a == i {
                    assert(t[b] == s[b - 1]);
                }
            }
            assert forall|k: Seq<char>| #[trigger] seq_to_map(t).dom().contains(k) <==> m.insert(key@, value@).dom().contains(k) by {
                if m.dom().contains(k) {
                    let j = choose|j: int| 0 <= j < s.len() && s[j].0 == k;
                    if j < i {
                        assert(t[j].0 == k);
                    } else {
                        assert(t[j + 1].0 == k);
                    }
                }
                if k == key@ {
                    assert(t[i as int].0 == k);
                }
                if seq_to_map(t).dom().contains(k) && k != key@ {
                    let j = choose|j: int| 0 <= j < t.len() && t[j].0 == k;
                    if j < i {
                        assert(s[j].0 == k);
                    } else {
                        assert(s[j - 1].0 == k);
                    }
                }
            }
            assert forall|k: Seq<char>| #[trigger] seq_to_map(t).dom().contains(k) implies seq_to_map(t)[k] == m.insert(key@, value@)[k] by {
                let j = choose|j: int| 0 <= j < t.len() && t[j].0 == k;
                lemma_choose_unique(t, k, j);
                if j < i {
                    lemma_choose_unique(s, k, j);
                    if k == key@ {
                        lemma_lex_irreflexive(k);
                    }
                } else if j > i {
                    lemma_choose_unique(s, k, j - 1);
                    if k == key@ {
                        lemma_lex_irreflexive(k);
                    }
                }
            }
            assert(seq_to_map(t) =~= m.insert(key@, value@));
        }
    }
}


impl StrMap {
    /// The value stored under `key`.
    pub fn get(&self, key: &str) -> (r: Option<String>)
        requires
            self.wf(),
        ensures
            match r {
                Some(v) => self.view_map().dom().contains(key@) && self.view_map()[key@] == v@,
                None => !self.view_map().dom().contains(key@),
            },
    {
        let kc = chars_of(key);
        let ghost s = self.view_entries();
        let mut i: usize = 0;
        while i < self.entries.len()
            invariant
                i <= self.entries.len(),
                s == entry_views(self.entries@),
                keys_sorted(s),
                kc@ == key@,
                forall|j: int| 0 <= j < i ==> #[trigger] s[j].0 != key@,
            decreases self.entries.len() - i,
        {
            let ec = chars_of(self.entries[i].0.as_str());
            if chars_eq(&ec, &kc) {
                proof { lemma_choose_unique(s, key@, i as int); }
                return Some(self.entries[i].1.clone());
            }
            i = i + 1;
        }
        None
    }

    /// The same map without `key`.
    pub fn without(&self, key: &str) -> (r: StrMap)
        requires
            self.wf(),
        ensures
            r.wf(),
            r.view_map() == self.view_map().remove(key@),
    {
        let kc = chars_of(key);
        let ghost s = self.view_entries();
        let mut r = StrMap::new();
        let mut i: usize = 0;
        assert(seq_to_map(s.take(0)) =~= Map::<Seq<char>, Seq<char>>::empty());
        assert(r.view_map() =~= Map::<Seq<char>, Seq<char>>::empty());
        while i < self.entries.len()
            invariant
                i <= self.entries.len(),
                s == entry_views(self.entries@),
                keys_sorted(s),
                kc@ == key@,
                r.wf(),
                r.view_map() == seq_to_map(s.take(i as int)).remove(key@),
            decreases self.entries.len() - i,
        {
            proof { lemma_take_step(s, i as int); }
            let ec = chars_of(self.entries[i].0.as_str());
            if !chars_eq(&ec, &kc) {
                r.insert(self.entries[i].0.clone(), self.entries[i].1.clone());
                assert(r.view_map() =~= seq_to_map(s.take(i as int + 1)).remove(key@));
            } else {
                assert(r.view_map() =~= seq_to_map(s.take(i as int + 1)).remove(key@));
            }
            i = i + 1;
        }
        assert(s.take(s.len() as int) =~= s);
        r
    }
}

} // verus!
