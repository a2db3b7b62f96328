//! A map keyed by strings, kept as a list of distinct keys in insertion order.
use vstd::prelude::*;
use crate::text::chars_of;

verus! {

/// A map from strings to values; each key occurs once.
#[derive(Debug)]
pub struct StringMap<V> {
    entries: Vec<(String, V)>,
}

/// The keys of `es` are pairwise distinct (by their characters).
pub open spec fn distinct_keys<V>(es: Seq<(String, V)>) -> bool {
    forall|i: int, j: int| 0 <= i < es.len() && 0 <= j < es.len() && i != j ==> es[i].0@ != es[j].0@
}

/// The map that the entry list `es` denotes.
pub open spec fn entries_map<V>(es: Seq<(String, V)>) -> Map<Seq<char>, V>
    decreases es.len(),
{
    if es.len() == 0 {
        Map::empty()
    } else {
        entries_map(es.drop_last()).insert(es.last().0@, es.last().1)
    }
}

proof fn lemma_entries_map_dom<V>(es: Seq<(String, V)>)
    requires
        distinct_keys(es),
    ensures
        forall|k: Seq<char>|
            #![trigger entries_map(es).dom().contains(k)]
            entries_map(es).dom().contains(k) <==> exists|i: int|
                0 <= i < es.len() && #[trigger] es[i].0@ == k,
        forall|i: int| 0 <= i < es.len() ==> #[trigger] entries_map(es)[es[i].0@] == es[i].1,
        entries_map(es).dom().finite(),
        entries_map(es).dom().len() == es.len(),
    decreases es.len(),
{
    if es.len() > 0 {
        let init = es.drop_last();
        assert(distinct_keys(init));
        lemma_entries_map_dom(init);
        assert forall|k: Seq<char>|
            #![trigger entries_map(es).dom().contains(k)]
            entries_map(es).dom().contains(k) implies exists|i: int|
                0 <= i < es.len() && #[trigger] es[i].0@ == k by {
            if k != es.last().0@ {
                let i = choose|i: int| 0 <= i < init.len() && #[trigger] init[i].0@ == k;
                assert(es[i].0@ == k);
            } else {
                assert(es[es.len() - 1].0@ == k);
            }
        }
        assert forall|k: Seq<char>|
            (exists|i: int| 0 <= i < es.len() && #[trigger] es[i].0@ == k) implies entries_map(
                es,
            ).dom().contains(k) by {
            let i = choose|i: int| 0 <= i < es.len() && #[trigger] es[i].0@ == k;
            if i < es.len() - 1 {
                assert(init[i].0@ == k);
            }
        }
        assert forall|i: int| 0 <= i < es.len() implies #[trigger] entries_map(es)[es[i].0@]
            == es[i].1 by {
            if i < es.len() - 1 {
                assert(init[i] == es[i]);
                assert(es[i].0@ != es.last().0@);
            }
        }
        assert(!entries_map(init).dom().contains(es.last().0@)) by {
            if entries_map(init).dom().contains(es.last().0@) {
                let i = choose|i: int| 0 <= i < init.len() && #[trigger] init[i].0@ == es.last().0@;
                assert(es[i].0@ == es[es.len() - 1].0@);
            }
        }
    }
}

impl<V> StringMap<V> {
    #[verifier::type_invariant]
    spec fn wf(self) -> bool {
        distinct_keys(self.entries@)
    }

    /// The contents of the map.
    pub closed spec fn view(&self) -> Map<Seq<char>, V> {
        entries_map(self.entries@)
    }

    /// The keys in insertion order.
    pub closed spec fn key_order(&self) -> Seq<Seq<char>> {
        self.entries@.map_values(|e: (String, V)| e.0@)
    }

    /// An empty map.
    pub fn new() -> (r: Self)
        ensures
            r.view() == Map::<Seq<char>, V>::empty(),
    {
        StringMap { entries: Vec::new() }
    }

    /// The number of keys.
    pub fn len(&self) -> (r: usize)
        ensures
            r == self.view().dom().len(),
            self.view().dom().finite(),
    {
        proof {
            use_type_invariant(self);
            lemma_entries_map_dom(self.entries@);
        }
        self.entries.len()
    }

    fn index_of(&self, key: &str) -> (r: Option<usize>)
        ensures
            match r {
                Some(i) => i < self.entries@.len() && self.entries@[i as int].0@ == key@,
                None => forall|i: int|
                    0 <= i < self.entries@.len() ==> #[trigger] self.entries@[i].0@ != key@,
            },
    {
        let kv = chars_of(key);
        let mut i: usize = 0;
        while i < self.entries.len()
            invariant
                kv@ == key@,
                i <= self.entries@.len(),
                forall|j: int| 0 <= j < i ==> #[trigger] self.entries@[j].0@ != key@,
            decreases self.entries.len() - i,
        {
            let ev = chars_of(self.entries[i].0.as_str());
            if ev.len() == kv.len() && crate::text::matches_at_exec(ev.as_slice(), kv.as_slice(), 0) {
                assert(ev@.subrange(0, kv@.len() as int) =~= ev@);
                return Some(i);
            }
            proof {
                if ev@ == kv@ {
                    assert(ev@.subrange(0, kv@.len() as int) =~= ev@);
                }
            }
            i = i + 1;
        }
        None
    }

    /// Whether `key` is present.
    pub fn contains_key(&self, key: &str) -> (r: bool)
        ensures
            r == self.view().dom().contains(key@),
    {
        proof {
            use_type_invariant(self);
            lemma_entries_map_dom(self.entries@);
        }
        self.index_of(key).is_some()
    }

    /// The value stored under `key`.
    pub fn get(&self, key: &str) -> (r: Option<&V>)
        ensures
            match r {
                Some(v) => self.view().dom().contains(key@) && self.view()[key@] == *v,
                None => !self.view().dom().contains(key@),
            },
    {
        proof {
            use_type_invariant(self);
            lemma_entries_map_dom(self.entries@);
        }
        match self.index_of(key) {
            Some(i) => Some(&self.entries[i].1),
            None => None,
        }
    }

    /// Stores `value` under `key`, replacing any earlier value.
    pub fn insert(&mut self, key: String, value: V)
        ensures
            final(self).view() == old(self).view().insert(key@, value),
    {
        proof {
            use_type_invariant(&*self);
            lemma_entries_map_dom(self.entries@);
        }
        let ghost old_entries = self.entries@;
        match self.index_of(key.as_str()) {
            Some(i) => {
                let mut entries = Vec::new();
                std::mem::swap(&mut entries, &mut self.entries);
                let ghost es = entries@;
                entries.remove(i);
                let ghost rest = entries@;
                assert(rest =~= es.remove(i as int));
                entries.push((key, value));
                proof {
                    lemma_remove_push_map(es, i as int, entries@.last());
                }
                self.entries = entries;
            },
            None => {
                let mut entries = Vec::new();
                std::mem::swap(&mut entries, &mut self.entries);
                entries.push((key, value));
                proof {
                    let es = entries@;
                    assert(es.drop_last() =~= old_entries);
                    assert forall|a: int, b: int|
                        0 <= a < es.len() && 0 <= b < es.len() && a != b implies es[a].0@
                        != es[b].0@ by {
                        if a < es.len() - 1 && b < es.len() - 1 {
                            assert(old_entries[a] == es[a] && old_entries[b] == es[b]);
                        } else if a < es.len() - 1 {
                            assert(old_entries[a] == es[a]);
                        } else if b < es.len() - 1 {
                            assert(old_entries[b] == es[b]);
                        }
                    }
                }
                self.entries = entries;
            },
        }
    }

    /// Removes and returns the most recently inserted entry.
    pub fn pop(&mut self) -> (r: Option<(String, V)>)
        ensures
            match r {
                Some((k, v)) => old(self).view().dom().contains(k@) && old(self).view()[k@] == v
                    && final(self).view() == old(self).view().remove(k@),
                None => old(self).view().dom().len() == 0 && final(self).view() == old(self).view(),
            },
            final(self).view().dom().finite(),
            final(self).view().dom().len() == old(self).view().dom().len() - (if r is Some {
                1int
            } else {
                0
            }),
    {
        proof {
            use_type_invariant(&*self);
            lemma_entries_map_dom(self.entries@);
        }
        let ghost es = self.entries@;
        let mut entries = Vec::new();
        std::mem::swap(&mut entries, &mut self.entries);
        let r = entries.pop();
        proof {
            let init = entries@;
            assert(init =~= es.drop_last() || es.len() == 0);
            if es.len() > 0 {
                assert(distinct_keys(init)) by {
                    assert forall|a: int, b: int|
                        0 <= a < init.len() && 0 <= b < init.len() && a != b implies init[a].0@
                        != init[b].0@ by {
                        assert(init[a] == es[a] && init[b] == es[b]);
                    }
                }
                lemma_entries_map_dom(init);
                assert(!entries_map(init).dom().contains(es.last().0@)) by {
                    if entries_map(init).dom().contains(es.last().0@) {
                        let i = choose|i: int| 0 <= i < init.len() && #[trigger] init[i].0@ == es.last().0@;
                        assert(es[i].0@ == es[es.len() - 1].0@);
                    }
                }
                assert(entries_map(es)[es.last().0@] == es[es.len() - 1].1);
                assert(entries_map(init) =~= entries_map(es).remove(es.last().0@));
            }
        }
        self.entries = entries;
        r
    }

    /// Removes `key`, returning its value if it was present.
    pub fn remove(&mut self, key: &str) -> (r: Option<V>)
        ensures
            match r {
                Some(v) => old(self).view().dom().contains(key@) && old(self).view()[key@] == v,
                None => !old(self).view().dom().contains(key@),
            },
            final(self).view() == old(self).view().remove(key@),
    {
        proof {
            use_type_invariant(&*self);
            lemma_entries_map_dom(self.entries@);
        }
        match self.index_of(key) {
            None => {
                assert(self.view().remove(key@) =~= self.view());
                None
            },
            Some(i) => {
                let mut entries = Vec::new();
                std::mem::swap(&mut entries, &mut self.entries);
                let ghost es = entries@;
                let (_k, v) = entries.remove(i);
                proof {
                    lemma_remove_map(es, i as int);
                }
                self.entries = entries;
                Some(v)
            },
        }
    }

    /// The keys, sorted in increasing order of `str_lt`.
    pub fn sorted_keys(&self) -> (r: Vec<String>)
        ensures
            sorted_strict(key_views(r@)),
            key_views(r@).to_set() == self.view().dom(),
            r@.len() == self.view().dom().len(),
    {
        proof {
            use_type_invariant(self);
            lemma_entries_map_dom(self.entries@);
        }
        let mut r: Vec<String> = Vec::new();
        let mut i: usize = 0;
        while i < self.entries.len()
            invariant
                distinct_keys(self.entries@),
                i <= self.entries@.len(),
                sorted_strict(key_views(r@)),
                key_views(r@).to_set() == self.entries@.take(i as int).map_values(
                    |e: (String, V)| e.0@,
                ).to_set(),
                r@.len() == i,
            decreases self.entries.len() - i,
        {
            let k = self.entries[i].0.clone();
            let ghost before = key_views(r@);
            let ghost prefix = self.entries@.take(i as int).map_values(|e: (String, V)| e.0@);
            assert(!before.contains(k@)) by {
                if before.contains(k@) {
                    assert(before.to_set().contains(k@));
                    assert(prefix.to_set().contains(k@));
                    let j = choose|j: int| 0 <= j < prefix.len() && prefix[j] == k@;
                    assert(self.entries@[j].0@ == k@);
                }
            }
            insert_sorted(&mut r, k);
            proof {
                let next = self.entries@.take(i + 1).map_values(|e: (String, V)| e.0@);
                assert(next =~= prefix.push(k@));
                assert(key_views(r@).to_set() =~= next.to_set()) by {
                    assert forall|x: Seq<char>| key_views(r@).to_set().contains(x) <==> next.to_set().contains(x) by {
                        if next.to_set().contains(x) {
                            if x != k@ {
                                assert(prefix.to_set().contains(x)) by {
                                    let j = choose|j: int| 0 <= j < next.len() && next[j] == x;
                                    assert(prefix[j] == x);
                                }
                            }
                        }
                        if prefix.to_set().contains(x) {
                            let j = choose|j: int| 0 <= j < prefix.len() && prefix[j] == x;
                            assert(next[j] == x);
                        }
                        if x == k@ {
                            assert(next[next.len() - 1] == x);
                        }
                    }
                }
            }
            i = i + 1;
        }
        proof {
            assert(self.entries@.take(self.entries@.len() as int) =~= self.entries@);
            let ko = self.entries@.map_values(|e: (String, V)| e.0@);
            assert forall|x: Seq<char>| ko.to_set().contains(x) <==> self.view().dom().contains(x) by {
                if ko.to_set().contains(x) {
                    let j = choose|j: int| 0 <= j < ko.len() && ko[j] == x;
                    assert(self.entries@[j].0@ == x);
                }
                if self.view().dom().contains(x) {
                    let j = choose|j: int| 0 <= j < self.entries@.len() && #[trigger] self.entries@[j].0@ == x;
                    assert(ko[j] == x);
                }
            }
            assert(ko.to_set() =~= self.view().dom());
        }
        r
    }

    /// The key and value at position `i` of the insertion order.
    pub fn entry(&self, i: usize) -> (r: (&String, &V))
        requires
            i < self.key_order().len(),
        ensures
            self.key_order()[i as int] == r.0@,
            self.view().dom().contains(r.0@),
            self.view()[r.0@] == *r.1,
    {
        proof {
            use_type_invariant(self);
            lemma_entries_map_dom(self.entries@);
        }
        (&self.entries[i].0, &self.entries[i].1)
    }

    /// The number of entries in insertion order.
    pub fn entry_count(&self) -> (r: usize)
        ensures
            r == self.key_order().len(),
            r == self.view().dom().len(),
            forall|k: Seq<char>|
                self.view().dom().contains(k) <==> #[trigger] self.key_order().contains(k),
            self.key_order().no_duplicates(),
    {
        proof {
            use_type_invariant(self);
            lemma_entries_map_dom(self.entries@);
            let ko = self.key_order();
            assert forall|k: Seq<char>|
                self.view().dom().contains(k) <==> #[trigger] ko.contains(k) by {
                if self.view().dom().contains(k) {
                    let i = choose|i: int|
                        0 <= i < self.entries@.len() && #[trigger] self.entries@[i].0@ == k;
                    assert(ko[i] == k);
                }
                if ko.contains(k) {
                    let i = choose|i: int| 0 <= i < ko.len() && ko[i] == k;
                    assert(self.entries@[i].0@ == k);
                }
            }
        }
        self.entries.len()
    }

}

impl<V: Copy> StringMap<V> {
    /// A copy of the map.
    pub fn copy(&self) -> (r: Self)
        ensures
            r.view() == self.view(),
    {
        proof {
            use_type_invariant(self);
            lemma_entries_map_dom(self.entries@);
        }
        let mut es: Vec<(String, V)> = Vec::new();
        let mut i: usize = 0;
        while i < self.entries.len()
            invariant
                i <= self.entries@.len(),
                es@.len() == i,
                forall|j: int|
                    0 <= j < i ==> (#[trigger] es@[j]).0@ == self.entries@[j].0@ && es@[j].1
                        == self.entries@[j].1,
            decreases self.entries.len() - i,
        {
            let k = self.entries[i].0.clone();
            let v = self.entries[i].1;
            es.push((k, v));
            i = i + 1;
        }
        proof {
            let a = self.entries@;
            let b = es@;
            assert(distinct_keys(b)) by {
                assert forall|x: int, y: int|
                    0 <= x < b.len() && 0 <= y < b.len() && x != y implies b[x].0@ != b[y].0@ by {
                    assert(b[x].0@ == a[x].0@ && b[y].0@ == a[y].0@);
                }
            }
            lemma_entries_map_dom(b);
            assert forall|k: Seq<char>| entries_map(b).dom().contains(k) <==> entries_map(
                a,
            ).dom().contains(k) by {
                if entries_map(b).dom().contains(k) {
                    let j = choose|j: int| 0 <= j < b.len() && #[trigger] b[j].0@ == k;
                    assert(a[j].0@ == k);
                }
                if entries_map(a).dom().contains(k) {
                    let j = choose|j: int| 0 <= j < a.len() && #[trigger] a[j].0@ == k;
                    assert(b[j].0@ == k);
                }
            }
            assert forall|k: Seq<char>| #[trigger] entries_map(b).dom().contains(k) implies entries_map(
                b,
            )[k] == entries_map(a)[k] by {
                let j = choose|j: int| 0 <= j < b.len() && #[trigger] b[j].0@ == k;
                assert(entries_map(b)[b[j].0@] == b[j].1);
                assert(entries_map(a)[a[j].0@] == a[j].1);
            }
            assert(entries_map(b) =~= entries_map(a));
        }
        StringMap { entries: es }
    }
}

proof fn lemma_remove_map<V>(es: Seq<(String, V)>, i: int)
    requires
        distinct_keys(es),
        0 <= i < es.len(),
    ensures
        distinct_keys(es.remove(i)),
        entries_map(es.remove(i)) == entries_map(es).remove(es[i].0@),
{
    let r = es.remove(i);
    assert(distinct_keys(r)) by {
        assert forall|a: int, b: int| 0 <= a < r.len() && 0 <= b < r.len() && a != b implies r[a].0@
            != r[b].0@ by {
            let a2 = if a < i {
                a
            } else {
                a + 1
            };
            let b2 = if b < i {
                b
            } else {
                b + 1
            };
            assert(r[a] == es[a2] && r[b] == es[b2]);
        }
    }
    lemma_entries_map_dom(es);
    lemma_entries_map_dom(r);
    let lhs = entries_map(r);
    let rhs = entries_map(es).remove(es[i].0@);
    assert forall|k: Seq<char>| lhs.dom().contains(k) <==> rhs.dom().contains(k) by {
        if lhs.dom().contains(k) {
            let a = choose|a: int| 0 <= a < r.len() && #[trigger] r[a].0@ == k;
            let a2 = if a < i {
                a
            } else {
                a + 1
            };
            assert(r[a] == es[a2]);
        }
        if rhs.dom().contains(k) {
            let a = choose|a: int| 0 <= a < es.len() && #[trigger] es[a].0@ == k;
            assert(a != i);
            let a2 = if a < i {
                a
            } else {
                a - 1
            };
            assert(r[a2] == es[a]);
        }
    }
    assert forall|k: Seq<char>| lhs.dom().contains(k) implies lhs[k] == rhs[k] by {
        let a = choose|a: int| 0 <= a < r.len() && #[trigger] r[a].0@ == k;
        let a2 = if a < i {
            a
        } else {
            a + 1
        };
        assert(r[a] == es[a2]);
        assert(lhs[r[a].0@] == r[a].1);
    }
    assert(lhs =~= rhs);
}

proof fn lemma_remove_push_map<V>(es: Seq<(String, V)>, i: int, e: (String, V))
    requires
        distinct_keys(es),
        0 <= i < es.len(),
        es[i].0@ == e.0@,
    ensures
        distinct_keys(es.remove(i).push(e)),
        entries_map(es.remove(i).push(e)) == entries_map(es).insert(e.0@, e.1),
{
    let r = es.remove(i);
    let n = r.push(e);
    assert(distinct_keys(r)) by {
        assert forall|a: int, b: int| 0 <= a < r.len() && 0 <= b < r.len() && a != b implies r[a].0@
            != r[b].0@ by {
            let a2 = if a < i {
                a
            } else {
                a + 1
            };
            let b2 = if b < i {
                b
            } else {
                b + 1
            };
            assert(r[a] == es[a2] && r[b] == es[b2]);
        }
    }
    assert(distinct_keys(n)) by {
        assert forall|a: int, b: int| 0 <= a < n.len() && 0 <= b < n.len() && a != b implies n[a].0@
            != n[b].0@ by {
            if a < r.len() && b < r.len() {
                assert(n[a] == r[a] && n[b] == r[b]);
            } else if a < r.len() {
                let a2 = if a < i {
                    a
                } else {
                    a + 1
                };
                assert(n[a] == es[a2]);
            } else if b < r.len() {
                let b2 = if b < i {
                    b
                } else {
                    b + 1
                };
                assert(n[b] == es[b2]);
            }
        }
    }
    lemma_entries_map_dom(es);
    lemma_entries_map_dom(n);
    assert(n.drop_last() =~= r);
    let lhs = entries_map(n);
    let rhs = entries_map(es).insert(e.0@, e.1);
    assert forall|k: Seq<char>| lhs.dom().contains(k) <==> rhs.dom().contains(k) by {
        if lhs.dom().contains(k) {
            let a = choose|a: int| 0 <= a < n.len() && #[trigger] n[a].0@ == k;
            if a < r.len() {
                let a2 = if a < i {
                    a
                } else {
                    a + 1
                };
                assert(n[a] == es[a2]);
            }
        }
        if rhs.dom().contains(k) && k != e.0@ {
            let a = choose|a: int| 0 <= a < es.len() && #[trigger] es[a].0@ == k;
            assert(a != i);
            let a2 = if a < i {
                a
            } else {
                a - 1
            };
            assert(n[a2] == es[a]);
        }
    }
    assert forall|k: Seq<char>| lhs.dom().contains(k) implies lhs[k] == rhs[k] by {
        let a = choose|a: int| 0 <= a < n.len() && #[trigger] n[a].0@ == k;
        if a < r.len() {
            let a2 = if a < i {
                a
            } else {
                a + 1
            };
            assert(n[a] == es[a2]);
            assert(lhs[n[a].0@] == n[a].1);
            assert(es[a2].0@ != e.0@);
        } else {
            assert(n[a] == e);
        }
    }
    assert(lhs =~= rhs);
}

/// Lexicographic order on character sequences (by code point), which is the order of
/// `String`'s comparison operators.
pub open spec fn str_lt(a: Seq<char>, b: Seq<char>) -> bool
    decreases a.len(),
{
    if a.len() == 0 {
        b.len() > 0
    } else if b.len() == 0 {
        false
    } else if (a[0] as u32) < (b[0] as u32) {
        true
    } else if a[0] == b[0] {
        str_lt(a.drop_first(), b.drop_first())
    } else {
        false
    }
}

/// The views of a sequence of strings.
pub open spec fn key_views(v: Seq<String>) -> Seq<Seq<char>> {
    v.map_values(|s: String| s@)
}

/// `s` is strictly increasing in `str_lt`.
pub open spec fn sorted_strict(s: Seq<Seq<char>>) -> bool {
    forall|i: int, j: int| 0 <= i < j < s.len() ==> str_lt(s[i], s[j])
}

/// `str_lt` is irreflexive.
pub proof fn lemma_str_lt_irreflexive(a: Seq<char>)
    ensures
        !str_lt(a, a),
    decreases a.len(),
{
    if a.len() > 0 {
        lemma_str_lt_irreflexive(a.drop_first());
    }
}

/// `str_lt` is transitive.
pub proof fn lemma_str_lt_transitive(a: Seq<char>, b: Seq<char>, c: Seq<char>)
    requires
        str_lt(a, b),
        str_lt(b, c),
    ensures
        str_lt(a, c),
    decreases a.len(),
{
    if a.len() > 0 && b.len() > 0 && c.len() > 0 && a[0] == b[0] && b[0] == c[0] {
        lemma_str_lt_transitive(a.drop_first(), b.drop_first(), c.drop_first());
    }
}

/// Distinct sequences are ordered one way or the other.
pub proof fn lemma_str_lt_total(a: Seq<char>, b: Seq<char>)
    requires
        a != b,
    ensures
        str_lt(a, b) || str_lt(b, a),
    decreases a.len(),
{
    if a.len() == 0 || b.len() == 0 {
        if a.len() == 0 && b.len() == 0 {
            assert(a =~= b);
        }
    } else if a[0] == b[0] {
        if a.drop_first() == b.drop_first() {
            assert(a =~= seq![a[0]] + a.drop_first());
            assert(b =~= seq![b[0]] + b.drop_first());
        }
        lemma_str_lt_total(a.drop_first(), b.drop_first());
    } else {
        let x: char = a[0];
        let y: char = b[0];
        vstd::utf8::char_u32_cast(x, x as u32);
        vstd::utf8::char_u32_cast(y, y as u32);
    }
}

/// Compares two strings by `str_lt`.
pub fn str_less(a: &str, b: &str) -> (r: bool)
    ensures
        r == str_lt(a@, b@),
{
    let x = chars_of(a);
    let y = chars_of(b);
    let mut i: usize = 0;
    assert(x@.subrange(0, x@.len() as int) =~= x@);
    assert(y@.subrange(0, y@.len() as int) =~= y@);
    while i < x.len() && i < y.len() && x[i] == y[i]
        invariant
            i <= x.len(),
            i <= y.len(),
            str_lt(a@, b@) == str_lt(
                x@.subrange(i as int, x@.len() as int),
                y@.subrange(i as int, y@.len() as int),
            ),
            x@ == a@,
            y@ == b@,
        decreases x.len() - i,
    {
        assert(x@.subrange(i as int, x@.len() as int).drop_first() =~= x@.subrange(
            i + 1,
            x@.len() as int,
        ));
        assert(y@.subrange(i as int, y@.len() as int).drop_first() =~= y@.subrange(
            i + 1,
            y@.len() as int,
        ));
        i = i + 1;
    }
    if i == x.len() {
        i < y.len()
    } else if i == y.len() {
        false
    } else {
        (x[i] as u32) < (y[i] as u32)
    }
}

/// Inserts `k`, which does not occur in `r`, into the sorted vector `r`.
pub fn insert_sorted(r: &mut Vec<String>, k: String)
    requires
        sorted_strict(key_views(old(r)@)),
        !key_views(old(r)@).contains(k@),
    ensures
        sorted_strict(key_views(final(r)@)),
        key_views(final(r)@).to_set() == key_views(old(r)@).to_set().insert(k@),
        final(r)@.len() == old(r)@.len() + 1,
{
    let ghost before = key_views(r@);
    let mut p: usize = 0;
    while p < r.len() && !str_less(k.as_str(), r[p].as_str())
        invariant
            p <= r@.len(),
            before == key_views(r@),
            forall|j: int| 0 <= j < p ==> str_lt(before[j], k@),
            !before.contains(k@),
            sorted_strict(before),
        decreases r.len() - p,
    {
        proof {
            assert(before[p as int] != k@);
            lemma_str_lt_total(before[p as int], k@);
        }
        p = p + 1;
    }
    r.insert(p, k);
    proof {
        let after = key_views(r@);
        assert(after =~= before.insert(p as int, k@));
        assert forall|i: int, j: int| 0 <= i < j < after.len() implies str_lt(after[i], after[j]) by {
            if j < p {
            } else if j == p {
            } else if i < p {
                assert(after[j] == before[j - 1]);
                if p < before.len() {
                    assert(str_lt(k@, before[p as int]));
                    if j - 1 > p {
                        lemma_str_lt_transitive(k@, before[p as int], before[j - 1]);
                    }
                    lemma_str_lt_transitive(before[i], k@, before[j - 1]);
                }
            } else if i == p {
                assert(str_lt(k@, before[p as int]));
                if j - 1 > p {
                    lemma_str_lt_transitive(k@, before[p as int], before[j - 1]);
                }
            } else {
                assert(after[i] == before[i - 1] && after[j] == before[j - 1]);
            }
        }
        assert forall|x: Seq<char>| after.to_set().contains(x) <==> before.to_set().insert(k@).contains(x) by {
            if after.contains(x) {
                let i = choose|i: int| 0 <= i < after.len() && after[i] == x;
                if i < p {
                    assert(before[i] == x);
                } else if i > p {
                    assert(before[i - 1] == x);
                }
            }
            if before.contains(x) {
                let i = choose|i: int| 0 <= i < before.len() && before[i] == x;
                if i < p {
                    assert(after[i] == x);
                } else {
                    assert(after[i + 1] == x);
                }
            }
            if x == k@ {
                assert(after[p as int] == x);
            }
        }
        assert(after.to_set() =~= before.to_set().insert(k@));
    }
}

} // verus!
