//! Tags on worktrees, indexed from tag to worktrees and from worktree to tags.
use vstd::prelude::*;
use crate::error::HnError;
use crate::strmap::{StringMap, key_views, sorted_strict};
use crate::text::{chars_of, is_alphanumeric, spec_is_alphanumeric};

verus! {

/// The sets of strings that a map of string-keyed sets stands for.
pub open spec fn set_map(m: Map<Seq<char>, StringMap<()>>) -> Map<Seq<char>, Set<Seq<char>>> {
    m.map_values(|s: StringMap<()>| s.view().dom())
}

/// The set stored under `k`, or the empty set.
pub open spec fn set_at(m: Map<Seq<char>, Set<Seq<char>>>, k: Seq<char>) -> Set<Seq<char>> {
    if m.dom().contains(k) {
        m[k]
    } else {
        Set::empty()
    }
}

/// The two directions of the index agree, and no tag is kept without a worktree.
pub open spec fn index_consistent(
    tv: Map<Seq<char>, Set<Seq<char>>>,
    wv: Map<Seq<char>, Set<Seq<char>>>,
) -> bool {
    &&& forall|t: Seq<char>, w: Seq<char>|
        #![trigger set_at(tv, t).contains(w)]
        #![trigger set_at(wv, w).contains(t)]
        set_at(tv, t).contains(w) <==> set_at(wv, w).contains(t)
    &&& forall|t: Seq<char>| #[trigger] tv.dom().contains(t) ==> tv[t] != Set::<Seq<char>>::empty()
}

/// The strings of `v`, as a set.
pub open spec fn names(v: Seq<String>) -> Set<Seq<char>> {
    Set::new(|x: Seq<char>| exists|j: int| 0 <= j < v.len() && #[trigger] v[j]@ == x)
}

/// The tag map after the tags `ts` are put on worktree `w`.
pub open spec fn with_tags_added(
    tv: Map<Seq<char>, Set<Seq<char>>>,
    w: Seq<char>,
    ts: Set<Seq<char>>,
) -> Map<Seq<char>, Set<Seq<char>>> {
    Map::new(
        |t: Seq<char>| tv.dom().contains(t) || ts.contains(t),
        |t: Seq<char>|
            if ts.contains(t) {
                set_at(tv, t).insert(w)
            } else {
                tv[t]
            },
    )
}

/// The worktree map after the tags `ts` are put on worktree `w`.
pub open spec fn with_worktree_tagged(
    wv: Map<Seq<char>, Set<Seq<char>>>,
    w: Seq<char>,
    ts: Set<Seq<char>>,
) -> Map<Seq<char>, Set<Seq<char>>> {
    wv.insert(w, set_at(wv, w).union(ts))
}

/// The tag map after the tags `ts` are taken off worktree `w`: a tag left with no
/// worktree is dropped.
pub open spec fn with_tags_removed(
    tv: Map<Seq<char>, Set<Seq<char>>>,
    w: Seq<char>,
    ts: Set<Seq<char>>,
) -> Map<Seq<char>, Set<Seq<char>>> {
    Map::new(
        |t: Seq<char>|
            tv.dom().contains(t) && !(ts.contains(t) && tv[t].remove(w) == Set::<
                Seq<char>,
            >::empty()),
        |t: Seq<char>|
            if ts.contains(t) {
                tv[t].remove(w)
            } else {
                tv[t]
            },
    )
}

/// The worktree map after the tags `ts` are taken off worktree `w`: a worktree left
/// with no tag is dropped.
pub open spec fn with_worktree_untagged(
    wv: Map<Seq<char>, Set<Seq<char>>>,
    w: Seq<char>,
    ts: Set<Seq<char>>,
) -> Map<Seq<char>, Set<Seq<char>>> {
    if !wv.dom().contains(w) {
        wv
    } else if wv[w].difference(ts) == Set::<Seq<char>>::empty() {
        wv.remove(w)
    } else {
        wv.insert(w, wv[w].difference(ts))
    }
}

/// Tagging is seen from both sides: after tags are put on a worktree, each of them lists
/// the worktree and the worktree lists each of them; no other worktree's tags change.
pub proof fn law_tags_added_both_ways(
    tv: Map<Seq<char>, Set<Seq<char>>>,
    wv: Map<Seq<char>, Set<Seq<char>>>,
    w: Seq<char>,
    ts: Set<Seq<char>>,
)
    requires
        index_consistent(tv, wv),
    ensures
        forall|t: Seq<char>|
            #[trigger] ts.contains(t) ==> set_at(with_tags_added(tv, w, ts), t).contains(w) && set_at(
                with_worktree_tagged(wv, w, ts),
                w,
            ).contains(t),
        forall|x: Seq<char>|
            x != w ==> #[trigger] set_at(with_worktree_tagged(wv, w, ts), x) == set_at(wv, x),
{
}

/// Taking tags off a worktree: afterwards it carries none of them and none of them lists
/// it, every other pair of tag and worktree is as it was, and the index stays consistent.
pub proof fn law_tags_removed(
    tv: Map<Seq<char>, Set<Seq<char>>>,
    wv: Map<Seq<char>, Set<Seq<char>>>,
    w: Seq<char>,
    ts: Set<Seq<char>>,
)
    requires
        index_consistent(tv, wv),
    ensures
        forall|t: Seq<char>|
            #[trigger] ts.contains(t) ==> !set_at(with_tags_removed(tv, w, ts), t).contains(w) && !set_at(
                with_worktree_untagged(wv, w, ts),
                w,
            ).contains(t),
        forall|t: Seq<char>, x: Seq<char>|
            !(ts.contains(t) && x == w) ==> (#[trigger] set_at(with_tags_removed(tv, w, ts), t).contains(x)
                == set_at(tv, t).contains(x)) && (#[trigger] set_at(with_worktree_untagged(wv, w, ts), x).contains(
                t,
            ) == set_at(wv, x).contains(t)),
        index_consistent(with_tags_removed(tv, w, ts), with_worktree_untagged(wv, w, ts)),
{
    let tv2 = with_tags_removed(tv, w, ts);
    let wv2 = with_worktree_untagged(wv, w, ts);
    assert forall|t: Seq<char>, x: Seq<char>| set_at(tv2, t).contains(x) <==> set_at(wv2, x).contains(t) by {
        assert(set_at(tv, t).contains(x) <==> set_at(wv, x).contains(t));
        if wv.dom().contains(w) && wv[w].difference(ts) == Set::<Seq<char>>::empty() && x == w {
            assert(!wv[w].difference(ts).contains(t));
        }
    }
}

/// Tags put on a worktree that carried none of them and taken off again leave the index
/// as it was: every tag lists the same worktrees, every worktree carries the same tags,
/// and the same worktrees have entries, unless the worktree had an entry with no tag.
pub proof fn law_tags_round_trip(
    tv: Map<Seq<char>, Set<Seq<char>>>,
    wv: Map<Seq<char>, Set<Seq<char>>>,
    w: Seq<char>,
    ts: Set<Seq<char>>,
)
    requires
        index_consistent(tv, wv),
        forall|t: Seq<char>| #[trigger] ts.contains(t) ==> !set_at(wv, w).contains(t),
    ensures
        with_tags_removed(with_tags_added(tv, w, ts), w, ts) == tv,
        forall|x: Seq<char>|
            #[trigger] set_at(with_worktree_untagged(with_worktree_tagged(wv, w, ts), w, ts), x) == set_at(wv, x),
        (wv.dom().contains(w) ==> wv[w] != Set::<Seq<char>>::empty()) ==> with_worktree_untagged(
            with_worktree_tagged(wv, w, ts),
            w,
            ts,
        ).dom() == wv.dom(),
{
    let ta = with_tags_added(tv, w, ts);
    let tr = with_tags_removed(ta, w, ts);
    assert forall|t: Seq<char>| #[trigger] tr.dom().contains(t) == tv.dom().contains(t) && (tv.dom().contains(t) ==> tr[t] == tv[t]) by {
        if ts.contains(t) {
            assert(!set_at(tv, t).contains(w));
            assert(set_at(tv, t).insert(w).remove(w) =~= set_at(tv, t));
            if !tv.dom().contains(t) {
                assert(set_at(tv, t) =~= Set::<Seq<char>>::empty());
            }
        }
    }
    assert(tr =~= tv);
    let wa = with_worktree_tagged(wv, w, ts);
    let wr = with_worktree_untagged(wa, w, ts);
    assert(wa[w].difference(ts) =~= set_at(wv, w));
    assert forall|x: Seq<char>| #[trigger] set_at(wr, x) == set_at(wv, x) by {
        if x == w {
            if set_at(wv, w) == Set::<Seq<char>>::empty() {
                assert(set_at(wr, w) =~= Set::<Seq<char>>::empty());
            }
        }
    }
    if wv.dom().contains(w) ==> wv[w] != Set::<Seq<char>>::empty() {
        assert(wr.dom() =~= wv.dom());
    }
}

/// A removed worktree is gone from the index: no tag lists it any more, it has no tags,
/// and the other worktrees keep theirs.
pub proof fn law_removed_worktree_untagged(
    tv: Map<Seq<char>, Set<Seq<char>>>,
    wv: Map<Seq<char>, Set<Seq<char>>>,
    w: Seq<char>,
)
    requires
        index_consistent(tv, wv),
    ensures
        forall|t: Seq<char>|
            !(#[trigger] set_at(with_tags_removed(tv, w, set_at(wv, w)), t)).contains(w),
        !wv.remove(w).dom().contains(w),
        forall|x: Seq<char>| x != w ==> #[trigger] set_at(wv.remove(w), x) == set_at(wv, x),
{
    let ts = set_at(wv, w);
    assert forall|t: Seq<char>|
        !(#[trigger] set_at(with_tags_removed(tv, w, ts), t)).contains(w) by {
        if set_at(tv, t).contains(w) {
            assert(set_at(wv, w).contains(t));
        }
    }
}

proof fn lemma_names_take(v: Seq<String>, i: int)
    requires
        0 <= i < v.len(),
    ensures
        names(v.take(i + 1)) == names(v.take(i)).insert(v[i]@),
{
    let a = v.take(i + 1);
    let b = v.take(i);
    assert forall|x: Seq<char>| names(a).contains(x) <==> names(b).insert(v[i]@).contains(x) by {
        if names(a).contains(x) {
            let j = choose|j: int| 0 <= j < a.len() && #[trigger] a[j]@ == x;
            if j < i {
                assert(b[j]@ == x);
            }
        }
        if names(b).contains(x) {
            let j = choose|j: int| 0 <= j < b.len() && #[trigger] b[j]@ == x;
            assert(a[j]@ == x);
        }
        if x == v[i]@ {
            assert(a[i]@ == x);
        }
    }
    assert(names(a) =~= names(b).insert(v[i]@));
}

proof fn lemma_names_ends(v: Seq<String>)
    ensures
        names(v.take(0)) == Set::<Seq<char>>::empty(),
        names(v.take(v.len() as int)) == names(v),
{
    assert(names(v.take(0)) =~= Set::<Seq<char>>::empty());
    assert(v.take(v.len() as int) =~= v);
}

proof fn lemma_set_at_map(m: Map<Seq<char>, StringMap<()>>, k: Seq<char>)
    ensures
        m.dom().contains(k) ==> set_at(set_map(m), k) == m[k].view().dom(),
        !m.dom().contains(k) ==> set_at(set_map(m), k) == Set::<Seq<char>>::empty(),
{
}

/// Putting tags on a worktree keeps the index consistent.
proof fn lemma_added_consistent(
    tv: Map<Seq<char>, Set<Seq<char>>>,
    wv: Map<Seq<char>, Set<Seq<char>>>,
    w: Seq<char>,
    ts: Set<Seq<char>>,
)
    requires
        index_consistent(tv, wv),
    ensures
        index_consistent(with_tags_added(tv, w, ts), with_worktree_tagged(wv, w, ts)),
{
    let tv2 = with_tags_added(tv, w, ts);
    let wv2 = with_worktree_tagged(wv, w, ts);
    assert forall|t: Seq<char>, x: Seq<char>|
        set_at(tv2, t).contains(x) <==> set_at(wv2, x).contains(t) by {
        assert(set_at(tv2, t).contains(x) <==> set_at(tv, t).contains(x) || (ts.contains(t) && x
            == w));
        assert(set_at(wv2, x).contains(t) <==> set_at(wv, x).contains(t) || (x == w
            && ts.contains(t)));
    }
    assert forall|t: Seq<char>| #[trigger] tv2.dom().contains(t) implies tv2[t] != Set::<
        Seq<char>,
    >::empty() by {
        if ts.contains(t) {
            assert(tv2[t].contains(w));
        } else {
            assert(tv2[t] == tv[t]);
        }
    }
}

/// Taking tags off a worktree keeps the index consistent.
proof fn lemma_removed_consistent(
    tv: Map<Seq<char>, Set<Seq<char>>>,
    wv: Map<Seq<char>, Set<Seq<char>>>,
    w: Seq<char>,
    ts: Set<Seq<char>>,
)
    requires
        index_consistent(tv, wv),
    ensures
        index_consistent(with_tags_removed(tv, w, ts), with_worktree_untagged(wv, w, ts)),
{
    let tv2 = with_tags_removed(tv, w, ts);
    let wv2 = with_worktree_untagged(wv, w, ts);
    assert forall|t: Seq<char>, x: Seq<char>|
        set_at(tv2, t).contains(x) <==> set_at(wv2, x).contains(t) by {
        assert(set_at(tv2, t).contains(x) <==> set_at(tv, t).contains(x) && !(ts.contains(t) && x
            == w)) by {
            if tv.dom().contains(t) && ts.contains(t) && tv[t].remove(w) == Set::<
                Seq<char>,
            >::empty() {
                assert(!tv[t].remove(w).contains(x));
            }
        }
        assert(set_at(wv2, x).contains(t) <==> set_at(wv, x).contains(t) && !(x == w
            && ts.contains(t))) by {
            if wv.dom().contains(w) && x == w && wv[w].difference(ts) == Set::<
                Seq<char>,
            >::empty() {
                assert(!wv[w].difference(ts).contains(t));
            }
        }
    }
}

/// Dropping a worktree keeps the index consistent.
proof fn lemma_dropped_consistent(
    tv: Map<Seq<char>, Set<Seq<char>>>,
    wv: Map<Seq<char>, Set<Seq<char>>>,
    w: Seq<char>,
)
    requires
        index_consistent(tv, wv),
    ensures
        index_consistent(with_tags_removed(tv, w, set_at(wv, w)), wv.remove(w)),
{
    let s = set_at(wv, w);
    let tv2 = with_tags_removed(tv, w, s);
    let wv2 = wv.remove(w);
    assert forall|t: Seq<char>, x: Seq<char>|
        set_at(tv2, t).contains(x) <==> set_at(wv2, x).contains(t) by {
        assert(set_at(tv2, t).contains(x) <==> set_at(tv, t).contains(x) && !(s.contains(t) && x
            == w)) by {
            if tv.dom().contains(t) && s.contains(t) && tv[t].remove(w) == Set::<
                Seq<char>,
            >::empty() {
                assert(!tv[t].remove(w).contains(x));
            }
        }
        if x == w {
            assert(set_at(tv, t).contains(w) <==> s.contains(t));
        }
    }
}

/// One step of taking worktree `w` off the tags in `p`, extended by tag `t`.
proof fn lemma_removed_step(
    tv: Map<Seq<char>, Set<Seq<char>>>,
    w: Seq<char>,
    p: Set<Seq<char>>,
    t: Seq<char>,
    before: Map<Seq<char>, StringMap<()>>,
    after: Map<Seq<char>, StringMap<()>>,
)
    requires
        set_map(before) == with_tags_removed(tv, w, p),
        forall|k: Seq<char>| k != t ==> (#[trigger] after.dom().contains(k) == before.dom().contains(k)),
        forall|k: Seq<char>| k != t && after.dom().contains(k) ==> #[trigger] after[k] == before[k],
        before.dom().contains(t) ==> (after.dom().contains(t) <==> before[t].view().dom().remove(w)
            != Set::<Seq<char>>::empty()),
        before.dom().contains(t) && after.dom().contains(t) ==> after[t].view().dom()
            == before[t].view().dom().remove(w),
        !before.dom().contains(t) ==> !after.dom().contains(t),
    ensures
        set_map(after) == with_tags_removed(tv, w, p.insert(t)),
{
    let goal = with_tags_removed(tv, w, p.insert(t));
    let prev = with_tags_removed(tv, w, p);
    if before.dom().contains(t) {
        assert(prev.dom().contains(t));
        assert(set_map(before)[t] == before[t].view().dom());
        assert(before[t].view().dom() == prev[t]);
        assert(before[t].view().dom().remove(w) =~= tv[t].remove(w));
    } else {
        assert(!prev.dom().contains(t));
    }
    assert forall|k: Seq<char>| set_map(after).dom().contains(k) <==> goal.dom().contains(k) by {
        if k != t {
            assert(after.dom().contains(k) == before.dom().contains(k));
            assert(prev.dom().contains(k) == goal.dom().contains(k));
        }
    }
    assert forall|k: Seq<char>| #[trigger] set_map(after).dom().contains(k) implies set_map(after)[k]
        == goal[k] by {
        if k != t {
            assert(after[k] == before[k]);
            assert(prev.dom().contains(k));
            assert(set_map(before)[k] == prev[k]);
        }
    }
    assert(set_map(after) =~= goal);
}

/// The two maps of a tag index, kept consistent by the operations on them.
#[derive(Debug)]
struct TagMaps {
    tags: StringMap<StringMap<()>>,
    worktrees: StringMap<StringMap<()>>,
}

impl TagMaps {
    /// For each tag, the worktrees that carry it.
    pub closed spec fn tags_view(&self) -> Map<Seq<char>, Set<Seq<char>>> {
        set_map(self.tags.view())
    }

    /// For each worktree with an entry, the tags it carries.
    pub closed spec fn worktrees_view(&self) -> Map<Seq<char>, Set<Seq<char>>> {
        set_map(self.worktrees.view())
    }

    /// The index is consistent.
    pub open spec fn wf(&self) -> bool {
        index_consistent(self.tags_view(), self.worktrees_view())
    }

    /// Puts `tags` on `worktree`.
    pub fn add_tags(&mut self, worktree: &str, tags: &[String])
        requires
            old(self).wf(),
        ensures
            final(self).wf(),
            final(self).tags_view() == with_tags_added(
                old(self).tags_view(),
                worktree@,
                names(tags@),
            ),
            final(self).worktrees_view() == with_worktree_tagged(
                old(self).worktrees_view(),
                worktree@,
                names(tags@),
            ),
    {
        let ghost tv = self.tags_view();
        let ghost wv = self.worktrees_view();
        let ghost w = worktree@;
        let mut wset: StringMap<()> = match self.worktrees.remove(worktree) {
            Some(s) => s,
            None => StringMap::new(),
        };
        proof {
            lemma_names_ends(tags@);
            assert(wset.view().dom() =~= set_at(wv, w).union(names(tags@.take(0))));
        }
        let mut i: usize = 0;
        while i < tags.len()
            invariant
                i <= tags@.len(),
                w == worktree@,
                wset.view().dom() == set_at(wv, w).union(names(tags@.take(i as int))),
            decreases tags.len() - i,
        {
            wset.insert(tags[i].clone(), ());
            proof {
                lemma_names_take(tags@, i as int);
                assert(wset.view().dom() =~= set_at(wv, w).union(names(tags@.take(i + 1))));
            }
            i = i + 1;
        }
        self.worktrees.insert(String::from_str(worktree), wset);
        proof {
            assert(self.worktrees_view() =~= with_worktree_tagged(wv, w, names(tags@)));
            assert(set_map(self.tags.view()) =~= with_tags_added(tv, w, names(tags@.take(0))));
        }
        let mut i: usize = 0;
        while i < tags.len()
            invariant
                i <= tags@.len(),
                w == worktree@,
                set_map(self.tags.view()) == with_tags_added(tv, w, names(tags@.take(i as int))),
                set_map(self.worktrees.view()) == with_worktree_tagged(wv, w, names(tags@)),
            decreases tags.len() - i,
        {
            let ghost before = self.tags.view();
            let mut tset: StringMap<()> = match self.tags.remove(tags[i].as_str()) {
                Some(s) => s,
                None => StringMap::new(),
            };
            proof {
                lemma_set_at_map(before, tags@[i as int]@);
            }
            let ghost told = tset.view().dom();
            tset.insert(String::from_str(worktree), ());
            let ghost tnew = tset;
            assert(tnew.view().dom() =~= told.insert(w));
            self.tags.insert(tags[i].clone(), tset);
            assert(self.tags.view()[tags@[i as int]@] == tnew);
            proof {
                lemma_names_take(tags@, i as int);
                let p = names(tags@.take(i as int));
                let t = tags@[i as int]@;
                assert forall|k: Seq<char>|
                    set_map(self.tags.view()).dom().contains(k) <==> with_tags_added(
                        tv,
                        w,
                        p.insert(t),
                    ).dom().contains(k) by {
                    if k != t {
                        assert(set_map(before).dom().contains(k) == set_map(
                            self.tags.view(),
                        ).dom().contains(k));
                    }
                }
                assert forall|k: Seq<char>|
                    #[trigger] set_map(self.tags.view()).dom().contains(k) implies set_map(
                        self.tags.view(),
                    )[k] == with_tags_added(tv, w, p.insert(t))[k] by {
                    if k == t {
                        let added = with_tags_added(tv, w, p);
                        assert(told == set_at(added, t));
                        if p.contains(t) {
                            assert(told == set_at(tv, t).insert(w));
                        } else if tv.dom().contains(t) {
                            assert(told == tv[t]);
                        } else {
                            assert(told == set_at(tv, t));
                        }
                        assert(set_map(self.tags.view())[k] == told.insert(w));
                        assert(set_map(self.tags.view())[k] =~= set_at(tv, t).insert(w));
                    } else {
                        assert(set_map(before).dom().contains(k));
                        assert(set_map(self.tags.view())[k] == set_map(before)[k]);
                    }
                }
                assert(set_map(self.tags.view()) =~= with_tags_added(tv, w, p.insert(t)));
            }
            i = i + 1;
        }
        proof {
            lemma_added_consistent(tv, wv, w, names(tags@));
        }
    }

    /// Takes `tags` off `worktree`; a worktree or tag left empty loses its entry.
    pub fn remove_tags(&mut self, worktree: &str, tags: &[String])
        requires
            old(self).wf(),
        ensures
            final(self).wf(),
            final(self).tags_view() == with_tags_removed(
                old(self).tags_view(),
                worktree@,
                names(tags@),
            ),
            final(self).worktrees_view() == with_worktree_untagged(
                old(self).worktrees_view(),
                worktree@,
                names(tags@),
            ),
    {
        let ghost tv = self.tags_view();
        let ghost wv = self.worktrees_view();
        let ghost w = worktree@;
        proof {
            lemma_names_ends(tags@);
        }
        match self.worktrees.remove(worktree) {
            Some(mut wset) => {
                assert(wset.view().dom() =~= set_at(wv, w).difference(names(tags@.take(0))));
                let mut i: usize = 0;
                while i < tags.len()
                    invariant
                        i <= tags@.len(),
                        w == worktree@,
                        wv.dom().contains(w),
                        wset.view().dom() == wv[w].difference(names(tags@.take(i as int))),
                    decreases tags.len() - i,
                {
                    wset.remove(tags[i].as_str());
                    proof {
                        lemma_names_take(tags@, i as int);
                        assert(wset.view().dom() =~= wv[w].difference(
                            names(tags@.take(i + 1)),
                        ));
                    }
                    i = i + 1;
                }
                if wset.len() > 0 {
                    self.worktrees.insert(String::from_str(worktree), wset);
                    assert(self.worktrees_view() =~= with_worktree_untagged(wv, w, names(tags@)));
                } else {
                    proof {
                        wset.view().dom().lemma_len0_is_empty();
                    }
                    assert(self.worktrees_view() =~= with_worktree_untagged(wv, w, names(tags@)));
                }
            },
            None => {
                assert(self.worktrees_view() =~= with_worktree_untagged(wv, w, names(tags@)));
            },
        }
        assert(set_map(self.tags.view()) =~= with_tags_removed(tv, w, names(tags@.take(0))));
        let mut i: usize = 0;
        while i < tags.len()
            invariant
                i <= tags@.len(),
                w == worktree@,
                set_map(self.tags.view()) == with_tags_removed(tv, w, names(tags@.take(i as int))),
                set_map(self.worktrees.view()) == with_worktree_untagged(wv, w, names(tags@)),
            decreases tags.len() - i,
        {
            let ghost before = self.tags.view();
            let ghost p = names(tags@.take(i as int));
            let ghost t = tags@[i as int]@;
            proof {
                lemma_names_take(tags@, i as int);
            }
            match self.tags.remove(tags[i].as_str()) {
                Some(mut tset) => {
                    tset.remove(worktree);
                    if tset.len() > 0 {
                        let ghost tnew = tset;
                        self.tags.insert(tags[i].clone(), tset);
                        assert(self.tags.view()[t] == tnew);
                    } else {
                        proof {
                            tset.view().dom().lemma_len0_is_empty();
                        }
                    }
                },
                None => {},
            }
            proof {
                lemma_removed_step(tv, w, p, t, before, self.tags.view());
            }
            i = i + 1;
        }
        proof {
            lemma_removed_consistent(tv, wv, w, names(tags@));
        }
    }

    /// Takes every tag off `worktree` and drops its entry.
    pub fn remove_worktree(&mut self, worktree: &str)
        requires
            old(self).wf(),
        ensures
            final(self).wf(),
            final(self).tags_view() == with_tags_removed(
                old(self).tags_view(),
                worktree@,
                set_at(old(self).worktrees_view(), worktree@),
            ),
            final(self).worktrees_view() == old(self).worktrees_view().remove(worktree@),
    {
        let ghost tv = self.tags_view();
        let ghost wv = self.worktrees_view();
        let ghost w = worktree@;
        proof {
            lemma_dropped_consistent(tv, wv, w);
        }
        match self.worktrees.remove(worktree) {
            None => {
                assert(self.worktrees_view() =~= wv.remove(w));
                assert(set_at(wv, w) =~= Set::<Seq<char>>::empty());
                assert(set_map(self.tags.view()) =~= with_tags_removed(tv, w, set_at(wv, w)));
            },
            Some(wset) => {
                assert(self.worktrees_view() =~= wv.remove(w));
                let n = wset.entry_count();
                let ghost ko = wset.key_order();
                let ghost s = set_at(wv, w);
                assert(s == wset.view().dom());
                let mut i: usize = 0;
                proof {
                    assert(set_map(self.tags.view()) =~= with_tags_removed(
                        tv,
                        w,
                        ko.take(0).to_set(),
                    ));
                }
                while i < n
                    invariant
                        i <= n,
                        n == ko.len(),
                        ko == wset.key_order(),
                        w == worktree@,
                        forall|k: Seq<char>| s.contains(k) <==> #[trigger] ko.contains(k),
                        set_map(self.tags.view()) == with_tags_removed(
                            tv,
                            w,
                            ko.take(i as int).to_set(),
                        ),
                        set_map(self.worktrees.view()) == wv.remove(w),
                    decreases n - i,
                {
                    let (tag, _u) = wset.entry(i);
                    let ghost before = self.tags.view();
                    let ghost p = ko.take(i as int).to_set();
                    let ghost t = tag@;
                    proof {
                        assert(ko.take(i + 1) =~= ko.take(i as int).push(t));
                        ko.take(i as int).lemma_push_to_set_commute(t);
                    }
                    match self.tags.remove(tag.as_str()) {
                        Some(mut tset) => {
                            tset.remove(worktree);
                            if tset.len() > 0 {
                                let ghost tnew = tset;
                                self.tags.insert(String::from_str(tag.as_str()), tset);
                                assert(self.tags.view()[t] == tnew);
                            } else {
                                proof {
                                    tset.view().dom().lemma_len0_is_empty();
                                }
                            }
                        },
                        None => {},
                    }
                    proof {
                        lemma_removed_step(tv, w, p, t, before, self.tags.view());
                    }
                    i = i + 1;
                }
                proof {
                    assert(ko.take(n as int) =~= ko);
                    assert(ko.to_set() =~= s);
                }
            },
        }
    }

    /// The tags of `worktree`, sorted.
    pub fn get_worktree_tags(&self, worktree: &str) -> (r: Vec<String>)
        ensures
            sorted_strict(key_views(r@)),
            key_views(r@).to_set() == set_at(self.worktrees_view(), worktree@),
    {
        match self.worktrees.get(worktree) {
            Some(s) => s.sorted_keys(),
            None => {
                let r: Vec<String> = Vec::new();
                assert(key_views(r@).to_set() =~= Set::<Seq<char>>::empty());
                r
            },
        }
    }

    /// The worktrees that carry `tag`, sorted.
    pub fn get_worktrees_by_tag(&self, tag: &str) -> (r: Vec<String>)
        ensures
            sorted_strict(key_views(r@)),
            key_views(r@).to_set() == set_at(self.tags_view(), tag@),
    {
        match self.tags.get(tag) {
            Some(s) => s.sorted_keys(),
            None => {
                let r: Vec<String> = Vec::new();
                assert(key_views(r@).to_set() =~= Set::<Seq<char>>::empty());
                r
            },
        }
    }

    /// Every tag in use, sorted.
    pub fn get_all_tags(&self) -> (r: Vec<String>)
        ensures
            sorted_strict(key_views(r@)),
            key_views(r@).to_set() == self.tags_view().dom(),
    {
        let r = self.tags.sorted_keys();
        assert(self.tags_view().dom() =~= self.tags.view().dom());
        r
    }

    /// Every worktree with an entry, sorted.
    pub fn worktree_names(&self) -> (r: Vec<String>)
        ensures
            sorted_strict(key_views(r@)),
            key_views(r@).to_set() == self.worktrees_view().dom(),
    {
        let r = self.worktrees.sorted_keys();
        assert(self.worktrees_view().dom() =~= self.worktrees.view().dom());
        r
    }

    /// How many worktrees carry `tag`.
    pub fn get_tag_count(&self, tag: &str) -> (r: usize)
        ensures
            r == set_at(self.tags_view(), tag@).len(),
    {
        match self.tags.get(tag) {
            Some(s) => s.len(),
            None => 0,
        }
    }
}

impl TagMaps {
    /// No tags.
    fn empty() -> (r: Self)
        ensures
            r.wf(),
            r.tags_view() == Map::<Seq<char>, Set<Seq<char>>>::empty(),
            r.worktrees_view() == Map::<Seq<char>, Set<Seq<char>>>::empty(),
    {
        let r = TagMaps { tags: StringMap::new(), worktrees: StringMap::new() };
        assert(r.tags_view() =~= Map::<Seq<char>, Set<Seq<char>>>::empty());
        assert(r.worktrees_view() =~= Map::<Seq<char>, Set<Seq<char>>>::empty());
        r
    }
}

/// An index of tags: which worktrees carry each tag, and which tags each worktree
/// carries. The two directions always agree, and no tag is kept without a worktree.
#[derive(Debug)]
pub struct TagIndex {
    maps: TagMaps,
}

impl TagIndex {
    #[verifier::type_invariant]
    spec fn consistent(&self) -> bool {
        self.maps.wf()
    }

    /// For each tag, the worktrees that carry it.
    pub closed spec fn tags_view(&self) -> Map<Seq<char>, Set<Seq<char>>> {
        self.maps.tags_view()
    }

    /// For each worktree with an entry, the tags it carries.
    pub closed spec fn worktrees_view(&self) -> Map<Seq<char>, Set<Seq<char>>> {
        self.maps.worktrees_view()
    }

    /// The two directions of the index agree, and no tag is kept without a worktree.
    pub open spec fn wf(&self) -> bool {
        index_consistent(self.tags_view(), self.worktrees_view())
    }

    /// Puts `tags` on `worktree`.
    pub fn add_tags(&mut self, worktree: &str, tags: &[String])
        ensures
            final(self).wf(),
            final(self).tags_view() == with_tags_added(
                old(self).tags_view(),
                worktree@,
                names(tags@),
            ),
            final(self).worktrees_view() == with_worktree_tagged(
                old(self).worktrees_view(),
                worktree@,
                names(tags@),
            ),
    {
        proof {
            use_type_invariant(&*self);
        }
        let mut maps = TagMaps::empty();
        std::mem::swap(&mut maps, &mut self.maps);
        maps.add_tags(worktree, tags);
        self.maps = maps;
    }

    /// Takes `tags` off `worktree`; a worktree or tag left empty loses its entry.
    pub fn remove_tags(&mut self, worktree: &str, tags: &[String])
        ensures
            final(self).wf(),
            final(self).tags_view() == with_tags_removed(
                old(self).tags_view(),
                worktree@,
                names(tags@),
            ),
            final(self).worktrees_view() == with_worktree_untagged(
                old(self).worktrees_view(),
                worktree@,
                names(tags@),
            ),
    {
        proof {
            use_type_invariant(&*self);
        }
        let mut maps = TagMaps::empty();
        std::mem::swap(&mut maps, &mut self.maps);
        maps.remove_tags(worktree, tags);
        self.maps = maps;
    }

    /// Takes every tag off `worktree` and drops its entry.
    pub fn remove_worktree(&mut self, worktree: &str)
        ensures
            final(self).wf(),
            final(self).tags_view() == with_tags_removed(
                old(self).tags_view(),
                worktree@,
                set_at(old(self).worktrees_view(), worktree@),
            ),
            final(self).worktrees_view() == old(self).worktrees_view().remove(worktree@),
    {
        proof {
            use_type_invariant(&*self);
        }
        let mut maps = TagMaps::empty();
        std::mem::swap(&mut maps, &mut self.maps);
        maps.remove_worktree(worktree);
        self.maps = maps;
    }

    /// The tags of `worktree`, sorted.
    pub fn get_worktree_tags(&self, worktree: &str) -> (r: Vec<String>)
        ensures
            sorted_strict(key_views(r@)),
            key_views(r@).to_set() == set_at(self.worktrees_view(), worktree@),
    {
        self.maps.get_worktree_tags(worktree)
    }

    /// The worktrees that carry `tag`, sorted.
    pub fn get_worktrees_by_tag(&self, tag: &str) -> (r: Vec<String>)
        ensures
            sorted_strict(key_views(r@)),
            key_views(r@).to_set() == set_at(self.tags_view(), tag@),
    {
        self.maps.get_worktrees_by_tag(tag)
    }

    /// Every tag in use, sorted.
    pub fn get_all_tags(&self) -> (r: Vec<String>)
        ensures
            sorted_strict(key_views(r@)),
            key_views(r@).to_set() == self.tags_view().dom(),
    {
        self.maps.get_all_tags()
    }

    /// Every worktree with an entry, sorted.
    pub fn worktree_names(&self) -> (r: Vec<String>)
        ensures
            sorted_strict(key_views(r@)),
            key_views(r@).to_set() == self.worktrees_view().dom(),
    {
        self.maps.worktree_names()
    }

    /// How many worktrees carry `tag`.
    pub fn get_tag_count(&self, tag: &str) -> (r: usize)
        ensures
            r == set_at(self.tags_view(), tag@).len(),
    {
        self.maps.get_tag_count(tag)
    }
}

impl Default for TagIndex {
    /// An empty index.
    fn default() -> (r: Self)
        ensures
            r.wf(),
            r.tags_view() == Map::<Seq<char>, Set<Seq<char>>>::empty(),
            r.worktrees_view() == Map::<Seq<char>, Set<Seq<char>>>::empty(),
    {
        TagIndex { maps: TagMaps::empty() }
    }
}

/// A character allowed in a tag.
pub open spec fn tag_char_ok(c: char) -> bool {
    spec_is_alphanumeric(c) || c == '-' || c == '_'
}

/// Why `tag` is not an acceptable tag name (the first rule it breaks), if it breaks one.
pub open spec fn tag_problem(tag: Seq<char>) -> Option<Seq<char>> {
    if tag.len() == 0 {
        Some("Tag cannot be empty"@)
    } else if vstd::utf8::encode_utf8(tag).len() > 50 {
        Some("Tag cannot be longer than 50 characters"@)
    } else if exists|i: int| 0 <= i < tag.len() && !tag_char_ok(#[trigger] tag[i]) {
        Some("Tag can only contain letters, numbers, hyphens, and underscores"@)
    } else {
        None
    }
}

/// A tag of one to fifty characters, each an ASCII letter of either case, an ASCII digit,
/// `-` or `_`, is accepted: `validate_tag_name` (and so `add_tags`) takes it.
pub proof fn law_plain_tags_accepted(tag: Seq<char>)
    requires
        1 <= tag.len() <= 50,
        forall|i: int|
            0 <= i < tag.len() ==> {
                let c = #[trigger] tag[i];
                ('a' <= c <= 'z') || ('A' <= c <= 'Z') || ('0' <= c <= '9') || c == '-' || c == '_'
            },
    ensures
        tag_problem(tag) is None,
{
    assert(vstd::utf8::is_ascii_chars(tag));
    vstd::utf8::is_ascii_chars_encode_utf8(tag);
    assert forall|i: int| 0 <= i < tag.len() implies tag_char_ok(#[trigger] tag[i]) by {
        let c = tag[i];
        assert(('a' <= c <= 'z') || ('A' <= c <= 'Z') || ('0' <= c <= '9') || c == '-' || c == '_');
    }
}

/// Checks that `tag` is non-empty, at most 50 bytes long in UTF-8, and made of letters,
/// digits, `-` and `_`.
pub fn validate_tag_name(tag: &str) -> (r: Result<(), HnError>)
    ensures
        match tag_problem(tag@) {
            None => r is Ok,
            Some(m) => r matches Err(HnError::ValidationError(msg)) && msg@ == m,
        },
{
    let v = chars_of(tag);
    if v.len() == 0 {
        return Err(HnError::ValidationError(String::from_str("Tag cannot be empty")));
    }
    let bytes = tag.as_bytes();
    if bytes.len() > 50 {
        return Err(
            HnError::ValidationError(String::from_str("Tag cannot be longer than 50 characters")),
        );
    }
    let mut i: usize = 0;
    while i < v.len()
        invariant
            i <= v@.len(),
            v@ == tag@,
            tag@.len() > 0,
            vstd::utf8::encode_utf8(tag@).len() <= 50,
            forall|j: int| 0 <= j < i ==> tag_char_ok(#[trigger] v@[j]),
        decreases v.len() - i,
    {
        let c = v[i];
        if !(is_alphanumeric(c) || c == '-' || c == '_') {
            assert(!tag_char_ok(tag@[i as int]));
            return Err(
                HnError::ValidationError(
                    String::from_str(
                        "Tag can only contain letters, numbers, hyphens, and underscores",
                    ),
                ),
            );
        }
        i = i + 1;
    }
    Ok(())
}

/// Validates every tag in `tags`, then puts them all on `worktree`; the first invalid
/// tag stops the call and leaves the index unchanged.
pub fn add_tags(index: &mut TagIndex, worktree: &str, tags: &[String]) -> (r: Result<(), HnError>)
    ensures
        final(index).wf(),
        match r {
            Ok(()) => {
                &&& forall|j: int| 0 <= j < tags@.len() ==> tag_problem(#[trigger] tags@[j]@) is None
                &&& final(index).tags_view() == with_tags_added(
                    old(index).tags_view(),
                    worktree@,
                    names(tags@),
                )
                &&& final(index).worktrees_view() == with_worktree_tagged(
                    old(index).worktrees_view(),
                    worktree@,
                    names(tags@),
                )
            },
            Err(e) => {
                &&& e is ValidationError
                &&& exists|j: int|
                    #![trigger tags@[j]]
                    0 <= j < tags@.len() && (forall|k: int|
                        0 <= k < j ==> tag_problem(#[trigger] tags@[k]@) is None) && tag_problem(
                        tags@[j]@,
                    ) == Some(e->ValidationError_0@)
                &&& *final(index) == *old(index)
            },
        },
{
    proof {
        use_type_invariant(&*index);
    }
    let ghost start = *index;
    let mut i: usize = 0;
    while i < tags.len()
        invariant
            i <= tags@.len(),
            *index == start,
            start == *old(index),
            start.wf(),
            forall|k: int| 0 <= k < i ==> tag_problem(#[trigger] tags@[k]@) is None,
        decreases tags.len() - i,
    {
        match validate_tag_name(tags[i].as_str()) {
            Ok(()) => {},
            Err(e) => {
                assert(0 <= i < tags@.len() && tags@[i as int]@ == tags@[i as int]@);
                return Err(e);
            },
        }
        i = i + 1;
    }
    index.add_tags(worktree, tags);
    Ok(())
}

/// The tags of `worktree` in `index`, sorted.
pub fn get_worktree_tags(index: &TagIndex, worktree: &str) -> (r: Vec<String>)
    ensures
        sorted_strict(key_views(r@)),
        key_views(r@).to_set() == set_at(index.worktrees_view(), worktree@),
{
    index.get_worktree_tags(worktree)
}

/// The worktrees in `index` that carry `tag`, sorted.
pub fn get_worktrees_by_tag(index: &TagIndex, tag: &str) -> (r: Vec<String>)
    ensures
        sorted_strict(key_views(r@)),
        key_views(r@).to_set() == set_at(index.tags_view(), tag@),
{
    index.get_worktrees_by_tag(tag)
}

/// Every tag in `index` with the number of worktrees that carry it, sorted by tag.
pub fn list_all_tags(index: &TagIndex) -> (r: Vec<(String, usize)>)
    ensures
        sorted_strict(r@.map_values(|e: (String, usize)| e.0@)),
        r@.map_values(|e: (String, usize)| e.0@).to_set() == index.tags_view().dom(),
        forall|i: int| 0 <= i < r@.len() ==> #[trigger] r@[i].1 == index.tags_view()[r@[i].0@].len(),
{
    let tags = index.get_all_tags();
    let mut r: Vec<(String, usize)> = Vec::new();
    let mut i: usize = 0;
    while i < tags.len()
        invariant
            i <= tags@.len(),
            r@.len() == i,
            key_views(tags@).to_set() == index.tags_view().dom(),
            forall|j: int| 0 <= j < i ==> (#[trigger] r@[j]).0@ == tags@[j]@,
            forall|j: int| 0 <= j < i ==> #[trigger] r@[j].1 == index.tags_view()[r@[j].0@].len(),
        decreases tags.len() - i,
    {
        let n = index.get_tag_count(tags[i].as_str());
        proof {
            assert(key_views(tags@)[i as int] == tags@[i as int]@);
            assert(key_views(tags@).to_set().contains(tags@[i as int]@));
        }
        r.push((tags[i].clone(), n));
        i = i + 1;
    }
    assert(r@.map_values(|e: (String, usize)| e.0@) =~= key_views(tags@));
    r
}

} // verus!
