//! Snapshots of worktrees: the index of saved snapshots and the rules around it.
use vstd::prelude::*;
use crate::error::HnError;
use crate::monitoring::derefs;
use crate::paths::{path_file_name, path_join, spec_path_file_name, spec_path_join};
use crate::vcs::{strip_all_prefix, strip_all_prefix_exec};
use crate::text::{
    chars_of, concat2, concat3, contains, decimal, find_from, matches_at, seq_contains,
    seq_starts_with, slice_chars, spec_decimal, spec_lines, split_lines, starts_with, str_eq,
    string_of,
};

verus! {

/// A saved state of a worktree: its branch and commit, and the stash that holds its
/// uncommitted changes, if it had any.
#[derive(Debug)]
pub struct Snapshot {
    pub name: String,
    pub worktree: String,
    pub branch: String,
    pub commit: String,
    pub stash_ref: Option<String>,
    pub has_uncommitted: bool,
    pub created_at: u64,
    pub description: Option<String>,
}

fn copy_opt(o: &Option<String>) -> (r: Option<String>)
    ensures
        r == *o,
{
    match o {
        Some(s) => Some(s.clone()),
        None => None,
    }
}

impl Clone for Snapshot {
    fn clone(&self) -> (r: Self)
        ensures
            r == *self,
    {
        Snapshot {
            name: self.name.clone(),
            worktree: self.worktree.clone(),
            branch: self.branch.clone(),
            commit: self.commit.clone(),
            stash_ref: copy_opt(&self.stash_ref),
            has_uncommitted: self.has_uncommitted,
            created_at: self.created_at,
            description: copy_opt(&self.description),
        }
    }
}

/// `s` is the snapshot `n` of worktree `w`.
pub open spec fn is_snapshot(s: Snapshot, w: Seq<char>, n: Seq<char>) -> bool {
    s.worktree@ == w && s.name@ == n
}

/// The snapshots of `ss` that belong to worktree `w`, in order.
pub open spec fn snapshots_of(ss: Seq<Snapshot>, w: Seq<char>) -> Seq<Snapshot>
    decreases ss.len(),
{
    if ss.len() == 0 {
        Seq::empty()
    } else if ss.last().worktree@ == w {
        snapshots_of(ss.drop_last(), w).push(ss.last())
    } else {
        snapshots_of(ss.drop_last(), w)
    }
}

/// `ss` without the snapshot `n` of worktree `w`, in order.
pub open spec fn snapshots_without(ss: Seq<Snapshot>, w: Seq<char>, n: Seq<char>) -> Seq<Snapshot>
    decreases ss.len(),
{
    if ss.len() == 0 {
        Seq::empty()
    } else if is_snapshot(ss.last(), w, n) {
        snapshots_without(ss.drop_last(), w, n)
    } else {
        snapshots_without(ss.drop_last(), w, n).push(ss.last())
    }
}

proof fn lemma_without_len(ss: Seq<Snapshot>, w: Seq<char>, n: Seq<char>)
    ensures
        snapshots_without(ss, w, n).len() <= ss.len(),
        snapshots_without(ss, w, n).len() == ss.len() <==> forall|i: int|
            0 <= i < ss.len() ==> !is_snapshot(#[trigger] ss[i], w, n),
    decreases ss.len(),
{
    if ss.len() > 0 {
        let init = ss.drop_last();
        lemma_without_len(init, w, n);
        if forall|i: int| 0 <= i < ss.len() ==> !is_snapshot(#[trigger] ss[i], w, n) {
            assert forall|i: int| 0 <= i < init.len() implies !is_snapshot(#[trigger] init[i], w, n) by {
                assert(init[i] == ss[i]);
            }
        } else {
            let i = choose|i: int| 0 <= i < ss.len() && is_snapshot(#[trigger] ss[i], w, n);
            if i < ss.len() - 1 {
                assert(init[i] == ss[i]);
            }
        }
    }
}

/// No two snapshots of one worktree share a name.
pub open spec fn snapshot_names_unique(ss: Seq<Snapshot>) -> bool {
    forall|i: int, j: int|
        0 <= i < ss.len() && 0 <= j < ss.len() && i != j ==> !is_snapshot(
            #[trigger] ss[i],
            ss[j].worktree@,
            (#[trigger] ss[j]).name@,
        )
}

/// Adding a snapshot under a name its worktree does not use yet (what
/// `check_snapshot_name_free` lets through) keeps names unique, and the added snapshot is
/// the first, and only, one found under its worktree and name.
pub proof fn law_added_snapshot_found(ss: Seq<Snapshot>, s: Snapshot)
    requires
        forall|i: int| 0 <= i < ss.len() ==> !is_snapshot(#[trigger] ss[i], s.worktree@, s.name@),
    ensures
        is_snapshot(ss.push(s)[ss.len() as int], s.worktree@, s.name@),
        ss.push(s)[ss.len() as int] == s,
        forall|j: int|
            0 <= j < ss.len() ==> !is_snapshot(#[trigger] ss.push(s)[j], s.worktree@, s.name@),
        snapshot_names_unique(ss) ==> snapshot_names_unique(ss.push(s)),
{
    let t = ss.push(s);
    assert forall|j: int| 0 <= j < ss.len() implies !is_snapshot(
        #[trigger] t[j],
        s.worktree@,
        s.name@,
    ) by {
        assert(t[j] == ss[j]);
    }
    if snapshot_names_unique(ss) {
        assert forall|i: int, j: int|
            0 <= i < t.len() && 0 <= j < t.len() && i != j implies !is_snapshot(
            #[trigger] t[i],
            t[j].worktree@,
            (#[trigger] t[j]).name@,
        ) by {
            if i < ss.len() && j < ss.len() {
                assert(t[i] == ss[i] && t[j] == ss[j]);
            } else if i == ss.len() {
                assert(t[j] == ss[j]);
                assert(!is_snapshot(ss[j], s.worktree@, s.name@));
            } else {
                assert(t[i] == ss[i]);
            }
        }
    }
}

/// The saved snapshots of every worktree.
#[derive(Debug)]
pub struct SnapshotIndex {
    pub snapshots: Vec<Snapshot>,
}

impl SnapshotIndex {
    /// An empty index.
    pub fn new() -> (r: Self)
        ensures
            r.snapshots@.len() == 0,
    {
        SnapshotIndex { snapshots: Vec::new() }
    }

    /// Appends `snapshot`.
    pub fn add(&mut self, snapshot: Snapshot)
        ensures
            final(self).snapshots@ == old(self).snapshots@.push(snapshot),
    {
        self.snapshots.push(snapshot);
    }

    /// The snapshots of `worktree`, in order.
    pub fn list_for_worktree(&self, worktree: &str) -> (r: Vec<&Snapshot>)
        ensures
            derefs(r@) == snapshots_of(self.snapshots@, worktree@),
    {
        let mut r: Vec<&Snapshot> = Vec::new();
        let mut i: usize = 0;
        while i < self.snapshots.len()
            invariant
                i <= self.snapshots@.len(),
                derefs(r@) == snapshots_of(self.snapshots@.take(i as int), worktree@),
            decreases self.snapshots.len() - i,
        {
            let s = &self.snapshots[i];
            proof {
                assert(self.snapshots@.take(i + 1).drop_last() =~= self.snapshots@.take(i as int));
            }
            let ghost prev = r@;
            if str_eq(s.worktree.as_str(), worktree) {
                r.push(s);
                assert(r@ == prev.push(s));
            }
            assert(derefs(r@) =~= snapshots_of(self.snapshots@.take(i + 1), worktree@));
            i = i + 1;
        }
        assert(self.snapshots@.take(self.snapshots@.len() as int) =~= self.snapshots@);
        r
    }

    /// The first snapshot named `name` of `worktree`.
    pub fn find(&self, worktree: &str, name: &str) -> (r: Option<&Snapshot>)
        ensures
            match r {
                Some(s) => exists|i: int|
                    0 <= i < self.snapshots@.len() && self.snapshots@[i] == *s && is_snapshot(
                        *s,
                        worktree@,
                        name@,
                    ) && forall|j: int|
                        0 <= j < i ==> !is_snapshot(#[trigger] self.snapshots@[j], worktree@, name@),
                None => forall|i: int|
                    0 <= i < self.snapshots@.len() ==> !is_snapshot(
                        #[trigger] self.snapshots@[i],
                        worktree@,
                        name@,
                    ),
            },
    {
        let mut i: usize = 0;
        while i < self.snapshots.len()
            invariant
                i <= self.snapshots@.len(),
                forall|j: int|
                    0 <= j < i ==> !is_snapshot(#[trigger] self.snapshots@[j], worktree@, name@),
            decreases self.snapshots.len() - i,
        {
            let s = &self.snapshots[i];
            if str_eq(s.worktree.as_str(), worktree) && str_eq(s.name.as_str(), name) {
                assert(self.snapshots@[i as int] == *s);
                return Some(s);
            }
            i = i + 1;
        }
        None
    }

    /// Removes every snapshot named `name` of `worktree`; says whether there was one.
    pub fn remove(&mut self, worktree: &str, name: &str) -> (r: bool)
        ensures
            final(self).snapshots@ == snapshots_without(old(self).snapshots@, worktree@, name@),
            r == exists|i: int|
                0 <= i < old(self).snapshots@.len() && is_snapshot(
                    #[trigger] old(self).snapshots@[i],
                    worktree@,
                    name@,
                ),
    {
        let ghost ss = self.snapshots@;
        let len_before = self.snapshots.len();
        let mut kept: Vec<Snapshot> = Vec::new();
        let mut rest: Vec<Snapshot> = Vec::new();
        std::mem::swap(&mut rest, &mut self.snapshots);
        let mut i: usize = 0;
        while i < len_before
            invariant
                i <= len_before,
                len_before == ss.len(),
                rest@ == ss.subrange(i as int, ss.len() as int),
                kept@ == snapshots_without(ss.take(i as int), worktree@, name@),
            decreases len_before - i,
        {
            let s = rest.remove(0);
            proof {
                assert(rest@ =~= ss.subrange(i + 1, ss.len() as int));
                assert(s == ss[i as int]);
                assert(ss.take(i + 1).drop_last() =~= ss.take(i as int));
            }
            if !(str_eq(s.worktree.as_str(), worktree) && str_eq(s.name.as_str(), name)) {
                kept.push(s);
            }
            i = i + 1;
        }
        proof {
            assert(ss.take(ss.len() as int) =~= ss);
            lemma_without_len(ss, worktree@, name@);
        }
        self.snapshots = kept;
        self.snapshots.len() < len_before
    }
}

/// The snapshots of `worktree`, or every snapshot when no worktree is given, in order.
pub fn list_snapshots(index: &SnapshotIndex, worktree: Option<&str>) -> (r: Result<Vec<Snapshot>, HnError>)
    ensures
        r matches Ok(v) && v@ == match worktree {
            Some(w) => snapshots_of(index.snapshots@, w@),
            None => index.snapshots@,
        },
{
    let mut v: Vec<Snapshot> = Vec::new();
    match worktree {
        Some(w) => {
            let refs = index.list_for_worktree(w);
            let mut i: usize = 0;
            while i < refs.len()
                invariant
                    i <= refs@.len(),
                    v@ == derefs(refs@).take(i as int),
                decreases refs.len() - i,
            {
                v.push(refs[i].clone());
                assert(v@ =~= derefs(refs@).take(i + 1));
                i = i + 1;
            }
            assert(derefs(refs@).take(refs@.len() as int) =~= derefs(refs@));
        },
        None => {
            let mut i: usize = 0;
            while i < index.snapshots.len()
                invariant
                    i <= index.snapshots@.len(),
                    v@ == index.snapshots@.take(i as int),
                decreases index.snapshots.len() - i,
            {
                v.push(index.snapshots[i].clone());
                assert(v@ =~= index.snapshots@.take(i + 1));
                i = i + 1;
            }
            assert(index.snapshots@.take(index.snapshots@.len() as int) =~= index.snapshots@);
        },
    }
    Ok(v)
}

/// Once snapshot `n` of worktree `w` is removed, no snapshot of that name and worktree is
/// left, and every other snapshot is kept, in order.
pub proof fn law_removed_snapshot_gone(ss: Seq<Snapshot>, w: Seq<char>, n: Seq<char>)
    ensures
        forall|i: int|
            0 <= i < snapshots_without(ss, w, n).len() ==> !is_snapshot(
                #[trigger] snapshots_without(ss, w, n)[i],
                w,
                n,
            ),
        forall|s: Snapshot|
            !is_snapshot(s, w, n) ==> (ss.contains(s) <==> #[trigger] snapshots_without(
                ss,
                w,
                n,
            ).contains(s)),
    decreases ss.len(),
{
    if ss.len() > 0 {
        let init = ss.drop_last();
        law_removed_snapshot_gone(init, w, n);
        let r = snapshots_without(ss, w, n);
        let ri = snapshots_without(init, w, n);
        if is_snapshot(ss.last(), w, n) {
            assert(r == ri);
        } else {
            assert(r == ri.push(ss.last()));
        }
        assert forall|i: int| 0 <= i < r.len() implies !is_snapshot(#[trigger] r[i], w, n) by {
            if i < ri.len() {
                assert(r[i] == ri[i]);
            }
        }
        assert forall|s: Snapshot| !is_snapshot(s, w, n) implies (ss.contains(s) <==> #[trigger] r.contains(s)) by {
            if ss.contains(s) {
                let j = choose|j: int| 0 <= j < ss.len() && ss[j] == s;
                if j < init.len() {
                    assert(init[j] == s);
                    assert(init.contains(s));
                    assert(ri.contains(s));
                    let k = choose|k: int| 0 <= k < ri.len() && ri[k] == s;
                    assert(r[k] == s);
                } else {
                    assert(r[r.len() - 1] == s);
                }
            }
            if r.contains(s) {
                let k = choose|k: int| 0 <= k < r.len() && r[k] == s;
                if k < ri.len() {
                    assert(ri[k] == s);
                    assert(ri.contains(s));
                    let j = choose|j: int| 0 <= j < init.len() && init[j] == s;
                    assert(ss[j] == s);
                } else {
                    assert(ss[ss.len() - 1] == s);
                }
            }
        }
    }
}

/// The snapshot index file: `<state dir>/snapshots.json`.
pub fn get_snapshot_index_path(state_dir: &str) -> (r: String)
    ensures
        r@ == spec_path_join(state_dir@, "snapshots.json"@),
{
    path_join(state_dir, "snapshots.json")
}

/// The name of a new snapshot: the one given, or `snapshot-<created_at>`.
pub fn snapshot_name(given: Option<&str>, created_at: u64) -> (r: String)
    ensures
        match given {
            Some(n) => r@ == n@,
            None => r@ == "snapshot-"@ + spec_decimal(created_at as nat),
        },
{
    match given {
        Some(n) => String::from_str(n),
        None => {
            let d = decimal(created_at);
            concat2("snapshot-", d.as_str())
        },
    }
}

/// Checks that `worktree` has no snapshot named `name` yet.
pub fn check_snapshot_name_free(index: &SnapshotIndex, worktree: &str, name: &str) -> (r: Result<
    (),
    HnError,
>)
    ensures
        (forall|i: int|
            0 <= i < index.snapshots@.len() ==> !is_snapshot(
                #[trigger] index.snapshots@[i],
                worktree@,
                name@,
            )) ==> r is Ok,
        (exists|i: int|
            0 <= i < index.snapshots@.len() && is_snapshot(
                #[trigger] index.snapshots@[i],
                worktree@,
                name@,
            )) ==> (r matches Err(HnError::ConfigError(m)) && m@ == "Snapshot '"@ + name@
            + "' already exists for worktree '"@ + worktree@ + "'"@),
{
    match index.find(worktree, name) {
        Some(_) => {
            let mut m = concat3("Snapshot '", name, "' already exists for worktree '");
            m.append(worktree);
            m.append("'");
            Err(HnError::ConfigError(m))
        },
        None => Ok(()),
    }
}

/// The message that identifies the stash of a snapshot:
/// `hannahanna-snapshot:<worktree>:<name>:<created_at>`.
pub fn stash_message(worktree: &str, name: &str, created_at: u64) -> (r: String)
    ensures
        r@ == "hannahanna-snapshot:"@ + worktree@ + ":"@ + name@ + ":"@ + spec_decimal(
            created_at as nat,
        ),
{
    let mut m = concat3("hannahanna-snapshot:", worktree, ":");
    m.append(name);
    m.append(":");
    let d = decimal(created_at);
    m.append(d.as_str());
    m
}

/// The snapshot `name` of `worktree`, to be restored.
pub fn find_for_restore(index: &SnapshotIndex, worktree: &str, name: &str) -> (r: Result<Snapshot, HnError>)
    ensures
        match r {
            Ok(s) => exists|i: int|
                0 <= i < index.snapshots@.len() && index.snapshots@[i] == s && is_snapshot(
                    s,
                    worktree@,
                    name@,
                ) && forall|j: int|
                    0 <= j < i ==> !is_snapshot(#[trigger] index.snapshots@[j], worktree@, name@),
            Err(e) => (forall|i: int|
                0 <= i < index.snapshots@.len() ==> !is_snapshot(
                    #[trigger] index.snapshots@[i],
                    worktree@,
                    name@,
                )) && (e matches HnError::ConfigError(m) && m@ == "Snapshot '"@ + name@
                + "' not found for worktree '"@ + worktree@ + "'"@),
        },
{
    match index.find(worktree, name) {
        Some(s) => Ok(s.clone()),
        None => {
            let mut m = concat3("Snapshot '", name, "' not found for worktree '");
            m.append(worktree);
            m.append("'");
            Err(HnError::ConfigError(m))
        },
    }
}

/// The index of the first line of `git stash list` output `list` that contains the stash
/// message `message`.
pub fn find_stash_index(list: &str, message: &str) -> (r: Option<usize>)
    ensures
        match r {
            Some(i) => i < spec_lines(list@).len() && seq_contains(spec_lines(list@)[i as int], message@)
                && forall|j: int| 0 <= j < i ==> !seq_contains(#[trigger] spec_lines(list@)[j], message@),
            None => forall|j: int|
                0 <= j < spec_lines(list@).len() ==> !seq_contains(#[trigger] spec_lines(list@)[j], message@),
        },
{
    let lines = split_lines(chars_of(list).as_slice());
    let m = chars_of(message);
    let mut i: usize = 0;
    while i < lines.len()
        invariant
            i <= lines@.len(),
            lines@.len() == spec_lines(list@).len(),
            forall|k: int| 0 <= k < lines@.len() ==> #[trigger] lines@[k]@ == spec_lines(list@)[k],
            m@ == message@,
            forall|j: int| 0 <= j < i ==> !seq_contains(#[trigger] spec_lines(list@)[j], message@),
        decreases lines.len() - i,
    {
        assert(lines@[i as int]@ == spec_lines(list@)[i as int]);
        if contains(lines[i].as_slice(), m.as_slice()) {
            return Some(i);
        }
        i = i + 1;
    }
    None
}

/// How `git stash` names the stash at `index`: `stash@{<index>}`.
pub fn stash_ref(index: usize) -> (r: String)
    ensures
        r@ == "stash@{"@ + spec_decimal(index as nat) + "}"@,
{
    let d = decimal(index as u64);
    concat3("stash@{", d.as_str(), "}")
}

/// The first index where `": "` occurs in `l`.
pub open spec fn first_colon_space(l: Seq<char>) -> Option<int> {
    if exists|i: int| 0 <= i && #[trigger] matches_at(l, ": "@, i) {
        Some(
            choose|i: int|
                0 <= i && #[trigger] matches_at(l, ": "@, i) && forall|j: int|
                    0 <= j < i ==> !#[trigger] matches_at(l, ": "@, j),
        )
    } else {
        None
    }
}

/// The snapshot `s` has a stash whose message occurs in `body`.
pub open spec fn stash_mentioned(s: Snapshot, body: Seq<char>) -> bool {
    s.stash_ref matches Some(m) && seq_contains(body, m@)
}

/// A line of `git stash list` that holds a snapshot stash whose message (what follows the
/// first `": "`) contains none of the stash messages that `ss` still refer to.
pub open spec fn orphaned_stash_line(l: Seq<char>, ss: Seq<Snapshot>) -> bool {
    &&& seq_contains(l, "hannahanna-snapshot:"@)
    &&& first_colon_space(l) matches Some(p) && !exists|k: int|
        0 <= k < ss.len() && stash_mentioned(#[trigger] ss[k], l.subrange(p + 2, l.len() as int))
}

/// The indices, in increasing order, of the first `n` lines of `ls` that hold orphaned
/// snapshot stashes.
pub open spec fn orphaned_indices(ls: Seq<Seq<char>>, ss: Seq<Snapshot>, n: int) -> Seq<int>
    decreases n,
{
    if n <= 0 {
        Seq::empty()
    } else if orphaned_stash_line(ls[n - 1], ss) {
        orphaned_indices(ls, ss, n - 1).push(n - 1)
    } else {
        orphaned_indices(ls, ss, n - 1)
    }
}

/// Whether the stash message `body` contains the stash message of some snapshot of `ss`.
fn mentions_live_stash(body: &[char], ss: &Vec<Snapshot>) -> (r: bool)
    ensures
        r == exists|k: int| 0 <= k < ss@.len() && stash_mentioned(#[trigger] ss@[k], body@),
{
    let mut k: usize = 0;
    while k < ss.len()
        invariant
            k <= ss@.len(),
            forall|j: int| 0 <= j < k ==> !stash_mentioned(#[trigger] ss@[j], body@),
        decreases ss.len() - k,
    {
        match &ss[k].stash_ref {
            Some(m) => {
                if contains(body, chars_of(m.as_str()).as_slice()) {
                    return true;
                }
            },
            None => {},
        }
        k = k + 1;
    }
    false
}

/// The lines of `git stash list` output `list` that hold snapshot stashes which no
/// snapshot of `index` refers to any more, by index in increasing order (drop them from
/// the highest down so that the others keep their numbers).
pub fn orphaned_stash_indices(list: &str, index: &SnapshotIndex) -> (r: Vec<usize>)
    ensures
        r@.map_values(|i: usize| i as int) == orphaned_indices(
            spec_lines(list@),
            index.snapshots@,
            spec_lines(list@).len() as int,
        ),
{
    let lines = split_lines(chars_of(list).as_slice());
    let tag = chars_of("hannahanna-snapshot:");
    let sep = chars_of(": ");
    proof {
        reveal_strlit(": ");
    }
    let ghost ls = spec_lines(list@);
    let mut out: Vec<usize> = Vec::new();
    let mut i: usize = 0;
    while i < lines.len()
        invariant
            i <= lines@.len(),
            lines@.len() == ls.len(),
            ls == spec_lines(list@),
            forall|k: int| 0 <= k < lines@.len() ==> #[trigger] lines@[k]@ == ls[k],
            tag@ == "hannahanna-snapshot:"@,
            sep@ == ": "@,
            ": "@.len() == 2,
            out@.map_values(|i: usize| i as int) == orphaned_indices(ls, index.snapshots@, i as int),
        decreases lines.len() - i,
    {
        let l = &lines[i];
        assert(l@ == ls[i as int]);
        let mut orphan = false;
        if contains(l.as_slice(), tag.as_slice()) {
            match find_from(l.as_slice(), sep.as_slice(), 0) {
                Some(p) => {
                    assert(first_colon_space(l@) == Some(p as int)) by {
                        assert(matches_at(l@, ": "@, p as int));
                        let c = choose|c: int|
                            0 <= c && #[trigger] matches_at(l@, ": "@, c) && forall|j: int|
                                0 <= j < c ==> !#[trigger] matches_at(l@, ": "@, j);
                        if c < p {
                        } else if c > p {
                        }
                    }
                    assert(matches_at(l@, ": "@, p as int));
                    let n = l.len();
                    assert(p + 2 <= n);
                    let body = slice_chars(l.as_slice(), p + 2, n);
                    orphan = !mentions_live_stash(body.as_slice(), &index.snapshots);
                },
                None => {
                    assert(first_colon_space(l@) is None);
                },
            }
        }
        assert(orphan == orphaned_stash_line(ls[i as int], index.snapshots@));
        let ghost prev = out@.map_values(|i: usize| i as int);
        if orphan {
            out.push(i);
            assert(out@.map_values(|i: usize| i as int) =~= prev.push(i as int));
        }
        i = i + 1;
    }
    out
}

/// The path that a line of `git worktree list --porcelain` gives, when it is a
/// `worktree <path>` line.
pub open spec fn porcelain_worktree_path(l: Seq<char>) -> Option<Seq<char>> {
    if seq_starts_with(l, "worktree "@) {
        Some(strip_all_prefix(l, "worktree "@))
    } else {
        None
    }
}

/// The line `l` of porcelain output names a worktree whose directory is called `name`.
pub open spec fn names_worktree(l: Seq<char>, name: Seq<char>) -> bool {
    porcelain_worktree_path(l) matches Some(p) && spec_path_file_name(p) == Some(name)
}

/// The path of the first worktree in `git worktree list --porcelain` output `listing`
/// whose directory is called `name`.
pub fn find_worktree_path(listing: &str, name: &str) -> (r: Option<String>)
    ensures
        match r {
            Some(p) => exists|i: int|
                0 <= i < spec_lines(listing@).len() && names_worktree(spec_lines(listing@)[i], name@)
                    && porcelain_worktree_path(spec_lines(listing@)[i]) == Some(p@) && forall|j: int|
                    0 <= j < i ==> !names_worktree(#[trigger] spec_lines(listing@)[j], name@),
            None => forall|j: int|
                0 <= j < spec_lines(listing@).len() ==> !names_worktree(
                    #[trigger] spec_lines(listing@)[j],
                    name@,
                ),
        },
{
    let lines = split_lines(chars_of(listing).as_slice());
    let prefix = chars_of("worktree ");
    let ghost ls = spec_lines(listing@);
    let mut i: usize = 0;
    while i < lines.len()
        invariant
            i <= lines@.len(),
            lines@.len() == ls.len(),
            ls == spec_lines(listing@),
            forall|k: int| 0 <= k < lines@.len() ==> #[trigger] lines@[k]@ == ls[k],
            prefix@ == "worktree "@,
            forall|j: int| 0 <= j < i ==> !names_worktree(#[trigger] ls[j], name@),
        decreases lines.len() - i,
    {
        let l = &lines[i];
        assert(l@ == ls[i as int]);
        if starts_with(l.as_slice(), prefix.as_slice()) {
            let path = string_of(strip_all_prefix_exec(l.as_slice(), prefix.as_slice()).as_slice());
            match path_file_name(path.as_str()) {
                Some(f) => {
                    if str_eq(f.as_str(), name) {
                        return Some(path);
                    }
                },
                None => {},
            }
        }
        i = i + 1;
    }
    None
}


/// The record of a new snapshot, made before any change to the worktree: its branch and
/// commit, whether `git status --short` printed anything (uncommitted changes), and no
/// stash yet.
pub fn snapshot_record(
    worktree: &str,
    name: String,
    branch: String,
    commit: String,
    status: &str,
    created_at: u64,
    description: Option<&str>,
) -> (r: Snapshot)
    ensures
        r.worktree@ == worktree@,
        r.name == name,
        r.branch == branch,
        r.commit == commit,
        r.has_uncommitted == !crate::text::spec_is_blank(status@),
        r.stash_ref is None,
        r.created_at == created_at,
        match description {
            Some(d) => r.description matches Some(x) && x@ == d@,
            None => r.description is None,
        },
{
    Snapshot {
        name,
        worktree: String::from_str(worktree),
        branch,
        commit,
        stash_ref: None,
        has_uncommitted: !crate::text::is_blank(status),
        created_at,
        description: match description {
            Some(d) => Some(String::from_str(d)),
            None => None,
        },
    }
}

/// What follows once the record of a new snapshot is saved.
#[derive(Debug)]
pub enum SnapshotAction {
    /// Nothing more: the worktree had no uncommitted changes.
    Done(Snapshot),
    /// Stash the uncommitted changes under this message.
    Stash(String),
}

/// The first step of taking a snapshot `s` when the index holds `before`: the index to
/// save now, which already holds the record (it is saved before anything touches the
/// worktree), and what to do next: stash the changes, under the message that names the
/// snapshot, exactly when the worktree had uncommitted changes.
pub fn begin_snapshot(before: &SnapshotIndex, s: &Snapshot) -> (r: (SnapshotIndex, SnapshotAction))
    ensures
        r.0.snapshots@ == before.snapshots@.push(*s),
        s.has_uncommitted ==> (r.1 matches SnapshotAction::Stash(m) && m@ == "hannahanna-snapshot:"@
            + s.worktree@ + ":"@ + s.name@ + ":"@ + spec_decimal(s.created_at as nat)),
        !s.has_uncommitted ==> r.1 == SnapshotAction::Done(*s),
{
    let mut index = SnapshotIndex::new();
    let mut i: usize = 0;
    while i < before.snapshots.len()
        invariant
            i <= before.snapshots@.len(),
            index.snapshots@ == before.snapshots@.take(i as int),
        decreases before.snapshots.len() - i,
    {
        index.add(before.snapshots[i].clone());
        assert(index.snapshots@ =~= before.snapshots@.take(i + 1));
        i = i + 1;
    }
    assert(before.snapshots@.take(before.snapshots@.len() as int) =~= before.snapshots@);
    index.add(s.clone());
    if s.has_uncommitted {
        let m = stash_message(s.worktree.as_str(), s.name.as_str(), s.created_at);
        (index, SnapshotAction::Stash(m))
    } else {
        (index, SnapshotAction::Done(s.clone()))
    }
}

/// The index and the outcome once the stash of a new snapshot `s` was attempted, given
/// the index `before` the record of `s` was added. When stashing failed, the record is
/// taken back: the index is `before` again and the error is returned. Otherwise `s` is
/// recorded with the stash message as its stash reference.
pub fn after_stash(before: SnapshotIndex, s: Snapshot, message: String, stash: Result<(), HnError>) -> (r: (
    SnapshotIndex,
    Result<Snapshot, HnError>,
))
    ensures
        match stash {
            Err(e) => r.0.snapshots@ == before.snapshots@ && r.1 == Err::<Snapshot, HnError>(e),
            Ok(()) => {
                let saved = Snapshot { stash_ref: Some(message), ..s };
                &&& r.0.snapshots@ == before.snapshots@.push(saved)
                &&& r.1 == Ok::<Snapshot, HnError>(saved)
            },
        },
{
    match stash {
        Err(e) => (before, Err(e)),
        Ok(()) => {
            let saved = Snapshot { stash_ref: Some(message), ..s };
            let mut index = before;
            index.add(saved.clone());
            (index, Ok(saved))
        },
    }
}

/// Restoring a snapshot needs a worktree without uncommitted changes (`git status
/// --short` printed nothing).
pub fn check_restore_clean(status: &str) -> (r: Result<(), HnError>)
    ensures
        crate::text::spec_is_blank(status@) ==> r is Ok,
        !crate::text::spec_is_blank(status@) ==> (r matches Err(HnError::ConfigError(m)) && m@
            == "Worktree has uncommitted changes. Commit or stash them first."@),
{
    if crate::text::is_blank(status) {
        Ok(())
    } else {
        Err(HnError::ConfigError(String::from_str("Worktree has uncommitted changes. Commit or stash them first.")))
    }
}

} // verus!
