//! Finding a repository's root, and the registry of Mercurial shares (the workspaces of a
//! Mercurial repository).
use vstd::prelude::*;
use crate::error::HnError;
use crate::paths::{
    path_file_name, path_join, path_parent, path_starts_with, spec_path_file_name, spec_path_join,
    spec_path_parent, spec_path_starts_with,
};
use crate::text::concat3;
use crate::vcs::Worktree;
use crate::text::str_eq;

verus! {

/// One step of the search for a repository root, upward from a directory.
#[derive(Debug)]
pub enum SearchStep {
    /// The directory holds the repository's marker: it is the root.
    Found(String),
    /// Look next in this parent directory.
    Up(String),
}

/// One step of the upward search for a repository root: `current` is the root when its
/// marker (`.git`, `.jj` or `.hg`) exists; otherwise the search moves to its parent, and
/// a directory without parent ends it (not in a repository).
pub fn discover_step(current: &str, marker_exists: bool) -> (r: Result<SearchStep, HnError>)
    ensures
        marker_exists ==> (r matches Ok(SearchStep::Found(p)) && p@ == current@),
        !marker_exists ==> match spec_path_parent(current@) {
            Some(q) => r matches Ok(SearchStep::Up(p)) && p@ == q,
            None => r matches Err(HnError::NotInRepository),
        },
{
    if marker_exists {
        return Ok(SearchStep::Found(String::from_str(current)));
    }
    match path_parent(current) {
        Some(p) => Ok(SearchStep::Up(p)),
        None => Err(HnError::NotInRepository),
    }
}

/// A Mercurial share: a workspace created with `hg share`.
#[derive(Debug)]
pub struct ShareEntry {
    pub name: String,
    pub path: String,
    pub branch: String,
    pub parent: Option<String>,
}

/// The shares of a Mercurial repository.
#[derive(Debug)]
pub struct ShareRegistry {
    pub shares: Vec<ShareEntry>,
}

/// `shares` without those named `name`, in order.
pub open spec fn shares_without(shares: Seq<ShareEntry>, name: Seq<char>) -> Seq<ShareEntry>
    decreases shares.len(),
{
    if shares.len() == 0 {
        Seq::empty()
    } else if shares.last().name@ == name {
        shares_without(shares.drop_last(), name)
    } else {
        shares_without(shares.drop_last(), name).push(shares.last())
    }
}

proof fn lemma_shares_without_len(shares: Seq<ShareEntry>, name: Seq<char>)
    ensures
        shares_without(shares, name).len() <= shares.len(),
        shares_without(shares, name).len() == shares.len() <==> forall|i: int|
            0 <= i < shares.len() ==> (#[trigger] shares[i]).name@ != name,
    decreases shares.len(),
{
    if shares.len() > 0 {
        let init = shares.drop_last();
        lemma_shares_without_len(init, name);
        if forall|i: int| 0 <= i < shares.len() ==> (#[trigger] shares[i]).name@ != name {
            assert forall|i: int| 0 <= i < init.len() implies (#[trigger] init[i]).name@ != name by {
                assert(init[i] == shares[i]);
            }
        } else {
            let i = choose|i: int| 0 <= i < shares.len() && (#[trigger] shares[i]).name@ == name;
            if i < shares.len() - 1 {
                assert(init[i] == shares[i]);
            }
        }
    }
}

/// `r` is the first entry of `shares` that `p` holds of, or there is none.
pub open spec fn first_where(shares: Seq<ShareEntry>, r: Option<&ShareEntry>, p: spec_fn(ShareEntry) -> bool) -> bool {
    match r {
        Some(e) => exists|i: int|
            0 <= i < shares.len() && shares[i] == *e && p(*e) && forall|j: int|
                0 <= j < i ==> !p(#[trigger] shares[j]),
        None => forall|i: int| 0 <= i < shares.len() ==> !p(#[trigger] shares[i]),
    }
}

impl ShareRegistry {
    /// An empty registry.
    pub fn new() -> (r: Self)
        ensures
            r.shares@.len() == 0,
    {
        ShareRegistry { shares: Vec::new() }
    }

    /// Appends `entry`.
    pub fn add(&mut self, entry: ShareEntry)
        ensures
            final(self).shares@ == old(self).shares@.push(entry),
    {
        self.shares.push(entry);
    }

    /// Removes every share named `name`; says whether there was one.
    pub fn remove(&mut self, name: &str) -> (r: bool)
        ensures
            final(self).shares@ == shares_without(old(self).shares@, name@),
            r == exists|i: int|
                0 <= i < old(self).shares@.len() && (#[trigger] old(self).shares@[i]).name@ == name@,
    {
        let ghost ss = self.shares@;
        let len_before = self.shares.len();
        let mut kept: Vec<ShareEntry> = Vec::new();
        let mut rest: Vec<ShareEntry> = Vec::new();
        std::mem::swap(&mut rest, &mut self.shares);
        let mut i: usize = 0;
        while i < len_before
            invariant
                i <= len_before,
                len_before == ss.len(),
                rest@ == ss.subrange(i as int, ss.len() as int),
                kept@ == shares_without(ss.take(i as int), name@),
            decreases len_before - i,
        {
            let e = rest.remove(0);
            proof {
                assert(rest@ =~= ss.subrange(i + 1, ss.len() as int));
                assert(e == ss[i as int]);
                assert(ss.take(i + 1).drop_last() =~= ss.take(i as int));
            }
            if !str_eq(e.name.as_str(), name) {
                kept.push(e);
            }
            i = i + 1;
        }
        proof {
            assert(ss.take(ss.len() as int) =~= ss);
            lemma_shares_without_len(ss, name@);
        }
        self.shares = kept;
        self.shares.len() < len_before
    }

    /// The first share named `name`.
    pub fn find(&self, name: &str) -> (r: Option<&ShareEntry>)
        ensures
            first_where(self.shares@, r, |e: ShareEntry| e.name@ == name@),
    {
        let mut i: usize = 0;
        while i < self.shares.len()
            invariant
                i <= self.shares@.len(),
                forall|j: int| 0 <= j < i ==> (#[trigger] self.shares@[j]).name@ != name@,
            decreases self.shares.len() - i,
        {
            let e = &self.shares[i];
            if str_eq(e.name.as_str(), name) {
                assert(self.shares@[i as int] == *e);
                return Some(e);
            }
            i = i + 1;
        }
        None
    }

    /// The first share whose directory contains `path`.
    pub fn find_by_path(&self, path: &str) -> (r: Option<&ShareEntry>)
        ensures
            first_where(self.shares@, r, |e: ShareEntry| spec_path_starts_with(path@, e.path@)),
    {
        let mut i: usize = 0;
        while i < self.shares.len()
            invariant
                i <= self.shares@.len(),
                forall|j: int|
                    0 <= j < i ==> !spec_path_starts_with(path@, (#[trigger] self.shares@[j]).path@),
            decreases self.shares.len() - i,
        {
            let e = &self.shares[i];
            if path_starts_with(path, e.path.as_str()) {
                assert(self.shares@[i as int] == *e);
                return Some(e);
            }
            i = i + 1;
        }
        None
    }
}

/// A Mercurial repository, by the path of its root.
#[derive(Debug)]
pub struct MercurialBackend {
    pub repo_path: String,
}

impl MercurialBackend {
    /// The file that holds the share registry: `<repo>/.hg/wt-registry.json`.
    pub fn registry_path(&self) -> (r: String)
        ensures
            r@ == spec_path_join(spec_path_join(self.repo_path@, ".hg"@), "wt-registry.json"@),
    {
        let hg = path_join(self.repo_path.as_str(), ".hg");
        path_join(hg.as_str(), "wt-registry.json")
    }

    /// Where the share `name` is made: beside the repository, in its parent directory.
    pub fn share_path(&self, name: &str) -> (r: Result<String, HnError>)
        ensures
            match spec_path_parent(self.repo_path@) {
                Some(p) => r matches Ok(s) && s@ == spec_path_join(p, name@),
                None => r matches Err(HnError::ConfigError(m)) && m@
                    == "Could not determine parent directory"@,
            },
    {
        match path_parent(self.repo_path.as_str()) {
            Some(p) => Ok(path_join(p.as_str(), name)),
            None => Err(HnError::ConfigError(String::from_str("Could not determine parent directory"))),
        }
    }

    /// The name the main repository goes by: its directory's name, else `main`.
    pub fn main_name(&self) -> (r: String)
        ensures
            match spec_path_file_name(self.repo_path@) {
                Some(n) => r@ == n,
                None => r@ == "main"@,
            },
    {
        match path_file_name(self.repo_path.as_str()) {
            Some(n) => n,
            None => String::from_str("main"),
        }
    }

    /// The main repository as a worktree, at the given branch and commit.
    pub fn main_worktree(&self, branch: String, commit: String) -> (r: Worktree)
        ensures
            match spec_path_file_name(self.repo_path@) {
                Some(n) => r.name@ == n,
                None => r.name@ == "main"@,
            },
            r.path@ == self.repo_path@,
            r.branch == branch,
            r.commit == commit,
            r.parent is None,
    {
        Worktree {
            name: self.main_name(),
            path: self.repo_path.clone(),
            branch,
            commit,
            parent: None,
        }
    }
}

/// A share cannot be made where something already exists.
pub fn check_share_free(name: &str, path_exists: bool) -> (r: Result<(), HnError>)
    ensures
        path_exists ==> (r matches Err(HnError::WorktreeAlreadyExists(n)) && n@ == name@),
        !path_exists ==> r is Ok,
{
    if path_exists {
        Err(HnError::WorktreeAlreadyExists(String::from_str(name)))
    } else {
        Ok(())
    }
}

/// A share with uncommitted changes is removed only with `--force`.
pub fn check_share_removable(name: &str, force: bool, clean: bool) -> (r: Result<(), HnError>)
    ensures
        (force || clean) ==> r is Ok,
        !(force || clean) ==> (r matches Err(HnError::ConfigError(m)) && m@ == "Share '"@ + name@
            + "' has uncommitted changes. Use --force to remove anyway."@),
{
    if force || clean {
        Ok(())
    } else {
        Err(
            HnError::ConfigError(
                concat3("Share '", name, "' has uncommitted changes. Use --force to remove anyway."),
            ),
        )
    }
}

/// The worktree a registered share stands for, with its commit (`unknown` when it could
/// not be read).
pub open spec fn share_worktree(e: ShareEntry, commit: Option<String>, w: Worktree) -> bool {
    &&& w.name == e.name
    &&& w.path == e.path
    &&& w.branch == e.branch
    &&& w.parent == e.parent
    &&& match commit {
        Some(c) => w.commit == c,
        None => w.commit@ == "unknown"@,
    }
}

/// The shares of `shares` whose directory exists, as (index into `shares`), in order.
pub open spec fn existing_shares(exists: Seq<bool>, n: int) -> Seq<int>
    decreases n,
{
    if n <= 0 {
        Seq::empty()
    } else if exists[n - 1] {
        existing_shares(exists, n - 1).push(n - 1)
    } else {
        existing_shares(exists, n - 1)
    }
}

/// The workspaces of a Mercurial repository: the main repository first, then every
/// registered share whose directory still exists, in registry order. `exists[i]` tells
/// whether share `i`'s directory exists and `commits[i]` is its commit, if it could be
/// read.
pub fn list_shares(main: Worktree, registry: &ShareRegistry, exists: &Vec<bool>, commits: Vec<Option<String>>) -> (r:
    Vec<Worktree>)
    requires
        exists@.len() == registry.shares@.len(),
        commits@.len() == registry.shares@.len(),
    ensures
        r@.len() == existing_shares(exists@, exists@.len() as int).len() + 1,
        r@[0] == main,
        forall|k: int|
            0 <= k < existing_shares(exists@, exists@.len() as int).len() ==> share_worktree(
                registry.shares@[existing_shares(exists@, exists@.len() as int)[k]],
                commits@[existing_shares(exists@, exists@.len() as int)[k]],
                #[trigger] r@[k + 1],
            ),
{
    let ghost cs = commits@;
    let mut out: Vec<Worktree> = Vec::new();
    out.push(main);
    let mut rest = commits;
    let n = registry.shares.len();
    let mut i: usize = 0;
    while i < n
        invariant
            n == registry.shares@.len(),
            exists@.len() == n,
            cs.len() == n,
            i <= n,
            rest@ == cs.skip(i as int),
            out@.len() == existing_shares(exists@, i as int).len() + 1,
            out@[0] == main,
            forall|k: int|
                0 <= k < existing_shares(exists@, i as int).len() ==> existing_shares(exists@, i as int)[k] < i,
            forall|k: int|
                0 <= k < existing_shares(exists@, i as int).len() ==> share_worktree(
                    registry.shares@[existing_shares(exists@, i as int)[k]],
                    cs[existing_shares(exists@, i as int)[k]],
                    #[trigger] out@[k + 1],
                ),
        decreases n - i,
    {
        let commit = rest.remove(0);
        assert(rest@ =~= cs.skip(i + 1));
        assert(commit == cs[i as int]);
        if exists[i] {
            let e = &registry.shares[i];
            let c = match commit {
                Some(c) => c,
                None => String::from_str("unknown"),
            };
            let w = Worktree {
                name: e.name.clone(),
                path: e.path.clone(),
                branch: e.branch.clone(),
                commit: c,
                parent: match &e.parent {
                    Some(p) => Some(p.clone()),
                    None => None,
                },
            };
            assert(w.name == e.name && w.path == e.path && w.branch == e.branch);
            assert(w.parent == e.parent);
            let ghost before = out@;
            out.push(w);
            assert(existing_shares(exists@, i + 1) == existing_shares(exists@, i as int).push(i as int));
            assert forall|k: int|
                0 <= k < existing_shares(exists@, i + 1).len() implies share_worktree(
                registry.shares@[existing_shares(exists@, i + 1)[k]],
                cs[existing_shares(exists@, i + 1)[k]],
                #[trigger] out@[k + 1],
            ) by {
                if k < existing_shares(exists@, i as int).len() {
                    assert(out@[k + 1] == before[k + 1]);
                }
            }
        }
        i = i + 1;
    }
    out
}

} // verus!
