//! Bringing branches together: `hn integrate` merges a worktree's branch (or any branch)
//! into a target worktree, `hn sync` merges or rebases the current worktree onto a source
//! branch. These are the decisions around the `git merge` and `git rebase` commands.
use vstd::prelude::*;
use crate::commands::SyncStrategy;
use crate::error::{HnError, views};
use crate::fuzzy::{MatchOutcome, find_best_match, spec_find_best_match};
use crate::text::{chars_of, concat2, concat3, contains, seq_contains, spec_lowercase, str_eq};
use crate::vcs::{Worktree, WorkspaceStatus};

verus! {

/// `--squash` and `--no-ff` exclude each other.
pub fn check_integrate_flags(squash: bool, no_ff: bool) -> (r: Result<(), HnError>)
    ensures
        squash && no_ff ==> (r matches Err(HnError::ConfigError(m)) && m@
            == "Cannot use both --squash and --no-ff"@),
        !(squash && no_ff) ==> r is Ok,
{
    if squash && no_ff {
        Err(HnError::ConfigError(String::from_str("Cannot use both --squash and --no-ff")))
    } else {
        Ok(())
    }
}

/// What is merged: the branch of a worktree, or a branch given by name.
#[derive(Debug)]
pub enum MergeSource {
    FromWorktree { name: String, branch: String },
    Branch(String),
}

impl MergeSource {
    /// The branch to merge.
    pub open spec fn spec_branch(&self) -> Seq<char> {
        match self {
            MergeSource::FromWorktree { branch, .. } => branch@,
            MergeSource::Branch(b) => b@,
        }
    }

    /// The branch to merge.
    pub fn branch(&self) -> (r: &str)
        ensures
            r@ == self.spec_branch(),
    {
        match self {
            MergeSource::FromWorktree { branch, .. } => branch.as_str(),
            MergeSource::Branch(b) => b.as_str(),
        }
    }
}

/// The names of the worktrees, in order.
pub open spec fn worktree_names(ws: Seq<Worktree>) -> Seq<Seq<char>> {
    ws.map_values(|w: Worktree| w.name@)
}

/// `i` is the first worktree of `ws` called `name`.
pub open spec fn first_named(ws: Seq<Worktree>, name: Seq<char>, i: int) -> bool {
    0 <= i < ws.len() && ws[i].name@ == name && forall|j: int|
        0 <= j < i ==> (#[trigger] ws[j]).name@ != name
}

/// Reads `source` as a worktree name first (with the usual name matching) and otherwise as
/// a branch name. A matched worktree gives its branch; should no worktree carry the
/// matched name, that name is reported not found.
pub fn resolve_merge_source(source: &str, worktrees: &Vec<Worktree>) -> (r: Result<
    MergeSource,
    HnError,
>)
    ensures
        match spec_find_best_match(source@, worktree_names(worktrees@)) {
            MatchOutcome::Found(v) => if exists|i: int| first_named(worktrees@, v, i) {
                exists|i: int|
                    first_named(worktrees@, v, i) && (r matches Ok(
                        MergeSource::FromWorktree { name, branch },
                    ) && name@ == v && branch@ == worktrees@[i].branch@)
            } else {
                r matches Err(HnError::WorktreeNotFound(n)) && n@ == v
            },
            _ => r matches Ok(MergeSource::Branch(b)) && b@ == source@,
        },
{
    let mut names: Vec<String> = Vec::new();
    let mut k: usize = 0;
    while k < worktrees.len()
        invariant
            k <= worktrees@.len(),
            views(names@) == worktree_names(worktrees@).take(k as int),
        decreases worktrees.len() - k,
    {
        let n = worktrees[k].name.clone();
        assert(n@ == worktrees@[k as int].name@);
        let ghost before = views(names@);
        names.push(n);
        assert(views(names@) =~= before.push(n@));
        assert(worktree_names(worktrees@).take(k + 1) =~= worktree_names(worktrees@).take(
            k as int,
        ).push(worktrees@[k as int].name@));
        k = k + 1;
    }
    assert(views(names@) =~= worktree_names(worktrees@));
    match find_best_match(source, names.as_slice()) {
        Ok(matched) => {
            assert(spec_find_best_match(source@, worktree_names(worktrees@)) == MatchOutcome::Found(
                matched@,
            ));
            let mut i: usize = 0;
            while i < worktrees.len()
                invariant
                    i <= worktrees@.len(),
                    spec_find_best_match(source@, worktree_names(worktrees@)) == MatchOutcome::Found(
                        matched@,
                    ),
                    forall|j: int| 0 <= j < i ==> (#[trigger] worktrees@[j]).name@ != matched@,
                decreases worktrees.len() - i,
            {
                if str_eq(worktrees[i].name.as_str(), matched.as_str()) {
                    let wt = &worktrees[i];
                    assert(first_named(worktrees@, matched@, i as int));
                    let name = wt.name.clone();
                    let branch = wt.branch.clone();
                    assert(name@ == matched@);
                    assert(branch@ == worktrees@[i as int].branch@);
                    let r = MergeSource::FromWorktree { name, branch };
                    return Ok(r);
                }
                i = i + 1;
            }
            proof {
                assert forall|i: int| !first_named(worktrees@, matched@, i) by {
                    if first_named(worktrees@, matched@, i) {
                        assert(worktrees@[i].name@ != matched@);
                    }
                }
            }
            Err(HnError::WorktreeNotFound(matched))
        },
        Err(_) => Ok(MergeSource::Branch(String::from_str(source))),
    }
}

/// The arguments of `git` for `hn integrate`: `merge`, then `--strategy <s>` when a
/// strategy is given, `--no-ff` and `--squash` when asked for, and the source branch.
pub open spec fn integrate_arg_list(strategy: Option<Seq<char>>, no_ff: bool, squash: bool, source: Seq<
    char,
>) -> Seq<Seq<char>> {
    seq!["merge"@] + (match strategy {
        Some(s) => seq!["--strategy"@, s],
        None => Seq::<Seq<char>>::empty(),
    }) + (if no_ff {
        seq!["--no-ff"@]
    } else {
        Seq::<Seq<char>>::empty()
    }) + (if squash {
        seq!["--squash"@]
    } else {
        Seq::<Seq<char>>::empty()
    }) + seq![source]
}

/// The arguments of `git` that merge `source` for `hn integrate`.
pub fn integrate_args(strategy: Option<&str>, no_ff: bool, squash: bool, source: &str) -> (r: Vec<
    String,
>)
    ensures
        views(r@) == integrate_arg_list(
            match strategy {
                Some(s) => Some(s@),
                None => None,
            },
            no_ff,
            squash,
            source@,
        ),
{
    let mut r: Vec<String> = Vec::new();
    r.push(String::from_str("merge"));
    match strategy {
        Some(s) => {
            r.push(String::from_str("--strategy"));
            r.push(String::from_str(s));
        },
        None => {},
    }
    if no_ff {
        r.push(String::from_str("--no-ff"));
    }
    if squash {
        r.push(String::from_str("--squash"));
    }
    r.push(String::from_str(source));
    proof {
        let sv = match strategy {
            Some(s) => Some(s@),
            None => None,
        };
        assert(views(r@) =~= integrate_arg_list(sv, no_ff, squash, source@));
    }
    r
}

/// The target of a merge must have no uncommitted changes.
pub fn check_target_clean(status: &WorkspaceStatus, target_name: &str) -> (r: Result<(), HnError>)
    ensures
        (status.modified == 0 && status.added == 0 && status.deleted == 0 && status.untracked == 0)
            ==> r is Ok,
        !(status.modified == 0 && status.added == 0 && status.deleted == 0 && status.untracked == 0)
            ==> (r matches Err(HnError::Git(m)) && m@ == "Target worktree '"@ + target_name@
            + "' has uncommitted changes. Commit or stash them first."@),
{
    if status.is_clean() {
        Ok(())
    } else {
        Err(
            HnError::Git(
                concat3(
                    "Target worktree '",
                    target_name,
                    "' has uncommitted changes. Commit or stash them first.",
                ),
            ),
        )
    }
}

/// Whether the output of a failed merge reports a conflict.
pub open spec fn spec_merge_conflict(stdout: Seq<char>, stderr: Seq<char>) -> bool {
    seq_contains(stderr, "CONFLICT"@) || seq_contains(stdout, "CONFLICT"@)
}

/// Whether the output of a failed merge reports a conflict.
pub fn merge_conflict(stdout: &str, stderr: &str) -> (r: bool)
    ensures
        r == spec_merge_conflict(stdout@, stderr@),
{
    let key = chars_of("CONFLICT");
    contains(chars_of(stderr).as_slice(), key.as_slice()) || contains(
        chars_of(stdout).as_slice(),
        key.as_slice(),
    )
}

/// The error of a failed `hn integrate` merge: a conflict to resolve by hand, or the
/// merge's output.
pub fn integrate_failure(source_branch: &str, target_branch: &str, stdout: &str, stderr: &str) -> (r:
    HnError)
    ensures
        spec_merge_conflict(stdout@, stderr@) ==> (r matches HnError::Git(m) && m@
            == "Merge conflicts need manual resolution"@),
        !spec_merge_conflict(stdout@, stderr@) ==> (r matches HnError::Git(m) && m@
            == "Failed to merge '"@ + source_branch@ + "' into '"@ + target_branch@ + "': "@
            + stdout@ + stderr@),
{
    if merge_conflict(stdout, stderr) {
        HnError::Git(String::from_str("Merge conflicts need manual resolution"))
    } else {
        let mut m = concat3("Failed to merge '", source_branch, "' into '");
        m.append(target_branch);
        m.append("': ");
        m.append(stdout);
        m.append(stderr);
        HnError::Git(m)
    }
}

/// The branch `hn sync` brings in: the one given, else `main`.
pub fn sync_source(source_branch: Option<String>) -> (r: String)
    ensures
        match source_branch {
            Some(s) => r == s,
            None => r@ == "main"@,
        },
{
    match source_branch {
        Some(s) => s,
        None => String::from_str("main"),
    }
}

/// The strategy `hn sync` uses: the one named, else merging.
pub fn sync_strategy(strategy: Option<&str>) -> (r: Result<SyncStrategy, HnError>)
    ensures
        match strategy {
            None => r == Ok::<SyncStrategy, HnError>(SyncStrategy::Merge),
            Some(s) => if spec_lowercase(s@) == "merge"@ {
                r matches Ok(SyncStrategy::Merge)
            } else if spec_lowercase(s@) == "rebase"@ {
                r matches Ok(SyncStrategy::Rebase)
            } else {
                r matches Err(HnError::ConfigError(m)) && m@ == "Invalid sync strategy '"@ + s@
                    + "'. Use 'merge' or 'rebase'."@
            },
        },
{
    match strategy {
        Some(s) => SyncStrategy::from_str(s),
        None => Ok(SyncStrategy::Merge),
    }
}

/// Uncommitted changes stop a sync unless they may be stashed away for its duration;
/// whether they are to be stashed.
pub fn check_sync_clean(clean: bool, autostash: bool, worktree_name: &str) -> (r: Result<bool, HnError>)
    ensures
        clean ==> r == Ok::<bool, HnError>(false),
        !clean && autostash ==> r == Ok::<bool, HnError>(true),
        !clean && !autostash ==> (r matches Err(HnError::Git(m)) && m@ == "Worktree '"@
            + worktree_name@
            + "' has uncommitted changes. Use --autostash or commit/stash them first."@),
{
    if clean {
        Ok(false)
    } else if autostash {
        Ok(true)
    } else {
        Err(
            HnError::Git(
                concat3(
                    "Worktree '",
                    worktree_name,
                    "' has uncommitted changes. Use --autostash or commit/stash them first.",
                ),
            ),
        )
    }
}

/// The message of the stash that holds a worktree's changes during a sync, made at the
/// time written `time`.
pub fn autostash_message(time: &str) -> (r: String)
    ensures
        r@ == "hn sync autostash - "@ + time@,
{
    concat2("hn sync autostash - ", time)
}

/// The arguments of `git` that merge `source` into the current branch for `hn sync`.
pub fn sync_merge_args(no_commit: bool, source: &str) -> (r: Vec<String>)
    ensures
        views(r@) == seq!["merge"@] + (if no_commit {
            seq!["--no-commit"@]
        } else {
            Seq::<Seq<char>>::empty()
        }) + seq![source@],
{
    let mut r: Vec<String> = Vec::new();
    r.push(String::from_str("merge"));
    if no_commit {
        r.push(String::from_str("--no-commit"));
    }
    r.push(String::from_str(source));
    proof {
        assert(views(r@) =~= seq!["merge"@] + (if no_commit {
            seq!["--no-commit"@]
        } else {
            Seq::<Seq<char>>::empty()
        }) + seq![source@]);
    }
    r
}

/// The error of a failed sync merge.
pub fn sync_merge_failure(stdout: &str, stderr: &str) -> (r: HnError)
    ensures
        spec_merge_conflict(stdout@, stderr@) ==> (r matches HnError::Git(m) && m@
            == "Merge conflicts need manual resolution"@),
        !spec_merge_conflict(stdout@, stderr@) ==> (r matches HnError::Git(m) && m@
            == "Failed to merge: "@ + stdout@ + stderr@),
{
    if merge_conflict(stdout, stderr) {
        HnError::Git(String::from_str("Merge conflicts need manual resolution"))
    } else {
        let mut m = concat2("Failed to merge: ", stdout);
        m.append(stderr);
        HnError::Git(m)
    }
}

/// Whether the output of a failed rebase reports a conflict.
pub open spec fn spec_rebase_conflict(stdout: Seq<char>, stderr: Seq<char>) -> bool {
    spec_merge_conflict(stdout, stderr) || seq_contains(stderr, "could not apply"@)
}

/// Whether the output of a failed rebase reports a conflict.
pub fn rebase_conflict(stdout: &str, stderr: &str) -> (r: bool)
    ensures
        r == spec_rebase_conflict(stdout@, stderr@),
{
    let key = chars_of("could not apply");
    merge_conflict(stdout, stderr) || contains(chars_of(stderr).as_slice(), key.as_slice())
}

/// The error of a failed sync rebase.
pub fn sync_rebase_failure(stdout: &str, stderr: &str) -> (r: HnError)
    ensures
        spec_rebase_conflict(stdout@, stderr@) ==> (r matches HnError::Git(m) && m@
            == "Rebase conflicts need manual resolution"@),
        !spec_rebase_conflict(stdout@, stderr@) ==> (r matches HnError::Git(m) && m@
            == "Failed to rebase: "@ + stdout@ + stderr@),
{
    if rebase_conflict(stdout, stderr) {
        HnError::Git(String::from_str("Rebase conflicts need manual resolution"))
    } else {
        let mut m = concat2("Failed to rebase: ", stdout);
        m.append(stderr);
        HnError::Git(m)
    }
}

/// The parent of worktree `current` among `worktrees`, for `hn return`: the first
/// worktree with the parent's name; an error when `current` has no parent or the parent
/// is gone.
pub fn find_parent(current: &Worktree, worktrees: &Vec<Worktree>) -> (r: Result<usize, HnError>)
    ensures
        match current.parent {
            None => r matches Err(HnError::NoParent(n)) && n@ == current.name@,
            Some(p) => if exists|i: int| first_named(worktrees@, p@, i) {
                r matches Ok(i) && first_named(worktrees@, p@, i as int)
            } else {
                r matches Err(HnError::WorktreeNotFound(m)) && m@ == "Parent worktree '"@ + p@
                    + "' not found. It may have been deleted."@
            },
        },
{
    match &current.parent {
        None => Err(HnError::NoParent(current.name.clone())),
        Some(parent) => match first_index_named(worktrees, parent.as_str()) {
            Some(i) => Ok(i),
            None => Err(
                HnError::WorktreeNotFound(
                    concat3(
                        "Parent worktree '",
                        parent.as_str(),
                        "' not found. It may have been deleted.",
                    ),
                ),
            ),
        },
    }
}

/// The index of the first worktree called `name`.
pub fn first_index_named(worktrees: &Vec<Worktree>, name: &str) -> (r: Option<usize>)
    ensures
        match r {
            Some(i) => first_named(worktrees@, name@, i as int),
            None => forall|i: int| !first_named(worktrees@, name@, i),
        },
{
    let mut i: usize = 0;
    while i < worktrees.len()
        invariant
            i <= worktrees@.len(),
            forall|j: int| 0 <= j < i ==> (#[trigger] worktrees@[j]).name@ != name@,
        decreases worktrees.len() - i,
    {
        if str_eq(worktrees[i].name.as_str(), name) {
            assert(first_named(worktrees@, name@, i as int));
            return Some(i);
        }
        i = i + 1;
    }
    proof {
        assert forall|i: int| !first_named(worktrees@, name@, i) by {
            if first_named(worktrees@, name@, i) {
                assert(worktrees@[i].name@ != name@);
            }
        }
    }
    None
}

/// The arguments of `git` that merge `branch` into the parent for `hn return --merge`.
pub fn return_merge_args(no_ff: bool, branch: &str) -> (r: Vec<String>)
    ensures
        views(r@) == seq!["merge"@] + (if no_ff {
            seq!["--no-ff"@]
        } else {
            Seq::<Seq<char>>::empty()
        }) + seq![branch@],
{
    let mut r: Vec<String> = Vec::new();
    r.push(String::from_str("merge"));
    if no_ff {
        r.push(String::from_str("--no-ff"));
    }
    r.push(String::from_str(branch));
    proof {
        assert(views(r@) =~= seq!["merge"@] + (if no_ff {
            seq!["--no-ff"@]
        } else {
            Seq::<Seq<char>>::empty()
        }) + seq![branch@]);
    }
    r
}

/// The error of a failed merge into the parent for `hn return --merge`.
pub fn return_merge_failure(branch: &str, parent: &str, stderr: &str) -> (r: HnError)
    ensures
        r matches HnError::Git(m) && m@ == "Failed to merge '"@ + branch@ + "' into '"@ + parent@
            + "': "@ + stderr@,
{
    let mut m = concat3("Failed to merge '", branch, "' into '");
    m.append(parent);
    m.append("': ");
    m.append(stderr);
    HnError::Git(m)
}

} // verus!
