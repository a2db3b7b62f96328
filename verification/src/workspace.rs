//! Saved workspaces: a named record of the worktrees of a repository (and its
//! configuration), from which the worktrees can be created again.
use vstd::prelude::*;
use crate::error::HnError;
use crate::paths::{path_join, spec_path_join};
use crate::text::{concat2, concat3, decimal, spec_decimal, str_eq};
use crate::vcs::Worktree;

verus! {

/// A worktree as a saved workspace remembers it.
#[derive(Debug)]
pub struct WorktreeInfo {
    pub name: String,
    pub branch: String,
    pub path: String,
}

/// A saved workspace.
#[derive(Debug)]
pub struct Workspace {
    pub name: String,
    pub description: Option<String>,
    pub created_at: String,
    pub worktrees: Vec<WorktreeInfo>,
    pub config_snapshot: Option<String>,
}

/// The directory that holds the saved workspaces of the repository at `repo_root`.
pub fn get_workspaces_dir(repo_root: &str) -> (r: String)
    ensures
        r@ == spec_path_join(repo_root@, ".hn-workspaces"@),
{
    path_join(repo_root, ".hn-workspaces")
}

/// The file that holds workspace `name` inside the workspaces directory `dir`.
pub fn workspace_file(dir: &str, name: &str) -> (r: String)
    ensures
        r@ == spec_path_join(dir@, name@ + ".json"@),
{
    let file = concat2(name, ".json");
    path_join(dir, file.as_str())
}

/// Saving refuses a name that is already taken.
pub fn check_workspace_new(name: &str, file_exists: bool) -> (r: Result<(), HnError>)
    ensures
        file_exists ==> (r matches Err(HnError::ConfigError(m)) && m@ == "Workspace '"@ + name@
            + "' already exists. Delete it first or choose a different name."@),
        !file_exists ==> r is Ok,
{
    if file_exists {
        Err(
            HnError::ConfigError(
                concat3(
                    "Workspace '",
                    name,
                    "' already exists. Delete it first or choose a different name.",
                ),
            ),
        )
    } else {
        Ok(())
    }
}

/// Restoring needs a saved workspace of that name.
pub fn check_workspace_exists(name: &str, file_exists: bool) -> (r: Result<(), HnError>)
    ensures
        !file_exists ==> (r matches Err(HnError::ConfigError(m)) && m@ == "Workspace '"@ + name@
            + "' not found. Run 'hn workspace list' to see available workspaces."@),
        file_exists ==> r is Ok,
{
    if !file_exists {
        Err(
            HnError::ConfigError(
                concat3(
                    "Workspace '",
                    name,
                    "' not found. Run 'hn workspace list' to see available workspaces.",
                ),
            ),
        )
    } else {
        Ok(())
    }
}

/// Deleting needs the workspace to exist and `--force` to confirm it.
pub fn check_workspace_delete(name: &str, file_exists: bool, force: bool) -> (r: Result<(), HnError>)
    ensures
        !file_exists ==> (r matches Err(HnError::ConfigError(m)) && m@ == "Workspace '"@ + name@
            + "' not found"@),
        file_exists && !force ==> (r matches Err(HnError::ConfigError(m)) && m@
            == "Use --force to confirm deletion"@),
        file_exists && force ==> r is Ok,
{
    if !file_exists {
        Err(HnError::ConfigError(concat3("Workspace '", name, "' not found")))
    } else if !force {
        Err(HnError::ConfigError(String::from_str("Use --force to confirm deletion")))
    } else {
        Ok(())
    }
}

/// The file a workspace is exported to: the one given, else `<name>.workspace.json`.
pub fn export_path(name: &str, output: Option<&str>) -> (r: String)
    ensures
        match output {
            Some(o) => r@ == o@,
            None => r@ == name@ + ".workspace.json"@,
        },
{
    match output {
        Some(o) => String::from_str(o),
        None => concat2(name, ".workspace.json"),
    }
}

/// The worktrees of `ws` that are linked worktrees (their `.git` is a file, unlike the
/// main checkout's), as saved workspaces remember them, in order.
pub open spec fn saved_infos(ws: Seq<Worktree>, linked: Seq<bool>) -> Seq<(Seq<char>, Seq<char>, Seq<char>)>
    decreases ws.len(),
{
    if ws.len() == 0 {
        Seq::empty()
    } else if linked[ws.len() - 1] {
        saved_infos(ws.drop_last(), linked).push(
            (ws.last().name@, ws.last().branch@, ws.last().path@),
        )
    } else {
        saved_infos(ws.drop_last(), linked)
    }
}

/// A saved worktree as (name, branch, path).
pub open spec fn info_view(i: WorktreeInfo) -> (Seq<char>, Seq<char>, Seq<char>) {
    (i.name@, i.branch@, i.path@)
}

/// The workspace `name` as saved now: the linked worktrees among `worktrees` (`linked`
/// tells, for each, whether its `.git` is a file), the configuration text if there is a
/// configuration file, and the time of saving.
pub fn new_workspace(
    name: &str,
    description: Option<&str>,
    worktrees: &Vec<Worktree>,
    linked: &Vec<bool>,
    config_snapshot: Option<String>,
    created_at: u64,
) -> (r: Workspace)
    requires
        linked@.len() == worktrees@.len(),
    ensures
        r.name@ == name@,
        match description {
            Some(d) => r.description matches Some(x) && x@ == d@,
            None => r.description is None,
        },
        r.created_at@ == spec_decimal(created_at as nat),
        r.worktrees@.map_values(|i: WorktreeInfo| info_view(i)) == saved_infos(worktrees@, linked@),
        r.config_snapshot == config_snapshot,
{
    let mut infos: Vec<WorktreeInfo> = Vec::new();
    let mut i: usize = 0;
    while i < worktrees.len()
        invariant
            i <= worktrees@.len(),
            linked@.len() == worktrees@.len(),
            infos@.map_values(|x: WorktreeInfo| info_view(x)) == saved_infos(
                worktrees@.take(i as int),
                linked@,
            ),
        decreases worktrees.len() - i,
    {
        assert(worktrees@.take(i + 1).drop_last() =~= worktrees@.take(i as int));
        assert(worktrees@.take(i + 1).last() == worktrees@[i as int]);
        if linked[i] {
            let w = &worktrees[i];
            let info = WorktreeInfo {
                name: w.name.clone(),
                branch: w.branch.clone(),
                path: w.path.clone(),
            };
            let ghost before = infos@.map_values(|x: WorktreeInfo| info_view(x));
            let ghost v = info_view(info);
            infos.push(info);
            assert(infos@.map_values(|x: WorktreeInfo| info_view(x)) =~= before.push(v));
        }
        i = i + 1;
    }
    assert(worktrees@.take(worktrees@.len() as int) =~= worktrees@);
    Workspace {
        name: String::from_str(name),
        description: match description {
            Some(d) => Some(String::from_str(d)),
            None => None,
        },
        created_at: decimal(created_at),
        worktrees: infos,
        config_snapshot,
    }
}

/// What restoring does with one saved worktree.
#[derive(Debug, Clone, Copy, PartialEq, Eq, Structural)]
pub enum RestoreAction {
    /// It exists and is left alone.
    Skip,
    /// It exists and is created again over it (`--force`).
    Overwrite,
    /// It does not exist and is created.
    Create,
}

/// What restoring does with a saved worktree, given whether one of that name exists.
pub open spec fn restore_action(exists: bool, force: bool) -> RestoreAction {
    if exists {
        if force {
            RestoreAction::Overwrite
        } else {
            RestoreAction::Skip
        }
    } else {
        RestoreAction::Create
    }
}

/// The names of `v`.
pub open spec fn names_of(v: Seq<String>) -> Seq<Seq<char>> {
    v.map_values(|s: String| s@)
}

/// For each saved worktree of `workspace`, in order, what restoring does with it, given
/// the names of the worktrees that exist.
pub fn restore_actions(workspace: &Workspace, existing: &Vec<String>, force: bool) -> (r: Vec<
    RestoreAction,
>)
    ensures
        r@.len() == workspace.worktrees@.len(),
        forall|i: int|
            0 <= i < r@.len() ==> #[trigger] r@[i] == restore_action(
                names_of(existing@).contains(workspace.worktrees@[i].name@),
                force,
            ),
{
    let mut r: Vec<RestoreAction> = Vec::new();
    let mut i: usize = 0;
    while i < workspace.worktrees.len()
        invariant
            i <= workspace.worktrees@.len(),
            r@.len() == i,
            forall|k: int|
                0 <= k < i ==> #[trigger] r@[k] == restore_action(
                    names_of(existing@).contains(workspace.worktrees@[k].name@),
                    force,
                ),
        decreases workspace.worktrees.len() - i,
    {
        let name = workspace.worktrees[i].name.as_str();
        let mut found = false;
        let mut j: usize = 0;
        while j < existing.len()
            invariant
                j <= existing@.len(),
                name@ == workspace.worktrees@[i as int].name@,
                found == exists|k: int| 0 <= k < j && #[trigger] existing@[k]@ == name@,
            decreases existing.len() - j,
        {
            if str_eq(existing[j].as_str(), name) {
                found = true;
            }
            j = j + 1;
        }
        proof {
            if found {
                let k = choose|k: int| 0 <= k < existing@.len() && #[trigger] existing@[k]@ == name@;
                assert(names_of(existing@)[k] == name@);
            }
            if names_of(existing@).contains(name@) {
                let k = choose|k: int|
                    0 <= k < names_of(existing@).len() && names_of(existing@)[k] == name@;
                assert(existing@[k]@ == name@);
            }
        }
        let a = if found {
            if force {
                RestoreAction::Overwrite
            } else {
                RestoreAction::Skip
            }
        } else {
            RestoreAction::Create
        };
        r.push(a);
        i = i + 1;
    }
    r
}

/// How many saved worktrees were restored, skipped and failed.
#[derive(Debug, Clone, Copy, PartialEq, Eq)]
pub struct RestoreCounts {
    pub restored: usize,
    pub skipped: usize,
    pub failed: usize,
}

/// The counts after the first `n` saved worktrees: skipped ones, and among the others
/// those whose creation succeeded and failed.
pub open spec fn counts_upto(actions: Seq<RestoreAction>, succeeded: Seq<bool>, n: int) -> (int, int, int)
    decreases n,
{
    if n <= 0 {
        (0, 0, 0)
    } else {
        let (r, s, f) = counts_upto(actions, succeeded, n - 1);
        if actions[n - 1] == RestoreAction::Skip {
            (r, s + 1, f)
        } else if succeeded[n - 1] {
            (r + 1, s, f)
        } else {
            (r, s, f + 1)
        }
    }
}

proof fn lemma_counts_bound(actions: Seq<RestoreAction>, succeeded: Seq<bool>, n: int)
    requires
        0 <= n,
    ensures
        ({
            let (r, s, f) = counts_upto(actions, succeeded, n);
            0 <= r && 0 <= s && 0 <= f && r + s + f == n
        }),
    decreases n,
{
    if n > 0 {
        lemma_counts_bound(actions, succeeded, n - 1);
    }
}

/// Tallies a restore: `succeeded[i]` tells whether creating the `i`-th saved worktree
/// worked (it is not looked at for skipped ones).
pub fn restore_counts(actions: &Vec<RestoreAction>, succeeded: &Vec<bool>) -> (r: RestoreCounts)
    requires
        succeeded@.len() == actions@.len(),
    ensures
        (r.restored as int, r.skipped as int, r.failed as int) == counts_upto(
            actions@,
            succeeded@,
            actions@.len() as int,
        ),
{
    let mut c = RestoreCounts { restored: 0, skipped: 0, failed: 0 };
    let mut i: usize = 0;
    while i < actions.len()
        invariant
            i <= actions@.len(),
            succeeded@.len() == actions@.len(),
            (c.restored as int, c.skipped as int, c.failed as int) == counts_upto(
                actions@,
                succeeded@,
                i as int,
            ),
        decreases actions.len() - i,
    {
        proof {
            lemma_counts_bound(actions@, succeeded@, i as int);
        }
        if actions[i] == RestoreAction::Skip {
            c.skipped = c.skipped + 1;
        } else if succeeded[i] {
            c.restored = c.restored + 1;
        } else {
            c.failed = c.failed + 1;
        }
        i = i + 1;
    }
    c
}

/// How a restore ends: an error naming how many worktrees could not be restored, if any.
pub fn restore_result(counts: &RestoreCounts) -> (r: Result<(), HnError>)
    ensures
        counts.failed == 0 ==> r is Ok,
        counts.failed > 0 ==> (r matches Err(HnError::ConfigError(m)) && m@ == "Failed to restore "@
            + spec_decimal(counts.failed as nat) + " worktree(s)"@),
{
    if counts.failed == 0 {
        Ok(())
    } else {
        let d = decimal(counts.failed as u64);
        Err(HnError::ConfigError(concat3("Failed to restore ", d.as_str(), " worktree(s)")))
    }
}

} // verus!
