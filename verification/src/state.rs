//! Per-worktree state directories under the repository's `.hn-state` directory.
use vstd::prelude::*;
use crate::error::HnError;
use crate::paths::{path_join, spec_path_join};
use crate::text::str_eq;

verus! {

/// The names in `dirs` that are not among `active`, in order.
pub open spec fn orphaned_names(dirs: Seq<String>, active: Seq<String>) -> Seq<Seq<char>>
    decreases dirs.len(),
{
    if dirs.len() == 0 {
        Seq::empty()
    } else {
        let prev = orphaned_names(dirs.drop_last(), active);
        if exists|j: int| 0 <= j < active.len() && #[trigger] active[j]@ == dirs.last()@ {
            prev
        } else {
            prev.push(dirs.last()@)
        }
    }
}

/// Manages the state directories of worktrees.
#[derive(Debug)]
pub struct StateManager {
    state_root: String,
}

impl StateManager {
    /// The state root.
    pub closed spec fn root(&self) -> Seq<char> {
        self.state_root@
    }

    /// A manager for the repository at `repo_root`: its state lives in
    /// `<repo_root>/.hn-state`.
    pub fn for_repo(repo_root: &str) -> (r: Self)
        ensures
            r.root() == spec_path_join(repo_root@, ".hn-state"@),
    {
        StateManager { state_root: path_join(repo_root, ".hn-state") }
    }

    /// The state root directory.
    pub fn state_root(&self) -> (r: &str)
        ensures
            r@ == self.root(),
    {
        self.state_root.as_str()
    }

    /// The state directory of `worktree_name` (not created).
    pub fn get_state_dir(&self, worktree_name: &str) -> (r: String)
        ensures
            r@ == spec_path_join(self.root(), worktree_name@),
    {
        path_join(self.state_root.as_str(), worktree_name)
    }

    /// The orphaned state directories: those among `state_dirs` (the directories found
    /// under the state root) that belong to no worktree of `active_worktrees`, in order.
    pub fn list_orphaned(&self, state_dirs: &[String], active_worktrees: &[String]) -> (r: Result<
        Vec<String>,
        HnError,
    >)
        ensures
            r matches Ok(v) && v@.map_values(|s: String| s@) == orphaned_names(
                state_dirs@,
                active_worktrees@,
            ),
    {
        let mut out: Vec<String> = Vec::new();
        let mut i: usize = 0;
        while i < state_dirs.len()
            invariant
                i <= state_dirs@.len(),
                out@.map_values(|s: String| s@) == orphaned_names(
                    state_dirs@.take(i as int),
                    active_worktrees@,
                ),
            decreases state_dirs.len() - i,
        {
            let name = &state_dirs[i];
            let mut found = false;
            let mut j: usize = 0;
            while j < active_worktrees.len()
                invariant
                    j <= active_worktrees@.len(),
                    found == exists|k: int|
                        0 <= k < j && #[trigger] active_worktrees@[k]@ == name@,
                decreases active_worktrees.len() - j,
            {
                if str_eq(active_worktrees[j].as_str(), name.as_str()) {
                    found = true;
                }
                j = j + 1;
            }
            proof {
                assert(state_dirs@.take(i + 1).drop_last() =~= state_dirs@.take(i as int));
            }
            let ghost prev = out@;
            if !found {
                out.push(name.clone());
                assert(out@.map_values(|s: String| s@) =~= prev.map_values(|s: String| s@).push(
                    name@,
                ));
            }
            i = i + 1;
        }
        assert(state_dirs@.take(state_dirs@.len() as int) =~= state_dirs@);
        Ok(out)
    }

    /// The state directories that cleaning removes: exactly the orphaned ones.
    pub fn clean_orphaned(&self, state_dirs: &[String], active_worktrees: &[String]) -> (r: Result<
        Vec<String>,
        HnError,
    >)
        ensures
            r matches Ok(v) && v@.map_values(|s: String| s@) == orphaned_names(
                state_dirs@,
                active_worktrees@,
            ),
    {
        self.list_orphaned(state_dirs, active_worktrees)
    }
}

} // verus!
