//! Validation of worktree and workspace names.
use vstd::prelude::*;
use crate::error::HnError;
use crate::paths::{path_starts_with, spec_path_starts_with};
use crate::text::{chars_of, concat3, contains_char, spec_trim, trim_chars};

verus! {

/// Why `name` is not an acceptable worktree name (the first rule it breaks), if it breaks
/// one.
pub open spec fn worktree_name_problem(name: Seq<char>) -> Option<Seq<char>> {
    if name.len() == 0 {
        Some("Worktree name cannot be empty"@)
    } else if name == "."@ || name == ".."@ {
        Some("Worktree name cannot be '.' or '..'"@)
    } else if name.contains('/') || name.contains('\\') {
        Some("Worktree name cannot contain path separators"@)
    } else if name.contains('\0') {
        Some("Worktree name cannot contain null bytes"@)
    } else if name[0] == '-' {
        Some("Worktree name cannot start with '-' (ambiguous with command flags)"@)
    } else if name[0] == '.' {
        Some("Worktree name cannot start with '.' (hidden directory)"@)
    } else {
        None
    }
}

/// Checks that `name` is safe to use as a worktree (directory) name.
pub fn validate_worktree_name(name: &str) -> (r: Result<(), HnError>)
    ensures
        match worktree_name_problem(name@) {
            None => r is Ok,
            Some(m) => r matches Err(HnError::InvalidWorktreeName(msg)) && msg@ == m,
        },
{
    proof {
        reveal_strlit(".");
        reveal_strlit("..");
    }
    let v = chars_of(name);
    if v.len() == 0 {
        return Err(HnError::InvalidWorktreeName(String::from_str("Worktree name cannot be empty")));
    }
    let is_dot = v.len() == 1 && v[0] == '.';
    let is_dotdot = v.len() == 2 && v[0] == '.' && v[1] == '.';
    proof {
        if name@ == "."@ {
            assert(name@[0] == '.');
        }
        if name@ == ".."@ {
            assert(name@[0] == '.' && name@[1] == '.');
        }
        if is_dot {
            assert(name@ =~= "."@);
        }
        if is_dotdot {
            assert(name@ =~= ".."@);
        }
    }
    if is_dot || is_dotdot {
        return Err(
            HnError::InvalidWorktreeName(String::from_str("Worktree name cannot be '.' or '..'")),
        );
    }
    if contains_char(v.as_slice(), '/') || contains_char(v.as_slice(), '\\') {
        return Err(
            HnError::InvalidWorktreeName(
                String::from_str("Worktree name cannot contain path separators"),
            ),
        );
    }
    if contains_char(v.as_slice(), '\0') {
        return Err(
            HnError::InvalidWorktreeName(String::from_str("Worktree name cannot contain null bytes")),
        );
    }
    if v[0] == '-' {
        return Err(
            HnError::InvalidWorktreeName(
                String::from_str(
                    "Worktree name cannot start with '-' (ambiguous with command flags)",
                ),
            ),
        );
    }
    if v[0] == '.' {
        return Err(
            HnError::InvalidWorktreeName(
                String::from_str("Worktree name cannot start with '.' (hidden directory)"),
            ),
        );
    }
    Ok(())
}

/// Why `name` is not an acceptable saved-workspace name, if it is not.
pub open spec fn workspace_name_problem(name: Seq<char>) -> Option<Seq<char>> {
    if name.len() == 0 {
        Some("Workspace name cannot be empty"@)
    } else if name.contains('/') || name.contains('\\') || name[0] == '.' {
        Some(
            "Invalid workspace name '"@ + name
                + "'. Workspace names cannot contain path separators or start with '.'"@,
        )
    } else if spec_trim(name) != name {
        Some("Workspace name cannot have leading/trailing whitespace"@)
    } else {
        None
    }
}

/// Checks that `name` can name a saved workspace.
pub fn validate_workspace_name(name: &str) -> (r: Result<(), HnError>)
    ensures
        match workspace_name_problem(name@) {
            None => r is Ok,
            Some(m) => r matches Err(HnError::ConfigError(msg)) && msg@ == m,
        },
{
    let v = chars_of(name);
    if v.len() == 0 {
        return Err(HnError::ConfigError(String::from_str("Workspace name cannot be empty")));
    }
    if contains_char(v.as_slice(), '/') || contains_char(v.as_slice(), '\\') || v[0] == '.' {
        return Err(
            HnError::ConfigError(
                concat3(
                    "Invalid workspace name '",
                    name,
                    "'. Workspace names cannot contain path separators or start with '.'",
                ),
            ),
        );
    }
    let t = trim_chars(v.as_slice());
    if t.len() != v.len() {
        return Err(
            HnError::ConfigError(
                String::from_str("Workspace name cannot have leading/trailing whitespace"),
            ),
        );
    }
    proof {
        lemma_trim_shorter_or_same(v@);
        if t@.len() == v@.len() {
            lemma_trim_same_len(v@);
        }
    }
    Ok(())
}

/// Trimming never lengthens a sequence.
pub proof fn lemma_trim_start_len(s: Seq<char>)
    ensures
        crate::text::spec_trim_start(s).len() <= s.len(),
        crate::text::spec_trim_start(s).len() == s.len() ==> crate::text::spec_trim_start(s) == s,
    decreases s.len(),
{
    if s.len() > 0 && crate::text::spec_is_whitespace(s[0]) {
        lemma_trim_start_len(s.drop_first());
    }
}

/// Trimming never lengthens a sequence.
pub proof fn lemma_trim_end_len(s: Seq<char>)
    ensures
        crate::text::spec_trim_end(s).len() <= s.len(),
        crate::text::spec_trim_end(s).len() == s.len() ==> crate::text::spec_trim_end(s) == s,
    decreases s.len(),
{
    if s.len() > 0 && crate::text::spec_is_whitespace(s.last()) {
        lemma_trim_end_len(s.drop_last());
    }
}

proof fn lemma_trim_shorter_or_same(s: Seq<char>)
    ensures
        spec_trim(s).len() <= s.len(),
{
    lemma_trim_start_len(s);
    lemma_trim_end_len(crate::text::spec_trim_start(s));
}

proof fn lemma_trim_same_len(s: Seq<char>)
    requires
        spec_trim(s).len() == s.len(),
    ensures
        spec_trim(s) == s,
{
    lemma_trim_start_len(s);
    lemma_trim_end_len(crate::text::spec_trim_start(s));
}

/// Checks that `path` lies under `repo_root`, component by component; both are taken as
/// already canonical.
pub fn validate_path_within_repo(path: &str, repo_root: &str) -> (r: Result<(), HnError>)
    ensures
        spec_path_starts_with(path@, repo_root@) ==> r is Ok,
        !spec_path_starts_with(path@, repo_root@) ==> (r matches Err(HnError::SymlinkError(m)) && m@
            == "Path is outside repository boundaries"@),
{
    if !path_starts_with(path, repo_root) {
        return Err(HnError::SymlinkError(String::from_str("Path is outside repository boundaries")));
    }
    Ok(())
}

} // verus!
