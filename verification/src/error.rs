//! The library's error type and the text that describes each error.
use vstd::prelude::*;
use crate::text::concat2;

verus! {

/// Errors raised by worktree operations.
#[derive(Debug)]
pub enum HnError {
    Git(String),
    NotInRepository,
    WorktreeNotFound(String),
    InvalidWorktreeName(String),
    WorktreeAlreadyExists(String),
    AmbiguousWorktreeName(String, Vec<String>),
    NoParent(String),
    ConfigError(String),
    HookError(String),
    SymlinkError(String),
    CopyError(String),
    DockerError(String),
    PortAllocationError(String),
    CommandFailed(String),
    ValidationError(String),
    StateError(String),
    Io(String),
}

/// The elements of `items` separated by `sep`.
pub open spec fn seq_join(items: Seq<Seq<char>>, sep: Seq<char>) -> Seq<char>
    decreases items.len(),
{
    if items.len() == 0 {
        Seq::empty()
    } else if items.len() == 1 {
        items[0]
    } else {
        seq_join(items.drop_last(), sep) + sep + items.last()
    }
}

/// The views of a vector of strings.
pub open spec fn views(v: Seq<String>) -> Seq<Seq<char>> {
    v.map_values(|s: String| s@)
}

/// Joins `items` with `sep`, as `[String]::join` does.
pub fn join_strings(items: &Vec<String>, sep: &str) -> (r: String)
    ensures
        r@ == seq_join(views(items@), sep@),
{
    let mut r = String::new();
    let mut i: usize = 0;
    while i < items.len()
        invariant
            i <= items.len(),
            r@ == seq_join(views(items@).take(i as int), sep@),
        decreases items.len() - i,
    {
        assert(views(items@).take(i + 1).drop_last() =~= views(items@).take(i as int));
        if i != 0 {
            r.append(sep);
        }
        r.append(items[i].as_str());
        i = i + 1;
    }
    assert(views(items@).take(items.len() as int) =~= views(items@));
    r
}

impl HnError {
    /// The text that describes the error.
    pub open spec fn spec_message(&self) -> Seq<char> {
        match self {
            HnError::Git(m) => "Git error: "@ + m@,
            HnError::NotInRepository => "Not in a git repository"@,
            HnError::WorktreeNotFound(n) => "Worktree '"@ + n@ + "' not found"@,
            HnError::InvalidWorktreeName(m) => "Invalid worktree name: "@ + m@,
            HnError::WorktreeAlreadyExists(n) => "Worktree '"@ + n@ + "' already exists"@,
            HnError::AmbiguousWorktreeName(q, ms) => "Ambiguous worktree name '"@ + q@
                + "'. Did you mean one of: "@ + seq_join(views(ms@), ", "@),
            HnError::NoParent(n) => "Worktree '"@ + n@
                + "' has no parent. It was not created from another worktree."@,
            HnError::ConfigError(m) => "Config error: "@ + m@,
            HnError::HookError(m) => "Hook error: "@ + m@,
            HnError::SymlinkError(m) => "Symlink error: "@ + m@,
            HnError::CopyError(m) => "Copy error: "@ + m@,
            HnError::DockerError(m) => "Docker error: "@ + m@,
            HnError::PortAllocationError(m) => "Port allocation error: "@ + m@,
            HnError::CommandFailed(m) => "Command failed: "@ + m@,
            HnError::ValidationError(m) => "Validation error: "@ + m@,
            HnError::StateError(m) => "State error: "@ + m@,
            HnError::Io(m) => "IO error: "@ + m@,
        }
    }

    /// The text that describes the error.
    pub fn message(&self) -> (r: String)
        ensures
            r@ == self.spec_message(),
    {
        match self {
            HnError::Git(m) => concat2("Git error: ", m.as_str()),
            HnError::NotInRepository => String::from_str("Not in a git repository"),
            HnError::WorktreeNotFound(n) => {
                let mut r = concat2("Worktree '", n.as_str());
                r.append("' not found");
                r
            },
            HnError::InvalidWorktreeName(m) => concat2("Invalid worktree name: ", m.as_str()),
            HnError::WorktreeAlreadyExists(n) => {
                let mut r = concat2("Worktree '", n.as_str());
                r.append("' already exists");
                r
            },
            HnError::AmbiguousWorktreeName(q, ms) => {
                let mut r = concat2("Ambiguous worktree name '", q.as_str());
                r.append("'. Did you mean one of: ");
                let j = join_strings(ms, ", ");
                r.append(j.as_str());
                r
            },
            HnError::NoParent(n) => {
                let mut r = concat2("Worktree '", n.as_str());
                r.append("' has no parent. It was not created from another worktree.");
                r
            },
            HnError::ConfigError(m) => concat2("Config error: ", m.as_str()),
            HnError::HookError(m) => concat2("Hook error: ", m.as_str()),
            HnError::SymlinkError(m) => concat2("Symlink error: ", m.as_str()),
            HnError::CopyError(m) => concat2("Copy error: ", m.as_str()),
            HnError::DockerError(m) => concat2("Docker error: ", m.as_str()),
            HnError::PortAllocationError(m) => concat2("Port allocation error: ", m.as_str()),
            HnError::CommandFailed(m) => concat2("Command failed: ", m.as_str()),
            HnError::ValidationError(m) => concat2("Validation error: ", m.as_str()),
            HnError::StateError(m) => concat2("State error: ", m.as_str()),
            HnError::Io(m) => concat2("IO error: ", m.as_str()),
        }
    }
}

} // verus!
