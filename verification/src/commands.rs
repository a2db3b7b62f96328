//! Small decisions of the command-line interface: how durations read, which shell is in
//! use, which sync strategy was asked for.
use vstd::prelude::*;
use crate::error::{HnError, join_strings, seq_join, views};
use crate::paths::{path_join, spec_path_join};
use crate::text::{
    chars_of, concat2, concat3, contains, decimal, eq_str, lowercase, seq_contains, spec_decimal,
    spec_lowercase,
};

verus! {

/// How long ago something happened, in the largest unit that is at least one.
pub open spec fn duration_text(secs: u64) -> Seq<char> {
    if secs < 60 {
        spec_decimal(secs as nat) + " seconds ago"@
    } else if secs < 3600 {
        spec_decimal((secs / 60) as nat) + " minutes ago"@
    } else if secs < 86400 {
        spec_decimal((secs / 3600) as nat) + " hours ago"@
    } else {
        spec_decimal((secs / 86400) as nat) + " days ago"@
    }
}

/// Describes a duration of `secs` seconds as an age, such as `5 minutes ago`.
pub fn format_duration(secs: u64) -> (r: String)
    ensures
        r@ == duration_text(secs),
{
    let (n, unit) = if secs < 60 {
        (secs, " seconds ago")
    } else if secs < 3600 {
        (secs / 60, " minutes ago")
    } else if secs < 86400 {
        (secs / 3600, " hours ago")
    } else {
        (secs / 86400, " days ago")
    };
    let mut r = decimal(n);
    r.append(unit);
    r
}

/// How long before `now` the moment `timestamp` lies (both in seconds since the Unix
/// epoch), abbreviated in the largest unit that is at least one; `future` when it lies
/// after `now`.
pub open spec fn short_age_text(timestamp: u64, now: u64) -> Seq<char> {
    if now < timestamp {
        "future"@
    } else {
        let secs = (now - timestamp) as nat;
        if secs < 60 {
            spec_decimal(secs) + "s ago"@
        } else if secs < 3600 {
            spec_decimal(secs / 60) + "m ago"@
        } else if secs < 86400 {
            spec_decimal(secs / 3600) + "h ago"@
        } else {
            spec_decimal(secs / 86400) + "d ago"@
        }
    }
}

/// Describes when `timestamp` was, seen from `now`, such as `5m ago`.
pub fn format_timestamp(timestamp: u64, now: u64) -> (r: String)
    ensures
        r@ == short_age_text(timestamp, now),
{
    if now < timestamp {
        return String::from_str("future");
    }
    let secs = now - timestamp;
    let (n, unit) = if secs < 60 {
        (secs, "s ago")
    } else if secs < 3600 {
        (secs / 60, "m ago")
    } else if secs < 86400 {
        (secs / 3600, "h ago")
    } else {
        (secs / 86400, "d ago")
    };
    let mut r = decimal(n);
    r.append(unit);
    r
}

/// The commands that `hn info` suggests for worktree `name`: switch to it, integrate it
/// into its parent when it has one, show its container logs when Docker is enabled, and
/// remove it.
pub open spec fn info_action_list(name: Seq<char>, parent: Option<Seq<char>>, docker: bool) -> Seq<
    Seq<char>,
> {
    seq!["hn switch "@ + name] + (match parent {
        Some(p) => seq!["hn integrate "@ + name + " "@ + p],
        None => Seq::<Seq<char>>::empty(),
    }) + (if docker {
        seq!["hn docker logs "@ + name]
    } else {
        Seq::<Seq<char>>::empty()
    }) + seq!["hn remove "@ + name]
}

/// The commands that `hn info` suggests for a worktree.
pub fn info_actions(name: &str, parent: Option<&str>, docker_enabled: bool) -> (r: Vec<String>)
    ensures
        views(r@) == info_action_list(
            name@,
            match parent {
                Some(p) => Some(p@),
                None => None,
            },
            docker_enabled,
        ),
{
    let mut r: Vec<String> = Vec::new();
    r.push(concat2("hn switch ", name));
    let ghost v1 = views(r@);
    match parent {
        Some(p) => {
            r.push(concat3(concat2("hn integrate ", name).as_str(), " ", p));
        },
        None => {},
    }
    let ghost v2 = views(r@);
    if docker_enabled {
        r.push(concat2("hn docker logs ", name));
    }
    let ghost v3 = views(r@);
    r.push(concat2("hn remove ", name));
    proof {
        let pv = match parent {
            Some(p) => Some(p@),
            None => None,
        };
        assert(views(r@) =~= info_action_list(name@, pv, docker_enabled));
    }
    r
}

/// The branch a worktree about to be created is reported with to its `pre_create` hook:
/// the branch asked for, else the base it is created from, else the current branch, else
/// `unknown`.
pub fn planned_branch(branch: Option<&str>, from: Option<&str>, current: Option<&str>) -> (r: String)
    ensures
        r@ == match branch {
            Some(b) => b@,
            None => match from {
                Some(f) => f@,
                None => match current {
                    Some(c) => c@,
                    None => "unknown"@,
                },
            },
        },
{
    match branch {
        Some(b) => String::from_str(b),
        None => match from {
            Some(f) => String::from_str(f),
            None => match current {
                Some(c) => String::from_str(c),
                None => String::from_str("unknown"),
            },
        },
    }
}

/// The paths a new worktree is limited to: those given on the command line, else the
/// configured ones when sparse checkout is enabled, else none.
pub fn effective_sparse_paths(cli: Option<Vec<String>>, sparse: &crate::config::SparseConfig) -> (r:
    Vec<String>)
    ensures
        match cli {
            Some(p) => r == p,
            None => if sparse.enabled {
                views(r@) == views(sparse.paths@)
            } else {
                r@.len() == 0
            },
        },
{
    match cli {
        Some(p) => p,
        None => {
            if sparse.enabled {
                let mut r: Vec<String> = Vec::new();
                let mut i: usize = 0;
                while i < sparse.paths.len()
                    invariant
                        i <= sparse.paths@.len(),
                        views(r@) == views(sparse.paths@).take(i as int),
                    decreases sparse.paths.len() - i,
                {
                    let p = sparse.paths[i].clone();
                    assert(p@ == sparse.paths@[i as int]@);
                    let ghost before = views(r@);
                    r.push(p);
                    assert(views(r@) =~= before.push(p@));
                    assert(views(sparse.paths@).take(i + 1) =~= views(sparse.paths@).take(
                        i as int,
                    ).push(sparse.paths@[i as int]@));
                    i = i + 1;
                }
                assert(views(sparse.paths@).take(sparse.paths@.len() as int) =~= views(
                    sparse.paths@,
                ));
                r
            } else {
                Vec::new()
            }
        },
    }
}

/// A shell that completions and the shell function can be set up for.
#[derive(Debug, Clone, Copy, PartialEq, Eq)]
pub enum SetupShell {
    Bash,
    Zsh,
    Fish,
}

impl SetupShell {
    /// The shell's name.
    pub open spec fn spec_name(&self) -> Seq<char> {
        match self {
            SetupShell::Bash => "bash"@,
            SetupShell::Zsh => "zsh"@,
            SetupShell::Fish => "fish"@,
        }
    }

    /// The shell's name.
    pub fn name(&self) -> (r: &'static str)
        ensures
            r@ == self.spec_name(),
    {
        match self {
            SetupShell::Bash => "bash",
            SetupShell::Zsh => "zsh",
            SetupShell::Fish => "fish",
        }
    }

    /// The start-up file of the shell, below the home directory.
    pub open spec fn spec_rc_name(&self) -> Seq<char> {
        match self {
            SetupShell::Bash => ".bashrc"@,
            SetupShell::Zsh => ".zshrc"@,
            SetupShell::Fish => ".config/fish/config.fish"@,
        }
    }

    /// The path of the shell's start-up file inside the home directory `home`; an error
    /// when the home directory is not known.
    pub fn rc_file(&self, home: Option<&str>) -> (r: Result<String, HnError>)
        ensures
            match home {
                Some(h) => r matches Ok(p) && p@ == spec_path_join(h@, self.spec_rc_name()),
                None => r matches Err(HnError::ConfigError(m)) && m@
                    == "Could not determine home directory"@,
            },
    {
        match home {
            Some(h) => {
                let name = match self {
                    SetupShell::Bash => ".bashrc",
                    SetupShell::Zsh => ".zshrc",
                    SetupShell::Fish => ".config/fish/config.fish",
                };
                Ok(path_join(h, name))
            },
            None => Err(HnError::ConfigError(String::from_str("Could not determine home directory"))),
        }
    }

    /// The shell called exactly `name`: `bash`, `zsh` or `fish`.
    pub fn from_name(name: &str) -> (r: Result<Self, HnError>)
        ensures
            name@ == "bash"@ ==> r matches Ok(SetupShell::Bash),
            name@ == "zsh"@ ==> r matches Ok(SetupShell::Zsh),
            name@ == "fish"@ ==> r matches Ok(SetupShell::Fish),
            name@ != "bash"@ && name@ != "zsh"@ && name@ != "fish"@ ==> (r matches Err(
                HnError::ConfigError(m),
            ) && m@ == "Unsupported shell: "@ + name@ + ". Use bash, zsh, or fish."@),
    {
        proof {
            reveal_strlit("bash");
            reveal_strlit("zsh");
            reveal_strlit("fish");
            assert("bash"@[0] != "fish"@[0]);
            assert("bash"@.len() != "zsh"@.len() && "zsh"@.len() != "fish"@.len());
        }
        let c = chars_of(name);
        if eq_str(c.as_slice(), "bash") {
            Ok(SetupShell::Bash)
        } else if eq_str(c.as_slice(), "zsh") {
            Ok(SetupShell::Zsh)
        } else if eq_str(c.as_slice(), "fish") {
            Ok(SetupShell::Fish)
        } else {
            Err(HnError::ConfigError(concat3("Unsupported shell: ", name, ". Use bash, zsh, or fish.")))
        }
    }

    /// The directory, below the home directory, that completions are installed in; for
    /// bash, the XDG directory when it exists or can be made, else `.bash_completion.d`.
    pub open spec fn spec_completion_dir(&self, xdg_usable: bool) -> Seq<char> {
        match self {
            SetupShell::Bash => if xdg_usable {
                ".local/share/bash-completion/completions"@
            } else {
                ".bash_completion.d"@
            },
            SetupShell::Zsh => ".zsh/completions"@,
            SetupShell::Fish => ".config/fish/completions"@,
        }
    }

    /// The name of the completion file of the shell.
    pub open spec fn spec_completion_file(&self) -> Seq<char> {
        match self {
            SetupShell::Bash => "hn"@,
            SetupShell::Zsh => "_hn"@,
            SetupShell::Fish => "hn.fish"@,
        }
    }

    /// The directory that completions go to inside the home directory `home`.
    pub fn completion_dir(&self, home: &str, xdg_usable: bool) -> (r: String)
        ensures
            r@ == spec_path_join(home@, self.spec_completion_dir(xdg_usable)),
    {
        let dir = match self {
            SetupShell::Bash => if xdg_usable {
                ".local/share/bash-completion/completions"
            } else {
                ".bash_completion.d"
            },
            SetupShell::Zsh => ".zsh/completions",
            SetupShell::Fish => ".config/fish/completions",
        };
        path_join(home, dir)
    }

    /// The completion file of the shell inside the home directory `home`; an error when the
    /// home directory is not known.
    pub fn completion_path(&self, home: Option<&str>, xdg_usable: bool) -> (r: Result<String, HnError>)
        ensures
            match home {
                Some(h) => r matches Ok(p) && p@ == spec_path_join(
                    spec_path_join(h@, self.spec_completion_dir(xdg_usable)),
                    self.spec_completion_file(),
                ),
                None => r matches Err(HnError::ConfigError(m)) && m@
                    == "Could not determine home directory"@,
            },
    {
        match home {
            Some(h) => {
                let dir = self.completion_dir(h, xdg_usable);
                let file = match self {
                    SetupShell::Bash => "hn",
                    SetupShell::Zsh => "_hn",
                    SetupShell::Fish => "hn.fish",
                };
                Ok(path_join(dir.as_str(), file))
            },
            None => Err(HnError::ConfigError(String::from_str("Could not determine home directory"))),
        }
    }

    /// The shell that the path of the user's shell names: bash, then zsh, then fish is
    /// looked for in it.
    pub fn detect_from(shell: &str) -> (r: Option<Self>)
        ensures
            seq_contains(shell@, "bash"@) ==> r matches Some(SetupShell::Bash),
            !seq_contains(shell@, "bash"@) && seq_contains(shell@, "zsh"@) ==> r matches Some(
                SetupShell::Zsh,
            ),
            !seq_contains(shell@, "bash"@) && !seq_contains(shell@, "zsh"@) && seq_contains(
                shell@,
                "fish"@,
            ) ==> r matches Some(SetupShell::Fish),
            !seq_contains(shell@, "bash"@) && !seq_contains(shell@, "zsh"@) && !seq_contains(
                shell@,
                "fish"@,
            ) ==> r is None,
    {
        let c = chars_of(shell);
        let bash = chars_of("bash");
        let zsh = chars_of("zsh");
        let fish = chars_of("fish");
        if contains(c.as_slice(), bash.as_slice()) {
            Some(SetupShell::Bash)
        } else if contains(c.as_slice(), zsh.as_slice()) {
            Some(SetupShell::Zsh)
        } else if contains(c.as_slice(), fish.as_slice()) {
            Some(SetupShell::Fish)
        } else {
            None
        }
    }
}

/// Whether a shell start-up file already sets up the shell function: it mentions
/// `hn init-shell` or `hn switch wrapper`.
pub fn integration_installed(rc_content: &str) -> (r: bool)
    ensures
        r == (seq_contains(rc_content@, "hn init-shell"@) || seq_contains(
            rc_content@,
            "hn switch wrapper"@,
        )),
{
    let c = chars_of(rc_content);
    let a = chars_of("hn init-shell");
    let b = chars_of("hn switch wrapper");
    contains(c.as_slice(), a.as_slice()) || contains(c.as_slice(), b.as_slice())
}

/// How a worktree is brought up to date with its source branch.
#[derive(Debug, Clone, Copy, PartialEq, Eq)]
pub enum SyncStrategy {
    Merge,
    Rebase,
}

impl SyncStrategy {
    /// The strategy named by `s`, in any letter case: `merge` or `rebase`.
    pub fn from_str(s: &str) -> (r: Result<Self, HnError>)
        ensures
            spec_lowercase(s@) == "merge"@ ==> r matches Ok(SyncStrategy::Merge),
            spec_lowercase(s@) == "rebase"@ ==> r matches Ok(SyncStrategy::Rebase),
            spec_lowercase(s@) != "merge"@ && spec_lowercase(s@) != "rebase"@ ==> (r matches Err(
                HnError::ConfigError(m),
            ) && m@ == "Invalid sync strategy '"@ + s@ + "'. Use 'merge' or 'rebase'."@),
    {
        proof {
            reveal_strlit("merge");
            reveal_strlit("rebase");
            assert("merge"@.len() != "rebase"@.len());
        }
        let l = lowercase(s);
        let c = chars_of(l.as_str());
        if eq_str(c.as_slice(), "merge") {
            Ok(SyncStrategy::Merge)
        } else if eq_str(c.as_slice(), "rebase") {
            Ok(SyncStrategy::Rebase)
        } else {
            Err(
                HnError::ConfigError(
                    concat3("Invalid sync strategy '", s, "'. Use 'merge' or 'rebase'."),
                ),
            )
        }
    }
}

/// Checks the flags of `return`: `--delete` and `--no-ff` each need `--merge`.
pub fn check_return_flags(merge: bool, delete: bool, no_ff: bool) -> (r: Result<(), HnError>)
    ensures
        delete && !merge ==> (r matches Err(HnError::ConfigError(m)) && m@
            == "--delete requires --merge. Use 'hn return --merge --delete'"@),
        !(delete && !merge) && no_ff && !merge ==> (r matches Err(HnError::ConfigError(m)) && m@
            == "--no-ff requires --merge. Use 'hn return --merge --no-ff'"@),
        merge || (!delete && !no_ff) ==> r is Ok,
{
    if delete && !merge {
        return Err(
            HnError::ConfigError(
                String::from_str("--delete requires --merge. Use 'hn return --merge --delete'"),
            ),
        );
    }
    if no_ff && !merge {
        return Err(
            HnError::ConfigError(
                String::from_str("--no-ff requires --merge. Use 'hn return --merge --no-ff'"),
            ),
        );
    }
    Ok(())
}

/// The names of the worktrees of `worktrees` whose parent is `name`, in order.
pub open spec fn child_names(worktrees: Seq<crate::vcs::Worktree>, name: Seq<char>) -> Seq<Seq<char>>
    decreases worktrees.len(),
{
    if worktrees.len() == 0 {
        Seq::empty()
    } else {
        let prev = child_names(worktrees.drop_last(), name);
        if worktrees.last().parent matches Some(p) && p@ == name {
            prev.push(worktrees.last().name@)
        } else {
            prev
        }
    }
}

/// The worktrees whose parent is `name`.
pub fn children_of(worktrees: &[crate::vcs::Worktree], name: &str) -> (r: Vec<String>)
    ensures
        views(r@) == child_names(worktrees@, name@),
{
    let mut out: Vec<String> = Vec::new();
    let mut i: usize = 0;
    while i < worktrees.len()
        invariant
            i <= worktrees@.len(),
            views(out@) == child_names(worktrees@.take(i as int), name@),
        decreases worktrees.len() - i,
    {
        assert(worktrees@.take(i + 1).drop_last() =~= worktrees@.take(i as int));
        let w = &worktrees[i];
        match &w.parent {
            Some(p) => {
                if crate::text::str_eq(p.as_str(), name) {
                    out.push(w.name.clone());
                    assert(views(out@) =~= child_names(worktrees@.take(i as int), name@).push(
                        w.name@,
                    ));
                }
            },
            None => {},
        }
        i = i + 1;
    }
    assert(worktrees@.take(worktrees@.len() as int) =~= worktrees@);
    out
}

/// `hn remove <child>` for each child, separated by commas.
pub open spec fn remove_hints(children: Seq<Seq<char>>) -> Seq<char> {
    seq_join(children.map_values(|c: Seq<char>| "hn remove "@ + c), ", "@)
}

/// The text of the refusal to remove `name` while it has `children`.
pub open spec fn children_message(name: Seq<char>, children: Seq<Seq<char>>) -> Seq<char> {
    "Cannot remove '"@ + name + "' - it has "@ + spec_decimal(children.len()) + " child worktree(s): "@
        + seq_join(children, ", "@) + "\n\nOptions:\n1. Remove children first: "@ + remove_hints(children)
        + "\n2. Use --force to remove parent and orphan children (children will remain but parent link will be broken)"@
}

/// A worktree with children is removed only with `force`.
pub fn check_removable(name: &str, children: &Vec<String>, force: bool) -> (r: Result<(), HnError>)
    ensures
        children@.len() == 0 || force ==> r is Ok,
        children@.len() > 0 && !force ==> (r matches Err(HnError::ConfigError(m)) && m@
            == children_message(name@, views(children@))),
{
    if children.len() == 0 || force {
        return Ok(());
    }
    let mut hints: Vec<String> = Vec::new();
    let mut i: usize = 0;
    while i < children.len()
        invariant
            i <= children@.len(),
            views(hints@) == views(children@).take(i as int).map_values(
                |c: Seq<char>| "hn remove "@ + c,
            ),
        decreases children.len() - i,
    {
        let ghost prev = hints@;
        let h = concat2("hn remove ", children[i].as_str());
        hints.push(h);
        assert(views(hints@) =~= views(prev).push("hn remove "@ + children@[i as int]@));
        assert(views(children@).take(i + 1) =~= views(children@).take(i as int).push(
            children@[i as int]@,
        ));
        assert(views(hints@) =~= views(children@).take(i + 1).map_values(
            |c: Seq<char>| "hn remove "@ + c,
        ));
        i = i + 1;
    }
    assert(views(children@).take(children@.len() as int) =~= views(children@));
    let mut m = concat3("Cannot remove '", name, "' - it has ");
    let n = decimal(children.len() as u64);
    m.append(n.as_str());
    m.append(" child worktree(s): ");
    let names = join_strings(children, ", ");
    m.append(names.as_str());
    m.append("\n\nOptions:\n1. Remove children first: ");
    let hint_text = join_strings(&hints, ", ");
    m.append(hint_text.as_str());
    m.append(
        "\n2. Use --force to remove parent and orphan children (children will remain but parent link will be broken)",
    );
    Err(HnError::ConfigError(m))
}

} // verus!
