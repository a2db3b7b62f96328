//! Version-control model: worktrees, workspace status, VCS kinds, and the parsing of
//! the command output of git, Mercurial and Jujutsu.
use vstd::prelude::*;
use crate::error::HnError;
use crate::paths::{path_file_name, spec_path_file_name};
use crate::text::{
    chars_of, concat2, eq_str, find_char_from, first_at_or_after, lowercase, slice_chars,
    spec_lines, spec_lowercase, spec_trim, split_lines, string_of, trim_chars,
};

verus! {

/// A worktree (workspace) of a repository.
#[derive(Debug)]
pub struct Worktree {
    pub name: String,
    pub path: String,
    pub branch: String,
    pub commit: String,
    pub parent: Option<String>,
}

/// Counts of changed files in a working copy.
#[derive(Debug)]
pub struct WorkspaceStatus {
    pub modified: usize,
    pub added: usize,
    pub deleted: usize,
    pub untracked: usize,
}

impl WorkspaceStatus {
    /// Whether the working copy has no changes at all.
    pub fn is_clean(&self) -> (r: bool)
        ensures
            r == (self.modified == 0 && self.added == 0 && self.deleted == 0 && self.untracked == 0),
    {
        self.modified == 0 && self.added == 0 && self.deleted == 0 && self.untracked == 0
    }

    /// One part of the summary: `<n> <label>`, present when `n` is not zero.
    pub open spec fn part(n: usize, label: Seq<char>) -> Seq<Seq<char>> {
        if n > 0 {
            seq![crate::text::spec_decimal(n as nat) + " "@ + label]
        } else {
            Seq::empty()
        }
    }

    /// The non-zero counts, in the order modified, added, deleted, untracked.
    pub open spec fn change_parts(&self) -> Seq<Seq<char>> {
        Self::part(self.modified, "modified"@) + Self::part(self.added, "added"@) + Self::part(
            self.deleted,
            "deleted"@,
        ) + Self::part(self.untracked, "untracked"@)
    }

    /// The changes in words, such as `2 modified, 1 untracked`; empty when clean.
    pub fn change_summary(&self) -> (r: String)
        ensures
            r@ == crate::error::seq_join(self.change_parts(), ", "@),
    {
        proof {
            reveal_strlit(" modified");
            reveal_strlit(" added");
            reveal_strlit(" deleted");
            reveal_strlit(" untracked");
            reveal_strlit("modified");
            reveal_strlit("added");
            reveal_strlit("deleted");
            reveal_strlit("untracked");
            reveal_strlit(" ");
        }
        let mut parts: Vec<String> = Vec::new();
        push_part(&mut parts, self.modified, " modified");
        assert(crate::error::views(parts@) =~~= Self::part(self.modified, "modified"@));
        let ghost p1 = crate::error::views(parts@);
        push_part(&mut parts, self.added, " added");
        assert(crate::error::views(parts@) =~~= p1 + Self::part(self.added, "added"@));
        let ghost p2 = crate::error::views(parts@);
        push_part(&mut parts, self.deleted, " deleted");
        assert(crate::error::views(parts@) =~~= p2 + Self::part(self.deleted, "deleted"@));
        let ghost p3 = crate::error::views(parts@);
        push_part(&mut parts, self.untracked, " untracked");
        assert(crate::error::views(parts@) =~~= p3 + Self::part(self.untracked, "untracked"@));
        assert(crate::error::views(parts@) =~= self.change_parts());
        crate::error::join_strings(&parts, ", ")
    }
}

/// Appends `<n><suffix>` to `parts` when `n` is not zero.
fn push_part(parts: &mut Vec<String>, n: usize, suffix: &str)
    ensures
        crate::error::views(final(parts)@) == crate::error::views(old(parts)@) + (if n > 0 {
            seq![crate::text::spec_decimal(n as nat) + suffix@]
        } else {
            Seq::<Seq<char>>::empty()
        }),
{
    let ghost before = crate::error::views(parts@);
    if n > 0 {
        let d = crate::text::decimal(n as u64);
        parts.push(concat2(d.as_str(), suffix));
        assert(crate::error::views(parts@) =~= before + seq![crate::text::spec_decimal(n as nat) + suffix@]);
    } else {
        assert(before + Seq::<Seq<char>>::empty() =~= before);
    }
}

/// The first seven characters of a commit hash (all of it when shorter).
pub fn short_commit(hash: &str) -> (r: String)
    ensures
        r@ == hash@.take(if hash@.len() < 7 {
            hash@.len() as int
        } else {
            7
        }),
{
    let v = chars_of(hash);
    let n: usize = if v.len() < 7 {
        v.len()
    } else {
        7
    };
    let s = crate::text::slice_chars(v.as_slice(), 0, n);
    string_of(s.as_slice())
}

/// The version-control systems supported.
#[derive(Debug, Clone, Copy, PartialEq, Eq)]
pub enum VcsType {
    Git,
    Mercurial,
    Jujutsu,
}

/// The VCS named by `s`, ignoring case: `git`, `hg`/`mercurial`, `jj`/`jujutsu`.
pub open spec fn spec_parse_vcs(s: Seq<char>) -> Option<VcsType> {
    let l = spec_lowercase(s);
    if l == "git"@ {
        Some(VcsType::Git)
    } else if l == "hg"@ || l == "mercurial"@ {
        Some(VcsType::Mercurial)
    } else if l == "jj"@ || l == "jujutsu"@ {
        Some(VcsType::Jujutsu)
    } else {
        None
    }
}

impl VcsType {
    /// Parses a VCS name (see `spec_parse_vcs`).
    pub fn parse_vcs(s: &str) -> (r: Option<Self>)
        ensures
            r == spec_parse_vcs(s@),
    {
        let l = lowercase(s);
        let v = chars_of(l.as_str());
        if eq_str(v.as_slice(), "git") {
            Some(VcsType::Git)
        } else if eq_str(v.as_slice(), "hg") || eq_str(v.as_slice(), "mercurial") {
            Some(VcsType::Mercurial)
        } else if eq_str(v.as_slice(), "jj") || eq_str(v.as_slice(), "jujutsu") {
            Some(VcsType::Jujutsu)
        } else {
            None
        }
    }

    /// The display name of the VCS.
    pub open spec fn spec_as_str(self) -> Seq<char> {
        match self {
            VcsType::Git => "git"@,
            VcsType::Mercurial => "mercurial"@,
            VcsType::Jujutsu => "jujutsu"@,
        }
    }

    /// The display name of the VCS.
    pub fn as_str(&self) -> (r: &'static str)
        ensures
            r@ == self.spec_as_str(),
    {
        match self {
            VcsType::Git => "git",
            VcsType::Mercurial => "mercurial",
            VcsType::Jujutsu => "jujutsu",
        }
    }

    /// Parses a VCS name; the error names the rejected text.
    pub fn from_str(s: &str) -> (r: Result<Self, String>)
        ensures
            match spec_parse_vcs(s@) {
                Some(v) => r == Ok::<VcsType, String>(v),
                None => r matches Err(m) && m@ == "Invalid VCS type: "@ + s@,
            },
    {
        match Self::parse_vcs(s) {
            Some(v) => Ok(v),
            None => Err(concat2("Invalid VCS type: ", s)),
        }
    }
}

/// The display name of every VCS parses back to it (so `from_str` of it gives it back).
pub proof fn law_vcs_name_round_trip(v: VcsType)
    ensures
        spec_parse_vcs(v.spec_as_str()) == Some(v),
{
    reveal_strlit("git");
    reveal_strlit("hg");
    reveal_strlit("mercurial");
    reveal_strlit("jj");
    reveal_strlit("jujutsu");
    let n = v.spec_as_str();
    assert(vstd::utf8::is_ascii_chars(n));
    assert(n.map_values(|c: char| crate::text::ascii_lower(c)) =~= n);
    assert("git"@.len() != "hg"@.len() && "git"@.len() != "mercurial"@.len() && "git"@.len() != "jj"@.len()
        && "git"@.len() != "jujutsu"@.len() && "mercurial"@.len() != "jj"@.len() && "mercurial"@.len()
        != "jujutsu"@.len() && "hg"@.len() != "jujutsu"@.len());
}

/// The VCS of a directory, given which of its marker directories exist: `.jj` wins over
/// `.git`, which wins over `.hg`.
pub fn detect_vcs_type(has_jj: bool, has_git: bool, has_hg: bool) -> (r: Option<VcsType>)
    ensures
        r == (if has_jj {
            Some(VcsType::Jujutsu)
        } else if has_git {
            Some(VcsType::Git)
        } else if has_hg {
            Some(VcsType::Mercurial)
        } else {
            None
        }),
{
    if has_jj {
        return Some(VcsType::Jujutsu);
    }
    if has_git {
        return Some(VcsType::Git);
    }
    if has_hg {
        return Some(VcsType::Mercurial);
    }
    None
}

/// The VCS to use: the one asked for explicitly, else the detected one; neither is an
/// error (not in a repository).
pub fn resolve_vcs_type(explicit: Option<VcsType>, detected: Option<VcsType>) -> (r: Result<VcsType, HnError>)
    ensures
        match explicit {
            Some(v) => r == Ok::<VcsType, HnError>(v),
            None => match detected {
                Some(v) => r == Ok::<VcsType, HnError>(v),
                None => r matches Err(HnError::NotInRepository),
            },
        },
{
    match explicit {
        Some(v) => Ok(v),
        None => match detected {
            Some(v) => Ok(v),
            None => Err(HnError::NotInRepository),
        },
    }
}

/// Change counts as a tuple (modified, added, deleted, untracked).
pub open spec fn counts(s: WorkspaceStatus) -> (int, int, int, int) {
    (s.modified as int, s.added as int, s.deleted as int, s.untracked as int)
}

/// A line of fewer than two bytes: empty, or one ASCII character.
pub open spec fn short_line(l: Seq<char>) -> bool {
    l.len() == 0 || (l.len() == 1 && (l[0] as u32) < 128)
}

/// What one line of `git status --porcelain` adds to the counts.
pub open spec fn git_status_delta(l: Seq<char>) -> (int, int, int, int) {
    if short_line(l) {
        (0, 0, 0, 0)
    } else {
        let x = l[0];
        let y = l[1];
        let m = (if x == 'M' { 1int } else { 0 }) + (if y == 'M' && x == ' ' { 1int } else { 0 });
        let a = if x == 'A' { 1int } else { 0 };
        let d = (if x == 'D' { 1int } else { 0 }) + (if y == 'D' && x == ' ' { 1int } else { 0 });
        let u = if x == '?' && y == '?' { 1int } else { 0 };
        (m, a, d, u)
    }
}

/// The counts for the first `n` lines of `git status --porcelain`.
pub open spec fn git_status_counts(ls: Seq<Seq<char>>, n: int) -> (int, int, int, int)
    decreases n,
{
    if n <= 0 {
        (0, 0, 0, 0)
    } else {
        let p = git_status_counts(ls, n - 1);
        let d = git_status_delta(ls[n - 1]);
        (p.0 + d.0, p.1 + d.1, p.2 + d.2, p.3 + d.3)
    }
}

/// What one line of `hg status` adds to the counts (`M`, `A`, `R`, `?`).
pub open spec fn hg_status_delta(l: Seq<char>) -> (int, int, int, int) {
    if short_line(l) {
        (0, 0, 0, 0)
    } else {
        let c = l[0];
        (
            if c == 'M' { 1int } else { 0 },
            if c == 'A' { 1int } else { 0 },
            if c == 'R' { 1int } else { 0 },
            if c == '?' { 1int } else { 0 },
        )
    }
}

/// What one line of `jj status` adds to the counts (first non-blank character `M`, `A`,
/// `D`, `?`).
pub open spec fn jj_status_delta(l: Seq<char>) -> (int, int, int, int) {
    let t = spec_trim(l);
    if short_line(l) || t.len() == 0 {
        (0, 0, 0, 0)
    } else {
        let c = t[0];
        (
            if c == 'M' { 1int } else { 0 },
            if c == 'A' { 1int } else { 0 },
            if c == 'D' { 1int } else { 0 },
            if c == '?' { 1int } else { 0 },
        )
    }
}

/// The counts for the first `n` lines of `hg status`.
pub open spec fn hg_status_counts(ls: Seq<Seq<char>>, n: int) -> (int, int, int, int)
    decreases n,
{
    if n <= 0 {
        (0, 0, 0, 0)
    } else {
        let p = hg_status_counts(ls, n - 1);
        let d = hg_status_delta(ls[n - 1]);
        (p.0 + d.0, p.1 + d.1, p.2 + d.2, p.3 + d.3)
    }
}

/// Each `hg status` line of two or more characters counts by its first character: `M`
/// one modified, `A` one added, `R` (removed) one deleted, `?` one untracked; any other
/// first character counts nothing.
pub proof fn law_hg_status_line(ls: Seq<Seq<char>>, n: int)
    requires
        0 <= n < ls.len(),
        ls[n].len() >= 2,
    ensures
        hg_status_counts(ls, n + 1) == (
            hg_status_counts(ls, n).0 + (if ls[n][0] == 'M' { 1int } else { 0 }),
            hg_status_counts(ls, n).1 + (if ls[n][0] == 'A' { 1int } else { 0 }),
            hg_status_counts(ls, n).2 + (if ls[n][0] == 'R' { 1int } else { 0 }),
            hg_status_counts(ls, n).3 + (if ls[n][0] == '?' { 1int } else { 0 }),
        ),
{
    assert(!short_line(ls[n]));
}

/// Each `git status --porcelain` line `XY path` of two or more characters counts: a staged
/// `M`, `A` or `D` in `X`; a `M` or `D` in `Y` when `X` is blank; `??` as untracked.
pub proof fn law_git_status_line(ls: Seq<Seq<char>>, n: int)
    requires
        0 <= n < ls.len(),
        ls[n].len() >= 2,
    ensures
        ({
            let x = ls[n][0];
            let y = ls[n][1];
            let before = git_status_counts(ls, n);
            git_status_counts(ls, n + 1) == (
                before.0 + (if x == 'M' || (x == ' ' && y == 'M') { 1int } else { 0 }),
                before.1 + (if x == 'A' { 1int } else { 0 }),
                before.2 + (if x == 'D' || (x == ' ' && y == 'D') { 1int } else { 0 }),
                before.3 + (if x == '?' && y == '?' { 1int } else { 0 }),
            )
        }),
{
    assert(!short_line(ls[n]));
}

/// The counts for the first `n` lines of `jj status`.
pub open spec fn jj_status_counts(ls: Seq<Seq<char>>, n: int) -> (int, int, int, int)
    decreases n,
{
    if n <= 0 {
        (0, 0, 0, 0)
    } else {
        let p = jj_status_counts(ls, n - 1);
        let d = jj_status_delta(ls[n - 1]);
        (p.0 + d.0, p.1 + d.1, p.2 + d.2, p.3 + d.3)
    }
}

/// Each `jj status` line of two or more characters that is not blank counts by its first
/// non-blank character: `M` one modified, `A` one added, `D` one deleted, `?` one
/// untracked; anything else counts nothing.
pub proof fn law_jj_status_line(ls: Seq<Seq<char>>, n: int)
    requires
        0 <= n < ls.len(),
        ls[n].len() >= 2,
        spec_trim(ls[n]).len() > 0,
    ensures
        ({
            let c = spec_trim(ls[n])[0];
            let before = jj_status_counts(ls, n);
            jj_status_counts(ls, n + 1) == (
                before.0 + (if c == 'M' { 1int } else { 0 }),
                before.1 + (if c == 'A' { 1int } else { 0 }),
                before.2 + (if c == 'D' { 1int } else { 0 }),
                before.3 + (if c == '?' { 1int } else { 0 }),
            )
        }),
{
    assert(!short_line(ls[n]));
}

proof fn lemma_counts_bounded(ls: Seq<Seq<char>>, n: int, which: int)
    requires
        0 <= n <= ls.len(),
    ensures
        which == 0 ==> {
            let c = git_status_counts(ls, n);
            0 <= c.0 <= n && 0 <= c.1 <= n && 0 <= c.2 <= n && 0 <= c.3 <= n
        },
        which == 1 ==> {
            let c = hg_status_counts(ls, n);
            0 <= c.0 <= n && 0 <= c.1 <= n && 0 <= c.2 <= n && 0 <= c.3 <= n
        },
        which == 2 ==> {
            let c = jj_status_counts(ls, n);
            0 <= c.0 <= n && 0 <= c.1 <= n && 0 <= c.2 <= n && 0 <= c.3 <= n
        },
    decreases n,
{
    if n > 0 {
        lemma_counts_bounded(ls, n - 1, which);
    }
}

proof fn lemma_lines_bounded(s: Seq<char>)
    ensures
        spec_lines(s).len() <= s.len(),
    decreases s.len(),
{
    if s.len() > 0 {
        match first_at_or_after(s, '\n', 0) {
            None => {},
            Some(e) => {
                if 0 <= e < s.len() {
                    lemma_lines_bounded(s.subrange(e + 1, s.len() as int));
                }
            },
        }
    }
}

/// Counts the changes in `git status --porcelain` output. Lines that are a single
/// non-ASCII character are not status lines and are excluded by the precondition.
pub fn parse_git_status(output: &str) -> (r: WorkspaceStatus)
    requires
        forall|i: int|
            0 <= i < spec_lines(output@).len() ==> !(#[trigger] spec_lines(output@)[i].len() == 1
                && !short_line(spec_lines(output@)[i])),
    ensures
        counts(r) == git_status_counts(spec_lines(output@), spec_lines(output@).len() as int),
{
    let v = chars_of(output);
    let ls = split_lines(v.as_slice());
    let ghost sl = spec_lines(output@);
    proof {
        lemma_lines_bounded(output@);
    }
    let mut st = WorkspaceStatus { modified: 0, added: 0, deleted: 0, untracked: 0 };
    let mut i: usize = 0;
    while i < ls.len()
        invariant
            sl == spec_lines(output@),
            ls@.len() == sl.len(),
            sl.len() <= usize::MAX,
            forall|k: int| 0 <= k < ls@.len() ==> #[trigger] ls@[k]@ == sl[k],
            forall|k: int| 0 <= k < sl.len() ==> !(#[trigger] sl[k].len() == 1 && !short_line(sl[k])),
            i <= ls.len(),
            counts(st) == git_status_counts(sl, i as int),
        decreases ls.len() - i,
    {
        proof {
            lemma_counts_bounded(sl, i as int, 0);
        }
        let l = &ls[i];
        assert(l@ == sl[i as int]);
        let short = l.len() == 0 || (l.len() == 1 && (l[0] as u32) < 128);
        if !short {
            let x = l[0];
            let y = l[1];
            if x == 'M' {
                st.modified = st.modified + 1;
            }
            if x == 'A' {
                st.added = st.added + 1;
            }
            if x == 'D' {
                st.deleted = st.deleted + 1;
            }
            if y == 'M' && x == ' ' {
                st.modified = st.modified + 1;
            }
            if y == 'D' && x == ' ' {
                st.deleted = st.deleted + 1;
            }
            if x == '?' && y == '?' {
                st.untracked = st.untracked + 1;
            }
        }
        i = i + 1;
    }
    st
}

/// Counts the changes in `hg status` output.
pub fn parse_hg_status(output: &str) -> (r: WorkspaceStatus)
    ensures
        counts(r) == hg_status_counts(spec_lines(output@), spec_lines(output@).len() as int),
{
    let v = chars_of(output);
    let ls = split_lines(v.as_slice());
    let ghost sl = spec_lines(output@);
    proof {
        lemma_lines_bounded(output@);
    }
    let mut st = WorkspaceStatus { modified: 0, added: 0, deleted: 0, untracked: 0 };
    let mut i: usize = 0;
    while i < ls.len()
        invariant
            sl == spec_lines(output@),
            ls@.len() == sl.len(),
            sl.len() <= usize::MAX,
            forall|k: int| 0 <= k < ls@.len() ==> #[trigger] ls@[k]@ == sl[k],
            i <= ls.len(),
            counts(st) == hg_status_counts(sl, i as int),
        decreases ls.len() - i,
    {
        proof {
            lemma_counts_bounded(sl, i as int, 1);
        }
        let l = &ls[i];
        assert(l@ == sl[i as int]);
        let short = l.len() == 0 || (l.len() == 1 && (l[0] as u32) < 128);
        if !short {
            let c = l[0];
            if c == 'M' {
                st.modified = st.modified + 1;
            } else if c == 'A' {
                st.added = st.added + 1;
            } else if c == 'R' {
                st.deleted = st.deleted + 1;
            } else if c == '?' {
                st.untracked = st.untracked + 1;
            }
        }
        i = i + 1;
    }
    st
}

/// Counts the changes in `jj status` output.
pub fn parse_jj_status(output: &str) -> (r: WorkspaceStatus)
    ensures
        counts(r) == jj_status_counts(spec_lines(output@), spec_lines(output@).len() as int),
{
    let v = chars_of(output);
    let ls = split_lines(v.as_slice());
    let ghost sl = spec_lines(output@);
    proof {
        lemma_lines_bounded(output@);
    }
    let mut st = WorkspaceStatus { modified: 0, added: 0, deleted: 0, untracked: 0 };
    let mut i: usize = 0;
    while i < ls.len()
        invariant
            sl == spec_lines(output@),
            ls@.len() == sl.len(),
            sl.len() <= usize::MAX,
            forall|k: int| 0 <= k < ls@.len() ==> #[trigger] ls@[k]@ == sl[k],
            i <= ls.len(),
            counts(st) == jj_status_counts(sl, i as int),
        decreases ls.len() - i,
    {
        proof {
            lemma_counts_bounded(sl, i as int, 2);
        }
        let l = &ls[i];
        assert(l@ == sl[i as int]);
        let short = l.len() == 0 || (l.len() == 1 && (l[0] as u32) < 128);
        let t = trim_chars(l.as_slice());
        if !short && t.len() > 0 {
            let c = t[0];
            if c == 'M' {
                st.modified = st.modified + 1;
            } else if c == 'A' {
                st.added = st.added + 1;
            } else if c == 'D' {
                st.deleted = st.deleted + 1;
            } else if c == '?' {
                st.untracked = st.untracked + 1;
            }
        }
        i = i + 1;
    }
    st
}

/// The (name, path) pair of one line of `jj workspace list`, `<name>: <path>`: the line is
/// split at its first `:` and both sides trimmed; lines without `:` are skipped.
pub open spec fn jj_workspace_entry(l: Seq<char>) -> Option<(Seq<char>, Seq<char>)> {
    match first_at_or_after(l, ':', 0) {
        None => None,
        Some(c) => Some(
            (spec_trim(l.subrange(0, c)), spec_trim(l.subrange(c + 1, l.len() as int))),
        ),
    }
}

/// The workspaces listed in the first `n` lines.
pub open spec fn jj_workspaces(ls: Seq<Seq<char>>, n: int) -> Seq<(Seq<char>, Seq<char>)>
    decreases n,
{
    if n <= 0 {
        Seq::empty()
    } else {
        match jj_workspace_entry(ls[n - 1]) {
            Some(e) => jj_workspaces(ls, n - 1).push(e),
            None => jj_workspaces(ls, n - 1),
        }
    }
}

/// The views of (name, path) pairs.
pub open spec fn pair_views(v: Seq<(String, String)>) -> Seq<(Seq<char>, Seq<char>)> {
    v.map_values(|p: (String, String)| (p.0@, p.1@))
}

/// A Jujutsu repository, by the path of its root.
#[derive(Debug)]
pub struct JujutsuBackend {
    pub repo_path: String,
}

impl JujutsuBackend {
    /// Where workspace `name` is made: beside the repository, in its parent directory.
    pub fn workspace_path(&self, name: &str) -> (r: Result<String, HnError>)
        ensures
            match crate::paths::spec_path_parent(self.repo_path@) {
                Some(p) => r matches Ok(s) && s@ == crate::paths::spec_path_join(p, name@),
                None => r matches Err(HnError::ConfigError(m)) && m@
                    == "Could not determine parent directory"@,
            },
    {
        match crate::paths::path_parent(self.repo_path.as_str()) {
            Some(p) => Ok(crate::paths::path_join(p.as_str(), name)),
            None => Err(HnError::ConfigError(String::from_str("Could not determine parent directory"))),
        }
    }

    /// The branches of a workspace from the output of `jj log -T branches`: the trimmed
    /// output, or `(no branch)` when the command failed or printed nothing.
    pub fn branch_from_output(success: bool, stdout: &str) -> (r: String)
        ensures
            (!success || spec_trim(stdout@).len() == 0) ==> r@ == "(no branch)"@,
            (success && spec_trim(stdout@).len() > 0) ==> r@ == spec_trim(stdout@),
    {
        if !success {
            return String::from_str("(no branch)");
        }
        let t = trim_chars(chars_of(stdout).as_slice());
        if t.len() == 0 {
            String::from_str("(no branch)")
        } else {
            string_of(t.as_slice())
        }
    }

    /// The change of a workspace from the output of `jj log -T change_id`: the trimmed
    /// output, or `unknown` when the command failed.
    pub fn change_from_output(success: bool, stdout: &str) -> (r: String)
        ensures
            !success ==> r@ == "unknown"@,
            success ==> r@ == spec_trim(stdout@),
    {
        if !success {
            return String::from_str("unknown");
        }
        string_of(trim_chars(chars_of(stdout).as_slice()).as_slice())
    }

    /// Parses `jj workspace list` output into (name, path) pairs, in order.
    pub fn parse_workspace_list(&self, output: &str) -> (r: Vec<(String, String)>)
        ensures
            pair_views(r@) == jj_workspaces(spec_lines(output@), spec_lines(output@).len() as int),
    {
        let v = chars_of(output);
        let ls = split_lines(v.as_slice());
        let ghost sl = spec_lines(output@);
        let mut out: Vec<(String, String)> = Vec::new();
        let mut i: usize = 0;
        while i < ls.len()
            invariant
                sl == spec_lines(output@),
                ls@.len() == sl.len(),
                forall|k: int| 0 <= k < ls@.len() ==> #[trigger] ls@[k]@ == sl[k],
                i <= ls.len(),
                pair_views(out@) == jj_workspaces(sl, i as int),
            decreases ls.len() - i,
        {
            let l = &ls[i];
            assert(l@ == sl[i as int]);
            match find_char_from(l.as_slice(), ':', 0) {
                None => {},
                Some(c) => {
                    let a = slice_chars(l.as_slice(), 0, c);
                    let b = slice_chars(l.as_slice(), c + 1, l.len());
                    let an = trim_chars(a.as_slice());
                    let bn = trim_chars(b.as_slice());
                    out.push((string_of(an.as_slice()), string_of(bn.as_slice())));
                    assert(pair_views(out@) =~= jj_workspaces(sl, i as int).push(
                        jj_workspace_entry(sl[i as int])->0,
                    ));
                },
            }
            i = i + 1;
        }
        out
    }
}

/// `s` with every leading repetition of `p` removed (`str::trim_start_matches`).
pub open spec fn strip_all_prefix(s: Seq<char>, p: Seq<char>) -> Seq<char>
    decreases s.len(),
{
    if p.len() > 0 && crate::text::seq_starts_with(s, p) {
        strip_all_prefix(s.subrange(p.len() as int, s.len() as int), p)
    } else {
        s
    }
}

/// `s` with every leading repetition of `p` removed.
pub(crate) fn strip_all_prefix_exec(s: &[char], p: &[char]) -> (r: Vec<char>)
    ensures
        r@ == strip_all_prefix(s@, p@),
{
    let mut lo: usize = 0;
    assert(s@.subrange(0, s@.len() as int) =~= s@);
    while p.len() > 0 && crate::text::matches_at_exec(s, p, lo)
        invariant
            lo <= s.len(),
            strip_all_prefix(s@, p@) == strip_all_prefix(s@.subrange(lo as int, s@.len() as int), p@),
        decreases s.len() - lo,
    {
        let ghost cur = s@.subrange(lo as int, s@.len() as int);
        assert(cur.subrange(0, p@.len() as int) =~= s@.subrange(lo as int, lo + p@.len()));
        assert(cur.subrange(p@.len() as int, cur.len() as int) =~= s@.subrange(
            lo + p@.len(),
            s@.len() as int,
        ));
        lo = lo + p.len();
    }
    proof {
        let cur = s@.subrange(lo as int, s@.len() as int);
        if p@.len() > 0 && crate::text::seq_starts_with(cur, p@) {
            assert(cur.subrange(0, p@.len() as int) =~= s@.subrange(lo as int, lo + p@.len()));
        }
    }
    slice_chars(s, lo, s.len())
}

/// A worktree being read from `git worktree list --porcelain`: (path, branch, commit).
pub type PorcelainEntry = (Seq<char>, Seq<char>, Seq<char>);

/// The effect of one porcelain line on (finished entries, entry being read).
pub open spec fn porcelain_step(
    state: (Seq<PorcelainEntry>, Option<PorcelainEntry>),
    l: Seq<char>,
) -> (Seq<PorcelainEntry>, Option<PorcelainEntry>) {
    let (done, cur) = state;
    if crate::text::seq_starts_with(l, "worktree "@) {
        let done2 = match cur {
            Some(e) => done.push(e),
            None => done,
        };
        (done2, Some((strip_all_prefix(l, "worktree "@), Seq::empty(), Seq::empty())))
    } else if crate::text::seq_starts_with(l, "HEAD "@) {
        (done, match cur {
            Some(e) => Some((e.0, e.1, strip_all_prefix(l, "HEAD "@))),
            None => None,
        })
    } else if crate::text::seq_starts_with(l, "branch "@) {
        let full = strip_all_prefix(l, "branch "@);
        let b = if crate::text::seq_starts_with(full, "refs/heads/"@) {
            full.subrange(11, full.len() as int)
        } else {
            full
        };
        (done, match cur {
            Some(e) => Some((e.0, b, e.2)),
            None => None,
        })
    } else if crate::text::seq_starts_with(l, "detached"@) {
        (done, match cur {
            Some(e) => Some((e.0, "(detached)"@, e.2)),
            None => None,
        })
    } else {
        state
    }
}

/// The state after the first `n` porcelain lines.
pub open spec fn porcelain_state(ls: Seq<Seq<char>>, n: int) -> (Seq<PorcelainEntry>, Option<PorcelainEntry>)
    decreases n,
{
    if n <= 0 {
        (Seq::empty(), None)
    } else {
        porcelain_step(porcelain_state(ls, n - 1), ls[n - 1])
    }
}

/// The worktrees that `git worktree list --porcelain` output describes, in order.
pub open spec fn porcelain_entries(output: Seq<char>) -> Seq<PorcelainEntry> {
    let ls = spec_lines(output);
    let (done, cur) = porcelain_state(ls, ls.len() as int);
    match cur {
        Some(e) => done.push(e),
        None => done,
    }
}

/// The name of a worktree at `path`: its final component, or `unknown`.
pub open spec fn worktree_name_of(path: Seq<char>) -> Seq<char> {
    match spec_path_file_name(path) {
        Some(n) => n,
        None => "unknown"@,
    }
}

/// `w` is the worktree that porcelain entry `e` describes (parent not yet known).
pub open spec fn worktree_from_entry(w: Worktree, e: PorcelainEntry) -> bool {
    &&& w.path@ == e.0
    &&& w.branch@ == e.1
    &&& w.commit@ == e.2
    &&& w.name@ == worktree_name_of(e.0)
    &&& w.parent is None
}

fn finish_entry(e: (Vec<char>, Vec<char>, Vec<char>)) -> (w: Worktree)
    ensures
        worktree_from_entry(w, (e.0@, e.1@, e.2@)),
{
    let path = string_of(e.0.as_slice());
    let name = match path_file_name(path.as_str()) {
        Some(n) => n,
        None => String::from_str("unknown"),
    };
    Worktree {
        name,
        path,
        branch: string_of(e.1.as_slice()),
        commit: string_of(e.2.as_slice()),
        parent: None,
    }
}

/// Parses `git worktree list --porcelain` output. Parents are not part of the output and
/// are left unset.
pub fn parse_worktree_list(output: &str) -> (r: Vec<Worktree>)
    ensures
        r@.len() == porcelain_entries(output@).len(),
        forall|i: int|
            0 <= i < r@.len() ==> worktree_from_entry(#[trigger] r@[i], porcelain_entries(output@)[i]),
{
    let v = chars_of(output);
    let ls = split_lines(v.as_slice());
    let ghost sl = spec_lines(output@);
    let p_wt = chars_of("worktree ");
    let p_head = chars_of("HEAD ");
    let p_branch = chars_of("branch ");
    let p_refs = chars_of("refs/heads/");
    let p_det = chars_of("detached");
    proof {
        reveal_strlit("refs/heads/");
    }
    let mut out: Vec<Worktree> = Vec::new();
    let mut cur: Option<(Vec<char>, Vec<char>, Vec<char>)> = None;
    let mut i: usize = 0;
    while i < ls.len()
        invariant
            sl == spec_lines(output@),
            ls@.len() == sl.len(),
            forall|k: int| 0 <= k < ls@.len() ==> #[trigger] ls@[k]@ == sl[k],
            p_wt@ == "worktree "@,
            p_head@ == "HEAD "@,
            p_branch@ == "branch "@,
            p_refs@ == "refs/heads/"@,
            p_refs@.len() == 11,
            p_det@ == "detached"@,
            i <= ls.len(),
            out@.len() == porcelain_state(sl, i as int).0.len(),
            forall|k: int|
                0 <= k < out@.len() ==> worktree_from_entry(
                    #[trigger] out@[k],
                    porcelain_state(sl, i as int).0[k],
                ),
            match cur {
                Some(e) => porcelain_state(sl, i as int).1 == Some((e.0@, e.1@, e.2@)),
                None => porcelain_state(sl, i as int).1 is None,
            },
        decreases ls.len() - i,
    {
        let l = &ls[i];
        assert(l@ == sl[i as int]);
        let ghost st = porcelain_state(sl, i as int);
        if crate::text::starts_with(l.as_slice(), p_wt.as_slice()) {
            let path = strip_all_prefix_exec(l.as_slice(), p_wt.as_slice());
            let prev = cur;
            cur = Some((path, Vec::new(), Vec::new()));
            match prev {
                Some(e) => {
                    let ghost ev = (e.0@, e.1@, e.2@);
                    let w = finish_entry(e);
                    let ghost before = out@;
                    out.push(w);
                    proof {
                        assert forall|k: int| 0 <= k < out@.len() implies worktree_from_entry(
                            #[trigger] out@[k],
                            porcelain_state(sl, i + 1).0[k],
                        ) by {
                            if k < out@.len() - 1 {
                                assert(out@[k] == before[k]);
                            }
                        }
                    }
                },
                None => {},
            }
        } else if crate::text::starts_with(l.as_slice(), p_head.as_slice()) {
            match cur {
                Some((p, b, _)) => {
                    let c = strip_all_prefix_exec(l.as_slice(), p_head.as_slice());
                    cur = Some((p, b, c));
                },
                None => {},
            }
        } else if crate::text::starts_with(l.as_slice(), p_branch.as_slice()) {
            let full = strip_all_prefix_exec(l.as_slice(), p_branch.as_slice());
            let b = if crate::text::starts_with(full.as_slice(), p_refs.as_slice()) {
                slice_chars(full.as_slice(), 11, full.len())
            } else {
                full
            };
            match cur {
                Some((p, _, c)) => {
                    cur = Some((p, b, c));
                },
                None => {},
            }
        } else if crate::text::starts_with(l.as_slice(), p_det.as_slice()) {
            match cur {
                Some((p, _, c)) => {
                    let d = chars_of("(detached)");
                    cur = Some((p, d, c));
                },
                None => {},
            }
        }
        i = i + 1;
    }
    match cur {
        Some(e) => {
            let w = finish_entry(e);
            let ghost before = out@;
            out.push(w);
            proof {
                assert forall|k: int| 0 <= k < out@.len() implies worktree_from_entry(
                    #[trigger] out@[k],
                    porcelain_entries(output@)[k],
                ) by {
                    if k < out@.len() - 1 {
                        assert(out@[k] == before[k]);
                    }
                }
            }
        },
        None => {},
    }
    out
}

/// A porcelain line that starts with none of the keywords `worktree `, `HEAD `, `branch `
/// and `detached` (such as the blank line between entries).
pub open spec fn plain_porcelain_line(l: Seq<char>) -> bool {
    &&& !crate::text::seq_starts_with(l, "worktree "@)
    &&& !crate::text::seq_starts_with(l, "HEAD "@)
    &&& !crate::text::seq_starts_with(l, "branch "@)
    &&& !crate::text::seq_starts_with(l, "detached"@)
}

proof fn lemma_first_char_of_prefix(l: Seq<char>, p: Seq<char>)
    requires
        crate::text::seq_starts_with(l, p),
        p.len() > 0,
    ensures
        l.len() > 0 && l[0] == p[0],
{
    assert(l.subrange(0, p.len() as int)[0] == l[0]);
}

proof fn lemma_plain_run(ls: Seq<Seq<char>>, a: int, e: int)
    requires
        0 <= a <= e <= ls.len(),
        forall|m: int| a <= m < e ==> plain_porcelain_line(#[trigger] ls[m]),
    ensures
        porcelain_state(ls, e) == porcelain_state(ls, a),
    decreases e - a,
{
    if a < e {
        lemma_plain_run(ls, a, e - 1);
        assert(plain_porcelain_line(ls[e - 1]));
    }
}

proof fn lemma_done_grows(ls: Seq<Seq<char>>, n: int, m: int)
    requires
        0 <= n <= m <= ls.len(),
    ensures
        porcelain_state(ls, n).0.len() <= porcelain_state(ls, m).0.len(),
        forall|x: int|
            0 <= x < porcelain_state(ls, n).0.len() ==> #[trigger] porcelain_state(ls, m).0[x]
                == porcelain_state(ls, n).0[x],
    decreases m - n,
{
    if n < m {
        lemma_done_grows(ls, n, m - 1);
        let before = porcelain_state(ls, m - 1).0;
        let after = porcelain_state(ls, m).0;
        assert(after == before || after == before.push(porcelain_state(ls, m - 1).1->0));
        assert forall|x: int| 0 <= x < porcelain_state(ls, n).0.len() implies #[trigger] porcelain_state(
            ls,
            m,
        ).0[x] == porcelain_state(ls, n).0[x] by {
            assert(after[x] == before[x]);
        }
    }
}

proof fn lemma_entry_kept(output: Seq<char>, a: int, e: int, entry: PorcelainEntry)
    requires
        0 <= a <= e <= spec_lines(output).len(),
        porcelain_state(spec_lines(output), a).1 == Some(entry),
        forall|m: int| a <= m < e ==> plain_porcelain_line(#[trigger] spec_lines(output)[m]),
        e == spec_lines(output).len() || crate::text::seq_starts_with(spec_lines(output)[e], "worktree "@),
    ensures
        exists|idx: int|
            0 <= idx < porcelain_entries(output).len() && #[trigger] porcelain_entries(output)[idx] == entry,
{
    let ls = spec_lines(output);
    lemma_plain_run(ls, a, e);
    let done = porcelain_state(ls, e).0;
    let idx = done.len() as int;
    let entries = porcelain_entries(output);
    if e == ls.len() {
        assert(entries == done.push(entry));
    } else {
        assert(porcelain_state(ls, e + 1).0 == done.push(entry));
        lemma_done_grows(ls, e + 1, ls.len() as int);
        let fin = porcelain_state(ls, ls.len() as int);
        assert(fin.0[idx] == entry);
    }
    assert(entries[idx] == entry);
}

/// A porcelain block `worktree P` / `HEAD C` / `detached`, followed by lines without
/// keywords up to the next `worktree ` line or the end, gives a worktree at `P` with commit
/// `C` whose branch is exactly `(detached)`.
pub proof fn law_detached_worktree(output: Seq<char>, k: int, e: int, ws: Seq<Worktree>)
    requires
        0 <= k,
        k + 3 <= e <= spec_lines(output).len(),
        crate::text::seq_starts_with(spec_lines(output)[k], "worktree "@),
        crate::text::seq_starts_with(spec_lines(output)[k + 1], "HEAD "@),
        crate::text::seq_starts_with(spec_lines(output)[k + 2], "detached"@),
        forall|m: int| k + 3 <= m < e ==> plain_porcelain_line(#[trigger] spec_lines(output)[m]),
        e == spec_lines(output).len() || crate::text::seq_starts_with(spec_lines(output)[e], "worktree "@),
        ws.len() == porcelain_entries(output).len(),
        forall|i: int| 0 <= i < ws.len() ==> worktree_from_entry(#[trigger] ws[i], porcelain_entries(output)[i]),
    ensures
        exists|i: int|
            0 <= i < ws.len() && (#[trigger] ws[i]).branch@ == "(detached)"@ && ws[i].path@ == strip_all_prefix(
                spec_lines(output)[k],
                "worktree "@,
            ) && ws[i].commit@ == strip_all_prefix(spec_lines(output)[k + 1], "HEAD "@),
{
    reveal_strlit("worktree ");
    reveal_strlit("HEAD ");
    reveal_strlit("branch ");
    reveal_strlit("detached");
    let ls = spec_lines(output);
    let path = strip_all_prefix(ls[k], "worktree "@);
    let commit = strip_all_prefix(ls[k + 1], "HEAD "@);
    let entry: PorcelainEntry = (path, "(detached)"@, commit);
    lemma_first_char_of_prefix(ls[k + 1], "HEAD "@);
    lemma_first_char_of_prefix(ls[k + 2], "detached"@);
    if crate::text::seq_starts_with(ls[k + 1], "worktree "@) {
        lemma_first_char_of_prefix(ls[k + 1], "worktree "@);
    }
    if crate::text::seq_starts_with(ls[k + 2], "worktree "@) {
        lemma_first_char_of_prefix(ls[k + 2], "worktree "@);
    }
    if crate::text::seq_starts_with(ls[k + 2], "HEAD "@) {
        lemma_first_char_of_prefix(ls[k + 2], "HEAD "@);
    }
    if crate::text::seq_starts_with(ls[k + 2], "branch "@) {
        lemma_first_char_of_prefix(ls[k + 2], "branch "@);
    }
    assert(porcelain_state(ls, k + 1).1 == Some((path, Seq::<char>::empty(), Seq::<char>::empty())));
    assert(porcelain_state(ls, k + 2).1 == Some((path, Seq::<char>::empty(), commit)));
    assert(porcelain_state(ls, k + 3).1 == Some(entry));
    lemma_entry_kept(output, k + 3, e, entry);
    let idx = choose|idx: int|
        0 <= idx < porcelain_entries(output).len() && #[trigger] porcelain_entries(output)[idx] == entry;
    assert(worktree_from_entry(ws[idx], porcelain_entries(output)[idx]));
}

/// A porcelain block `worktree P` / `HEAD C` / `branch refs/heads/NAME`, followed by lines
/// without keywords up to the next `worktree ` line or the end, gives a worktree at `P`
/// with commit `C` on branch `NAME` (the `refs/heads/` part removed).
pub proof fn law_branch_worktree(output: Seq<char>, k: int, e: int, name: Seq<char>, ws: Seq<Worktree>)
    requires
        0 <= k,
        k + 3 <= e <= spec_lines(output).len(),
        crate::text::seq_starts_with(spec_lines(output)[k], "worktree "@),
        crate::text::seq_starts_with(spec_lines(output)[k + 1], "HEAD "@),
        spec_lines(output)[k + 2] == "branch refs/heads/"@ + name,
        forall|m: int| k + 3 <= m < e ==> plain_porcelain_line(#[trigger] spec_lines(output)[m]),
        e == spec_lines(output).len() || crate::text::seq_starts_with(spec_lines(output)[e], "worktree "@),
        ws.len() == porcelain_entries(output).len(),
        forall|i: int| 0 <= i < ws.len() ==> worktree_from_entry(#[trigger] ws[i], porcelain_entries(output)[i]),
    ensures
        exists|i: int|
            0 <= i < ws.len() && (#[trigger] ws[i]).branch@ == name && ws[i].path@ == strip_all_prefix(
                spec_lines(output)[k],
                "worktree "@,
            ) && ws[i].commit@ == strip_all_prefix(spec_lines(output)[k + 1], "HEAD "@),
{
    reveal_strlit("worktree ");
    reveal_strlit("HEAD ");
    reveal_strlit("branch ");
    reveal_strlit("branch refs/heads/");
    reveal_strlit("refs/heads/");
    let ls = spec_lines(output);
    let l = ls[k + 2];
    let path = strip_all_prefix(ls[k], "worktree "@);
    let commit = strip_all_prefix(ls[k + 1], "HEAD "@);
    let entry: PorcelainEntry = (path, name, commit);
    lemma_first_char_of_prefix(ls[k + 1], "HEAD "@);
    if crate::text::seq_starts_with(ls[k + 1], "worktree "@) {
        lemma_first_char_of_prefix(ls[k + 1], "worktree "@);
    }
    assert(l[0] == 'b');
    if crate::text::seq_starts_with(l, "worktree "@) {
        lemma_first_char_of_prefix(l, "worktree "@);
    }
    if crate::text::seq_starts_with(l, "HEAD "@) {
        lemma_first_char_of_prefix(l, "HEAD "@);
    }
    assert(l.subrange(0, 7) =~= "branch "@);
    let full = l.subrange(7, l.len() as int);
    assert(full =~= "refs/heads/"@ + name);
    if crate::text::seq_starts_with(full, "branch "@) {
        lemma_first_char_of_prefix(full, "branch "@);
    }
    assert(strip_all_prefix(full, "branch "@) == full);
    assert(strip_all_prefix(l, "branch "@) == full);
    assert(full.subrange(0, 11) =~= "refs/heads/"@);
    assert(full.subrange(11, full.len() as int) =~= name);
    assert(porcelain_state(ls, k + 1).1 == Some((path, Seq::<char>::empty(), Seq::<char>::empty())));
    assert(porcelain_state(ls, k + 2).1 == Some((path, Seq::<char>::empty(), commit)));
    assert(porcelain_state(ls, k + 3).1 == Some(entry));
    lemma_entry_kept(output, k + 3, e, entry);
    let idx = choose|idx: int|
        0 <= idx < porcelain_entries(output).len() && #[trigger] porcelain_entries(output)[idx] == entry;
    assert(worktree_from_entry(ws[idx], porcelain_entries(output)[idx]));
}


/// The first worktree whose directory contains `dir` (the current workspace); not in a
/// repository when there is none.
pub fn workspace_containing(worktrees: &Vec<Worktree>, dir: &str) -> (r: Result<usize, HnError>)
    ensures
        match r {
            Ok(i) => i < worktrees@.len() && crate::paths::spec_path_starts_with(
                dir@,
                worktrees@[i as int].path@,
            ) && forall|j: int|
                0 <= j < i ==> !crate::paths::spec_path_starts_with(dir@, (#[trigger] worktrees@[j]).path@),
            Err(e) => e is NotInRepository && forall|j: int|
                0 <= j < worktrees@.len() ==> !crate::paths::spec_path_starts_with(
                    dir@,
                    (#[trigger] worktrees@[j]).path@,
                ),
        },
{
    let mut i: usize = 0;
    while i < worktrees.len()
        invariant
            i <= worktrees@.len(),
            forall|j: int|
                0 <= j < i ==> !crate::paths::spec_path_starts_with(dir@, (#[trigger] worktrees@[j]).path@),
        decreases worktrees.len() - i,
    {
        if crate::paths::path_starts_with(dir, worktrees[i].path.as_str()) {
            return Ok(i);
        }
        i = i + 1;
    }
    Err(HnError::NotInRepository)
}


/// The VCS of the repository at a directory, for opening its backend: the one asked for,
/// else the one whose marker directory the directory holds (`.jj` before `.git` before
/// `.hg`); neither is an error (not in a repository).
pub fn init_backend_with_detection(vcs_type: Option<VcsType>, has_jj: bool, has_git: bool, has_hg: bool) -> (r:
    Result<VcsType, HnError>)
    ensures
        match vcs_type {
            Some(v) => r == Ok::<VcsType, HnError>(v),
            None => if has_jj {
                r == Ok::<VcsType, HnError>(VcsType::Jujutsu)
            } else if has_git {
                r == Ok::<VcsType, HnError>(VcsType::Git)
            } else if has_hg {
                r == Ok::<VcsType, HnError>(VcsType::Mercurial)
            } else {
                r matches Err(HnError::NotInRepository)
            },
        },
{
    resolve_vcs_type(vcs_type, detect_vcs_type(has_jj, has_git, has_hg))
}

} // verus!
