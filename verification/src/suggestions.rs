//! What to suggest to the user after an error: each kind of error, and for some kinds
//! the words in its message, selects a few lines of advice. A line is made of plain text
//! and of commands or file names, which are shown highlighted.
use vstd::prelude::*;
use crate::error::HnError;
use crate::text::{chars_of, concat2, concat3, contains, seq_contains};

verus! {

/// A piece of a line of advice.
#[derive(Debug, PartialEq, Eq)]
pub enum Segment {
    /// Text shown as it is.
    Plain(String),
    /// A command or a file name, shown highlighted.
    Code(String),
}

/// A segment as (highlighted, text).
pub open spec fn seg_view(s: Segment) -> (bool, Seq<char>) {
    match s {
        Segment::Plain(t) => (false, t@),
        Segment::Code(t) => (true, t@),
    }
}

/// The lines of advice as sequences of (highlighted, text).
pub open spec fn lines_view(v: Seq<Vec<Segment>>) -> Seq<Seq<(bool, Seq<char>)>> {
    v.map_values(|l: Vec<Segment>| l@.map_values(|s: Segment| seg_view(s)))
}

/// Plain text.
pub open spec fn pl(t: Seq<char>) -> (bool, Seq<char>) {
    (false, t)
}

/// Highlighted text.
pub open spec fn cd(t: Seq<char>) -> (bool, Seq<char>) {
    (true, t)
}

/// The advice for a `git` failure, by the words of its message.
pub open spec fn git_advice(m: Seq<char>) -> Seq<Seq<(bool, Seq<char>)>> {
    if seq_contains(m, "uncommitted changes"@) {
        seq![
            seq![pl("Commit your changes: "@), cd("git commit -am \"message\""@)],
            seq![pl("Stash your changes: "@), cd("git stash"@)],
            seq![pl("Force remove (discards changes): "@), cd("hn remove <name> --force"@)],
        ]
    } else if seq_contains(m, "already exists"@) {
        seq![
            seq![pl("Use "@), cd("hn switch <name>"@), pl(" to switch to existing worktree"@)],
            seq![pl("Use "@), cd("hn add <name> --no-branch"@), pl(" to checkout existing branch"@)],
            seq![pl("Use different worktree name"@)],
        ]
    } else if seq_contains(m, "merge"@) && seq_contains(m, "conflict"@) {
        seq![
            seq![pl("Resolve conflicts manually"@)],
            seq![pl("Check status: "@), cd("git status"@)],
            seq![pl("Abort merge: "@), cd("git merge --abort"@)],
        ]
    } else {
        Seq::empty()
    }
}

/// The advice for a port allocation failure, by the words of its message.
pub open spec fn port_advice(m: Seq<char>) -> Seq<Seq<(bool, Seq<char>)>> {
    if seq_contains(m, "exhausted"@) {
        seq![
            seq![pl("Remove unused worktrees: "@), cd("hn list"@)],
            seq![pl("Configure wider port range in "@), cd(".hannahanna.yml"@)],
            seq![pl("Release ports from removed worktrees: "@), cd("hn ports list"@)],
        ]
    } else {
        seq![
            seq![pl("Check port allocations: "@), cd("hn ports list"@)],
            seq![pl("Release ports: "@), cd("hn ports release <name>"@)],
        ]
    }
}

/// The advice for a Docker failure, by the words of its message.
pub open spec fn docker_advice(m: Seq<char>) -> Seq<Seq<(bool, Seq<char>)>> {
    seq![seq![pl("Check if Docker is running"@)]] + (if seq_contains(m, "not found"@)
        || seq_contains(m, "command not found"@) {
        seq![seq![pl("Install Docker: https://docs.docker.com/get-docker/"@)]]
    } else if seq_contains(m, "permission denied"@) {
        seq![
            seq![pl("Add user to docker group: "@), cd("sudo usermod -aG docker $USER"@)],
            seq![pl("Or run with sudo (not recommended)"@)],
        ]
    } else {
        Seq::empty()
    }) + seq![seq![pl("View Docker logs: "@), cd("hn docker logs <name>"@)]]
}

/// The lines of advice for an error; none for the kinds that have no advice.
pub open spec fn advice(e: HnError) -> Seq<Seq<(bool, Seq<char>)>> {
    match e {
        HnError::WorktreeAlreadyExists(n) => seq![
            seq![pl("Remove existing: "@), cd("hn remove "@ + n@)],
            seq![pl("Use different name: "@), cd("hn add "@ + n@ + "-v2"@)],
            seq![pl("Switch to existing: "@), cd("hn switch "@ + n@)],
        ],
        HnError::WorktreeNotFound(n) => seq![
            seq![pl("List all worktrees: "@), cd("hn list"@)],
            seq![pl("Check the worktree name for typos"@)],
            seq![pl("Create new worktree: "@), cd("hn add "@ + n@)],
        ],
        HnError::AmbiguousWorktreeName(_, _) => seq![
            seq![pl("Use more specific name"@)],
            seq![pl("Use exact worktree name from list above"@)],
        ],
        HnError::NoParent(_) => seq![
            seq![pl("This worktree was not created from another worktree"@)],
            seq![pl("Use "@), cd("hn switch <name>"@), pl(" to switch to a specific worktree"@)],
            seq![pl("Use "@), cd("hn list"@), pl(" to see all worktrees"@)],
        ],
        HnError::NotInRepository => seq![
            seq![pl("Run this command from within a Git repository"@)],
            seq![pl("Check if "@), cd(".git"@), pl(" directory exists"@)],
            seq![pl("Initialize a repository: "@), cd("git init"@)],
        ],
        HnError::InvalidWorktreeName(reason) => seq![
            seq![pl("Use only alphanumeric characters, hyphens, and underscores"@)],
            seq![
                pl("Example valid names: "@),
                cd("feature-x"@),
                pl(", "@),
                cd("fix_bug_123"@),
                pl(", "@),
                cd("hotfix-2024"@),
            ],
        ] + (if seq_contains(reason@, "path"@) {
            seq![seq![pl("Avoid characters with special meaning in file paths"@)]]
        } else {
            Seq::empty()
        }),
        HnError::Git(m) => git_advice(m@),
        HnError::ConfigError(_) => seq![
            seq![pl("Check "@), cd(".hannahanna.yml"@), pl(" for syntax errors"@)],
            seq![pl("Validate YAML syntax online"@)],
            seq![pl("See example config in documentation"@)],
        ],
        HnError::HookError(m) => seq![
            seq![pl("Check hook script in "@), cd(".hannahanna.yml"@)],
            seq![pl("Run hook command manually to debug"@)],
        ] + (if seq_contains(m@, "exit code"@) {
            seq![seq![pl("Hook script returned non-zero exit code"@)]]
        } else {
            Seq::empty()
        }),
        HnError::PortAllocationError(m) => port_advice(m@),
        HnError::DockerError(m) => docker_advice(m@),
        _ => Seq::empty(),
    }
}

fn plain(t: &str) -> (r: Segment)
    ensures
        seg_view(r) == pl(t@),
{
    Segment::Plain(String::from_str(t))
}

fn code(t: &str) -> (r: Segment)
    ensures
        seg_view(r) == cd(t@),
{
    Segment::Code(String::from_str(t))
}

fn code_owned(t: String) -> (r: Segment)
    ensures
        seg_view(r) == cd(t@),
{
    Segment::Code(t)
}

fn line1(a: Segment) -> (r: Vec<Segment>)
    ensures
        r@.map_values(|s: Segment| seg_view(s)) == seq![seg_view(a)],
{
    let ghost va = seg_view(a);
    let mut r: Vec<Segment> = Vec::new();
    r.push(a);
    assert(r@.map_values(|s: Segment| seg_view(s)) =~= seq![va]);
    r
}

fn line2(a: Segment, b: Segment) -> (r: Vec<Segment>)
    ensures
        r@.map_values(|s: Segment| seg_view(s)) == seq![seg_view(a), seg_view(b)],
{
    let ghost va = seg_view(a);
    let ghost vb = seg_view(b);
    let mut r: Vec<Segment> = Vec::new();
    r.push(a);
    r.push(b);
    assert(r@.map_values(|s: Segment| seg_view(s)) =~= seq![va, vb]);
    r
}

fn line3(a: Segment, b: Segment, c: Segment) -> (r: Vec<Segment>)
    ensures
        r@.map_values(|s: Segment| seg_view(s)) == seq![seg_view(a), seg_view(b), seg_view(c)],
{
    let ghost va = seg_view(a);
    let ghost vb = seg_view(b);
    let ghost vc = seg_view(c);
    let mut r: Vec<Segment> = Vec::new();
    r.push(a);
    r.push(b);
    r.push(c);
    assert(r@.map_values(|s: Segment| seg_view(s)) =~= seq![va, vb, vc]);
    r
}

/// Appends a line to the advice.
fn add_line(lines: &mut Vec<Vec<Segment>>, line: Vec<Segment>)
    ensures
        lines_view(final(lines)@) == lines_view(old(lines)@).push(
            line@.map_values(|s: Segment| seg_view(s)),
        ),
{
    let ghost before = lines_view(lines@);
    let ghost lv = line@.map_values(|s: Segment| seg_view(s));
    lines.push(line);
    assert(lines_view(lines@) =~= before.push(lv));
}

fn has(text: &str, word: &str) -> (r: bool)
    ensures
        r == seq_contains(text@, word@),
{
    contains(chars_of(text).as_slice(), chars_of(word).as_slice())
}

fn git_lines(m: &str) -> (r: Vec<Vec<Segment>>)
    ensures
        lines_view(r@) == git_advice(m@),
{
    let mut r: Vec<Vec<Segment>> = Vec::new();
    if has(m, "uncommitted changes") {
        add_line(&mut r, line2(plain("Commit your changes: "), code("git commit -am \"message\"")));
        add_line(&mut r, line2(plain("Stash your changes: "), code("git stash")));
        add_line(
            &mut r,
            line2(plain("Force remove (discards changes): "), code("hn remove <name> --force")),
        );
    } else if has(m, "already exists") {
        add_line(
            &mut r,
            line3(plain("Use "), code("hn switch <name>"), plain(" to switch to existing worktree")),
        );
        add_line(
            &mut r,
            line3(
                plain("Use "),
                code("hn add <name> --no-branch"),
                plain(" to checkout existing branch"),
            ),
        );
        add_line(&mut r, line1(plain("Use different worktree name")));
    } else if has(m, "merge") && has(m, "conflict") {
        add_line(&mut r, line1(plain("Resolve conflicts manually")));
        add_line(&mut r, line2(plain("Check status: "), code("git status")));
        add_line(&mut r, line2(plain("Abort merge: "), code("git merge --abort")));
    }
    assert(lines_view(r@) =~~= git_advice(m@));
    r
}

fn port_lines(m: &str) -> (r: Vec<Vec<Segment>>)
    ensures
        lines_view(r@) == port_advice(m@),
{
    let mut r: Vec<Vec<Segment>> = Vec::new();
    if has(m, "exhausted") {
        add_line(&mut r, line2(plain("Remove unused worktrees: "), code("hn list")));
        add_line(&mut r, line2(plain("Configure wider port range in "), code(".hannahanna.yml")));
        add_line(
            &mut r,
            line2(plain("Release ports from removed worktrees: "), code("hn ports list")),
        );
    } else {
        add_line(&mut r, line2(plain("Check port allocations: "), code("hn ports list")));
        add_line(&mut r, line2(plain("Release ports: "), code("hn ports release <name>")));
    }
    assert(lines_view(r@) =~~= port_advice(m@));
    r
}

fn docker_lines(m: &str) -> (r: Vec<Vec<Segment>>)
    ensures
        lines_view(r@) == docker_advice(m@),
{
    let mut r: Vec<Vec<Segment>> = Vec::new();
    add_line(&mut r, line1(plain("Check if Docker is running")));
    if has(m, "not found") || has(m, "command not found") {
        add_line(&mut r, line1(plain("Install Docker: https://docs.docker.com/get-docker/")));
    } else if has(m, "permission denied") {
        add_line(
            &mut r,
            line2(plain("Add user to docker group: "), code("sudo usermod -aG docker $USER")),
        );
        add_line(&mut r, line1(plain("Or run with sudo (not recommended)")));
    }
    add_line(&mut r, line2(plain("View Docker logs: "), code("hn docker logs <name>")));
    assert(lines_view(r@) =~~= docker_advice(m@));
    r
}

/// The lines of advice shown after `error`, under a "Suggestions" heading when there are
/// any.
pub fn suggestions_for(error: &HnError) -> (r: Vec<Vec<Segment>>)
    ensures
        lines_view(r@) == advice(*error),
{
    let mut r: Vec<Vec<Segment>> = Vec::new();
    match error {
        HnError::WorktreeAlreadyExists(n) => {
            add_line(&mut r, line2(plain("Remove existing: "), code_owned(concat2("hn remove ", n))));
            add_line(
                &mut r,
                line2(plain("Use different name: "), code_owned(concat3("hn add ", n, "-v2"))),
            );
            add_line(
                &mut r,
                line2(plain("Switch to existing: "), code_owned(concat2("hn switch ", n))),
            );
        },
        HnError::WorktreeNotFound(n) => {
            add_line(&mut r, line2(plain("List all worktrees: "), code("hn list")));
            add_line(&mut r, line1(plain("Check the worktree name for typos")));
            add_line(&mut r, line2(plain("Create new worktree: "), code_owned(concat2("hn add ", n))));
        },
        HnError::AmbiguousWorktreeName(_, _) => {
            add_line(&mut r, line1(plain("Use more specific name")));
            add_line(&mut r, line1(plain("Use exact worktree name from list above")));
        },
        HnError::NoParent(_) => {
            add_line(&mut r, line1(plain("This worktree was not created from another worktree")));
            add_line(
                &mut r,
                line3(plain("Use "), code("hn switch <name>"), plain(" to switch to a specific worktree")),
            );
            add_line(&mut r, line3(plain("Use "), code("hn list"), plain(" to see all worktrees")));
        },
        HnError::NotInRepository => {
            add_line(&mut r, line1(plain("Run this command from within a Git repository")));
            add_line(&mut r, line3(plain("Check if "), code(".git"), plain(" directory exists")));
            add_line(&mut r, line2(plain("Initialize a repository: "), code("git init")));
        },
        HnError::InvalidWorktreeName(reason) => {
            add_line(
                &mut r,
                line1(plain("Use only alphanumeric characters, hyphens, and underscores")),
            );
            let mut names: Vec<Segment> = Vec::new();
            names.push(plain("Example valid names: "));
            names.push(code("feature-x"));
            names.push(plain(", "));
            names.push(code("fix_bug_123"));
            names.push(plain(", "));
            names.push(code("hotfix-2024"));
            add_line(&mut r, names);
            if has(reason.as_str(), "path") {
                add_line(&mut r, line1(plain("Avoid characters with special meaning in file paths")));
            }
        },
        HnError::Git(m) => {
            r = git_lines(m.as_str());
        },
        HnError::ConfigError(_) => {
            add_line(
                &mut r,
                line3(plain("Check "), code(".hannahanna.yml"), plain(" for syntax errors")),
            );
            add_line(&mut r, line1(plain("Validate YAML syntax online")));
            add_line(&mut r, line1(plain("See example config in documentation")));
        },
        HnError::HookError(m) => {
            add_line(&mut r, line2(plain("Check hook script in "), code(".hannahanna.yml")));
            add_line(&mut r, line1(plain("Run hook command manually to debug")));
            if has(m.as_str(), "exit code") {
                add_line(&mut r, line1(plain("Hook script returned non-zero exit code")));
            }
        },
        HnError::PortAllocationError(m) => {
            r = port_lines(m.as_str());
        },
        HnError::DockerError(m) => {
            r = docker_lines(m.as_str());
        },
        _ => {},
    }
    assert(lines_view(r@) =~~= advice(*error));
    r
}


/// The numbered list of the worktrees an ambiguous name matched: line `i` is `i+1. ` and
/// the worktree's name, highlighted.
pub open spec fn match_lines(matches: Seq<String>) -> Seq<Seq<(bool, Seq<char>)>> {
    Seq::new(
        matches.len(),
        |i: int| seq![pl(crate::text::spec_decimal((i + 1) as nat) + ". "@), cd(matches[i]@)],
    )
}

/// For an ambiguous worktree name, the name asked for and the numbered list of the
/// worktrees it matched, shown before the suggestions; for any other error, nothing.
pub fn ambiguity_list(error: &HnError) -> (r: Option<(String, Vec<Vec<Segment>>)>)
    ensures
        match error {
            HnError::AmbiguousWorktreeName(q, ms) => r matches Some((n, ls)) && n@ == q@ && lines_view(ls@)
                == match_lines(ms@),
            _ => r is None,
        },
{
    match error {
        HnError::AmbiguousWorktreeName(q, ms) => {
            let mut ls: Vec<Vec<Segment>> = Vec::new();
            let mut i: usize = 0;
            while i < ms.len()
                invariant
                    i <= ms@.len(),
                    lines_view(ls@) == match_lines(ms@).take(i as int),
                decreases ms.len() - i,
            {
                let num = crate::text::decimal((i + 1) as u64);
                let head = concat2(num.as_str(), ". ");
                let line = line2(Segment::Plain(head), code_owned(ms[i].clone()));
                add_line(&mut ls, line);
                assert(lines_view(ls@) =~= match_lines(ms@).take(i + 1));
                i = i + 1;
            }
            assert(match_lines(ms@).take(ms@.len() as int) =~= match_lines(ms@));
            Some((q.clone(), ls))
        },
        _ => None,
    }
}

} // verus!
