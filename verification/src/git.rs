//! What the library decides from the `git` command's output: the error a failed command
//! becomes, the version `git --version` reports, and whether that version can do sparse
//! checkouts.
use vstd::prelude::*;
use crate::error::{HnError, views};
use crate::paths::{path_join, path_parent, spec_path_join, spec_path_parent};
use crate::vcs::Worktree;
use crate::text::{
    chars_of, concat2, concat3, decimal, is_whitespace, spec_decimal, spec_is_whitespace,
    spec_trim, string_of, trim_chars,
};

verus! {

/// The words of `s` read so far and the word being read, after the characters of `s`.
pub open spec fn words_state(s: Seq<char>) -> (Seq<Seq<char>>, Seq<char>)
    decreases s.len(),
{
    if s.len() == 0 {
        (Seq::empty(), Seq::empty())
    } else {
        let (ws, cur) = words_state(s.drop_last());
        let c = s.last();
        if spec_is_whitespace(c) {
            if cur.len() > 0 {
                (ws.push(cur), Seq::empty())
            } else {
                (ws, cur)
            }
        } else {
            (ws, cur.push(c))
        }
    }
}

/// The maximal runs of non-whitespace characters of `s`, in order, as
/// `str::split_whitespace` yields them.
pub open spec fn spec_words(s: Seq<char>) -> Seq<Seq<char>> {
    let (ws, cur) = words_state(s);
    if cur.len() > 0 {
        ws.push(cur)
    } else {
        ws
    }
}

/// The pieces of `s` before the last separator, and the piece after it.
pub open spec fn split_state(s: Seq<char>, sep: char) -> (Seq<Seq<char>>, Seq<char>)
    decreases s.len(),
{
    if s.len() == 0 {
        (Seq::empty(), Seq::empty())
    } else {
        let (ps, cur) = split_state(s.drop_last(), sep);
        if s.last() == sep {
            (ps.push(cur), Seq::empty())
        } else {
            (ps, cur.push(s.last()))
        }
    }
}

/// The pieces of `s` between occurrences of `sep`, empty ones included, as `str::split`
/// yields them for a character.
pub open spec fn spec_split(s: Seq<char>, sep: char) -> Seq<Seq<char>> {
    let (ps, cur) = split_state(s, sep);
    ps.push(cur)
}

/// The words of `s`.
pub fn split_words(s: &str) -> (r: Vec<Vec<char>>)
    ensures
        r@.map_values(|w: Vec<char>| w@) == spec_words(s@),
{
    let c = chars_of(s);
    let mut words: Vec<Vec<char>> = Vec::new();
    let mut cur: Vec<char> = Vec::new();
    let mut i: usize = 0;
    while i < c.len()
        invariant
            c@ == s@,
            i <= c.len(),
            (words@.map_values(|w: Vec<char>| w@), cur@) == words_state(s@.take(i as int)),
        decreases c.len() - i,
    {
        let ghost before = s@.take(i as int);
        assert(s@.take(i + 1).drop_last() =~= before);
        assert(s@.take(i + 1).last() == c@[i as int]);
        if is_whitespace(c[i]) {
            if cur.len() > 0 {
                let ghost cv = cur@;
                let done = cur;
                words.push(done);
                cur = Vec::new();
                assert(words@.map_values(|w: Vec<char>| w@) =~= words_state(before).0.push(cv));
            }
        } else {
            cur.push(c[i]);
        }
        i = i + 1;
    }
    assert(s@.take(c.len() as int) =~= s@);
    if cur.len() > 0 {
        let ghost ws = words@.map_values(|w: Vec<char>| w@);
        let ghost cv = cur@;
        words.push(cur);
        assert(words@.map_values(|w: Vec<char>| w@) =~= ws.push(cv));
    }
    words
}

/// The pieces of `s` between occurrences of `sep`.
pub fn split_on(s: &[char], sep: char) -> (r: Vec<Vec<char>>)
    ensures
        r@.map_values(|p: Vec<char>| p@) == spec_split(s@, sep),
{
    let mut pieces: Vec<Vec<char>> = Vec::new();
    let mut cur: Vec<char> = Vec::new();
    let mut i: usize = 0;
    while i < s.len()
        invariant
            i <= s.len(),
            (pieces@.map_values(|p: Vec<char>| p@), cur@) == split_state(s@.take(i as int), sep),
        decreases s.len() - i,
    {
        let ghost before = s@.take(i as int);
        assert(s@.take(i + 1).drop_last() =~= before);
        assert(s@.take(i + 1).last() == s@[i as int]);
        if s[i] == sep {
            let ghost cv = cur@;
            let done = cur;
            pieces.push(done);
            cur = Vec::new();
            assert(pieces@.map_values(|p: Vec<char>| p@) =~= split_state(before, sep).0.push(cv));
        } else {
            cur.push(s[i]);
        }
        i = i + 1;
    }
    assert(s@.take(s.len() as int) =~= s@);
    let ghost ps = pieces@.map_values(|p: Vec<char>| p@);
    let ghost cv = cur@;
    pieces.push(cur);
    assert(pieces@.map_values(|p: Vec<char>| p@) =~= ps.push(cv));
    pieces
}

/// Every character of `s` is an ASCII digit.
pub open spec fn all_digits(s: Seq<char>) -> bool {
    forall|i: int| 0 <= i < s.len() ==> '0' <= #[trigger] s[i] <= '9'
}

/// The number that the decimal digits `s` denote.
pub open spec fn digits_value(s: Seq<char>) -> int
    decreases s.len(),
{
    if s.len() == 0 {
        0
    } else {
        digits_value(s.drop_last()) * 10 + (s.last() as int - '0' as int)
    }
}

/// What `str::parse::<u32>` gives: an optional `+` followed by at least one digit, whose
/// value fits in a `u32`; nothing otherwise.
pub open spec fn spec_parse_u32(s: Seq<char>) -> Option<u32> {
    let d = if s.len() > 0 && s[0] == '+' {
        s.drop_first()
    } else {
        s
    };
    if d.len() > 0 && all_digits(d) && digits_value(d) <= u32::MAX {
        Some(digits_value(d) as u32)
    } else {
        None
    }
}

proof fn lemma_digits_prefix(d: Seq<char>, i: int)
    requires
        all_digits(d),
        0 <= i <= d.len(),
    ensures
        0 <= digits_value(d.take(i)) <= digits_value(d),
    decreases d.len(),
{
    if d.len() > 0 {
        assert(all_digits(d.drop_last()));
        if i == d.len() {
            assert(d.take(i) =~= d);
            lemma_digits_prefix(d.drop_last(), i - 1);
            assert(d.drop_last().take(i - 1) =~= d.drop_last());
        } else {
            lemma_digits_prefix(d.drop_last(), i);
            assert(d.drop_last().take(i) =~= d.take(i));
            lemma_digits_prefix(d.drop_last(), d.len() - 1);
            assert(d.drop_last().take(d.len() - 1) =~= d.drop_last());
        }
        assert('0' <= d.last() <= '9');
    } else {
        assert(d.take(i) =~= d);
    }
}

/// Reads a `u32` as `str::parse::<u32>` does.
pub fn parse_u32(s: &[char]) -> (r: Option<u32>)
    ensures
        r == spec_parse_u32(s@),
{
    let start: usize = if s.len() > 0 && s[0] == '+' {
        1
    } else {
        0
    };
    let ghost d = if s@.len() > 0 && s@[0] == '+' {
        s@.drop_first()
    } else {
        s@
    };
    assert(d =~= s@.subrange(start as int, s@.len() as int));
    if start == s.len() {
        return None;
    }
    let mut v: u64 = 0;
    let mut i: usize = start;
    assert(d.take(0) =~= Seq::<char>::empty());
    while i < s.len()
        invariant
            start <= i <= s.len(),
            start < s.len(),
            d == s@.subrange(start as int, s@.len() as int),
            d == (if s@.len() > 0 && s@[0] == '+' {
                s@.drop_first()
            } else {
                s@
            }),
            all_digits(d.take(i - start)),
            v as int == digits_value(d.take(i - start)),
            v <= u32::MAX,
        decreases s.len() - i,
    {
        let ch = s[i];
        if !('0' <= ch && ch <= '9') {
            assert(d[i - start] == ch);
            assert(!all_digits(d));
            return None;
        }
        let ghost k = i - start;
        assert(d.take(k + 1).drop_last() =~= d.take(k));
        assert(d.take(k + 1).last() == ch);
        let dig: u64 = (ch as u32 - '0' as u32) as u64;
        assert(dig as int == ch as int - '0' as int);
        v = v * 10 + dig;
        i = i + 1;
        assert(all_digits(d.take(i - start))) by {
            assert forall|j: int| 0 <= j < d.take(i - start).len() implies '0' <= #[trigger] d.take(
                i - start,
            )[j] <= '9' by {
                if j < k {
                    assert(d.take(i - start)[j] == d.take(k)[j]);
                }
            }
        }
        if v > 0xffff_ffff {
            proof {
                if all_digits(d) {
                    lemma_digits_prefix(d, i - start);
                }
            }
            return None;
        }
    }
    assert(d.take(i - start) =~= d);
    Some(v as u32)
}

/// The version `git --version` reports: the third word, split at dots, read as major,
/// minor and patch; a missing or unreadable patch counts as 0.
pub open spec fn spec_parse_git_version(s: Seq<char>) -> Option<(u32, u32, u32)> {
    let words = spec_words(s);
    if words.len() < 3 {
        None
    } else {
        let nums = spec_split(words[2], '.');
        if nums.len() < 2 {
            None
        } else {
            match (spec_parse_u32(nums[0]), spec_parse_u32(nums[1])) {
                (Some(major), Some(minor)) => {
                    let patch = if nums.len() > 2 {
                        match spec_parse_u32(nums[2]) {
                            Some(p) => p,
                            None => 0u32,
                        }
                    } else {
                        0u32
                    };
                    Some((major, minor, patch))
                },
                _ => None,
            }
        }
    }
}

/// Reads the version from the output of `git --version`, such as `git version 2.34.1`.
pub fn parse_git_version(version_str: &str) -> (r: Option<(u32, u32, u32)>)
    ensures
        r == spec_parse_git_version(version_str@),
{
    let words = split_words(version_str);
    proof {
        assert(words@.map_values(|w: Vec<char>| w@).len() == words@.len());
    }
    if words.len() < 3 {
        return None;
    }
    assert(words@.map_values(|w: Vec<char>| w@)[2] == words@[2]@);
    let nums = split_on(words[2].as_slice(), '.');
    proof {
        assert(nums@.map_values(|p: Vec<char>| p@).len() == nums@.len());
    }
    if nums.len() < 2 {
        return None;
    }
    assert(nums@.map_values(|p: Vec<char>| p@)[0] == nums@[0]@);
    assert(nums@.map_values(|p: Vec<char>| p@)[1] == nums@[1]@);
    let major = match parse_u32(nums[0].as_slice()) {
        Some(m) => m,
        None => {
            return None;
        },
    };
    let minor = match parse_u32(nums[1].as_slice()) {
        Some(m) => m,
        None => {
            return None;
        },
    };
    let patch: u32 = if nums.len() > 2 {
        assert(nums@.map_values(|p: Vec<char>| p@)[2] == nums@[2]@);
        match parse_u32(nums[2].as_slice()) {
            Some(p) => p,
            None => 0,
        }
    } else {
        0
    };
    Some((major, minor, patch))
}

/// `a` comes before `b` in the order of versions: by major, then minor, then patch.
pub open spec fn version_before(a: (u32, u32, u32), b: (u32, u32, u32)) -> bool {
    a.0 < b.0 || (a.0 == b.0 && (a.1 < b.1 || (a.1 == b.1 && a.2 < b.2)))
}

/// Whether a sparse checkout may go ahead, given the output of `git --version`: refused
/// when that output names a version before 2.25.0; output that cannot be read lets it go
/// ahead.
pub fn check_sparse_checkout_support(version_output: &str) -> (r: Result<(), HnError>)
    ensures
        match spec_parse_git_version(version_output@) {
            Some(v) => if version_before(v, (2u32, 25u32, 0u32)) {
                r matches Err(HnError::Git(m)) && m@ == "Sparse checkout requires Git >= 2.25.0 (found "@
                    + spec_trim(version_output@) + ")"@
            } else {
                r is Ok
            },
            None => r is Ok,
        },
{
    match parse_git_version(version_output) {
        Some(v) => {
            let (a, b, c) = v;
            if a < 2 || (a == 2 && (b < 25 || (b == 25 && c < 0))) {
                let t = trim_chars(chars_of(version_output).as_slice());
                let found = string_of(t.as_slice());
                Err(
                    HnError::Git(
                        concat3(
                            "Sparse checkout requires Git >= 2.25.0 (found ",
                            found.as_str(),
                            ")",
                        ),
                    ),
                )
            } else {
                Ok(())
            }
        },
        None => Ok(()),
    }
}

/// The decimal notation of `n`, with a minus sign when it is negative.
pub open spec fn spec_signed_decimal(n: int) -> Seq<char> {
    if n < 0 {
        "-"@ + spec_decimal((-n) as nat)
    } else {
        spec_decimal(n as nat)
    }
}

/// The decimal notation of `n`, as `format!("{}", n)` writes it.
pub fn signed_decimal(n: i32) -> (r: String)
    ensures
        r@ == spec_signed_decimal(n as int),
{
    if n < 0 {
        let m: u64 = (0i64 - n as i64) as u64;
        let d = decimal(m);
        concat2("-", d.as_str())
    } else {
        decimal(n as u64)
    }
}

/// The message of a failed `git` command run for `context`: its trimmed error output, else
/// its trimmed standard output, else its exit code (-1 when it was ended by a signal).
pub open spec fn git_failure_message(
    context: Seq<char>,
    stderr: Seq<char>,
    stdout: Seq<char>,
    exit_code: Option<i32>,
) -> Seq<char> {
    if stderr.len() > 0 {
        context + ": "@ + spec_trim(stderr)
    } else if stdout.len() > 0 {
        context + ": "@ + spec_trim(stdout)
    } else {
        context + " (exit code: "@ + spec_signed_decimal(
            match exit_code {
                Some(c) => c as int,
                None => -1,
            },
        ) + ")"@
    }
}

/// The error a failed `git` command becomes, from what it printed and how it ended.
pub fn git_error(context: &str, stderr: &str, stdout: &str, exit_code: Option<i32>) -> (r: HnError)
    ensures
        r matches HnError::Git(m) && m@ == git_failure_message(context@, stderr@, stdout@, exit_code),
{
    let ctx = String::from_str(context);
    if stderr.unicode_len() > 0 {
        let t = string_of(trim_chars(chars_of(stderr).as_slice()).as_slice());
        HnError::Git(concat3(ctx.as_str(), ": ", t.as_str()))
    } else if stdout.unicode_len() > 0 {
        let t = string_of(trim_chars(chars_of(stdout).as_slice()).as_slice());
        HnError::Git(concat3(ctx.as_str(), ": ", t.as_str()))
    } else {
        let code: i32 = match exit_code {
            Some(c) => c,
            None => -1,
        };
        let d = signed_decimal(code);
        let head = concat3(ctx.as_str(), " (exit code: ", d.as_str());
        HnError::Git(concat2(head.as_str(), ")"))
    }
}


/// Where a new worktree `name` goes: beside the main working tree `workdir`.
pub fn new_worktree_path(workdir: &str, name: &str) -> (r: Result<String, HnError>)
    ensures
        match spec_path_parent(workdir@) {
            Some(p) => r matches Ok(s) && s@ == spec_path_join(p, name@),
            None => r matches Err(HnError::Git(m)) && m@
                == "Could not determine worktree parent directory"@,
        },
{
    match path_parent(workdir) {
        Some(p) => Ok(path_join(p.as_str(), name)),
        None => Err(HnError::Git(String::from_str("Could not determine worktree parent directory"))),
    }
}

/// The arguments of `git` that add the worktree at `path`: on the existing branch `branch`
/// with `no_branch`, else on a new branch `branch` (from `from` when given).
pub open spec fn worktree_add_arg_list(path: Seq<char>, branch: Seq<char>, from: Option<Seq<char>>, no_branch: bool) -> Seq<
    Seq<char>,
> {
    if no_branch {
        seq!["worktree"@, "add"@, path, branch]
    } else {
        seq!["worktree"@, "add"@, "-b"@, branch, path] + match from {
            Some(f) => seq![f],
            None => Seq::<Seq<char>>::empty(),
        }
    }
}

/// The arguments of `git` that add the worktree at `path` (see `worktree_add_arg_list`).
pub fn worktree_add_args(path: &str, branch: &str, from: Option<&str>, no_branch: bool) -> (r: Vec<
    String,
>)
    ensures
        views(r@) == worktree_add_arg_list(
            path@,
            branch@,
            match from {
                Some(f) => Some(f@),
                None => None,
            },
            no_branch,
        ),
{
    let mut r: Vec<String> = Vec::new();
    r.push(String::from_str("worktree"));
    r.push(String::from_str("add"));
    if no_branch {
        r.push(String::from_str(path));
        r.push(String::from_str(branch));
    } else {
        r.push(String::from_str("-b"));
        r.push(String::from_str(branch));
        r.push(String::from_str(path));
        match from {
            Some(f) => {
                r.push(String::from_str(f));
            },
            None => {},
        }
    }
    proof {
        let fv = match from {
            Some(f) => Some(f@),
            None => None,
        };
        assert(views(r@) =~= worktree_add_arg_list(path@, branch@, fv, no_branch));
    }
    r
}

/// Whether a failed `git worktree add -b` is tried again on the existing branch: when a
/// new branch was asked for and git says it already exists.
pub fn retry_with_existing_branch(no_branch: bool, stderr: &str) -> (r: bool)
    ensures
        r == (!no_branch && crate::text::seq_contains(stderr@, "already exists"@)),
{
    !no_branch && crate::text::contains(chars_of(stderr).as_slice(), chars_of("already exists").as_slice())
}

/// A worktree with uncommitted changes is removed only with `--force`.
pub fn check_worktree_removable(name: &str, force: bool, clean: bool) -> (r: Result<(), HnError>)
    ensures
        (force || clean) ==> r is Ok,
        !(force || clean) ==> (r matches Err(HnError::Git(m)) && m@ == "Worktree '"@ + name@
            + "' has uncommitted changes. Use --force to remove anyway."@),
{
    if force || clean {
        Ok(())
    } else {
        Err(
            HnError::Git(
                concat3("Worktree '", name, "' has uncommitted changes. Use --force to remove anyway."),
            ),
        )
    }
}

/// The arguments of `git` that remove the worktree at `path`.
pub fn worktree_remove_args(force: bool, path: &str) -> (r: Vec<String>)
    ensures
        views(r@) == seq!["worktree"@, "remove"@] + (if force {
            seq!["--force"@]
        } else {
            Seq::<Seq<char>>::empty()
        }) + seq![path@],
{
    let mut r: Vec<String> = Vec::new();
    r.push(String::from_str("worktree"));
    r.push(String::from_str("remove"));
    if force {
        r.push(String::from_str("--force"));
    }
    r.push(String::from_str(path));
    proof {
        assert(views(r@) =~= seq!["worktree"@, "remove"@] + (if force {
            seq!["--force"@]
        } else {
            Seq::<Seq<char>>::empty()
        }) + seq![path@]);
    }
    r
}

/// The parent recorded in a worktree's configuration, from the output of
/// `git config --get worktree.parent`: the trimmed output, when the command succeeded and
/// it is not empty.
pub fn parent_from_config(success: bool, stdout: &str) -> (r: Option<String>)
    ensures
        (success && spec_trim(stdout@).len() > 0) ==> (r matches Some(p) && p@ == spec_trim(stdout@)),
        !(success && spec_trim(stdout@).len() > 0) ==> r is None,
{
    if !success {
        return None;
    }
    let t = trim_chars(chars_of(stdout).as_slice());
    if t.len() == 0 {
        None
    } else {
        Some(string_of(t.as_slice()))
    }
}

/// The parent of a worktree being created: the worktree the command runs in, unless that
/// is the main working tree (whose `.git` is a directory) or there is none.
pub fn parent_of_new_worktree(current: Option<&Worktree>, current_is_main: bool) -> (r: Option<String>)
    ensures
        match current {
            Some(w) => if current_is_main {
                r is None
            } else {
                r matches Some(p) && p@ == w.name@
            },
            None => r is None,
        },
{
    match current {
        Some(w) => {
            if current_is_main {
                None
            } else {
                Some(w.name.clone())
            }
        },
        None => None,
    }
}

} // verus!
