//! What the statistics report and the monitoring dashboard show: which worktrees, which
//! stretch of the metrics history, the trend of the disk usage, and how long texts are cut.
use vstd::prelude::*;
use vstd::string::StringSliceAdditionalSpecFns;
use crate::monitoring::derefs;
use crate::text::{concat2, str_eq};
use crate::vcs::Worktree;

verus! {

/// The worktrees of `ws` called `name`, in order; all of them without a name.
pub open spec fn worktrees_named(ws: Seq<Worktree>, name: Option<Seq<char>>) -> Seq<Worktree>
    decreases ws.len(),
{
    if ws.len() == 0 {
        Seq::empty()
    } else {
        let rest = worktrees_named(ws.drop_last(), name);
        match name {
            Some(n) => if ws.last().name@ == n {
                rest.push(ws.last())
            } else {
                rest
            },
            None => rest.push(ws.last()),
        }
    }
}

/// The worktrees the report is about: those called `name`, or all of them.
pub fn named_worktrees<'a>(worktrees: &'a Vec<Worktree>, name: Option<&str>) -> (r: Vec<&'a Worktree>)
    ensures
        derefs(r@) == worktrees_named(
            worktrees@,
            match name {
                Some(n) => Some(n@),
                None => None,
            },
        ),
{
    let ghost n = match name {
        Some(n) => Some(n@),
        None => None::<Seq<char>>,
    };
    let mut r: Vec<&'a Worktree> = Vec::new();
    let mut i: usize = 0;
    while i < worktrees.len()
        invariant
            i <= worktrees@.len(),
            n == match name {
                Some(x) => Some(x@),
                None => None::<Seq<char>>,
            },
            derefs(r@) == worktrees_named(worktrees@.take(i as int), n),
        decreases worktrees.len() - i,
    {
        let w = &worktrees[i];
        assert(worktrees@.take(i + 1).drop_last() =~= worktrees@.take(i as int));
        let keep = match name {
            Some(x) => str_eq(w.name.as_str(), x),
            None => true,
        };
        if keep {
            let ghost prev = r@;
            r.push(w);
            assert(derefs(r@) =~= derefs(prev).push(*w));
        }
        i = i + 1;
    }
    assert(worktrees@.take(worktrees@.len() as int) =~= worktrees@);
    r
}

/// The report leaves out the main worktree (the one without a parent) unless all are asked
/// for.
pub fn shown_in_stats(worktree: &Worktree, show_all: bool) -> (r: bool)
    ensures
        r == (show_all || worktree.parent is Some),
{
    show_all || worktree.parent.is_some()
}

/// The number of days of history shown: the one asked for, else a week.
pub fn history_days(days: Option<u64>) -> (r: u64)
    ensures
        r == match days {
            Some(d) => d,
            None => 7,
        },
{
    match days {
        Some(d) => d,
        None => 7,
    }
}

/// The first second of a history of `days` days that ends at `now`; the epoch when that
/// lies before it.
pub fn history_start(now: u64, days: u64) -> (r: u64)
    requires
        days * 86400 <= u64::MAX,
    ensures
        r == if now >= days * 86400 {
            now - days * 86400
        } else {
            0
        },
{
    let span = days * 86400;
    now.saturating_sub(span)
}

/// Where the last five of `len` snapshots start.
pub fn recent_start(len: usize) -> (r: usize)
    ensures
        r == if len > 5 {
            len - 5
        } else {
            0
        },
{
    if len > 5 {
        len - 5
    } else {
        0
    }
}

/// How the disk usage moved between the first and the last snapshot of a stretch.
#[derive(Debug, Clone, Copy, PartialEq, Eq)]
pub enum Trend {
    /// It grew by this many bytes.
    Increased(u64),
    /// It shrank by this many bytes.
    Decreased(u64),
    /// It stayed the same.
    Stable,
}

/// The trend from a disk usage of `first` bytes to one of `last` bytes.
pub fn disk_trend(first: u64, last: u64) -> (r: Trend)
    ensures
        last > first ==> r == Trend::Increased((last - first) as u64),
        last < first ==> r == Trend::Decreased((first - last) as u64),
        last == first ==> r == Trend::Stable,
{
    if last > first {
        Trend::Increased(last - first)
    } else if last < first {
        Trend::Decreased(first - last)
    } else {
        Trend::Stable
    }
}

/// The number of state directories with no worktree, when it is not every directory that
/// has one: `None` when the counts agree.
pub fn orphaned_state_count(state_dirs: usize, worktrees: usize) -> (r: Option<usize>)
    ensures
        state_dirs == worktrees ==> r is None,
        state_dirs != worktrees ==> r == Some(
            if state_dirs > worktrees {
                (state_dirs - worktrees) as usize
            } else {
                0usize
            },
        ),
{
    if state_dirs == worktrees {
        None
    } else {
        Some(state_dirs.saturating_sub(worktrees))
    }
}

/// Position `a` of `sizes` is listed before position `b`: its size is larger, or the same
/// and `a` comes first.
pub open spec fn size_before(sizes: Seq<u64>, a: int, b: int) -> bool {
    sizes[a] > sizes[b] || (sizes[a] == sizes[b] && a < b)
}

/// The positions of `sizes` from the largest size to the smallest, equal sizes in the order
/// they come in (the order of a stable sort by decreasing size).
pub fn size_order(sizes: &Vec<u64>) -> (r: Vec<usize>)
    ensures
        r@.len() == sizes@.len(),
        forall|k: int| 0 <= k < r@.len() ==> #[trigger] r@[k] < sizes@.len(),
        forall|a: int, b: int|
            0 <= a < b < r@.len() ==> size_before(sizes@, #[trigger] r@[a] as int, #[trigger] r@[b] as int),
{
    let mut r: Vec<usize> = Vec::new();
    let mut i: usize = 0;
    while i < sizes.len()
        invariant
            i <= sizes@.len(),
            r@.len() == i,
            forall|k: int| 0 <= k < r@.len() ==> #[trigger] r@[k] < i,
            forall|a: int, b: int|
                0 <= a < b < r@.len() ==> size_before(sizes@, #[trigger] r@[a] as int, #[trigger] r@[b] as int),
        decreases sizes.len() - i,
    {
        let mut p: usize = 0;
        while p < r.len() && sizes[r[p]] >= sizes[i]
            invariant
                i < sizes@.len(),
                p <= r@.len(),
                forall|k: int| 0 <= k < r@.len() ==> #[trigger] r@[k] < i,
                forall|k: int| 0 <= k < p ==> sizes@[#[trigger] r@[k] as int] >= sizes@[i as int],
            decreases r.len() - p,
        {
            p = p + 1;
        }
        let ghost old = r@;
        r.insert(p, i);
        proof {
            assert forall|k: int| 0 <= k < r@.len() implies #[trigger] r@[k] < i + 1 by {
                if k < p {
                    assert(r@[k] == old[k]);
                } else if k > p {
                    assert(r@[k] == old[k - 1]);
                }
            }
            assert forall|a: int, b: int| 0 <= a < b < r@.len() implies size_before(
                sizes@,
                #[trigger] r@[a] as int,
                #[trigger] r@[b] as int,
            ) by {
                if b < p {
                    assert(r@[a] == old[a] && r@[b] == old[b]);
                } else if b == p {
                    assert(r@[a] == old[a]);
                    assert(sizes@[old[a] as int] >= sizes@[i as int]);
                } else if a < p {
                    assert(r@[a] == old[a] && r@[b] == old[b - 1]);
                } else if a == p {
                    assert(r@[b] == old[b - 1]);
                    assert(sizes@[old[p as int] as int] < sizes@[i as int]);
                    if b - 1 > p {
                        assert(size_before(sizes@, old[p as int] as int, old[b - 1] as int));
                    }
                } else {
                    assert(r@[a] == old[a - 1] && r@[b] == old[b - 1]);
                }
            }
        }
        i = i + 1;
    }
    r
}

/// The text of the first `k` bytes of `s`.
pub open spec fn byte_prefix(s: &str, k: int) -> Seq<char> {
    vstd::utf8::decode_utf8(s.spec_bytes().subrange(0, k))
}

/// The text of the bytes of `s` from `k` on.
pub open spec fn byte_suffix(s: &str, k: int) -> Seq<char> {
    vstd::utf8::decode_utf8(s.spec_bytes().subrange(k, s.spec_bytes().len() as int))
}

/// How many bytes a text cut to `max_len` keeps before its `...`.
pub open spec fn kept_bytes(max_len: usize) -> int {
    if max_len >= 3 {
        max_len - 3
    } else {
        0
    }
}

/// `s` when it is at most `max_len` bytes long, else its first `max_len - 3` bytes and
/// `...`. Cutting must fall between two characters.
pub fn truncate(s: &str, max_len: usize) -> (r: String)
    requires
        s.spec_bytes().len() > max_len ==> vstd::utf8::is_char_boundary(
            s.spec_bytes(),
            kept_bytes(max_len),
        ),
    ensures
        s.spec_bytes().len() <= max_len ==> r@ == s@,
        s.spec_bytes().len() > max_len ==> r@ == byte_prefix(s, kept_bytes(max_len)) + "..."@,
{
    if s.as_bytes().len() <= max_len {
        return String::from_str(s);
    }
    let k: usize = if max_len >= 3 {
        max_len - 3
    } else {
        0
    };
    let (head, _) = s.split_at(k);
    proof {
        vstd::utf8::encode_utf8_decode_utf8(head@);
    }
    concat2(head, "...")
}

/// The commit hash as the dashboard shows it: its first seven bytes when it is longer.
pub fn short_commit(commit: &str) -> (r: &str)
    requires
        commit.spec_bytes().len() > 7 ==> vstd::utf8::is_char_boundary(commit.spec_bytes(), 7),
    ensures
        commit.spec_bytes().len() <= 7 ==> r@ == commit@,
        commit.spec_bytes().len() > 7 ==> r@ == byte_prefix(commit, 7),
{
    if commit.as_bytes().len() > 7 {
        let (head, _) = commit.split_at(7);
        proof {
            vstd::utf8::encode_utf8_decode_utf8(head@);
        }
        head
    } else {
        commit
    }
}

/// A path as the dashboard shows it: whole when it is at most 30 bytes long, else `...`
/// and its last 27 bytes. Cutting must fall between two characters.
pub fn path_tail(path: &str) -> (r: String)
    requires
        path.spec_bytes().len() > 30 ==> vstd::utf8::is_char_boundary(
            path.spec_bytes(),
            path.spec_bytes().len() - 27,
        ),
    ensures
        path.spec_bytes().len() <= 30 ==> r@ == path@,
        path.spec_bytes().len() > 30 ==> r@ == "..."@ + byte_suffix(
            path,
            path.spec_bytes().len() - 27,
        ),
{
    let n = path.as_bytes().len();
    if n <= 30 {
        return String::from_str(path);
    }
    let (_, tail) = path.split_at(n - 27);
    proof {
        vstd::utf8::encode_utf8_decode_utf8(tail@);
    }
    concat2("...", tail)
}

} // verus!
