//! Resolution of a worktree name typed by the user against the known names.
use vstd::prelude::*;
use crate::error::{HnError, views};
use crate::text::{
    chars_of, contains, find_char_from, first_at_or_after, lowercase, matches_at, seq_contains, seq_starts_with, spec_lowercase,
    starts_with,
};

verus! {

/// Bonus for a match at position `p` of `c`: the start of the string, or just after a
/// separator (`-`, `_`, `/`).
pub open spec fn boundary_bonus(c: Seq<char>, p: int) -> int {
    if p == 0 {
        10
    } else if c[p - 1] == '-' || c[p - 1] == '_' || c[p - 1] == '/' {
        5
    } else {
        0
    }
}

/// Greedy, left-to-right matching of the query characters from `qi` on against the
/// candidate characters from `ci` on. `last` is the position of the previous match and
/// `run` the length of the current run of consecutive matches. Each match scores 1, or
/// `5 + run` when it directly follows the previous one, plus the boundary bonus.
pub open spec fn score_from(
    q: Seq<char>,
    c: Seq<char>,
    qi: int,
    ci: int,
    score: int,
    last: int,
    run: int,
) -> Option<int>
    decreases q.len() - qi,
{
    if qi < 0 || qi >= q.len() {
        Some(score)
    } else {
        match first_at_or_after(c, q[qi], ci) {
            None => None,
            Some(p) => {
                let run2 = if p == last + 1 {
                    run + 1
                } else {
                    0
                };
                let gain = if p == last + 1 {
                    5 + run2
                } else {
                    1
                };
                score_from(q, c, qi + 1, p + 1, score + gain + boundary_bonus(c, p), p, run2)
            },
        }
    }
}

/// The fuzzy score of `candidate` for `query`: `None` unless every character of the
/// lowercased query occurs, in order, in the lowercased candidate.
pub open spec fn spec_fuzzy_score(query: Seq<char>, candidate: Seq<char>) -> Option<int> {
    score_from(spec_lowercase(query), spec_lowercase(candidate), 0, 0, 0, 0, 0)
}

/// The candidates whose lowercased form is `lq`, in order.
pub open spec fn ci_exact_matches(lq: Seq<char>, cs: Seq<Seq<char>>) -> Seq<Seq<char>>
    decreases cs.len(),
{
    if cs.len() == 0 {
        Seq::empty()
    } else if spec_lowercase(cs.last()) == lq {
        ci_exact_matches(lq, cs.drop_last()).push(cs.last())
    } else {
        ci_exact_matches(lq, cs.drop_last())
    }
}

/// The candidates whose lowercased form starts with `lq`, in order.
pub open spec fn prefix_matches(lq: Seq<char>, cs: Seq<Seq<char>>) -> Seq<Seq<char>>
    decreases cs.len(),
{
    if cs.len() == 0 {
        Seq::empty()
    } else if seq_starts_with(spec_lowercase(cs.last()), lq) {
        prefix_matches(lq, cs.drop_last()).push(cs.last())
    } else {
        prefix_matches(lq, cs.drop_last())
    }
}

/// The candidates whose lowercased form contains `lq`, in order.
pub open spec fn substring_matches(lq: Seq<char>, cs: Seq<Seq<char>>) -> Seq<Seq<char>>
    decreases cs.len(),
{
    if cs.len() == 0 {
        Seq::empty()
    } else if seq_contains(spec_lowercase(cs.last()), lq) {
        substring_matches(lq, cs.drop_last()).push(cs.last())
    } else {
        substring_matches(lq, cs.drop_last())
    }
}

/// The candidates that have a fuzzy score for `q`, in order.
pub open spec fn fuzzy_matches(q: Seq<char>, cs: Seq<Seq<char>>) -> Seq<Seq<char>>
    decreases cs.len(),
{
    if cs.len() == 0 {
        Seq::empty()
    } else if spec_fuzzy_score(q, cs.last()) is Some {
        fuzzy_matches(q, cs.drop_last()).push(cs.last())
    } else {
        fuzzy_matches(q, cs.drop_last())
    }
}

/// The highest fuzzy score of any candidate (0 when none has one).
pub open spec fn max_score(q: Seq<char>, cs: Seq<Seq<char>>) -> int
    decreases cs.len(),
{
    if cs.len() == 0 {
        0
    } else {
        let m = max_score(q, cs.drop_last());
        match spec_fuzzy_score(q, cs.last()) {
            Some(s) => if s > m {
                s
            } else {
                m
            },
            None => m,
        }
    }
}

/// The candidates whose fuzzy score is exactly `m`, in order.
pub open spec fn scored(q: Seq<char>, cs: Seq<Seq<char>>, m: int) -> Seq<Seq<char>>
    decreases cs.len(),
{
    if cs.len() == 0 {
        Seq::empty()
    } else if spec_fuzzy_score(q, cs.last()) == Some(m) {
        scored(q, cs.drop_last(), m).push(cs.last())
    } else {
        scored(q, cs.drop_last(), m)
    }
}

/// The outcome of resolving a name.
pub enum MatchOutcome {
    Found(Seq<char>),
    NotFound,
    Ambiguous(Seq<Seq<char>>),
}

/// How a query resolves against candidate names: an exact match wins; then a unique
/// case-insensitive exact match; then a unique case-insensitive prefix match (several are
/// ambiguous); then a unique case-insensitive substring match; then the unique best fuzzy
/// score (a tie at the top is ambiguous).
pub open spec fn spec_find_best_match(q: Seq<char>, cs: Seq<Seq<char>>) -> MatchOutcome {
    let lq = spec_lowercase(q);
    let ci = ci_exact_matches(lq, cs);
    let pre = prefix_matches(lq, cs);
    let sub = substring_matches(lq, cs);
    let top = scored(q, cs, max_score(q, cs));
    if cs.contains(q) {
        MatchOutcome::Found(q)
    } else if ci.len() == 1 {
        MatchOutcome::Found(ci[0])
    } else if pre.len() == 1 {
        MatchOutcome::Found(pre[0])
    } else if pre.len() >= 2 {
        MatchOutcome::Ambiguous(pre)
    } else if sub.len() == 1 {
        MatchOutcome::Found(sub[0])
    } else if fuzzy_matches(q, cs).len() == 0 {
        MatchOutcome::NotFound
    } else if top.len() >= 2 {
        MatchOutcome::Ambiguous(top)
    } else {
        MatchOutcome::Found(top[0])
    }
}

/// `r` is what `find_best_match` owes for `query` and `candidates`.
pub open spec fn match_result(q: Seq<char>, cs: Seq<Seq<char>>, r: Result<String, HnError>) -> bool {
    match spec_find_best_match(q, cs) {
        MatchOutcome::Found(v) => r matches Ok(s) && s@ == v,
        MatchOutcome::NotFound => r matches Err(HnError::WorktreeNotFound(n)) && n@ == q,
        MatchOutcome::Ambiguous(vs) => r matches Err(HnError::AmbiguousWorktreeName(n, ms))
            && n@ == q && views(ms@) == vs,
    }
}

proof fn lemma_score_bound(qi: int, score: int, run: int, bonus: int)
    requires
        0 <= run <= qi,
        qi < 0x1_0000_0000_0000_0000,
        0 <= score,
        2 * score <= 35 * qi + qi * qi,
        0 <= bonus <= 10,
    ensures
        score + 6 + run + bonus <= u128::MAX,
        2 * (score + 6 + run + bonus) <= 35 * (qi + 1) + (qi + 1) * (qi + 1),
{
    assert(qi * qi <= 0xffff_ffff_ffff_ffff * 0xffff_ffff_ffff_ffff) by (nonlinear_arith)
        requires
            0 <= qi < 0x1_0000_0000_0000_0000,
    ;
    assert((qi + 1) * (qi + 1) == qi * qi + 2 * qi + 1) by (nonlinear_arith);
}

/// The fuzzy score of `candidate` for `query` (see `spec_fuzzy_score`).
pub fn fuzzy_score(query: &str, candidate: &str) -> (r: Option<u128>)
    ensures
        match r {
            Some(s) => spec_fuzzy_score(query@, candidate@) == Some(s as int),
            None => spec_fuzzy_score(query@, candidate@) is None,
        },
{
    let ql = lowercase(query);
    let cl = lowercase(candidate);
    let lq = chars_of(ql.as_str());
    let lc = chars_of(cl.as_str());
    let mut qi: usize = 0;
    let mut ci: usize = 0;
    let mut score: u128 = 0;
    let mut last: usize = 0;
    let mut run: u128 = 0;
    while qi < lq.len()
        invariant
            lq@ == spec_lowercase(query@),
            lc@ == spec_lowercase(candidate@),
            qi <= lq.len(),
            run <= qi,
            last <= lc.len(),
            ci <= lc.len() + 1,
            2 * score <= 35 * qi + qi * qi,
            spec_fuzzy_score(query@, candidate@) == score_from(
                lq@,
                lc@,
                qi as int,
                ci as int,
                score as int,
                last as int,
                run as int,
            ),
        decreases lq.len() - qi,
    {
        let found = if ci <= lc.len() {
            find_char_from(lc.as_slice(), lq[qi], ci)
        } else {
            None
        };
        match found {
            None => {
                return None;
            },
            Some(p) => {
                let bonus: u128 = if p == 0 {
                    10
                } else if lc[p - 1] == '-' || lc[p - 1] == '_' || lc[p - 1] == '/' {
                    5
                } else {
                    0
                };
                proof {
                    lemma_score_bound(qi as int, score as int, run as int, bonus as int);
                }
                if p >= 1 && p - 1 == last {
                    run = run + 1;
                    score = score + 5 + run + bonus;
                } else {
                    run = 0;
                    score = score + 1 + bonus;
                }
                last = p;
                ci = p + 1;
                qi = qi + 1;
            },
        }
    }
    Some(score)
}

fn same_chars(a: &Vec<char>, b: &Vec<char>) -> (r: bool)
    ensures
        r == (a@ == b@),
{
    if a.len() != b.len() {
        return false;
    }
    let r = crate::text::matches_at_exec(a.as_slice(), b.as_slice(), 0);
    proof {
        if r {
            assert(a@.subrange(0, b@.len() as int) =~= a@);
        } else {
            if a@ == b@ {
                assert(a@.subrange(0, b@.len() as int) =~= a@);
            }
        }
    }
    r
}

/// Resolves `query` against `candidates` (see `spec_find_best_match`).
pub fn find_best_match(query: &str, candidates: &[String]) -> (r: Result<String, HnError>)
    ensures
        match_result(query@, views(candidates@), r),
{
    let ghost cs = views(candidates@);
    let qv = chars_of(query);
    // exact match
    let mut i: usize = 0;
    while i < candidates.len()
        invariant
            cs == views(candidates@),
            qv@ == query@,
            i <= candidates.len(),
            forall|j: int| 0 <= j < i ==> cs[j] != query@,
        decreases candidates.len() - i,
    {
        let cv = chars_of(candidates[i].as_str());
        if same_chars(&cv, &qv) {
            let r = candidates[i].clone();
            assert(cs[i as int] == query@);
            assert(cs.contains(query@));
            return Ok(r);
        }
        i = i + 1;
    }
    assert(!cs.contains(query@));
    let ql = lowercase(query);
    let lq = chars_of(ql.as_str());
    // lowercased candidates
    let mut lowered: Vec<Vec<char>> = Vec::new();
    let mut i: usize = 0;
    while i < candidates.len()
        invariant
            cs == views(candidates@),
            i <= candidates.len(),
            lowered.len() == i,
            forall|j: int| 0 <= j < i ==> #[trigger] lowered@[j]@ == spec_lowercase(cs[j]),
        decreases candidates.len() - i,
    {
        let l = lowercase(candidates[i].as_str());
        lowered.push(chars_of(l.as_str()));
        i = i + 1;
    }
    // case-insensitive exact matches
    let mut ci: Vec<String> = Vec::new();
    let mut i: usize = 0;
    while i < candidates.len()
        invariant
            cs == views(candidates@),
            lq@ == spec_lowercase(query@),
            lowered.len() == candidates.len(),
            forall|j: int| 0 <= j < lowered.len() ==> #[trigger] lowered@[j]@ == spec_lowercase(cs[j]),
            i <= candidates.len(),
            views(ci@) == ci_exact_matches(lq@, cs.take(i as int)),
        decreases candidates.len() - i,
    {
        assert(cs.take(i + 1).drop_last() =~= cs.take(i as int));
        assert(cs.take(i + 1).last() == cs[i as int]);
        if same_chars(&lowered[i], &lq) {
            ci.push(candidates[i].clone());
            assert(views(ci@) =~= ci_exact_matches(lq@, cs.take(i as int)).push(cs[i as int]));
        }
        i = i + 1;
    }
    assert(cs.take(candidates.len() as int) =~= cs);
    if ci.len() == 1 {
        let r = ci[0].clone();
        assert(views(ci@)[0] == ci@[0]@);
        return Ok(r);
    }
    // prefix matches
    let mut pre: Vec<String> = Vec::new();
    let mut i: usize = 0;
    while i < candidates.len()
        invariant
            cs == views(candidates@),
            lq@ == spec_lowercase(query@),
            lowered.len() == candidates.len(),
            forall|j: int| 0 <= j < lowered.len() ==> #[trigger] lowered@[j]@ == spec_lowercase(cs[j]),
            i <= candidates.len(),
            views(pre@) == prefix_matches(lq@, cs.take(i as int)),
        decreases candidates.len() - i,
    {
        assert(cs.take(i + 1).drop_last() =~= cs.take(i as int));
        assert(cs.take(i + 1).last() == cs[i as int]);
        if starts_with(lowered[i].as_slice(), lq.as_slice()) {
            pre.push(candidates[i].clone());
            assert(views(pre@) =~= prefix_matches(lq@, cs.take(i as int)).push(cs[i as int]));
        }
        i = i + 1;
    }
    assert(cs.take(candidates.len() as int) =~= cs);
    if pre.len() == 1 {
        let r = pre[0].clone();
        assert(views(pre@)[0] == pre@[0]@);
        return Ok(r);
    }
    if pre.len() >= 2 {
        return Err(HnError::AmbiguousWorktreeName(String::from_str(query), pre));
    }
    // substring matches
    let mut sub: Vec<String> = Vec::new();
    let mut i: usize = 0;
    while i < candidates.len()
        invariant
            cs == views(candidates@),
            lq@ == spec_lowercase(query@),
            lowered.len() == candidates.len(),
            forall|j: int| 0 <= j < lowered.len() ==> #[trigger] lowered@[j]@ == spec_lowercase(cs[j]),
            i <= candidates.len(),
            views(sub@) == substring_matches(lq@, cs.take(i as int)),
        decreases candidates.len() - i,
    {
        assert(cs.take(i + 1).drop_last() =~= cs.take(i as int));
        assert(cs.take(i + 1).last() == cs[i as int]);
        if contains(lowered[i].as_slice(), lq.as_slice()) {
            sub.push(candidates[i].clone());
            assert(views(sub@) =~= substring_matches(lq@, cs.take(i as int)).push(cs[i as int]));
        }
        i = i + 1;
    }
    if sub.len() == 1 {
        let r = sub[0].clone();
        assert(views(sub@)[0] == sub@[0]@);
        return Ok(r);
    }
    // fuzzy scores
    let mut scores: Vec<Option<u128>> = Vec::new();
    let mut best: u128 = 0;
    let mut any = false;
    let mut i: usize = 0;
    while i < candidates.len()
        invariant
            cs == views(candidates@),
            i <= candidates.len(),
            scores.len() == i,
            forall|j: int| 0 <= j < i ==> #[trigger] score_matches(scores@[j], query@, cs[j]),
            best == max_score(query@, cs.take(i as int)),
            any == (fuzzy_matches(query@, cs.take(i as int)).len() > 0),
        decreases candidates.len() - i,
    {
        assert(cs.take(i + 1).drop_last() =~= cs.take(i as int));
        assert(cs.take(i + 1).last() == cs[i as int]);
        let s = fuzzy_score(query, candidates[i].as_str());
        match s {
            Some(v) => {
                any = true;
                if v > best {
                    best = v;
                }
            },
            None => {},
        }
        scores.push(s);
        assert(score_matches(scores@[i as int], query@, cs[i as int]));
        i = i + 1;
    }
    if !any {
        return Err(HnError::WorktreeNotFound(String::from_str(query)));
    }
    let mut top: Vec<String> = Vec::new();
    let mut i: usize = 0;
    while i < candidates.len()
        invariant
            cs == views(candidates@),
            i <= candidates.len(),
            scores.len() == candidates.len(),
            forall|j: int| 0 <= j < scores.len() ==> #[trigger] score_matches(scores@[j], query@, cs[j]),
            best == max_score(query@, cs),
            views(top@) == scored(query@, cs.take(i as int), best as int),
        decreases candidates.len() - i,
    {
        assert(cs.take(i + 1).drop_last() =~= cs.take(i as int));
        assert(cs.take(i + 1).last() == cs[i as int]);
        assert(score_matches(scores@[i as int], query@, cs[i as int]));
        match scores[i] {
            Some(v) => {
                if v == best {
                    top.push(candidates[i].clone());
                    assert(views(top@) =~= scored(query@, cs.take(i as int), best as int).push(
                        cs[i as int],
                    ));
                }
            },
            None => {},
        }
        i = i + 1;
    }
    proof {
        lemma_max_attained(query@, cs);
    }
    if top.len() >= 2 {
        return Err(HnError::AmbiguousWorktreeName(String::from_str(query), top));
    }
    let r = top[0].clone();
    assert(views(top@)[0] == top@[0]@);
    Ok(r)
}

/// `s` is the exec form of the fuzzy score of `v` for `q`.
pub open spec fn score_matches(s: Option<u128>, q: Seq<char>, v: Seq<char>) -> bool {
    match s {
        Some(x) => spec_fuzzy_score(q, v) == Some(x as int),
        None => spec_fuzzy_score(q, v) is None,
    }
}

proof fn lemma_score_nonneg(
    q: Seq<char>,
    c: Seq<char>,
    qi: int,
    ci: int,
    score: int,
    last: int,
    run: int,
)
    requires
        0 <= score,
        0 <= run,
    ensures
        score_from(q, c, qi, ci, score, last, run) matches Some(s) ==> 0 <= s,
    decreases q.len() - qi,
{
    if 0 <= qi < q.len() {
        match first_at_or_after(c, q[qi], ci) {
            None => {},
            Some(p) => {
                let run2 = if p == last + 1 {
                    run + 1
                } else {
                    0
                };
                let gain = if p == last + 1 {
                    5 + run2
                } else {
                    1
                };
                lemma_score_nonneg(q, c, qi + 1, p + 1, score + gain + boundary_bonus(c, p), p, run2);
            },
        }
    }
}

/// When some candidate has a fuzzy score, the highest score is attained by some
/// candidate; when none has one, the highest score is 0.
proof fn lemma_max_attained(q: Seq<char>, cs: Seq<Seq<char>>)
    ensures
        0 <= max_score(q, cs),
        fuzzy_matches(q, cs).len() == 0 ==> max_score(q, cs) == 0,
        fuzzy_matches(q, cs).len() > 0 ==> scored(q, cs, max_score(q, cs)).len() > 0,
    decreases cs.len(),
{
    if cs.len() > 0 {
        let init = cs.drop_last();
        let v = cs.last();
        lemma_max_attained(q, init);
        lemma_score_nonneg(spec_lowercase(q), spec_lowercase(v), 0, 0, 0, 0, 0);
        let m = max_score(q, cs);
        if fuzzy_matches(q, init).len() > 0 {
            lemma_scored_monotone(q, cs, m);
        }
    }
}

proof fn lemma_scored_monotone(q: Seq<char>, cs: Seq<Seq<char>>, m: int)
    requires
        cs.len() > 0,
    ensures
        scored(q, cs, m).len() >= scored(q, cs.drop_last(), m).len(),
{
}


proof fn lemma_ci_members(lq: Seq<char>, cs: Seq<Seq<char>>)
    ensures
        forall|i: int|
            0 <= i < ci_exact_matches(lq, cs).len() ==> cs.contains(
                #[trigger] ci_exact_matches(lq, cs)[i],
            ),
    decreases cs.len(),
{
    if cs.len() > 0 {
        lemma_ci_members(lq, cs.drop_last());
        assert forall|i: int| 0 <= i < ci_exact_matches(lq, cs).len() implies cs.contains(
            #[trigger] ci_exact_matches(lq, cs)[i],
        ) by {
            let prev = ci_exact_matches(lq, cs.drop_last());
            if i < prev.len() {
                let k = choose|k: int| 0 <= k < cs.drop_last().len() && cs.drop_last()[k] == prev[i];
                assert(cs[k] == prev[i]);
            } else {
                assert(cs[cs.len() - 1] == cs.last());
            }
        }
    }
}

proof fn lemma_prefix_members(lq: Seq<char>, cs: Seq<Seq<char>>)
    ensures
        forall|i: int|
            0 <= i < prefix_matches(lq, cs).len() ==> cs.contains(#[trigger] prefix_matches(lq, cs)[i]),
    decreases cs.len(),
{
    if cs.len() > 0 {
        lemma_prefix_members(lq, cs.drop_last());
        assert forall|i: int| 0 <= i < prefix_matches(lq, cs).len() implies cs.contains(
            #[trigger] prefix_matches(lq, cs)[i],
        ) by {
            let prev = prefix_matches(lq, cs.drop_last());
            if i < prev.len() {
                let k = choose|k: int| 0 <= k < cs.drop_last().len() && cs.drop_last()[k] == prev[i];
                assert(cs[k] == prev[i]);
            } else {
                assert(cs[cs.len() - 1] == cs.last());
            }
        }
    }
}

proof fn lemma_substring_members(lq: Seq<char>, cs: Seq<Seq<char>>)
    ensures
        forall|i: int|
            0 <= i < substring_matches(lq, cs).len() ==> cs.contains(
                #[trigger] substring_matches(lq, cs)[i],
            ),
    decreases cs.len(),
{
    if cs.len() > 0 {
        lemma_substring_members(lq, cs.drop_last());
        assert forall|i: int| 0 <= i < substring_matches(lq, cs).len() implies cs.contains(
            #[trigger] substring_matches(lq, cs)[i],
        ) by {
            let prev = substring_matches(lq, cs.drop_last());
            if i < prev.len() {
                let k = choose|k: int| 0 <= k < cs.drop_last().len() && cs.drop_last()[k] == prev[i];
                assert(cs[k] == prev[i]);
            } else {
                assert(cs[cs.len() - 1] == cs.last());
            }
        }
    }
}

proof fn lemma_scored_members(q: Seq<char>, cs: Seq<Seq<char>>, m: int)
    ensures
        forall|i: int| 0 <= i < scored(q, cs, m).len() ==> cs.contains(#[trigger] scored(q, cs, m)[i]),
    decreases cs.len(),
{
    if cs.len() > 0 {
        lemma_scored_members(q, cs.drop_last(), m);
        assert forall|i: int| 0 <= i < scored(q, cs, m).len() implies cs.contains(
            #[trigger] scored(q, cs, m)[i],
        ) by {
            let prev = scored(q, cs.drop_last(), m);
            if i < prev.len() {
                let k = choose|k: int| 0 <= k < cs.drop_last().len() && cs.drop_last()[k] == prev[i];
                assert(cs[k] == prev[i]);
            } else {
                assert(cs[cs.len() - 1] == cs.last());
            }
        }
    }
}

proof fn lemma_no_fuzzy_match(q: Seq<char>, cs: Seq<Seq<char>>)
    requires
        fuzzy_matches(q, cs).len() == 0,
    ensures
        forall|i: int| 0 <= i < cs.len() ==> spec_fuzzy_score(q, #[trigger] cs[i]) is None,
    decreases cs.len(),
{
    if cs.len() > 0 {
        lemma_no_fuzzy_match(q, cs.drop_last());
        assert forall|i: int| 0 <= i < cs.len() implies spec_fuzzy_score(q, #[trigger] cs[i]) is None by {
            if i < cs.len() - 1 {
                assert(cs[i] == cs.drop_last()[i]);
            }
        }
    }
}

proof fn lemma_no_prefix_match(lq: Seq<char>, cs: Seq<Seq<char>>)
    requires
        forall|k: int| 0 <= k < cs.len() ==> !seq_starts_with(spec_lowercase(#[trigger] cs[k]), lq),
    ensures
        ci_exact_matches(lq, cs).len() == 0,
        prefix_matches(lq, cs).len() == 0,
    decreases cs.len(),
{
    if cs.len() > 0 {
        lemma_no_prefix_match(lq, cs.drop_last());
        assert(!seq_starts_with(spec_lowercase(cs[cs.len() - 1]), lq));
        assert(lq.subrange(0, lq.len() as int) =~= lq);
    }
}

proof fn lemma_substring_witness(lq: Seq<char>, cs: Seq<Seq<char>>)
    requires
        substring_matches(lq, cs).len() > 0,
    ensures
        exists|k: int| 0 <= k < cs.len() && seq_contains(spec_lowercase(#[trigger] cs[k]), lq),
    decreases cs.len(),
{
    if seq_contains(spec_lowercase(cs.last()), lq) {
        assert(seq_contains(spec_lowercase(cs[cs.len() - 1]), lq));
    } else {
        lemma_substring_witness(lq, cs.drop_last());
        let k = choose|k: int|
            0 <= k < cs.drop_last().len() && seq_contains(spec_lowercase(#[trigger] cs.drop_last()[k]), lq);
        assert(cs[k] == cs.drop_last()[k]);
    }
}

proof fn lemma_substring_two(lq: Seq<char>, cs: Seq<Seq<char>>, a: int, b: int)
    requires
        0 <= a < b < cs.len(),
        seq_contains(spec_lowercase(cs[a]), lq),
        seq_contains(spec_lowercase(cs[b]), lq),
    ensures
        substring_matches(lq, cs).len() >= 2,
    decreases cs.len(),
{
    let init = cs.drop_last();
    assert(init[a] == cs[a]);
    if b == cs.len() - 1 {
        if substring_matches(lq, init).len() == 0 {
            lemma_substring_absent(lq, init, a);
        }
    } else {
        assert(init[b] == cs[b]);
        lemma_substring_two(lq, init, a, b);
    }
}

proof fn lemma_substring_absent(lq: Seq<char>, cs: Seq<Seq<char>>, a: int)
    requires
        0 <= a < cs.len(),
        seq_contains(spec_lowercase(cs[a]), lq),
    ensures
        substring_matches(lq, cs).len() > 0,
    decreases cs.len(),
{
    if a < cs.len() - 1 {
        assert(cs.drop_last()[a] == cs[a]);
        lemma_substring_absent(lq, cs.drop_last(), a);
    }
}

proof fn lemma_max_bounds(q: Seq<char>, cs: Seq<Seq<char>>, s: int)
    requires
        0 <= s,
        forall|k: int|
            0 <= k < cs.len() ==> (spec_fuzzy_score(q, #[trigger] cs[k]) matches Some(t) ==> t <= s),
    ensures
        max_score(q, cs) <= s,
        forall|k: int|
            0 <= k < cs.len() ==> (spec_fuzzy_score(q, #[trigger] cs[k]) matches Some(t) ==> t <= max_score(
                q,
                cs,
            )),
    decreases cs.len(),
{
    if cs.len() > 0 {
        let init = cs.drop_last();
        assert forall|k: int|
            0 <= k < init.len() implies (spec_fuzzy_score(q, #[trigger] init[k]) matches Some(t) ==> t <= s) by {
            assert(init[k] == cs[k]);
        }
        lemma_max_bounds(q, init, s);
        assert(spec_fuzzy_score(q, cs[cs.len() - 1]) matches Some(t) ==> t <= s);
        assert forall|k: int|
            0 <= k < cs.len() implies (spec_fuzzy_score(q, #[trigger] cs[k]) matches Some(t) ==> t
                <= max_score(q, cs)) by {
            if k < cs.len() - 1 {
                assert(init[k] == cs[k]);
            }
        }
    }
}

proof fn lemma_fuzzy_witness(q: Seq<char>, cs: Seq<Seq<char>>, a: int)
    requires
        0 <= a < cs.len(),
        spec_fuzzy_score(q, cs[a]) is Some,
    ensures
        fuzzy_matches(q, cs).len() > 0,
    decreases cs.len(),
{
    if a < cs.len() - 1 {
        assert(cs.drop_last()[a] == cs[a]);
        lemma_fuzzy_witness(q, cs.drop_last(), a);
    }
}

proof fn lemma_scored_exact(q: Seq<char>, cs: Seq<Seq<char>>, m: int)
    ensures
        forall|x: Seq<char>| #[trigger] scored(q, cs, m).contains(x) ==> spec_fuzzy_score(q, x) == Some(m),
        forall|k: int|
            0 <= k < cs.len() && spec_fuzzy_score(q, #[trigger] cs[k]) == Some(m) ==> scored(q, cs, m).contains(cs[k]),
    decreases cs.len(),
{
    if cs.len() > 0 {
        let init = cs.drop_last();
        lemma_scored_exact(q, init, m);
        let prev = scored(q, init, m);
        assert forall|x: Seq<char>| #[trigger] scored(q, cs, m).contains(x) implies spec_fuzzy_score(q, x) == Some(m) by {
            let i = choose|i: int| 0 <= i < scored(q, cs, m).len() && scored(q, cs, m)[i] == x;
            if i < prev.len() {
                assert(prev[i] == x);
                assert(prev.contains(x));
            }
        }
        assert forall|k: int|
            0 <= k < cs.len() && spec_fuzzy_score(q, #[trigger] cs[k]) == Some(m) implies scored(q, cs, m).contains(
            cs[k],
        ) by {
            if k < cs.len() - 1 {
                assert(init[k] == cs[k]);
                assert(prev.contains(cs[k]));
                let i = choose|i: int| 0 <= i < prev.len() && prev[i] == cs[k];
                assert(scored(q, cs, m)[i] == cs[k]);
            } else {
                assert(scored(q, cs, m)[scored(q, cs, m).len() - 1] == cs[k]);
            }
        }
    }
}

proof fn lemma_scored_two(q: Seq<char>, cs: Seq<Seq<char>>, m: int, a: int, b: int)
    requires
        0 <= a < b < cs.len(),
        spec_fuzzy_score(q, cs[a]) == Some(m),
        spec_fuzzy_score(q, cs[b]) == Some(m),
    ensures
        scored(q, cs, m).len() >= 2,
    decreases cs.len(),
{
    let init = cs.drop_last();
    assert(init[a] == cs[a]);
    if b == cs.len() - 1 {
        lemma_scored_exact(q, init, m);
        assert(scored(q, init, m).contains(init[a]));
    } else {
        assert(init[b] == cs[b]);
        lemma_scored_two(q, init, m, a, b);
    }
}

/// When no candidate is the query itself, none starts with it and none is the only one to
/// contain it (all case-insensitively), and two candidates share the highest fuzzy score,
/// the name is ambiguous: `find_best_match` fails with `AmbiguousWorktreeName` for the
/// query, listing both of them and exactly the candidates with that score, and never
/// picks one of them.
pub proof fn law_fuzzy_tie_is_ambiguous(
    q: Seq<char>,
    cs: Seq<Seq<char>>,
    i: int,
    j: int,
    s: int,
    r: Result<String, HnError>,
)
    requires
        match_result(q, cs, r),
        !cs.contains(q),
        forall|k: int| 0 <= k < cs.len() ==> !seq_starts_with(spec_lowercase(#[trigger] cs[k]), spec_lowercase(q)),
        forall|k: int|
            0 <= k < cs.len() && seq_contains(spec_lowercase(#[trigger] cs[k]), spec_lowercase(q)) ==> exists|
                k2: int,
            |
                0 <= k2 < cs.len() && k2 != k && seq_contains(spec_lowercase(#[trigger] cs[k2]), spec_lowercase(q)),
        0 <= i < cs.len(),
        0 <= j < cs.len(),
        i != j,
        spec_fuzzy_score(q, cs[i]) == Some(s),
        spec_fuzzy_score(q, cs[j]) == Some(s),
        forall|k: int|
            0 <= k < cs.len() ==> (spec_fuzzy_score(q, #[trigger] cs[k]) matches Some(t) ==> t <= s),
    ensures
        r matches Err(HnError::AmbiguousWorktreeName(n, ms)) && n@ == q && views(ms@).contains(cs[i])
            && views(ms@).contains(cs[j]) && (forall|x: Seq<char>|
            #[trigger] views(ms@).contains(x) ==> spec_fuzzy_score(q, x) == Some(s)) && (forall|k: int|
            0 <= k < cs.len() && spec_fuzzy_score(q, #[trigger] cs[k]) == Some(s) ==> views(ms@).contains(cs[k])),
{
    let lq = spec_lowercase(q);
    lemma_no_prefix_match(lq, cs);
    let sub = substring_matches(lq, cs);
    if sub.len() == 1 {
        lemma_substring_witness(lq, cs);
        let k = choose|k: int| 0 <= k < cs.len() && seq_contains(spec_lowercase(#[trigger] cs[k]), lq);
        let k2 = choose|k2: int| 0 <= k2 < cs.len() && k2 != k && seq_contains(spec_lowercase(#[trigger] cs[k2]), lq);
        if k < k2 {
            lemma_substring_two(lq, cs, k, k2);
        } else {
            lemma_substring_two(lq, cs, k2, k);
        }
    }
    lemma_score_nonneg(spec_lowercase(q), spec_lowercase(cs[i]), 0, 0, 0, 0, 0);
    lemma_max_bounds(q, cs, s);
    assert(max_score(q, cs) == s);
    lemma_fuzzy_witness(q, cs, i);
    if i < j {
        lemma_scored_two(q, cs, s, i, j);
    } else {
        lemma_scored_two(q, cs, s, j, i);
    }
    lemma_scored_exact(q, cs, s);
    let top = scored(q, cs, s);
    assert(spec_find_best_match(q, cs) == MatchOutcome::Ambiguous(top));
}

proof fn lemma_no_ci_match(lq: Seq<char>, cs: Seq<Seq<char>>)
    requires
        forall|k: int| 0 <= k < cs.len() ==> spec_lowercase(#[trigger] cs[k]) != lq,
    ensures
        ci_exact_matches(lq, cs).len() == 0,
    decreases cs.len(),
{
    if cs.len() > 0 {
        lemma_no_ci_match(lq, cs.drop_last());
        assert(spec_lowercase(cs[cs.len() - 1]) != lq);
    }
}

proof fn lemma_prefix_exact(lq: Seq<char>, cs: Seq<Seq<char>>)
    ensures
        forall|x: Seq<char>| #[trigger] prefix_matches(lq, cs).contains(x) ==> seq_starts_with(spec_lowercase(x), lq),
        forall|k: int|
            0 <= k < cs.len() && seq_starts_with(spec_lowercase(#[trigger] cs[k]), lq) ==> prefix_matches(
                lq,
                cs,
            ).contains(cs[k]),
    decreases cs.len(),
{
    if cs.len() > 0 {
        let init = cs.drop_last();
        lemma_prefix_exact(lq, init);
        let prev = prefix_matches(lq, init);
        let cur = prefix_matches(lq, cs);
        assert forall|x: Seq<char>| #[trigger] cur.contains(x) implies seq_starts_with(spec_lowercase(x), lq) by {
            let i = choose|i: int| 0 <= i < cur.len() && cur[i] == x;
            if i < prev.len() {
                assert(prev[i] == x);
                assert(prev.contains(x));
            }
        }
        assert forall|k: int|
            0 <= k < cs.len() && seq_starts_with(spec_lowercase(#[trigger] cs[k]), lq) implies cur.contains(cs[k]) by {
            if k < cs.len() - 1 {
                assert(init[k] == cs[k]);
                assert(prev.contains(cs[k]));
                let i = choose|i: int| 0 <= i < prev.len() && prev[i] == cs[k];
                assert(cur[i] == cs[k]);
            } else {
                assert(cur[cur.len() - 1] == cs[k]);
            }
        }
    }
}

proof fn lemma_prefix_two(lq: Seq<char>, cs: Seq<Seq<char>>, a: int, b: int)
    requires
        0 <= a < b < cs.len(),
        seq_starts_with(spec_lowercase(cs[a]), lq),
        seq_starts_with(spec_lowercase(cs[b]), lq),
    ensures
        prefix_matches(lq, cs).len() >= 2,
    decreases cs.len(),
{
    let init = cs.drop_last();
    assert(init[a] == cs[a]);
    if b == cs.len() - 1 {
        lemma_prefix_exact(lq, init);
        assert(prefix_matches(lq, init).contains(init[a]));
    } else {
        assert(init[b] == cs[b]);
        lemma_prefix_two(lq, init, a, b);
    }
}

/// When no candidate is the query itself or equals it case-insensitively, and two
/// candidates start with it case-insensitively, the name is ambiguous: `find_best_match`
/// fails with `AmbiguousWorktreeName` for the query, listing both of them and exactly the
/// candidates that start with it.
pub proof fn law_prefix_tie_is_ambiguous(q: Seq<char>, cs: Seq<Seq<char>>, i: int, j: int, r: Result<String, HnError>)
    requires
        match_result(q, cs, r),
        !cs.contains(q),
        forall|k: int| 0 <= k < cs.len() ==> spec_lowercase(#[trigger] cs[k]) != spec_lowercase(q),
        0 <= i < cs.len(),
        0 <= j < cs.len(),
        i != j,
        seq_starts_with(spec_lowercase(cs[i]), spec_lowercase(q)),
        seq_starts_with(spec_lowercase(cs[j]), spec_lowercase(q)),
    ensures
        r matches Err(HnError::AmbiguousWorktreeName(n, ms)) && n@ == q && views(ms@).contains(cs[i])
            && views(ms@).contains(cs[j]) && (forall|x: Seq<char>|
            #[trigger] views(ms@).contains(x) ==> seq_starts_with(spec_lowercase(x), spec_lowercase(q))) && (forall|k: int|
            0 <= k < cs.len() && seq_starts_with(spec_lowercase(#[trigger] cs[k]), spec_lowercase(q)) ==> views(
                ms@,
            ).contains(cs[k])),
{
    let lq = spec_lowercase(q);
    lemma_no_ci_match(lq, cs);
    if i < j {
        lemma_prefix_two(lq, cs, i, j);
    } else {
        lemma_prefix_two(lq, cs, j, i);
    }
    lemma_prefix_exact(lq, cs);
    assert(spec_find_best_match(q, cs) == MatchOutcome::Ambiguous(prefix_matches(lq, cs)));
}

proof fn lemma_scored_none(q: Seq<char>, cs: Seq<Seq<char>>, m: int)
    requires
        forall|k: int| 0 <= k < cs.len() ==> spec_fuzzy_score(q, #[trigger] cs[k]) != Some(m),
    ensures
        scored(q, cs, m).len() == 0,
    decreases cs.len(),
{
    if cs.len() > 0 {
        let init = cs.drop_last();
        assert forall|k: int| 0 <= k < init.len() implies spec_fuzzy_score(q, #[trigger] init[k]) != Some(m) by {
            assert(init[k] == cs[k]);
        }
        lemma_scored_none(q, init, m);
        assert(spec_fuzzy_score(q, cs[cs.len() - 1]) != Some(m));
    }
}

proof fn lemma_scored_single(q: Seq<char>, cs: Seq<Seq<char>>, m: int, i: int)
    requires
        0 <= i < cs.len(),
        forall|k: int| 0 <= k < cs.len() && k != i ==> spec_fuzzy_score(q, #[trigger] cs[k]) != Some(m),
    ensures
        scored(q, cs, m).len() <= 1,
    decreases cs.len(),
{
    let init = cs.drop_last();
    if i == cs.len() - 1 {
        assert forall|k: int| 0 <= k < init.len() implies spec_fuzzy_score(q, #[trigger] init[k]) != Some(m) by {
            assert(init[k] == cs[k]);
        }
        lemma_scored_none(q, init, m);
    } else {
        assert forall|k: int| 0 <= k < init.len() && k != i implies spec_fuzzy_score(q, #[trigger] init[k]) != Some(
            m,
        ) by {
            assert(init[k] == cs[k]);
        }
        lemma_scored_single(q, init, m, i);
        assert(spec_fuzzy_score(q, cs[cs.len() - 1]) != Some(m));
    }
}

/// When no candidate is the query itself, none starts with it and none is the only one to
/// contain it (all case-insensitively), and one candidate has a fuzzy score above every
/// other candidate's, `find_best_match` resolves the query to that candidate.
pub proof fn law_fuzzy_best_is_found(q: Seq<char>, cs: Seq<Seq<char>>, i: int, s: int, r: Result<String, HnError>)
    requires
        match_result(q, cs, r),
        !cs.contains(q),
        forall|k: int| 0 <= k < cs.len() ==> !seq_starts_with(spec_lowercase(#[trigger] cs[k]), spec_lowercase(q)),
        forall|k: int|
            0 <= k < cs.len() && seq_contains(spec_lowercase(#[trigger] cs[k]), spec_lowercase(q)) ==> exists|
                k2: int,
            |
                0 <= k2 < cs.len() && k2 != k && seq_contains(spec_lowercase(#[trigger] cs[k2]), spec_lowercase(q)),
        0 <= i < cs.len(),
        spec_fuzzy_score(q, cs[i]) == Some(s),
        forall|k: int|
            0 <= k < cs.len() && k != i ==> (spec_fuzzy_score(q, #[trigger] cs[k]) matches Some(t) ==> t < s),
    ensures
        r matches Ok(v) && v@ == cs[i],
{
    let lq = spec_lowercase(q);
    lemma_no_prefix_match(lq, cs);
    let sub = substring_matches(lq, cs);
    if sub.len() == 1 {
        lemma_substring_witness(lq, cs);
        let k = choose|k: int| 0 <= k < cs.len() && seq_contains(spec_lowercase(#[trigger] cs[k]), lq);
        let k2 = choose|k2: int| 0 <= k2 < cs.len() && k2 != k && seq_contains(spec_lowercase(#[trigger] cs[k2]), lq);
        if k < k2 {
            lemma_substring_two(lq, cs, k, k2);
        } else {
            lemma_substring_two(lq, cs, k2, k);
        }
    }
    lemma_score_nonneg(spec_lowercase(q), spec_lowercase(cs[i]), 0, 0, 0, 0, 0);
    assert forall|k: int|
        0 <= k < cs.len() implies (spec_fuzzy_score(q, #[trigger] cs[k]) matches Some(t) ==> t <= s) by {
        if k == i {
            assert(spec_fuzzy_score(q, cs[k]) == Some(s));
        }
    }
    lemma_max_bounds(q, cs, s);
    assert(max_score(q, cs) == s);
    lemma_fuzzy_witness(q, cs, i);
    lemma_scored_single(q, cs, s, i);
    lemma_scored_exact(q, cs, s);
    lemma_scored_members(q, cs, s);
    let top = scored(q, cs, s);
    assert(top.contains(cs[i]));
    assert(top.len() == 1);
    assert(cs.contains(top[0]));
    let k = choose|k: int| 0 <= k < cs.len() && cs[k] == top[0];
    assert(top.contains(top[0]));
    assert(spec_fuzzy_score(q, cs[k]) == Some(s));
    assert(k == i);
    assert(spec_find_best_match(q, cs) == MatchOutcome::Found(cs[i]));
}

/// Name resolution never invents a name: a query resolves only to one of the candidates,
/// always to itself when it is one of them, is ambiguous only between two or more
/// candidates, and is not found only when no candidate even matches it fuzzily.
pub proof fn law_resolution_picks_a_candidate(q: Seq<char>, cs: Seq<Seq<char>>)
    ensures
        cs.contains(q) ==> spec_find_best_match(q, cs) == MatchOutcome::Found(q),
        spec_find_best_match(q, cs) matches MatchOutcome::Found(v) ==> cs.contains(v),
        spec_find_best_match(q, cs) matches MatchOutcome::Ambiguous(vs) ==> vs.len() >= 2
            && forall|i: int| 0 <= i < vs.len() ==> cs.contains(#[trigger] vs[i]),
        spec_find_best_match(q, cs) is NotFound ==> forall|i: int|
            0 <= i < cs.len() ==> spec_fuzzy_score(q, #[trigger] cs[i]) is None,
{
    let lq = spec_lowercase(q);
    lemma_ci_members(lq, cs);
    lemma_prefix_members(lq, cs);
    lemma_substring_members(lq, cs);
    lemma_max_attained(q, cs);
    lemma_scored_members(q, cs, max_score(q, cs));
    if fuzzy_matches(q, cs).len() == 0 {
        lemma_no_fuzzy_match(q, cs);
    }
    let ci = ci_exact_matches(lq, cs);
    let pre = prefix_matches(lq, cs);
    let sub = substring_matches(lq, cs);
    let top = scored(q, cs, max_score(q, cs));
    if ci.len() == 1 {
        assert(cs.contains(ci[0]));
    }
    if pre.len() == 1 {
        assert(cs.contains(pre[0]));
    }
    if sub.len() == 1 {
        assert(cs.contains(sub[0]));
    }
    if top.len() > 0 {
        assert(cs.contains(top[0]));
    }
}

} // verus!
