//! Running one command in many worktrees (`hn each`): which worktrees take part, what
//! each run's outcome means for the ones after it, and how the whole run ends.
use vstd::prelude::*;
use crate::error::{HnError, join_strings, seq_join, views};
use crate::text::{concat2, concat3, decimal, spec_decimal};
use crate::vcs::Worktree;

verus! {

/// The compiled regular expression of the `regex` crate.
#[verifier::external_type_specification]
#[verifier::external_body]
pub struct ExRegex(regex::Regex);

/// What `regex::Regex::new` says of `pattern`: nothing when it compiles, else the text of
/// its error.
pub uninterp spec fn spec_regex_error(pattern: Seq<char>) -> Option<Seq<char>>;

/// What `regex::Regex::is_match` answers for the expression compiled from `pattern` on
/// `haystack`: whether it matches anywhere in it.
pub uninterp spec fn spec_regex_is_match(pattern: Seq<char>, haystack: Seq<char>) -> bool;

/// A pattern on worktree names, compiled.
pub struct NameFilter {
    pattern: String,
    regex: regex::Regex,
}

impl NameFilter {
    /// The pattern the filter was compiled from.
    pub closed spec fn pattern_view(&self) -> Seq<char> {
        self.pattern@
    }
}

/// Calls `regex::Regex::new` on `pattern`; an error's text is named by `spec_regex_error`.
#[verifier::external_body]
fn compile_filter(pattern: &str) -> (r: Result<NameFilter, String>)
    ensures
        match r {
            Ok(f) => f.pattern_view() == pattern@ && spec_regex_error(pattern@) is None,
            Err(m) => spec_regex_error(pattern@) == Some(m@),
        },
{
    match regex::Regex::new(pattern) {
        Ok(regex) => Ok(NameFilter { pattern: pattern.to_string(), regex }),
        Err(e) => Err(e.to_string()),
    }
}

/// Calls `regex::Regex::is_match`; the answer is named by `spec_regex_is_match`.
#[verifier::external_body]
fn filter_matches(filter: &NameFilter, haystack: &str) -> (r: bool)
    ensures
        r == spec_regex_is_match(filter.pattern_view(), haystack@),
{
    filter.regex.is_match(haystack)
}

/// The worktrees of `ws` whose flag in `keep` is set, in order.
pub open spec fn marked(ws: Seq<Worktree>, keep: Seq<bool>) -> Seq<Worktree>
    decreases ws.len(),
{
    if ws.len() == 0 {
        Seq::empty()
    } else if keep[ws.len() - 1] {
        marked(ws.drop_last(), keep).push(ws.last())
    } else {
        marked(ws.drop_last(), keep)
    }
}

/// The worktrees whose flag is set, in order; `keep` has one flag per worktree.
pub fn keep_marked(worktrees: Vec<Worktree>, keep: &Vec<bool>) -> (r: Vec<Worktree>)
    requires
        keep@.len() == worktrees@.len(),
    ensures
        r@ == marked(worktrees@, keep@),
{
    let ghost all = worktrees@;
    let mut rest = worktrees;
    let n = rest.len();
    let mut out: Vec<Worktree> = Vec::new();
    let mut i: usize = 0;
    while rest.len() > 0
        invariant
            keep@.len() == all.len(),
            all.len() == n,
            i <= all.len(),
            rest@ == all.skip(i as int),
            out@ == marked(all.take(i as int), keep@),
        decreases rest.len(),
    {
        let w = rest.remove(0);
        assert(all.take(i + 1).drop_last() =~= all.take(i as int));
        assert(all.take(i + 1).last() == w);
        assert(rest@ =~= all.skip(i + 1));
        if keep[i] {
            out.push(w);
        }
        i = i + 1;
    }
    assert(all.take(i as int) =~= all);
    out
}

/// The error for a filter pattern that does not compile, with the compiler's complaint.
pub fn filter_pattern_error(pattern: &str, detail: &str) -> (r: HnError)
    ensures
        r matches HnError::ConfigError(m) && m@ == "Invalid filter pattern '"@ + pattern@ + "': "@
            + detail@,
{
    let head = concat3("Invalid filter pattern '", pattern, "': ");
    HnError::ConfigError(concat2(head.as_str(), detail))
}

/// The worktrees of `ws` whose name the expression compiled from `pattern` matches.
pub open spec fn matching_names(ws: Seq<Worktree>, pattern: Seq<char>) -> Seq<bool> {
    Seq::new(ws.len(), |i: int| spec_regex_is_match(pattern, ws[i].name@))
}

/// The worktrees that take part: all of them without a filter, else those whose name the
/// filter's regular expression matches; an error when the filter does not compile.
pub fn filter_worktrees(worktrees: Vec<Worktree>, filter: Option<&str>) -> (r: Result<
    Vec<Worktree>,
    HnError,
>)
    ensures
        match filter {
            None => r == Ok::<Vec<Worktree>, HnError>(worktrees),
            Some(p) => match spec_regex_error(p@) {
                Some(e) => r matches Err(HnError::ConfigError(m)) && m@ == "Invalid filter pattern '"@
                    + p@ + "': "@ + e,
                None => r matches Ok(v) && v@ == marked(worktrees@, matching_names(worktrees@, p@)),
            },
        },
{
    match filter {
        None => Ok(worktrees),
        Some(p) => {
            let f = match compile_filter(p) {
                Ok(f) => f,
                Err(e) => {
                    return Err(filter_pattern_error(p, e.as_str()));
                },
            };
            let mut keep: Vec<bool> = Vec::new();
            let mut i: usize = 0;
            while i < worktrees.len()
                invariant
                    i <= worktrees@.len(),
                    f.pattern_view() == p@,
                    keep@ == matching_names(worktrees@, p@).take(i as int),
                decreases worktrees.len() - i,
            {
                let b = filter_matches(&f, worktrees[i].name.as_str());
                keep.push(b);
                assert(keep@ =~= matching_names(worktrees@, p@).take(i + 1));
                i = i + 1;
            }
            assert(keep@ =~= matching_names(worktrees@, p@));
            Ok(keep_marked(worktrees, &keep))
        },
    }
}

/// Refuses an empty command line.
pub fn check_each_command(command: &[String]) -> (r: Result<(), HnError>)
    ensures
        command@.len() == 0 ==> (r matches Err(HnError::ConfigError(m)) && m@
            == "No command specified. Usage: hn each <command>"@),
        command@.len() > 0 ==> r is Ok,
{
    if command.len() == 0 {
        Err(HnError::ConfigError(String::from_str("No command specified. Usage: hn each <command>")))
    } else {
        Ok(())
    }
}

/// The line announcing the run: `Executing command in <n> worktree(s)...`.
pub fn each_banner(count: usize) -> (r: String)
    ensures
        r@ == "Executing command in "@ + spec_decimal(count as nat) + " worktree"@ + (if count == 1 {
            ""@
        } else {
            "s"@
        }) + "..."@,
{
    let d = decimal(count as u64);
    let mut r = concat3("Executing command in ", d.as_str(), " worktree");
    if count != 1 {
        r.append("s");
    }
    r.append("...");
    proof {
        reveal_strlit("");
    }
    r
}

/// The heading printed before a worktree's output: `==> <name> <==`.
pub fn separator(worktree_name: &str) -> (r: String)
    ensures
        r@ == "==> "@ + worktree_name@ + " <=="@,
{
    concat3("==> ", worktree_name, " <==")
}

/// The error for a command that could not be started in a worktree.
pub fn execute_error(command: &Vec<String>, worktree_name: &str, detail: &str) -> (r: HnError)
    ensures
        r matches HnError::CommandFailed(m) && m@ == "Failed to execute '"@ + seq_join(
            views(command@),
            " "@,
        ) + "' in '"@ + worktree_name@ + "': "@ + detail@,
{
    let line = join_strings(command, " ");
    let mut m = concat3("Failed to execute '", line.as_str(), "' in '");
    m.append(worktree_name);
    m.append("': ");
    m.append(detail);
    HnError::CommandFailed(m)
}

/// What the run of the command in one worktree means for the rest.
#[derive(Debug)]
pub enum EachStep {
    /// The command succeeded; go on.
    Done,
    /// The command failed; note it and go on.
    Failed,
    /// The command could not be run; report the error, note it and go on.
    Errored(HnError),
    /// The command failed and the run stops with this error.
    StopAfterFailure(HnError),
    /// The command could not be run; report the error, and the run stops with it.
    StopAfterError(HnError),
}

/// Decides, in a run one worktree after the other, what the outcome of the command in
/// `worktree_name` means: success goes on; a failure or an error is noted, and stops the
/// run when `stop_on_error` is set.
pub fn each_step(stop_on_error: bool, worktree_name: &str, outcome: Result<bool, HnError>) -> (r:
    EachStep)
    ensures
        match outcome {
            Ok(true) => r is Done,
            Ok(false) => if stop_on_error {
                r matches EachStep::StopAfterFailure(HnError::CommandFailed(m)) && m@
                    == "Command failed in worktree '"@ + worktree_name@ + "'"@
            } else {
                r is Failed
            },
            Err(e) => if stop_on_error {
                r == EachStep::StopAfterError(e)
            } else {
                r == EachStep::Errored(e)
            },
        },
{
    match outcome {
        Ok(true) => EachStep::Done,
        Ok(false) => {
            if stop_on_error {
                EachStep::StopAfterFailure(
                    HnError::CommandFailed(
                        concat3("Command failed in worktree '", worktree_name, "'"),
                    ),
                )
            } else {
                EachStep::Failed
            }
        },
        Err(e) => {
            if stop_on_error {
                EachStep::StopAfterError(e)
            } else {
                EachStep::Errored(e)
            }
        },
    }
}

/// Whether a step noted a failure or an error.
pub open spec fn step_failed(s: EachStep) -> bool {
    !(s is Done)
}

/// Whether the step noted a failure or an error.
pub fn step_is_failure(step: &EachStep) -> (r: bool)
    ensures
        r == step_failed(*step),
{
    match step {
        EachStep::Done => false,
        _ => true,
    }
}

/// How a run that went through every worktree ends: with a warning that some commands
/// failed when one did, unless the run was to stop at the first failure; in a parallel
/// run, which cannot stop the others, a failure with `stop_on_error` set is an error.
pub fn each_finish(parallel: bool, had_errors: bool, stop_on_error: bool) -> (r: Result<bool, HnError>)
    ensures
        !had_errors ==> r == Ok::<bool, HnError>(false),
        had_errors && !stop_on_error ==> r == Ok::<bool, HnError>(true),
        had_errors && stop_on_error && !parallel ==> r == Ok::<bool, HnError>(false),
        had_errors && stop_on_error && parallel ==> (r matches Err(HnError::CommandFailed(m)) && m@
            == "Command failed in one or more worktrees"@),
{
    if !had_errors {
        Ok(false)
    } else if !stop_on_error {
        Ok(true)
    } else if parallel {
        Err(HnError::CommandFailed(String::from_str("Command failed in one or more worktrees")))
    } else {
        Ok(false)
    }
}

} // verus!
