//! Hooks: which scripts run for a lifecycle event, conditions on branch names, and the
//! environment handed to hook scripts.
use vstd::prelude::*;
use vstd::string::StringSliceAdditionalSpecFns;
use vstd::utf8::is_char_boundary;
use crate::config::{ConditionalHook, HooksConfig};
use crate::error::HnError;
use crate::paths::{path_parent, spec_path_parent};
use crate::text::{
    chars_of, concat3, contains, ends_with, find_char_from, first_at_or_after, matches_at,
    seq_contains, seq_ends_with, seq_starts_with, slice_chars, spec_trim, spec_trim_start,
    starts_with, string_of, trim_chars, trim_start_chars,
};
use crate::vcs::Worktree;

verus! {

/// The lifecycle events that can run hooks.
#[derive(Debug, Clone, Copy, PartialEq, Eq)]
pub enum HookType {
    PreCreate,
    PostCreate,
    PreRemove,
    PostRemove,
    PostSwitch,
    PreIntegrate,
    PostIntegrate,
}

impl HookType {
    /// The configuration key of the event.
    pub open spec fn spec_name(self) -> Seq<char> {
        match self {
            HookType::PreCreate => "pre_create"@,
            HookType::PostCreate => "post_create"@,
            HookType::PreRemove => "pre_remove"@,
            HookType::PostRemove => "post_remove"@,
            HookType::PostSwitch => "post_switch"@,
            HookType::PreIntegrate => "pre_integrate"@,
            HookType::PostIntegrate => "post_integrate"@,
        }
    }

    /// The configuration key of the event.
    pub fn as_str(&self) -> (r: &'static str)
        ensures
            r@ == self.spec_name(),
    {
        match self {
            HookType::PreCreate => "pre_create",
            HookType::PostCreate => "post_create",
            HookType::PreRemove => "pre_remove",
            HookType::PostRemove => "post_remove",
            HookType::PostSwitch => "post_switch",
            HookType::PreIntegrate => "pre_integrate",
            HookType::PostIntegrate => "post_integrate",
        }
    }

    /// Whether the hook runs in the worktree's parent directory (the worktree does not
    /// exist yet, or no longer exists).
    pub fn runs_in_parent(&self) -> (r: bool)
        ensures
            r == (self is PreCreate || self is PostRemove),
    {
        match self {
            HookType::PreCreate | HookType::PostRemove => true,
            _ => false,
        }
    }
}

/// The unconditional script configured for an event.
pub open spec fn hook_script(c: HooksConfig, t: HookType) -> Option<String> {
    match t {
        HookType::PreCreate => c.pre_create,
        HookType::PostCreate => c.post_create,
        HookType::PreRemove => c.pre_remove,
        HookType::PostRemove => c.post_remove,
        HookType::PostSwitch => c.post_switch,
        HookType::PreIntegrate => c.pre_integrate,
        HookType::PostIntegrate => c.post_integrate,
    }
}

/// The conditional hooks configured for an event.
pub open spec fn hook_conditions(c: HooksConfig, t: HookType) -> Seq<ConditionalHook> {
    match t {
        HookType::PreCreate => c.pre_create_conditions@,
        HookType::PostCreate => c.post_create_conditions@,
        HookType::PreRemove => c.pre_remove_conditions@,
        HookType::PostRemove => c.post_remove_conditions@,
        HookType::PostSwitch => c.post_switch_conditions@,
        HookType::PreIntegrate => c.pre_integrate_conditions@,
        HookType::PostIntegrate => c.post_integrate_conditions@,
    }
}

/// Whether anything is configured for event `t`: a script or at least one conditional
/// hook.
pub open spec fn spec_hook_configured(c: HooksConfig, t: HookType) -> bool {
    hook_script(c, t) is Some || hook_conditions(c, t).len() > 0
}

/// Whether anything is configured for event `hook_type`.
pub fn hook_configured(config: &HooksConfig, hook_type: HookType) -> (r: bool)
    ensures
        r == spec_hook_configured(*config, hook_type),
{
    match hook_type {
        HookType::PreCreate => config.pre_create.is_some() || config.pre_create_conditions.len() > 0,
        HookType::PostCreate => config.post_create.is_some() || config.post_create_conditions.len()
            > 0,
        HookType::PreRemove => config.pre_remove.is_some() || config.pre_remove_conditions.len() > 0,
        HookType::PostRemove => config.post_remove.is_some() || config.post_remove_conditions.len()
            > 0,
        HookType::PostSwitch => config.post_switch.is_some() || config.post_switch_conditions.len()
            > 0,
        HookType::PreIntegrate => config.pre_integrate.is_some()
            || config.pre_integrate_conditions.len() > 0,
        HookType::PostIntegrate => config.post_integrate.is_some()
            || config.post_integrate_conditions.len() > 0,
    }
}

/// Every event, in the order of the configuration file.
pub open spec fn all_hook_types() -> Seq<HookType> {
    seq![
        HookType::PreCreate,
        HookType::PostCreate,
        HookType::PreRemove,
        HookType::PostRemove,
        HookType::PostSwitch,
        HookType::PreIntegrate,
        HookType::PostIntegrate,
    ]
}

/// `seq![t]` when event `t` has a script, else nothing.
pub open spec fn if_scripted(c: HooksConfig, t: HookType) -> Seq<HookType> {
    if hook_script(c, t) is Some {
        seq![t]
    } else {
        Seq::empty()
    }
}

/// The events that have a script, in the order of the configuration file.
pub open spec fn scripted_hooks(c: HooksConfig) -> Seq<HookType> {
    if_scripted(c, HookType::PreCreate) + if_scripted(c, HookType::PostCreate) + if_scripted(
        c,
        HookType::PreRemove,
    ) + if_scripted(c, HookType::PostRemove) + if_scripted(c, HookType::PostSwitch) + if_scripted(
        c,
        HookType::PreIntegrate,
    ) + if_scripted(c, HookType::PostIntegrate)
}

/// The events that have a script, in the order of the configuration file.
pub fn scripted_hook_types(config: &HooksConfig) -> (r: Vec<HookType>)
    ensures
        r@ == scripted_hooks(*config),
{
    let mut r: Vec<HookType> = Vec::new();
    let all = [
        HookType::PreCreate,
        HookType::PostCreate,
        HookType::PreRemove,
        HookType::PostRemove,
        HookType::PostSwitch,
        HookType::PreIntegrate,
        HookType::PostIntegrate,
    ];
    let mut k: usize = 0;
    while k < 7
        invariant
            k <= 7,
            all@ == all_hook_types(),
            r@ == all_hook_types().take(k as int).fold_left(
                Seq::<HookType>::empty(),
                |acc: Seq<HookType>, t: HookType| acc + if_scripted(*config, t),
            ),
        decreases 7 - k,
    {
        let t = all[k];
        let set = match t {
            HookType::PreCreate => config.pre_create.is_some(),
            HookType::PostCreate => config.post_create.is_some(),
            HookType::PreRemove => config.pre_remove.is_some(),
            HookType::PostRemove => config.post_remove.is_some(),
            HookType::PostSwitch => config.post_switch.is_some(),
            HookType::PreIntegrate => config.pre_integrate.is_some(),
            HookType::PostIntegrate => config.post_integrate.is_some(),
        };
        assert(all_hook_types().take(k + 1).drop_last() =~= all_hook_types().take(k as int));
        let ghost before = r@;
        if set {
            r.push(t);
        }
        assert(r@ =~= before + if_scripted(*config, t));
        k = k + 1;
    }
    proof {
        assert(all_hook_types().take(7) =~= all_hook_types());
        reveal_with_fuel(Seq::fold_left, 8);
        let f = |acc: Seq<HookType>, t: HookType| acc + if_scripted(*config, t);
        let a = all_hook_types();
        assert(a.drop_last().drop_last().drop_last().drop_last().drop_last().drop_last().drop_last()
            =~= Seq::<HookType>::empty());
        assert(a.fold_left(Seq::<HookType>::empty(), f) =~= scripted_hooks(*config));
    }
    r
}

/// How many conditional hooks the configuration holds, over all events.
pub open spec fn spec_conditional_count(c: HooksConfig) -> nat {
    c.pre_create_conditions@.len() + c.post_create_conditions@.len()
        + c.pre_remove_conditions@.len() + c.post_remove_conditions@.len()
        + c.post_switch_conditions@.len() + c.pre_integrate_conditions@.len()
        + c.post_integrate_conditions@.len()
}

/// How many conditional hooks the configuration holds, over all events.
pub fn conditional_count(config: &HooksConfig) -> (r: u128)
    ensures
        r == spec_conditional_count(*config),
{
    config.pre_create_conditions.len() as u128 + config.post_create_conditions.len() as u128
        + config.pre_remove_conditions.len() as u128 + config.post_remove_conditions.len() as u128
        + config.post_switch_conditions.len() as u128 + config.pre_integrate_conditions.len() as u128
        + config.post_integrate_conditions.len() as u128
}

/// Whether any hook at all is configured: a script or a conditional hook for some event.
pub fn any_hooks_configured(config: &HooksConfig) -> (r: bool)
    ensures
        r == (scripted_hooks(*config).len() > 0 || spec_conditional_count(*config) > 0),
{
    let scripted = scripted_hook_types(config);
    scripted.len() > 0 || conditional_count(config) > 0
}

/// The error of a hook script that ended with a failure: its event, its exit code (-1
/// when it was ended by a signal) and what it printed.
pub fn hook_failure(hook_type: HookType, exit_code: Option<i32>, stdout: &str, stderr: &str) -> (r:
    HnError)
    ensures
        r matches HnError::HookError(m) && m@ == hook_type.spec_name() + " hook failed with exit code "@
            + crate::git::spec_signed_decimal(
            match exit_code {
                Some(c) => c as int,
                None => -1,
            },
        ) + "\nStdout: "@ + stdout@ + "\nStderr: "@ + stderr@,
{
    let code: i32 = match exit_code {
        Some(c) => c,
        None => -1,
    };
    let d = crate::git::signed_decimal(code);
    let mut m = concat3(hook_type.as_str(), " hook failed with exit code ", d.as_str());
    m.append("\nStdout: ");
    m.append(stdout);
    m.append("\nStderr: ");
    m.append(stderr);
    HnError::HookError(m)
}

/// The last character boundary of `bytes` at or before `i` (0 at the latest).
pub open spec fn boundary_at_or_before(bytes: Seq<u8>, i: int) -> int
    decreases i,
{
    if i <= 0 {
        0
    } else if is_char_boundary(bytes, i) {
        i
    } else {
        boundary_at_or_before(bytes, i - 1)
    }
}

/// What is shown of the output of a hook that timed out: all of it when it is at most 500
/// bytes long, else its longest beginning of at most 500 bytes that ends between two
/// characters.
pub fn partial_output(s: &str) -> (r: &str)
    ensures
        s.spec_bytes().len() <= 500 ==> r.spec_bytes() == s.spec_bytes(),
        s.spec_bytes().len() > 500 ==> r.spec_bytes() == s.spec_bytes().subrange(
            0,
            boundary_at_or_before(s.spec_bytes(), 500),
        ),
{
    let bytes = s.as_bytes();
    if bytes.len() <= 500 {
        return s;
    }
    proof {
        vstd::utf8::encode_utf8_valid_utf8(s@);
    }
    let ghost b = s.spec_bytes();
    let mut k: usize = 500;
    while k > 0 && !s.is_char_boundary(k)
        invariant
            0 <= k <= 500,
            b == s.spec_bytes(),
            b.len() > 500,
            boundary_at_or_before(b, 500) == boundary_at_or_before(b, k as int),
        decreases k,
    {
        k = k - 1;
    }
    proof {
        if k == 0 {
            assert(is_char_boundary(b, 0));
        }
    }
    let (head, _) = s.split_at(k);
    head
}

/// The error of a hook script that ran out of time, with what it had printed by then.
pub fn hook_timeout(hook_type: HookType, timeout_seconds: u64, partial_stdout: &str, partial_stderr: &str) -> (r:
    HnError)
    ensures
        r matches HnError::HookError(m) && m@ == hook_type.spec_name() + " hook timed out after "@
            + crate::text::spec_decimal(timeout_seconds as nat) + " seconds\nPartial stdout: "@
            + partial_stdout@ + "\nPartial stderr: "@ + partial_stderr@,
{
    let d = crate::text::decimal(timeout_seconds);
    let mut m = concat3(hook_type.as_str(), " hook timed out after ", d.as_str());
    m.append(" seconds\nPartial stdout: ");
    m.append(partial_stdout);
    m.append("\nPartial stderr: ");
    m.append(partial_stderr);
    HnError::HookError(m)
}

/// The value inside `branch.<method>('value')` or `branch.<method>("value")`: the quoted
/// text up to the first matching quote, which must be followed (after optional whitespace)
/// by `)`.
pub open spec fn spec_parse_branch_method(cond: Seq<char>, method: Seq<char>) -> Option<Seq<char>> {
    let pat = "branch."@ + method + "("@;
    if !seq_starts_with(cond, pat) {
        None
    } else {
        let rest = cond.subrange(pat.len() as int, cond.len() as int);
        if rest.len() > 0 && (rest[0] == '\'' || rest[0] == '"') {
            let body = rest.subrange(1, rest.len() as int);
            match first_at_or_after(body, rest[0], 0) {
                None => None,
                Some(e) => if seq_starts_with(
                    spec_trim_start(body.subrange(e + 1, body.len() as int)),
                    seq![')'],
                ) {
                    Some(body.subrange(0, e))
                } else {
                    None
                },
            }
        } else {
            None
        }
    }
}

/// How a condition on the branch name evaluates: `None` when it is not one of the
/// supported forms.
pub open spec fn spec_eval_condition(condition: Seq<char>, branch: Seq<char>) -> Option<bool> {
    let c = spec_trim(condition);
    match spec_parse_branch_method(c, "startsWith"@) {
        Some(p) => Some(seq_starts_with(branch, p)),
        None => match spec_parse_branch_method(c, "endsWith"@) {
            Some(s) => Some(seq_ends_with(branch, s)),
            None => match spec_parse_branch_method(c, "contains"@) {
                Some(s) => Some(seq_contains(branch, s)),
                None => None,
            },
        },
    }
}

proof fn lemma_first_quote(c: Seq<char>, ch: char, from: int, e: int)
    requires
        0 <= from <= e < c.len(),
        c[e] == ch,
        forall|k: int| from <= k < e ==> c[k] != ch,
    ensures
        first_at_or_after(c, ch, from) == Some(e),
    decreases e - from,
{
    if from < e {
        lemma_first_quote(c, ch, from + 1, e);
    }
}

/// The condition `branch.<method>(<quote>p<quote>)`.
pub open spec fn quoted_condition(method: Seq<char>, quote: char, p: Seq<char>) -> Seq<char> {
    "branch."@ + method + "("@ + seq![quote] + p + seq![quote, ')']
}

proof fn lemma_quoted_condition(method: Seq<char>, quote: char, p: Seq<char>)
    requires
        quote == '\'' || quote == '"',
        forall|i: int| 0 <= i < p.len() ==> #[trigger] p[i] != quote,
    ensures
        spec_trim(quoted_condition(method, quote, p)) == quoted_condition(method, quote, p),
        spec_parse_branch_method(quoted_condition(method, quote, p), method) == Some(p),
        quoted_condition(method, quote, p).len() > 7,
        quoted_condition(method, quote, p)[7] == (if method.len() > 0 {
            method[0]
        } else {
            '('
        }),
{
    reveal_strlit("branch.");
    reveal_strlit("(");
    let c = quoted_condition(method, quote, p);
    let pat = "branch."@ + method + "("@;
    assert(c =~= pat + (seq![quote] + p + seq![quote, ')']));
    assert(c[0] == 'b');
    assert(!crate::text::spec_is_whitespace(c[0]));
    assert(spec_trim_start(c) == c);
    assert(c.last() == ')');
    assert(crate::text::spec_trim_end(c) == c);
    assert(c.subrange(0, pat.len() as int) =~= pat);
    assert(seq_starts_with(c, pat));
    let rest = c.subrange(pat.len() as int, c.len() as int);
    assert(rest =~= seq![quote] + p + seq![quote, ')']);
    let body = rest.subrange(1, rest.len() as int);
    assert(body =~= p + seq![quote, ')']);
    lemma_first_quote(body, quote, 0, p.len() as int);
    let tail = body.subrange(p.len() + 1int, body.len() as int);
    assert(tail =~= seq![')']);
    assert(spec_trim_start(tail) == tail);
    assert(tail.subrange(0, 1) =~= seq![')']);
    assert(body.subrange(0, p.len() as int) =~= p);
    assert(c[7] == pat[7]);
}

proof fn lemma_other_method(c: Seq<char>, method: Seq<char>)
    requires
        method.len() > 0,
        c.len() > 7,
        c[7] != method[0],
    ensures
        spec_parse_branch_method(c, method) is None,
{
    reveal_strlit("branch.");
    let pat = "branch."@ + method + "("@;
    if seq_starts_with(c, pat) {
        assert(c.subrange(0, pat.len() as int)[7] == c[7]);
        assert(pat[7] == method[0]);
    }
}

/// `branch.startsWith('p')` (or with double quotes), for a `p` without that quote, holds
/// exactly when the branch name begins with `p`; a branch that has `p` only further in
/// does not satisfy it.
pub proof fn law_starts_with_condition(p: Seq<char>, quote: char, branch: Seq<char>)
    requires
        quote == '\'' || quote == '"',
        forall|i: int| 0 <= i < p.len() ==> #[trigger] p[i] != quote,
    ensures
        spec_eval_condition("branch.startsWith("@ + seq![quote] + p + seq![quote, ')'], branch) == Some(
            p.len() <= branch.len() && branch.subrange(0, p.len() as int) == p,
        ),
{
    reveal_strlit("branch.startsWith(");
    reveal_strlit("branch.");
    reveal_strlit("startsWith");
    reveal_strlit("(");
    lemma_quoted_condition("startsWith"@, quote, p);
    assert(quoted_condition("startsWith"@, quote, p) =~= "branch.startsWith("@ + seq![quote] + p + seq![
        quote,
        ')',
    ]);
}

/// `branch.endsWith('s')` (or with double quotes), for an `s` without that quote, holds
/// exactly when the branch name ends with `s`.
pub proof fn law_ends_with_condition(sfx: Seq<char>, quote: char, branch: Seq<char>)
    requires
        quote == '\'' || quote == '"',
        forall|i: int| 0 <= i < sfx.len() ==> #[trigger] sfx[i] != quote,
    ensures
        spec_eval_condition("branch.endsWith("@ + seq![quote] + sfx + seq![quote, ')'], branch) == Some(
            sfx.len() <= branch.len() && branch.subrange(branch.len() - sfx.len(), branch.len() as int)
                == sfx,
        ),
{
    reveal_strlit("branch.endsWith(");
    reveal_strlit("branch.");
    reveal_strlit("endsWith");
    reveal_strlit("startsWith");
    reveal_strlit("(");
    let c = quoted_condition("endsWith"@, quote, sfx);
    lemma_quoted_condition("endsWith"@, quote, sfx);
    lemma_other_method(c, "startsWith"@);
    assert(c =~= "branch.endsWith("@ + seq![quote] + sfx + seq![quote, ')']);
}

/// `branch.contains('s')` (or with double quotes), for an `s` without that quote, holds
/// exactly when `s` occurs somewhere in the branch name.
pub proof fn law_contains_condition(s: Seq<char>, quote: char, branch: Seq<char>)
    requires
        quote == '\'' || quote == '"',
        forall|i: int| 0 <= i < s.len() ==> #[trigger] s[i] != quote,
    ensures
        spec_eval_condition("branch.contains("@ + seq![quote] + s + seq![quote, ')'], branch) == Some(
            exists|k: int|
                0 <= k && k + s.len() <= branch.len() && #[trigger] branch.subrange(k, k + s.len()) == s,
        ),
{
    reveal_strlit("branch.contains(");
    reveal_strlit("branch.");
    reveal_strlit("contains");
    reveal_strlit("endsWith");
    reveal_strlit("startsWith");
    reveal_strlit("(");
    let c = quoted_condition("contains"@, quote, s);
    lemma_quoted_condition("contains"@, quote, s);
    lemma_other_method(c, "startsWith"@);
    lemma_other_method(c, "endsWith"@);
    assert(c =~= "branch.contains("@ + seq![quote] + s + seq![quote, ')']);
    if seq_contains(branch, s) {
        let k = choose|k: int| #[trigger] matches_at(branch, s, k);
        assert(branch.subrange(k, k + s.len()) == s);
    }
    if exists|k: int| 0 <= k && k + s.len() <= branch.len() && #[trigger] branch.subrange(k, k + s.len()) == s {
        let k = choose|k: int| 0 <= k && k + s.len() <= branch.len() && #[trigger] branch.subrange(k, k + s.len()) == s;
        assert(matches_at(branch, s, k));
    }
}

/// The error text for an unsupported condition.
pub open spec fn invalid_condition_message(condition: Seq<char>) -> Seq<char> {
    "Invalid hook condition: '"@ + spec_trim(condition)
        + "'. Supported formats: branch.startsWith('...'), branch.endsWith('...'), branch.contains('...')"@
}

/// What running the hooks of an event amounts to: the scripts to execute in order, and
/// the error to raise once they have run, if a condition could not be evaluated.
#[derive(Debug)]
pub struct HookPlan {
    pub scripts: Vec<String>,
    pub error: Option<HnError>,
}

/// Runs lifecycle hooks according to the configuration.
#[derive(Debug)]
pub struct HookExecutor {
    pub config: HooksConfig,
    pub skip_hooks: bool,
}

/// The scripts of the conditional hooks whose condition holds for `branch`, up to the first
/// condition that cannot be evaluated; `stop` is the index of that condition (or the length).
pub open spec fn matching_commands(conds: Seq<ConditionalHook>, branch: Seq<char>, stop: int) -> Seq<Seq<char>>
    decreases stop,
{
    if stop <= 0 {
        Seq::empty()
    } else {
        let prev = matching_commands(conds, branch, stop - 1);
        if spec_eval_condition(conds[stop - 1].condition@, branch) == Some(true) {
            prev.push(conds[stop - 1].command@)
        } else {
            prev
        }
    }
}

/// The index of the first condition that cannot be evaluated, or the number of conditions.
pub open spec fn first_invalid(conds: Seq<ConditionalHook>, branch: Seq<char>, from: int) -> int
    decreases conds.len() - from,
{
    if from < 0 || from >= conds.len() {
        conds.len() as int
    } else if spec_eval_condition(conds[from].condition@, branch) is None {
        from
    } else {
        first_invalid(conds, branch, from + 1)
    }
}

/// `e` is a configuration error with message `m`.
pub open spec fn config_error_opt(e: Option<HnError>, m: Seq<char>) -> bool {
    e matches Some(HnError::ConfigError(x)) && x@ == m
}

/// The views of a vector of strings.
pub open spec fn script_views(v: Seq<String>) -> Seq<Seq<char>> {
    v.map_values(|s: String| s@)
}

fn lit(s: &str) -> (r: Vec<char>)
    ensures
        r@ == s@,
{
    chars_of(s)
}

/// Parses `branch.<method>('value')` (see `spec_parse_branch_method`).
fn parse_branch_method(condition: &str, method: &str) -> (r: Option<String>)
    ensures
        match r {
            Some(v) => spec_parse_branch_method(condition@, method@) == Some(v@),
            None => spec_parse_branch_method(condition@, method@) is None,
        },
{
    let c = chars_of(condition);
    let mut pat = lit("branch.");
    let m = chars_of(method);
    let mut k: usize = 0;
    let ghost p0 = pat@;
    while k < m.len()
        invariant
            k <= m.len(),
            pat@ == p0 + m@.subrange(0, k as int),
        decreases m.len() - k,
    {
        pat.push(m[k]);
        k = k + 1;
    }
    pat.push('(');
    proof {
        reveal_strlit("(");
        assert(m@.subrange(0, m@.len() as int) =~= m@);
        assert(pat@ =~= "branch."@ + method@ + "("@);
    }
    if !starts_with(c.as_slice(), pat.as_slice()) {
        return None;
    }
    let rest = slice_chars(c.as_slice(), pat.len(), c.len());
    if rest.len() == 0 || !(rest[0] == '\'' || rest[0] == '"') {
        return None;
    }
    let q = rest[0];
    let body = slice_chars(rest.as_slice(), 1, rest.len());
    match find_char_from(body.as_slice(), q, 0) {
        None => None,
        Some(e) => {
            let after = slice_chars(body.as_slice(), e + 1, body.len());
            let t = trim_start_chars(after.as_slice());
            let mut close: Vec<char> = Vec::new();
            close.push(')');
            assert(close@ =~= seq![')']);
            if starts_with(t.as_slice(), close.as_slice()) {
                let v = slice_chars(body.as_slice(), 0, e);
                Some(string_of(v.as_slice()))
            } else {
                None
            }
        },
    }
}

impl HookExecutor {
    /// An executor for the given hooks; with `skip_hooks` nothing ever runs.
    pub fn new(config: HooksConfig, skip_hooks: bool) -> (r: Self)
        ensures
            r.config == config,
            r.skip_hooks == skip_hooks,
    {
        HookExecutor { config, skip_hooks }
    }

    /// The prefix in `branch.startsWith('prefix')`.
    pub fn parse_starts_with(condition: &str) -> (r: Option<String>)
        ensures
            match r {
                Some(v) => spec_parse_branch_method(condition@, "startsWith"@) == Some(v@),
                None => spec_parse_branch_method(condition@, "startsWith"@) is None,
            },
    {
        parse_branch_method(condition, "startsWith")
    }

    /// The suffix in `branch.endsWith('suffix')`.
    pub fn parse_ends_with(condition: &str) -> (r: Option<String>)
        ensures
            match r {
                Some(v) => spec_parse_branch_method(condition@, "endsWith"@) == Some(v@),
                None => spec_parse_branch_method(condition@, "endsWith"@) is None,
            },
    {
        parse_branch_method(condition, "endsWith")
    }

    /// The text in `branch.contains('text')`.
    pub fn parse_contains(condition: &str) -> (r: Option<String>)
        ensures
            match r {
                Some(v) => spec_parse_branch_method(condition@, "contains"@) == Some(v@),
                None => spec_parse_branch_method(condition@, "contains"@) is None,
            },
    {
        parse_branch_method(condition, "contains")
    }

    /// Evaluates a condition such as `branch.startsWith('feature/')` against a branch name.
    pub fn evaluate_condition(&self, condition: &str, branch: &str) -> (r: Result<bool, HnError>)
        ensures
            match spec_eval_condition(condition@, branch@) {
                Some(b) => r == Ok::<bool, HnError>(b),
                None => r matches Err(HnError::ConfigError(m)) && m@ == invalid_condition_message(
                    condition@,
                ),
            },
    {
        let cv = chars_of(condition);
        let tv = trim_chars(cv.as_slice());
        let t = string_of(tv.as_slice());
        let b = chars_of(branch);
        match Self::parse_starts_with(t.as_str()) {
            Some(p) => {
                let pv = chars_of(p.as_str());
                return Ok(starts_with(b.as_slice(), pv.as_slice()));
            },
            None => {},
        }
        match Self::parse_ends_with(t.as_str()) {
            Some(s) => {
                let sv = chars_of(s.as_str());
                return Ok(ends_with(b.as_slice(), sv.as_slice()));
            },
            None => {},
        }
        match Self::parse_contains(t.as_str()) {
            Some(s) => {
                let sv = chars_of(s.as_str());
                return Ok(contains(b.as_slice(), sv.as_slice()));
            },
            None => {},
        }
        Err(
            HnError::ConfigError(
                concat3(
                    "Invalid hook condition: '",
                    t.as_str(),
                    "'. Supported formats: branch.startsWith('...'), branch.endsWith('...'), branch.contains('...')",
                ),
            ),
        )
    }

    /// The scripts that running the hooks of `hook_type` for `worktree` executes, in order:
    /// the unconditional script, then each conditional command whose condition holds for
    /// the branch. Conditions are evaluated in order; at the first one that cannot be
    /// evaluated the plan stops and carries its error. With `skip_hooks` the plan is empty.
    pub fn run_hook(&self, hook_type: HookType, worktree: &Worktree) -> (r: HookPlan)
        ensures
            self.skip_hooks ==> r.scripts@.len() == 0 && r.error is None,
            !self.skip_hooks ==> {
                let conds = hook_conditions(self.config, hook_type);
                let stop = first_invalid(conds, worktree.branch@, 0);
                let head: Seq<Seq<char>> = match hook_script(self.config, hook_type) {
                    Some(s) => seq![s@],
                    None => Seq::empty(),
                };
                &&& script_views(r.scripts@) == head + matching_commands(conds, worktree.branch@, stop)
                &&& stop < conds.len() ==> config_error_opt(
                    r.error,
                    invalid_condition_message(conds[stop].condition@),
                )
                &&& stop == conds.len() ==> r.error is None
            },
    {
        let mut scripts: Vec<String> = Vec::new();
        if self.skip_hooks {
            return HookPlan { scripts, error: None };
        }
        let script = match hook_type {
            HookType::PreCreate => &self.config.pre_create,
            HookType::PostCreate => &self.config.post_create,
            HookType::PreRemove => &self.config.pre_remove,
            HookType::PostRemove => &self.config.post_remove,
            HookType::PostSwitch => &self.config.post_switch,
            HookType::PreIntegrate => &self.config.pre_integrate,
            HookType::PostIntegrate => &self.config.post_integrate,
        };
        match script {
            Some(s) => {
                scripts.push(s.clone());
            },
            None => {},
        }
        let ghost head = script_views(scripts@);
        assert(head =~= (match hook_script(self.config, hook_type) {
            Some(s) => seq![s@],
            None => Seq::<Seq<char>>::empty(),
        }));
        let conds = match hook_type {
            HookType::PreCreate => &self.config.pre_create_conditions,
            HookType::PostCreate => &self.config.post_create_conditions,
            HookType::PreRemove => &self.config.pre_remove_conditions,
            HookType::PostRemove => &self.config.post_remove_conditions,
            HookType::PostSwitch => &self.config.post_switch_conditions,
            HookType::PreIntegrate => &self.config.pre_integrate_conditions,
            HookType::PostIntegrate => &self.config.post_integrate_conditions,
        };
        assert(conds@ == hook_conditions(self.config, hook_type));
        let mut i: usize = 0;
        while i < conds.len()
            invariant
                !self.skip_hooks,
                conds@ == hook_conditions(self.config, hook_type),
                head == (match hook_script(self.config, hook_type) {
                    Some(s) => seq![s@],
                    None => Seq::<Seq<char>>::empty(),
                }),
                i <= conds@.len(),
                first_invalid(conds@, worktree.branch@, 0) == first_invalid(
                    conds@,
                    worktree.branch@,
                    i as int,
                ),
                script_views(scripts@) == head + matching_commands(conds@, worktree.branch@, i as int),
            decreases conds.len() - i,
        {
            let ghost before = scripts@;
            let ghost mc = matching_commands(conds@, worktree.branch@, i as int);
            let res = self.evaluate_condition(conds[i].condition.as_str(), worktree.branch.as_str());
            match res {
                Ok(true) => {
                    scripts.push(conds[i].command.clone());
                    proof {
                        assert(matching_commands(conds@, worktree.branch@, i + 1) == mc.push(
                            conds@[i as int].command@,
                        ));
                        assert(script_views(scripts@) =~= script_views(before).push(
                            conds@[i as int].command@,
                        ));
                        assert(script_views(scripts@) =~= head + matching_commands(
                            conds@,
                            worktree.branch@,
                            i + 1,
                        ));
                    }
                },
                Ok(false) => {
                    assert(matching_commands(conds@, worktree.branch@, i + 1) == mc);
                },
                Err(e) => {
                    assert(first_invalid(conds@, worktree.branch@, i as int) == i);
                    return HookPlan { scripts, error: Some(e) };
                },
            }
            i = i + 1;
        }
        HookPlan { scripts, error: None }
    }

    /// The environment handed to hook scripts: name, path, branch and commit of the
    /// worktree, and its state directory.
    pub fn build_env(&self, worktree: &Worktree, state_dir: &str) -> (r: Vec<(String, String)>)
        ensures
            r@.len() == 5,
            r@[0].0@ == "HNHN_NAME"@ && r@[0].1@ == worktree.name@,
            r@[1].0@ == "HNHN_PATH"@ && r@[1].1@ == worktree.path@,
            r@[2].0@ == "HNHN_BRANCH"@ && r@[2].1@ == worktree.branch@,
            r@[3].0@ == "HNHN_COMMIT"@ && r@[3].1@ == worktree.commit@,
            r@[4].0@ == "HNHN_STATE_DIR"@ && r@[4].1@ == state_dir@,
    {
        let mut env: Vec<(String, String)> = Vec::new();
        env.push((String::from_str("HNHN_NAME"), worktree.name.clone()));
        env.push((String::from_str("HNHN_PATH"), worktree.path.clone()));
        env.push((String::from_str("HNHN_BRANCH"), worktree.branch.clone()));
        env.push((String::from_str("HNHN_COMMIT"), worktree.commit.clone()));
        env.push((String::from_str("HNHN_STATE_DIR"), String::from_str(state_dir)));
        env
    }

    /// The directory a hook runs in: the worktree's parent for pre-create and post-remove
    /// hooks (falling back to the worktree path when it has no parent), else the worktree.
    pub fn working_dir(hook_type: HookType, worktree_path: &str) -> (r: String)
        ensures
            (hook_type is PreCreate || hook_type is PostRemove) ==> match spec_path_parent(worktree_path@) {
                Some(p) => r@ == p,
                None => r@ == worktree_path@,
            },
            !(hook_type is PreCreate || hook_type is PostRemove) ==> r@ == worktree_path@,
    {
        if hook_type.runs_in_parent() {
            match path_parent(worktree_path) {
                Some(p) => p,
                None => String::from_str(worktree_path),
            }
        } else {
            String::from_str(worktree_path)
        }
    }
}

} // verus!
