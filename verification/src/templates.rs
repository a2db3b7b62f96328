//! Worktree templates: locating them, describing them, filling in their files and
//! checking the version a template package asks for.
use vstd::prelude::*;
use crate::error::HnError;
use crate::config::HooksConfig;
use crate::paths::{path_join, spec_path_join};
use crate::text::{
    chars_of, concat2, concat3, is_blank, matches_at, matches_at_exec, spec_is_blank, spec_lines,
    spec_trim, split_lines, str_eq, string_of, trim_chars,
};
use crate::vcs::{strip_all_prefix, strip_all_prefix_exec};
use crate::versions::{VersionOrder, compare_versions, spec_version_compare};

verus! {

/// The version of this program.
pub const VERSION: &'static str = "0.6.0";

/// `s` with every occurrence of `pat` replaced by `rep`, scanning from the left, as
/// `str::replace` does.
pub open spec fn replace_all(s: Seq<char>, pat: Seq<char>, rep: Seq<char>) -> Seq<char>
    decreases s.len(),
{
    if s.len() == 0 {
        Seq::empty()
    } else if pat.len() > 0 && matches_at(s, pat, 0) {
        rep + replace_all(s.skip(pat.len() as int), pat, rep)
    } else {
        seq![s[0]] + replace_all(s.drop_first(), pat, rep)
    }
}

/// The text of a template file with its variables filled in: `${HNHN_NAME}`, then
/// `${HNHN_PATH}`, then `${HNHN_BRANCH}` (the branch is the worktree's name).
pub open spec fn substituted(content: Seq<char>, name: Seq<char>, path: Seq<char>) -> Seq<char> {
    replace_all(
        replace_all(replace_all(content, "${HNHN_NAME}"@, name), "${HNHN_PATH}"@, path),
        "${HNHN_BRANCH}"@,
        name,
    )
}

/// Replaces every occurrence of `pat` in `s` by `rep`.
pub fn replace_str(s: &str, pat: &str, rep: &str) -> (r: String)
    ensures
        r@ == replace_all(s@, pat@, rep@),
{
    let c = chars_of(s);
    let p = chars_of(pat);
    let rv = chars_of(rep);
    let mut out: Vec<char> = Vec::new();
    let mut i: usize = 0;
    assert(c@.skip(0) =~= c@);
    while i < c.len()
        invariant
            i <= c@.len(),
            c@ == s@,
            p@ == pat@,
            rv@ == rep@,
            out@ + replace_all(c@.skip(i as int), p@, rv@) == replace_all(c@, p@, rv@),
        decreases c.len() - i,
    {
        let ghost rest = c@.skip(i as int);
        if p.len() > 0 && matches_at_exec(c.as_slice(), p.as_slice(), i) {
            proof {
                assert(rest.subrange(0, p@.len() as int) =~= c@.subrange(i as int, i + p@.len()));
                assert(rest.skip(p@.len() as int) =~= c@.skip(i + p@.len()));
            }
            let mut k: usize = 0;
            let ghost o0 = out@;
            while k < rv.len()
                invariant
                    k <= rv@.len(),
                    out@ == o0 + rv@.take(k as int),
                decreases rv.len() - k,
            {
                out.push(rv[k]);
                assert(out@ =~= o0 + rv@.take(k + 1));
                k = k + 1;
            }
            assert(rv@.take(rv@.len() as int) =~= rv@);
            assert(out@ + replace_all(c@.skip(i + p@.len()), p@, rv@) =~= o0 + (rv@ + replace_all(
                rest.skip(p@.len() as int),
                p@,
                rv@,
            )));
            i = i + p.len();
        } else {
            proof {
                if p@.len() > 0 && i + p@.len() <= c@.len() {
                    assert(rest.subrange(0, p@.len() as int) =~= c@.subrange(i as int, i + p@.len()));
                }
                assert(rest.drop_first() =~= c@.skip(i + 1));
            }
            let ghost o0 = out@;
            out.push(c[i]);
            assert(out@ + replace_all(c@.skip(i + 1), p@, rv@) =~= o0 + (seq![rest[0]] + replace_all(
                rest.drop_first(),
                p@,
                rv@,
            )));
            i = i + 1;
        }
    }
    assert(out@ + replace_all(c@.skip(i as int), p@, rv@) =~= out@);
    string_of(out.as_slice())
}

/// Fills in the variables of a template file for worktree `worktree_name` at
/// `worktree_path`.
pub fn substitute_variables(content: &str, worktree_name: &str, worktree_path: &str) -> (r: String)
    ensures
        r@ == substituted(content@, worktree_name@, worktree_path@),
{
    let a = replace_str(content, "${HNHN_NAME}", worktree_name);
    let b = replace_str(a.as_str(), "${HNHN_PATH}", worktree_path);
    replace_str(b.as_str(), "${HNHN_BRANCH}", worktree_name)
}

/// The first line of `ls` that is not blank.
pub open spec fn first_nonblank(ls: Seq<Seq<char>>) -> Option<Seq<char>>
    decreases ls.len(),
{
    if ls.len() == 0 {
        None
    } else if spec_trim(ls[0]).len() > 0 {
        Some(ls[0])
    } else {
        first_nonblank(ls.drop_first())
    }
}

/// `s` without its leading `#` characters.
pub open spec fn strip_hashes(s: Seq<char>) -> Seq<char>
    decreases s.len(),
{
    if s.len() > 0 && s[0] == '#' {
        strip_hashes(s.drop_first())
    } else {
        s
    }
}

/// The description a template takes from its README: the first non-blank line, without
/// leading `#` characters, trimmed; none when every line is blank.
pub open spec fn readme_description(content: Seq<char>) -> Option<Seq<char>> {
    match first_nonblank(spec_lines(content)) {
        Some(l) => Some(spec_trim(strip_hashes(l))),
        None => None,
    }
}

/// The description of a template, from its README when it has one, else from its
/// `description.txt` (trimmed).
pub open spec fn template_description(readme: Option<Seq<char>>, text: Option<Seq<char>>) -> Option<
    Seq<char>,
> {
    match readme {
        Some(c) => readme_description(c),
        None => match text {
            Some(t) => Some(spec_trim(t)),
            None => None,
        },
    }
}

/// The text of an optional string.
pub open spec fn opt_view(o: Option<&str>) -> Option<Seq<char>> {
    match o {
        Some(s) => Some(s@),
        None => None,
    }
}

/// The text of an optional owned string.
pub open spec fn opt_string_view(o: Option<String>) -> Option<Seq<char>> {
    match o {
        Some(s) => Some(s@),
        None => None,
    }
}

/// The description of a template from the contents of its `README.md` and its
/// `description.txt`, where they could be read.
pub fn read_template_description(readme: Option<&str>, description_txt: Option<&str>) -> (r: Option<
    String,
>)
    ensures
        opt_string_view(r) == template_description(opt_view(readme), opt_view(description_txt)),
{
    match readme {
        Some(content) => {
            let c = chars_of(content);
            let lines = split_lines(c.as_slice());
            let mut i: usize = 0;
            let ghost ls = spec_lines(content@);
            assert(ls.skip(0) =~= ls);
            while i < lines.len()
                invariant
                    i <= lines@.len(),
                    lines@.len() == ls.len(),
                    ls == spec_lines(content@),
                    readme == Some(content),
                    forall|k: int| 0 <= k < lines@.len() ==> #[trigger] lines@[k]@ == ls[k],
                    first_nonblank(ls) == first_nonblank(ls.skip(i as int)),
                decreases lines.len() - i,
            {
                let t = trim_chars(lines[i].as_slice());
                assert(ls.skip(i as int)[0] == ls[i as int]);
                if t.len() > 0 {
                    let mut k: usize = 0;
                    let l = &lines[i];
                    assert(l@.skip(0) =~= l@);
                    while k < l.len() && l[k] == '#'
                        invariant
                            k <= l@.len(),
                            strip_hashes(l@) == strip_hashes(l@.skip(k as int)),
                        decreases l.len() - k,
                    {
                        assert(l@.skip(k as int).drop_first() =~= l@.skip(k + 1));
                        k = k + 1;
                    }
                    let rest = crate::text::slice_chars(l.as_slice(), k, l.len());
                    assert(rest@ =~= l@.skip(k as int));
                    assert(strip_hashes(l@.skip(k as int)) == l@.skip(k as int));
                    assert(first_nonblank(ls.skip(i as int)) == Some(ls[i as int]));
                    let d = trim_chars(rest.as_slice());
                    return Some(string_of(d.as_slice()));
                }
                assert(ls.skip(i as int).drop_first() =~= ls.skip(i + 1));
                i = i + 1;
            }
            None
        },
        None => match description_txt {
            Some(t) => {
                let c = chars_of(t);
                let d = trim_chars(c.as_slice());
                Some(string_of(d.as_slice()))
            },
            None => None,
        },
    }
}

/// A template: a directory under `.hn-templates` with its own configuration file.
#[derive(Debug)]
pub struct Template {
    pub name: String,
    pub description: Option<String>,
    pub config_path: String,
}

/// The directory of template `name`: `<repo>/.hn-templates/<name>`.
pub open spec fn template_dir_path(repo_root: Seq<char>, name: Seq<char>) -> Seq<char> {
    spec_path_join(spec_path_join(repo_root, ".hn-templates"@), name)
}

/// The directory of template `template_name`.
pub fn template_dir(repo_root: &str, template_name: &str) -> (r: String)
    ensures
        r@ == template_dir_path(repo_root@, template_name@),
{
    let base = path_join(repo_root, ".hn-templates");
    path_join(base.as_str(), template_name)
}

/// The template `template_name`, given whether its directory and its configuration file
/// exist and the description read for it.
pub fn get_template(
    repo_root: &str,
    template_name: &str,
    dir_exists: bool,
    config_exists: bool,
    description: Option<String>,
) -> (r: Result<Template, HnError>)
    ensures
        !dir_exists ==> (r matches Err(HnError::ConfigError(m)) && m@ == "Template '"@
            + template_name@ + "' not found in .hn-templates/"@),
        dir_exists && !config_exists ==> (r matches Err(HnError::ConfigError(m)) && m@
            == "Template '"@ + template_name@ + "' is missing .hannahanna.yml"@),
        dir_exists && config_exists ==> (r matches Ok(t) && t.name@ == template_name@
            && t.description == description && t.config_path@ == spec_path_join(
            template_dir_path(repo_root@, template_name@),
            ".hannahanna.yml"@,
        )),
{
    if !dir_exists {
        return Err(
            HnError::ConfigError(
                concat3("Template '", template_name, "' not found in .hn-templates/"),
            ),
        );
    }
    if !config_exists {
        return Err(
            HnError::ConfigError(
                concat3("Template '", template_name, "' is missing .hannahanna.yml"),
            ),
        );
    }
    let dir = template_dir(repo_root, template_name);
    Ok(
        Template {
            name: String::from_str(template_name),
            description,
            config_path: path_join(dir.as_str(), ".hannahanna.yml"),
        },
    )
}

/// The manifest of a template package.
#[derive(Debug)]
pub struct TemplateManifest {
    pub name: String,
    pub version: String,
    pub author: Option<String>,
    pub description: Option<String>,
    pub created: String,
    pub hannahanna_version: String,
    pub tags: Vec<String>,
    pub dependencies: Vec<String>,
}

impl TemplateManifest {
    /// A manifest at version 1.0.0 that asks for this program's version or later, with
    /// the given author and creation time and no tags or dependencies.
    pub fn new(name: String, description: Option<String>, author: Option<String>, created: String) -> (r:
        Self)
        ensures
            r.name == name,
            r.description == description,
            r.author == author,
            r.created == created,
            r.version@ == "1.0.0"@,
            r.hannahanna_version@ == ">="@ + VERSION@,
            r.tags@.len() == 0,
            r.dependencies@.len() == 0,
    {
        TemplateManifest {
            name,
            version: String::from_str("1.0.0"),
            author,
            description,
            created,
            hannahanna_version: concat2(">=", VERSION),
            tags: Vec::new(),
            dependencies: Vec::new(),
        }
    }
}

/// The version requirement is `>=` a version newer than this program's.
pub open spec fn version_too_old(required: Seq<char>) -> bool {
    crate::text::seq_starts_with(required, ">="@) && spec_version_compare(
        VERSION@,
        strip_all_prefix(required, ">="@),
    ) == Some(VersionOrder::Lt)
}

/// Checks a template's version requirement of the form `>=<version>` against this
/// program's version; any other form, or a version that cannot be compared, passes.
pub fn validate_version_compatibility(required_version: &str) -> (r: Result<(), HnError>)
    ensures
        !version_too_old(required_version@) ==> r is Ok,
        version_too_old(required_version@) ==> (r matches Err(HnError::ConfigError(m)) && m@
            == "Template requires hannahanna "@ + required_version@
            + " but current version is "@ + VERSION@),
{
    let c = chars_of(required_version);
    let ge = chars_of(">=");
    if crate::text::starts_with(c.as_slice(), ge.as_slice()) {
        let min = strip_all_prefix_exec(c.as_slice(), ge.as_slice());
        let min_s = string_of(min.as_slice());
        match compare_versions(VERSION, min_s.as_str()) {
            Some(VersionOrder::Lt) => {
                let mut m = concat3(
                    "Template requires hannahanna ",
                    required_version,
                    " but current version is ",
                );
                m.append(VERSION);
                return Err(HnError::ConfigError(m));
            },
            _ => {},
        }
    }
    Ok(())
}

/// A hook command that is present but blank.
pub open spec fn blank_hook(h: Option<String>) -> bool {
    h matches Some(s) && spec_is_blank(s@)
}

/// The warnings that checking a template gives once its configuration parses: a missing
/// README, then a blank `post_create` hook, then a blank `pre_create` hook.
pub open spec fn template_warning_list(readme_exists: bool, hooks: HooksConfig) -> Seq<Seq<char>> {
    (if readme_exists {
        Seq::<Seq<char>>::empty()
    } else {
        seq!["Missing README.md - recommended for documentation"@]
    }) + (if blank_hook(hooks.post_create) {
        seq!["post_create hook is empty"@]
    } else {
        Seq::<Seq<char>>::empty()
    }) + (if blank_hook(hooks.pre_create) {
        seq!["pre_create hook is empty"@]
    } else {
        Seq::<Seq<char>>::empty()
    })
}

/// The warnings for a template whose configuration has `hooks`, with or without a
/// README.md beside it.
pub fn template_warnings(hooks: &HooksConfig, readme_exists: bool) -> (r: Vec<String>)
    ensures
        crate::error::views(r@) == template_warning_list(readme_exists, *hooks),
{
    let mut w: Vec<String> = Vec::new();
    if !readme_exists {
        w.push(String::from_str("Missing README.md - recommended for documentation"));
    }
    let ghost w1 = crate::error::views(w@);
    let post_blank = match &hooks.post_create {
        Some(h) => is_blank(h.as_str()),
        None => false,
    };
    if post_blank {
        w.push(String::from_str("post_create hook is empty"));
    }
    let ghost w2 = crate::error::views(w@);
    let pre_blank = match &hooks.pre_create {
        Some(h) => is_blank(h.as_str()),
        None => false,
    };
    if pre_blank {
        w.push(String::from_str("pre_create hook is empty"));
    }
    proof {
        assert(crate::error::views(w@) =~= template_warning_list(readme_exists, *hooks));
    }
    w
}

/// The name an imported package is installed under: the one asked for, else the
/// manifest's.
pub open spec fn chosen_import_name(manifest_name: Seq<char>, requested: Option<Seq<char>>) -> Seq<
    char,
> {
    match requested {
        Some(n) => n,
        None => manifest_name,
    }
}

/// Decides how a template package is installed, given its manifest, the name asked for
/// and the names already present among the templates: refused when the package asks for
/// a newer version of this program, or when a template of the chosen name exists;
/// otherwise the chosen name.
pub fn import_template_name(
    manifest: &TemplateManifest,
    requested: Option<&str>,
    existing: &Vec<String>,
) -> (r: Result<String, HnError>)
    ensures
        version_too_old(manifest.hannahanna_version@) ==> (r matches Err(HnError::ConfigError(m))
            && m@ == "Template requires hannahanna "@ + manifest.hannahanna_version@
            + " but current version is "@ + VERSION@),
        !version_too_old(manifest.hannahanna_version@) ==> ({
            let n = chosen_import_name(manifest.name@, opt_view(requested));
            if crate::error::views(existing@).contains(n) {
                r matches Err(HnError::ConfigError(m)) && m@ == "Template '"@ + n
                    + "' already exists. Remove it first or use a different name."@
            } else {
                r matches Ok(s) && s@ == n
            }
        }),
{
    match validate_version_compatibility(manifest.hannahanna_version.as_str()) {
        Ok(()) => {},
        Err(e) => {
            return Err(e);
        },
    }
    let name: &str = match requested {
        Some(n) => n,
        None => manifest.name.as_str(),
    };
    let ghost n = chosen_import_name(manifest.name@, opt_view(requested));
    assert(name@ == n);
    let mut i: usize = 0;
    while i < existing.len()
        invariant
            i <= existing.len(),
            name@ == n,
            n == chosen_import_name(manifest.name@, opt_view(requested)),
            !version_too_old(manifest.hannahanna_version@),
            forall|j: int| 0 <= j < i ==> existing@[j]@ != n,
        decreases existing.len() - i,
    {
        if str_eq(existing[i].as_str(), name) {
            proof {
                assert(crate::error::views(existing@)[i as int] == n);
            }
            return Err(
                HnError::ConfigError(
                    concat3(
                        "Template '",
                        name,
                        "' already exists. Remove it first or use a different name.",
                    ),
                ),
            );
        }
        i = i + 1;
    }
    proof {
        if crate::error::views(existing@).contains(n) {
            let k = choose|k: int|
                0 <= k < crate::error::views(existing@).len() && crate::error::views(existing@)[k]
                    == n;
            assert(existing@[k]@ == n);
        }
    }
    Ok(String::from_str(name))
}

} // verus!
