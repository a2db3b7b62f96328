//! Sharing resources from the main repository with a worktree: lockfile compatibility,
//! copied files and symlinked directories.
use vstd::prelude::*;
use crate::config::{CopyResource, SharedResource};
use crate::error::HnError;
use crate::paths::{path_join, spec_path_join};
use crate::text::concat2;

verus! {

/// The SHA-256 digest of `data`, in lower-case hexadecimal.
pub uninterp spec fn spec_sha256_hex(data: Seq<u8>) -> Seq<char>;

/// Computes the SHA-256 digest of `data` with `sha2::Sha256` (`Digest::digest`) and writes
/// it in lower-case hexadecimal; the text is named by `spec_sha256_hex`.
#[verifier::external_body]
fn sha256_hex(data: &[u8]) -> (r: String)
    ensures
        r@ == spec_sha256_hex(data@),
{
    let digest = <sha2::Sha256 as sha2::Digest>::digest(data);
    format!("{:x}", digest)
}

/// The contents of a lockfile that may be missing.
pub open spec fn lock_view(f: Option<&[u8]>) -> Option<Seq<u8>> {
    match f {
        Some(b) => Some(b@),
        None => None,
    }
}

/// Both lockfiles exist and their digests agree.
pub open spec fn lockfiles_match(main: Option<Seq<u8>>, worktree: Option<Seq<u8>>) -> bool {
    match (main, worktree) {
        (Some(a), Some(b)) => spec_sha256_hex(a) == spec_sha256_hex(b),
        _ => false,
    }
}

/// The fast check: both lockfiles exist, have the same size, the same first kilobyte when
/// they are that long, and the same digest.
pub open spec fn lockfiles_match_fast(main: Option<Seq<u8>>, worktree: Option<Seq<u8>>) -> bool {
    match (main, worktree) {
        (Some(a), Some(b)) => if a.len() != b.len() {
            false
        } else if a.len() < 1024 {
            lockfiles_match(main, worktree)
        } else if a.take(1024) != b.take(1024) {
            false
        } else {
            lockfiles_match(main, worktree)
        },
        _ => false,
    }
}

/// Decides whether a worktree may share resources with the main repository, by its
/// lockfile.
#[derive(Debug)]
pub struct CompatibilityChecker;

impl CompatibilityChecker {
    /// Whether both lockfiles exist and have the same SHA-256 digest; a missing file
    /// (`None`) makes them incompatible.
    pub fn is_compatible(main_lockfile: Option<&[u8]>, worktree_lockfile: Option<&[u8]>) -> (r:
        Result<bool, HnError>)
        ensures
            r == Ok::<bool, HnError>(
                lockfiles_match(lock_view(main_lockfile), lock_view(worktree_lockfile)),
            ),
            main_lockfile is Some && lock_view(main_lockfile) == lock_view(worktree_lockfile)
                ==> r == Ok::<bool, HnError>(true),
    {
        match (main_lockfile, worktree_lockfile) {
            (Some(a), Some(b)) => {
                let ha = sha256_hex(a);
                let hb = sha256_hex(b);
                Ok(ha == hb)
            },
            _ => Ok(false),
        }
    }

    /// The same answer by a cheaper route: files of different sizes, or whose first
    /// kilobytes differ, are incompatible without hashing.
    pub fn is_compatible_fast(main_lockfile: Option<&[u8]>, worktree_lockfile: Option<&[u8]>) -> (r:
        Result<bool, HnError>)
        ensures
            r == Ok::<bool, HnError>(
                lockfiles_match_fast(lock_view(main_lockfile), lock_view(worktree_lockfile)),
            ),
            r == Ok::<bool, HnError>(true) ==> lockfiles_match(
                lock_view(main_lockfile),
                lock_view(worktree_lockfile),
            ),
            main_lockfile is Some && lock_view(main_lockfile) == lock_view(worktree_lockfile)
                ==> r == Ok::<bool, HnError>(true),
    {
        match (main_lockfile, worktree_lockfile) {
            (Some(a), Some(b)) => {
                if a.len() != b.len() {
                    return Ok(false);
                }
                if a.len() < 1024 {
                    return CompatibilityChecker::is_compatible(main_lockfile, worktree_lockfile);
                }
                let mut i: usize = 0;
                while i < 1024
                    invariant
                        i <= 1024,
                        1024 <= a@.len(),
                        a@.len() == b@.len(),
                        main_lockfile == Some(a),
                        worktree_lockfile == Some(b),
                        forall|j: int| 0 <= j < i ==> a@[j] == b@[j],
                    decreases 1024 - i,
                {
                    if a[i] != b[i] {
                        assert(a@.take(1024)[i as int] != b@.take(1024)[i as int]);
                        return Ok(false);
                    }
                    i = i + 1;
                }
                assert(a@.take(1024) =~= b@.take(1024));
                CompatibilityChecker::is_compatible(main_lockfile, worktree_lockfile)
            },
            _ => Ok(false),
        }
    }
}

/// What happened to one file to be copied.
#[derive(Debug)]
pub enum CopyAction {
    Copied { source: String, target: String },
    Skipped { resource: String, reason: String },
}

/// The next step for one file to be copied: done, or copy `source` to `target`.
#[derive(Debug)]
pub enum CopyStep {
    Done(CopyAction),
    Copy { source: String, target: String },
}

/// Copies configured files from the main repository into a worktree.
#[derive(Debug)]
pub struct CopyManager;

/// `action` skips `resource` for `reason`.
pub open spec fn copy_skipped(action: CopyAction, resource: Seq<char>, reason: Seq<char>) -> bool {
    action matches CopyAction::Skipped { resource: r, reason: m } && r@ == resource && m@ == reason
}

impl CopyManager {
    /// Decides what to do with `resource` from what is known of its files: a missing
    /// source, a source that is not a file, or an existing target is skipped; a source
    /// outside the main repository is an error; otherwise the file is to be copied.
    pub fn plan(
        resource: &CopyResource,
        main_repo: &str,
        worktree: &str,
        source_exists: bool,
        source_inside: bool,
        source_is_file: bool,
        target_exists: bool,
    ) -> (r: Result<CopyStep, HnError>)
        ensures
            !source_exists ==> (r matches Ok(CopyStep::Done(a)) && copy_skipped(
                a,
                resource.source@,
                "Source does not exist in main repository"@,
            )),
            source_exists && !source_inside ==> (r matches Err(HnError::CopyError(m)) && m@
                == "Source is outside repository boundaries"@),
            source_exists && source_inside && !source_is_file ==> (r matches Ok(CopyStep::Done(a))
                && copy_skipped(
                a,
                resource.source@,
                "Source is not a file (only files can be copied)"@,
            )),
            source_exists && source_inside && source_is_file && target_exists ==> (r matches Ok(
                CopyStep::Done(a),
            ) && copy_skipped(a, resource.source@, "Target already exists"@)),
            source_exists && source_inside && source_is_file && !target_exists ==> (r matches Ok(
                CopyStep::Copy { source, target },
            ) && source@ == spec_path_join(main_repo@, resource.source@) && target@
                == spec_path_join(worktree@, resource.target@)),
    {
        if !source_exists {
            return Ok(
                CopyStep::Done(
                    CopyAction::Skipped {
                        resource: resource.source.clone(),
                        reason: String::from_str("Source does not exist in main repository"),
                    },
                ),
            );
        }
        if !source_inside {
            return Err(
                HnError::CopyError(String::from_str("Source is outside repository boundaries")),
            );
        }
        if !source_is_file {
            return Ok(
                CopyStep::Done(
                    CopyAction::Skipped {
                        resource: resource.source.clone(),
                        reason: String::from_str("Source is not a file (only files can be copied)"),
                    },
                ),
            );
        }
        if target_exists {
            return Ok(
                CopyStep::Done(
                    CopyAction::Skipped {
                        resource: resource.source.clone(),
                        reason: String::from_str("Target already exists"),
                    },
                ),
            );
        }
        Ok(
            CopyStep::Copy {
                source: path_join(main_repo, resource.source.as_str()),
                target: path_join(worktree, resource.target.as_str()),
            },
        )
    }

    /// The outcome of copying `source` to `target`: `copied` is the copy's own error, or
    /// whether the copied file lies inside the worktree (one outside is an error).
    pub fn finish(source: String, target: String, copied: Result<bool, HnError>) -> (r: Result<
        CopyAction,
        HnError,
    >)
        ensures
            copied matches Err(e) ==> r == Err::<CopyAction, HnError>(e),
            copied == Ok::<bool, HnError>(false) ==> (r matches Err(HnError::CopyError(m)) && m@
                == "Target is outside repository boundaries"@),
            copied == Ok::<bool, HnError>(true) ==> (r matches Ok(CopyAction::Copied { source: s, target: t })
                && s == source && t == target),
    {
        match copied {
            Err(e) => Err(e),
            Ok(false) => Err(
                HnError::CopyError(String::from_str("Target is outside repository boundaries")),
            ),
            Ok(true) => Ok(CopyAction::Copied { source, target }),
        }
    }

    /// The action recorded for `resource`: an error becomes a skip whose reason is
    /// `Error: ` and the error's text.
    pub fn record(resource: &CopyResource, outcome: Result<CopyAction, HnError>) -> (r: CopyAction)
        ensures
            outcome matches Ok(a) ==> r == a,
            outcome matches Err(e) ==> copy_skipped(r, resource.source@, "Error: "@ + e.spec_message()),
    {
        match outcome {
            Ok(a) => a,
            Err(e) => {
                let m = e.message();
                CopyAction::Skipped {
                    resource: resource.source.clone(),
                    reason: concat2("Error: ", m.as_str()),
                }
            },
        }
    }

    /// The actions for `copy_resources`, given the outcome of each in turn.
    pub fn setup(copy_resources: &[CopyResource], outcomes: Vec<Result<CopyAction, HnError>>) -> (r:
        Result<Vec<CopyAction>, HnError>)
        requires
            outcomes@.len() == copy_resources@.len(),
        ensures
            r matches Ok(v) && v@.len() == copy_resources@.len() && forall|i: int|
                0 <= i < v@.len() ==> match outcomes@[i] {
                    Ok(a) => #[trigger] v@[i] == a,
                    Err(e) => copy_skipped(
                        v@[i],
                        copy_resources@[i].source@,
                        "Error: "@ + e.spec_message(),
                    ),
                },
    {
        let ghost os = outcomes@;
        let mut outcomes = outcomes;
        let mut actions: Vec<CopyAction> = Vec::new();
        let mut i: usize = 0;
        while i < copy_resources.len()
            invariant
                i <= copy_resources@.len(),
                os.len() == copy_resources@.len(),
                actions@.len() == i,
                outcomes@ == os.subrange(i as int, os.len() as int),
                forall|j: int|
                    0 <= j < i ==> match os[j] {
                        Ok(a) => #[trigger] actions@[j] == a,
                        Err(e) => copy_skipped(
                            actions@[j],
                            copy_resources@[j].source@,
                            "Error: "@ + e.spec_message(),
                        ),
                    },
            decreases copy_resources.len() - i,
        {
            let o = outcomes.remove(0);
            assert(outcomes@ =~= os.subrange(i + 1, os.len() as int));
            let a = CopyManager::record(&copy_resources[i], o);
            actions.push(a);
            i = i + 1;
        }
        Ok(actions)
    }
}

/// What happened to one resource to be linked.
#[derive(Debug)]
pub enum SymlinkAction {
    Created { source: String, target: String },
    Skipped { resource: String, reason: String },
}

/// The next step for one resource to be linked: done, or link `target` to `source`.
#[derive(Debug)]
pub enum SymlinkStep {
    Done(SymlinkAction),
    Link { source: String, target: String },
}

/// Links shared directories of the main repository into a worktree.
#[derive(Debug)]
pub struct SymlinkManager;

/// `action` skips `resource` for `reason`.
pub open spec fn link_skipped(action: SymlinkAction, resource: Seq<char>, reason: Seq<char>) -> bool {
    action matches SymlinkAction::Skipped { resource: r, reason: m } && r@ == resource && m@ == reason
}

/// How a made link ends: kept, or removed again with an error.
#[derive(Debug)]
pub enum LinkEnd {
    /// The link stays: it and what it points to lie inside their repositories.
    Keep(SymlinkAction),
    /// The link at `target` is to be removed, and the error returned.
    Remove { target: String, error: HnError },
}

impl SymlinkManager {
    /// Decides what to do with `resource`: when it names a lockfile, `compatible` is the
    /// outcome of comparing the two lockfiles (an error is passed on, incompatible files
    /// skip the resource); a missing source or an existing target is skipped; otherwise
    /// the link is to be made.
    pub fn plan(
        resource: &SharedResource,
        main_repo: &str,
        worktree: &str,
        compatible: Result<bool, HnError>,
        source_exists: bool,
        target_exists: bool,
    ) -> (r: Result<SymlinkStep, HnError>)
        ensures
            ({
                let lock_ok = resource.compatibility is None || compatible == Ok::<bool, HnError>(
                    true,
                );
                &&& (resource.compatibility is Some && compatible is Err) ==> r
                    == Err::<SymlinkStep, HnError>(compatible->Err_0)
                &&& (resource.compatibility is Some && compatible == Ok::<bool, HnError>(
                    false,
                )) ==> (r matches Ok(SymlinkStep::Done(a)) && link_skipped(
                    a,
                    resource.source@,
                    "Incompatible lockfile: "@ + resource.compatibility->0@,
                ))
                &&& lock_ok && !source_exists ==> (r matches Ok(SymlinkStep::Done(a)) && link_skipped(
                    a,
                    resource.source@,
                    "Source does not exist in main repository"@,
                ))
                &&& lock_ok && source_exists && target_exists ==> (r matches Ok(SymlinkStep::Done(a))
                    && link_skipped(a, resource.source@, "Target already exists"@))
                &&& lock_ok && source_exists && !target_exists ==> (r matches Ok(
                    SymlinkStep::Link { source, target },
                ) && source@ == spec_path_join(main_repo@, resource.source@) && target@
                    == spec_path_join(worktree@, resource.target@))
            }),
    {
        match &resource.compatibility {
            Some(lock) => {
                match compatible {
                    Err(e) => {
                        return Err(e);
                    },
                    Ok(false) => {
                        return Ok(
                            SymlinkStep::Done(
                                SymlinkAction::Skipped {
                                    resource: resource.source.clone(),
                                    reason: concat2("Incompatible lockfile: ", lock.as_str()),
                                },
                            ),
                        );
                    },
                    Ok(true) => {},
                }
            },
            None => {},
        }
        if !source_exists {
            return Ok(
                SymlinkStep::Done(
                    SymlinkAction::Skipped {
                        resource: resource.source.clone(),
                        reason: String::from_str("Source does not exist in main repository"),
                    },
                ),
            );
        }
        if target_exists {
            return Ok(
                SymlinkStep::Done(
                    SymlinkAction::Skipped {
                        resource: resource.source.clone(),
                        reason: String::from_str("Target already exists"),
                    },
                ),
            );
        }
        Ok(
            SymlinkStep::Link {
                source: path_join(main_repo, resource.source.as_str()),
                target: path_join(worktree, resource.target.as_str()),
            },
        )
    }

    /// How the link from `target` to `source` ends once it was made: `target_inside` and
    /// `source_inside` say whether the link and what it points to lie inside their
    /// repositories. A link that leaves its repository does not remain: it is removed and
    /// the first failed check's error returned; otherwise it is kept as created.
    pub fn finish(
        source: String,
        target: String,
        target_inside: Result<(), HnError>,
        source_inside: Result<(), HnError>,
    ) -> (r: LinkEnd)
        ensures
            target_inside matches Err(e) ==> r == (LinkEnd::Remove { target, error: e }),
            target_inside is Ok ==> (source_inside matches Err(e) ==> r == (LinkEnd::Remove {
                target,
                error: e,
            })),
            target_inside is Ok && source_inside is Ok ==> r == LinkEnd::Keep(
                SymlinkAction::Created { source, target },
            ),
    {
        match target_inside {
            Err(e) => LinkEnd::Remove { target, error: e },
            Ok(()) => match source_inside {
                Err(e) => LinkEnd::Remove { target, error: e },
                Ok(()) => LinkEnd::Keep(SymlinkAction::Created { source, target }),
            },
        }
    }

    /// The action recorded for `resource`: an error becomes a skip whose reason is
    /// `Error: ` and the error's text.
    pub fn record(resource: &SharedResource, outcome: Result<SymlinkAction, HnError>) -> (r:
        SymlinkAction)
        ensures
            outcome matches Ok(a) ==> r == a,
            outcome matches Err(e) ==> link_skipped(r, resource.source@, "Error: "@ + e.spec_message()),
    {
        match outcome {
            Ok(a) => a,
            Err(e) => {
                let m = e.message();
                SymlinkAction::Skipped {
                    resource: resource.source.clone(),
                    reason: concat2("Error: ", m.as_str()),
                }
            },
        }
    }

    /// The actions for `shared_resources`, given the outcome of each in turn.
    pub fn setup(shared_resources: &[SharedResource], outcomes: Vec<Result<SymlinkAction, HnError>>) -> (r:
        Result<Vec<SymlinkAction>, HnError>)
        requires
            outcomes@.len() == shared_resources@.len(),
        ensures
            r matches Ok(v) && v@.len() == shared_resources@.len() && forall|i: int|
                0 <= i < v@.len() ==> match outcomes@[i] {
                    Ok(a) => #[trigger] v@[i] == a,
                    Err(e) => link_skipped(
                        v@[i],
                        shared_resources@[i].source@,
                        "Error: "@ + e.spec_message(),
                    ),
                },
    {
        let ghost os = outcomes@;
        let mut outcomes = outcomes;
        let mut actions: Vec<SymlinkAction> = Vec::new();
        let mut i: usize = 0;
        while i < shared_resources.len()
            invariant
                i <= shared_resources@.len(),
                os.len() == shared_resources@.len(),
                actions@.len() == i,
                outcomes@ == os.subrange(i as int, os.len() as int),
                forall|j: int|
                    0 <= j < i ==> match os[j] {
                        Ok(a) => #[trigger] actions@[j] == a,
                        Err(e) => link_skipped(
                            actions@[j],
                            shared_resources@[j].source@,
                            "Error: "@ + e.spec_message(),
                        ),
                    },
            decreases shared_resources.len() - i,
        {
            let o = outcomes.remove(0);
            assert(outcomes@ =~= os.subrange(i + 1, os.len() as int));
            let a = SymlinkManager::record(&shared_resources[i], o);
            actions.push(a);
            i = i + 1;
        }
        Ok(actions)
    }
}

} // verus!
