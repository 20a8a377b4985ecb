//! Branch resolution: from a remote's ref list to an immutable commit id.
//!
//! The caller lists the remote's refs and hands them over as plain name/id
//! pairs. The resolver extracts the branch short names (`refs/heads/*`),
//! picks the default branch (`main`, else `master`, else the first branch in
//! ref-list order), validates a requested branch, and resolves the effective
//! branch to the commit id of the first matching ref. A commit id of any
//! length other than forty characters is rejected.

use vstd::prelude::*;
use vstd::string::StrSliceExecFns;
use vstd::string::StringExecFns;
use crate::strutil::{contains_str, str_eq};

verus! {

/// One advertised ref of the remote: full ref name and commit id.
pub struct RemoteRef {
    pub name: String,
    pub oid: String,
}

/// A fully resolved repository reference, immutable for the request.
pub struct RepoRef {
    pub url: String,
    pub branch: String,
    pub commit: String,
}

/// Why a reference could not be resolved.
#[derive(Debug)]
pub enum ResolveError {
    /// The remote could not be contacted; carries the transport's message.
    RemoteUnreachable(String),
    /// The ref list holds no `refs/heads/*` entry.
    NoBranches,
    /// The requested branch is not among the remote's branches.
    UnknownBranch,
    /// The resolved commit id is not forty characters long.
    InvalidCommitId,
}

impl ResolveError {
    /// The message the HTTP layer sends with status 400: the remote's own
    /// text for an unreachable remote, and one fixed message for the three
    /// remote-state failures, which are deliberately indistinguishable at
    /// the boundary.
    pub fn http_message(&self) -> (r: String)
        ensures
            r@ == (match self {
                ResolveError::RemoteUnreachable(m) => m@,
                _ => "Invalid SHA provided."@,
            }),
    {
        match self {
            ResolveError::RemoteUnreachable(m) => m.clone(),
            _ => "Invalid SHA provided.".to_owned(),
        }
    }
}

/// The ref-name prefix that marks a branch.
pub open spec fn head_prefix() -> Seq<char> {
    "refs/heads/"@
}

/// Whether a full ref name names a branch.
pub open spec fn is_head_ref(name: Seq<char>) -> bool {
    name.len() >= 11 && name.subrange(0, 11) == head_prefix()
}

/// The branch short name: the ref name with the prefix stripped.
pub open spec fn short_name(name: Seq<char>) -> Seq<char> {
    name.subrange(11, name.len() as int)
}

/// The branch short names of a ref list, in ref-list order.
pub open spec fn spec_branch_names(refs: Seq<RemoteRef>) -> Seq<Seq<char>>
    decreases refs.len(),
{
    if refs.len() == 0 {
        Seq::empty()
    } else if is_head_ref(refs.last().name@) {
        spec_branch_names(refs.drop_last()).push(short_name(refs.last().name@))
    } else {
        spec_branch_names(refs.drop_last())
    }
}

/// Whether `name` starts with `refs/heads/`.
fn has_head_prefix(name: &str) -> (r: bool)
    ensures
        r == is_head_ref(name@),
{
    proof {
        reveal_strlit("refs/heads/");
    }
    let len = name.unicode_len();
    if len < 11 {
        return false;
    }
    let prefix = "refs/heads/";
    let mut i: usize = 0;
    while i < 11
        invariant
            i <= 11,
            name@.len() >= 11,
            prefix@ == head_prefix(),
            prefix@.len() == 11,
            forall|j: int| 0 <= j < i ==> name@[j] == head_prefix()[j],
        decreases 11 - i,
    {
        if name.get_char(i) != prefix.get_char(i) {
            proof {
                assert(name@.subrange(0, 11)[i as int] != head_prefix()[i as int]);
            }
            return false;
        }
        i += 1;
    }
    proof {
        assert(name@.subrange(0, 11) =~= head_prefix());
    }
    true
}

/// Collects the branch short names from the ref list, in order.
pub fn branch_names(refs: &Vec<RemoteRef>) -> (r: Vec<String>)
    ensures
        r.deep_view() == spec_branch_names(refs@),
{
    let mut out: Vec<String> = Vec::new();
    let mut i: usize = 0;
    proof {
        assert(refs@.take(0int) =~= Seq::<RemoteRef>::empty());
        assert(out.deep_view() =~= Seq::<Seq<char>>::empty());
    }
    while i < refs.len()
        invariant
            i <= refs.len(),
            out.deep_view() == spec_branch_names(refs@.take(i as int)),
        decreases refs.len() - i,
    {
        let name = &refs[i].name;
        let ghost pre = out.deep_view();
        proof {
            assert(refs@.take(i + 1).drop_last() =~= refs@.take(i as int));
            assert(refs@.take(i + 1).last() == refs@[i as int]);
        }
        if has_head_prefix(name.as_str()) {
            let len = name.as_str().unicode_len();
            let short = name.as_str().substring_char(11, len).to_owned();
            out.push(short);
            proof {
                assert(out.deep_view() =~= pre.push(short_name(refs@[i as int].name@)));
            }
        }
        i += 1;
    }
    proof {
        assert(refs@.take(refs@.len() as int) =~= refs@);
    }
    out
}

/// The default branch of a branch set: `main` if present, else `master` if
/// present, else the first branch in ref-list order.
pub open spec fn spec_default_branch(names: Seq<Seq<char>>) -> Seq<char> {
    if names.contains("main"@) {
        "main"@
    } else if names.contains("master"@) {
        "master"@
    } else {
        names[0]
    }
}

/// Picks the default branch from a non-empty branch list.
pub fn default_branch(branches: &Vec<String>) -> (r: String)
    requires
        branches@.len() > 0,
    ensures
        r@ == spec_default_branch(branches.deep_view()),
{
    if contains_str(branches, "main") {
        "main".to_owned()
    } else if contains_str(branches, "master") {
        "master".to_owned()
    } else {
        branches[0].clone()
    }
}

/// The commit id of the first ref whose full name is `target`.
pub open spec fn spec_first_oid(refs: Seq<RemoteRef>, target: Seq<char>) -> Option<Seq<char>>
    decreases refs.len(),
{
    if refs.len() == 0 {
        None
    } else if refs.first().name@ == target {
        Some(refs.first().oid@)
    } else {
        spec_first_oid(refs.drop_first(), target)
    }
}

/// Scans the ref list for the first ref named `target` and returns its
/// commit id.
pub fn first_oid(refs: &Vec<RemoteRef>, target: &str) -> (r: Option<String>)
    ensures
        match r {
            Some(oid) => spec_first_oid(refs@, target@) == Some(oid@),
            None => spec_first_oid(refs@, target@) is None,
        },
{
    let mut i: usize = 0;
    proof {
        assert(refs@.skip(0int) =~= refs@);
    }
    while i < refs.len()
        invariant
            i <= refs.len(),
            spec_first_oid(refs@, target@) == spec_first_oid(refs@.skip(i as int), target@),
        decreases refs.len() - i,
    {
        proof {
            assert(refs@.skip(i as int).first() == refs@[i as int]);
            assert(refs@.skip(i as int).drop_first() =~= refs@.skip(i + 1));
        }
        if str_eq(refs[i].name.as_str(), target) {
            return Some(refs[i].oid.clone());
        }
        i += 1;
    }
    proof {
        assert(refs@.skip(refs@.len() as int) =~= Seq::<RemoteRef>::empty());
    }
    None
}

/// A branch short name in the name list comes from some branch ref.
proof fn lemma_names_have_refs(refs: Seq<RemoteRef>, b: Seq<char>)
    requires
        spec_branch_names(refs).contains(b),
    ensures
        exists|i: int|
            0 <= i < refs.len() && is_head_ref(#[trigger] refs[i].name@) && short_name(
                refs[i].name@,
            ) == b,
    decreases refs.len(),
{
    if refs.len() == 0 {
    } else {
        let names = spec_branch_names(refs);
        let prev = spec_branch_names(refs.drop_last());
        if is_head_ref(refs.last().name@) && short_name(refs.last().name@) == b {
            assert(refs[refs.len() - 1].name@ == refs.last().name@);
        } else {
            let j = choose|j: int| 0 <= j < names.len() && names[j] == b;
            if is_head_ref(refs.last().name@) {
                assert(names == prev.push(short_name(refs.last().name@)));
                assert(j < prev.len());
                assert(prev[j] == b);
                assert(prev.contains(b));
            } else {
                assert(prev.contains(b));
            }
            lemma_names_have_refs(refs.drop_last(), b);
            let i = choose|i: int|
                0 <= i < refs.drop_last().len() && is_head_ref(
                    #[trigger] refs.drop_last()[i].name@,
                ) && short_name(refs.drop_last()[i].name@) == b;
            assert(refs[i] == refs.drop_last()[i]);
        }
    }
}

/// A branch ref's full name is the prefix followed by its short name.
proof fn lemma_head_ref_decompose(name: Seq<char>)
    requires
        is_head_ref(name),
    ensures
        name == head_prefix() + short_name(name),
{
    assert(name =~= name.subrange(0, 11) + name.subrange(11, name.len() as int));
}

/// When no ref at all has the target name, the scan finds nothing.
proof fn lemma_first_oid_none(refs: Seq<RemoteRef>, target: Seq<char>)
    requires
        spec_first_oid(refs, target) is None,
    ensures
        forall|i: int| 0 <= i < refs.len() ==> refs[i].name@ != target,
    decreases refs.len(),
{
    if refs.len() == 0 {
    } else {
        lemma_first_oid_none(refs.drop_first(), target);
        assert forall|i: int| 0 <= i < refs.len() implies refs[i].name@ != target by {
            if i > 0 {
                assert(refs.drop_first()[i - 1] == refs[i]);
            }
        }
    }
}

/// The branch that a request resolves to: the requested one when given, the
/// default branch otherwise.
pub open spec fn spec_effective_branch(names: Seq<Seq<char>>, requested: Seq<char>) -> Seq<char> {
    if requested.len() == 0 {
        spec_default_branch(names)
    } else {
        requested
    }
}

/// The commit id the ref list gives for a branch short name.
pub open spec fn spec_resolved_oid(refs: Seq<RemoteRef>, branch: Seq<char>) -> Option<Seq<char>> {
    spec_first_oid(refs, head_prefix() + branch)
}

/// Resolves a requested branch name (empty means "use the default branch")
/// against a remote's ref list. Fails with `NoBranches` when the ref list
/// advertises no branch at all, with `UnknownBranch` when the requested
/// branch is not among the branches, and with `InvalidCommitId` when the
/// resolved commit id is not forty characters long; otherwise returns the
/// reference with the effective branch and its commit id.
pub fn resolve_reference(url: &str, requested: &str, refs: &Vec<RemoteRef>) -> (r: Result<
    RepoRef,
    ResolveError,
>)
    ensures
        ({
            let names = spec_branch_names(refs@);
            let eff = spec_effective_branch(names, requested@);
            &&& (r matches Err(e) ==> !(e is RemoteUnreachable))
            &&& ((r matches Err(e) && e is NoBranches) <==> names.len() == 0)
            &&& ((r matches Err(e) && e is UnknownBranch) <==> (names.len() > 0
                && requested@.len() > 0 && !names.contains(requested@)))
            &&& ((r matches Err(e) && e is InvalidCommitId) <==> (names.len() > 0 && (
            requested@.len() == 0 || names.contains(requested@)) && (spec_resolved_oid(refs@, eff)
                matches Some(oid) && oid.len() != 40)))
            &&& (match r {
                Ok(rr) => {
                    &&& names.len() > 0
                    &&& (requested@.len() == 0 || names.contains(requested@))
                    &&& rr.url@ == url@
                    &&& rr.branch@ == eff
                    &&& spec_resolved_oid(refs@, eff) == Some(rr.commit@)
                    &&& rr.commit@.len() == 40
                },
                Err(_) => true,
            })
        }),
{
    let branches = branch_names(refs);
    if branches.len() == 0 {
        proof {
            assert(branches.deep_view().len() == 0);
        }
        return Err(ResolveError::NoBranches);
    }
    proof {
        assert(branches.deep_view().len() > 0);
    }
    let requested_len = requested.unicode_len();
    if requested_len > 0 && !contains_str(&branches, requested) {
        return Err(ResolveError::UnknownBranch);
    }
    let effective: String = if requested_len == 0 {
        default_branch(&branches)
    } else {
        requested.to_owned()
    };
    proof {
        assert(effective@ == spec_effective_branch(spec_branch_names(refs@), requested@));
        if requested@.len() == 0 {
            let names = branches.deep_view();
            if !names.contains("main"@) && !names.contains("master"@) {
                assert(names[0] == names.first());
                assert(names.contains(names[0]));
            }
        }
        assert(branches.deep_view().contains(effective@));
    }
    let mut target: String = "refs/heads/".to_owned();
    target.append(effective.as_str());
    proof {
        reveal_strlit("refs/heads/");
        assert(target@ == head_prefix() + effective@);
    }
    match first_oid(refs, target.as_str()) {
        None => {
            // Unreachable: the effective branch is in the branch list, so
            // some ref carries the full name; proved below.
            proof {
                lemma_names_have_refs(refs@, effective@);
                let i = choose|i: int|
                    0 <= i < refs@.len() && is_head_ref(#[trigger] refs@[i].name@) && short_name(
                        refs@[i].name@,
                    ) == effective@;
                lemma_head_ref_decompose(refs@[i].name@);
                lemma_first_oid_none(refs@, target@);
                assert(false);
            }
            Err(ResolveError::InvalidCommitId)
        },
        Some(oid) => {
            if oid.as_str().unicode_len() == 40 {
                Ok(RepoRef { url: url.to_owned(), branch: effective, commit: oid })
            } else {
                Err(ResolveError::InvalidCommitId)
            }
        },
    }
}

} // verus!
