//! HTTP conditional-request engine: entity tags, `If-None-Match`
//! evaluation, and the decision between a 304 short-circuit and a full
//! response. The decision happens after branch resolution (the tag depends
//! on the resolved commit) and before any cache or network work, so a
//! not-modified response never triggers a clone.

use vstd::prelude::*;
use crate::etag_identifier;
use crate::strutil::str_eq;

verus! {

/// The entity-tag value for a resolved reference: commit id and branch name
/// joined with `#`. A pure function of the two inputs.
pub open spec fn spec_etag(sha: Seq<char>, branch: Seq<char>) -> Seq<char> {
    sha + "#"@ + branch
}

/// One entity tag sent by the client in `If-None-Match`.
pub struct ClientTag {
    /// Whether the client marked the tag weak; weak comparison ignores it.
    pub weak: bool,
    /// The opaque tag value, without quotes or weakness marker.
    pub value: String,
}

/// The client's `If-None-Match` header, already parsed into plain values.
pub enum InmCondition {
    /// No `If-None-Match` header (or one that did not parse).
    Absent,
    /// The literal `*`, which never matches on this endpoint.
    Any,
    /// An explicit list of entity tags.
    Tags(Vec<ClientTag>),
}

/// Weak entity-tag comparison against the computed tag: some listed tag has
/// the same opaque value, whatever its weakness mark.
pub open spec fn spec_tag_match(tags: Seq<ClientTag>, computed: Seq<char>) -> bool {
    exists|i: int| 0 <= i < tags.len() && tags[i].value@ == computed
}

/// Whether the request is answered with 304 Not Modified: only an explicit
/// tag list can match, and only by weak equality with the computed tag.
pub open spec fn spec_not_modified(cond: InmCondition, computed: Seq<char>) -> bool {
    match cond {
        InmCondition::Absent => false,
        InmCondition::Any => false,
        InmCondition::Tags(tags) => spec_tag_match(tags@, computed),
    }
}

/// Evaluates the client's condition against the computed entity tag.
pub fn decide_not_modified(cond: &InmCondition, computed: &str) -> (r: bool)
    ensures
        r == spec_not_modified(*cond, computed@),
{
    match cond {
        InmCondition::Absent => false,
        InmCondition::Any => false,
        InmCondition::Tags(tags) => {
            let mut i: usize = 0;
            while i < tags.len()
                invariant
                    *cond matches InmCondition::Tags(ts) && ts@ == tags@,
                    i <= tags@.len(),
                    forall|j: int| 0 <= j < i ==> tags@[j].value@ != computed@,
                decreases tags@.len() - i,
            {
                if str_eq(tags[i].value.as_str(), computed) {
                    proof {
                        assert(tags@[i as int].value@ == computed@);
                        assert(spec_tag_match(tags@, computed@));
                    }
                    return true;
                }
                i += 1;
            }
            false
        },
    }
}

/// What the request pipeline does after the conditional check.
pub enum ResponsePlan {
    /// Answer 304 with no body; no statistics are computed, no clone is made.
    /// The caller may still refresh the cache entry's recency.
    NotModified,
    /// Answer 200: fetch statistics (from cache or by computing) and render,
    /// sending this weak entity tag and `Cache-Control: no-cache`.
    Render { etag: String },
}

/// Decides between a 304 short-circuit and a full response for the resolved
/// reference. The plan is `NotModified` exactly when a client tag weakly
/// matches the computed tag — and that plan carries no statistics work, so a
/// 304 never triggers a clone.
pub fn plan_conditional(cond: &InmCondition, sha: &str, branch: &str) -> (r: ResponsePlan)
    ensures
        (r is NotModified) <==> spec_not_modified(*cond, spec_etag(sha@, branch@)),
        r matches ResponsePlan::Render { etag } ==> etag@ == spec_etag(sha@, branch@),
{
    let tag = etag_identifier(sha, branch);
    if decide_not_modified(cond, tag.as_str()) {
        ResponsePlan::NotModified
    } else {
        ResponsePlan::Render { etag: tag }
    }
}

/// Whether the response body is JSON: only an `Accept` header that is
/// exactly the JSON media type selects JSON; anything else gets SVG.
pub fn wants_json(accept: &str) -> (r: bool)
    ensures
        r == (accept@ == "application/json"@),
{
    str_eq(accept, "application/json")
}

/// The entity tag determines the commit id and branch it was derived from:
/// as long as the commit id has no `#` (it is forty hexadecimal characters),
/// equal tags can only come from equal inputs — together with the tag being
/// a function of those inputs, the tag is exact.
pub proof fn lemma_etag_injective(c1: Seq<char>, b1: Seq<char>, c2: Seq<char>, b2: Seq<char>)
    requires
        !c1.contains('#'),
        !c2.contains('#'),
        spec_etag(c1, b1) == spec_etag(c2, b2),
    ensures
        c1 == c2,
        b1 == b2,
{
    reveal_strlit("#");
    assert("#"@.len() == 1);
    let t = spec_etag(c1, b1);
    let n1 = c1.len() as int;
    let n2 = c2.len() as int;
    assert(t[n1] == '#');
    assert(t[n2] == '#');
    if n1 < n2 {
        assert(t[n1] == c2[n1]);
        assert(c2.contains('#'));
    } else if n2 < n1 {
        assert(t[n2] == c1[n2]);
        assert(c1.contains('#'));
    }
    assert(n1 == n2);
    assert forall|i: int| 0 <= i < n1 implies c1[i] == c2[i] by {
        assert(t[i] == c1[i]);
        assert(t[i] == c2[i]);
    }
    assert(c1 =~= c2);
    assert(t.len() == n1 + 1 + b1.len());
    assert(spec_etag(c2, b2).len() == n2 + 1 + b2.len());
    assert(b1.len() == b2.len());
    assert forall|i: int| 0 <= i < b1.len() implies b1[i] == b2[i] by {
        assert(t[n1 + 1 + i] == b1[i]);
        assert(t[n1 + 1 + i] == b2[i]);
    }
    assert(b1 =~= b2);
}

} // verus!
