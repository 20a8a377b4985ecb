//! Request-path normalization: percent-decoding the domain segment,
//! appending `.com` to bare domains, and assembling the repository URL.

use vstd::prelude::*;
use vstd::string::StringExecFns;
use crate::strutil::contains_char;

verus! {

/// What percent-decoding a path segment yields, when the decoded bytes are
/// valid UTF-8; a fixed function of the characters alone.
pub uninterp spec fn percent_decoded(s: Seq<char>) -> Option<Seq<char>>;

/// Relies on percent_encoding::percent_decode_str and
/// PercentDecode::decode_utf8: decoding depends on the input alone and fails
/// exactly when the decoded bytes are not valid UTF-8.
#[verifier::external_body]
fn percent_decode(s: &str) -> (r: Option<String>)
    ensures
        r matches Some(d) ==> percent_decoded(s@) == Some(d@),
        r is None ==> percent_decoded(s@) is None,
{
    percent_encoding::percent_decode_str(s).decode_utf8().ok().map(|c| c.into_owned())
}

/// A decoded domain with `.com` appended when it has no dot, for backwards
/// compatibility with domain-less requests.
pub open spec fn spec_with_default_tld(d: Seq<char>) -> Seq<char> {
    if d.contains('.') {
        d
    } else {
        d + ".com"@
    }
}

/// Percent-decodes the domain path segment and appends `.com` when the
/// decoded domain contains no dot. Returns nothing when the segment does not
/// decode to UTF-8 text; the request is then rejected.
pub fn normalize_domain(raw: &str) -> (r: Option<String>)
    ensures
        (match percent_decoded(raw@) {
            Some(d) => r matches Some(s) && s@ == spec_with_default_tld(d),
            None => r is None,
        }),
{
    match percent_decode(raw) {
        None => None,
        Some(mut d) => {
            if !contains_char(d.as_str(), '.') {
                d.append(".com");
            }
            Some(d)
        },
    }
}

/// The repository URL for a domain, owner and repository name.
pub open spec fn spec_repo_url(domain: Seq<char>, owner: Seq<char>, repo: Seq<char>) -> Seq<char> {
    "https://"@ + domain + "/"@ + owner + "/"@ + repo
}

/// Builds the HTTPS repository URL that both the ref listing and the clone
/// use.
pub fn build_repo_url(domain: &str, owner: &str, repo: &str) -> (r: String)
    ensures
        r@ == spec_repo_url(domain@, owner@, repo@),
{
    let mut s: String = "https://".to_owned();
    s.append(domain);
    s.append("/");
    s.append(owner);
    s.append("/");
    s.append(repo);
    s
}

} // verus!
