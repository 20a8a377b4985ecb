//! Verified core of a lines-of-code badge service.
//!
//! The library resolves a requested branch against a remote ref list, derives
//! stable cache and entity-tag identifiers, maintains a bounded LRU cache of
//! computed per-language statistics with a 24-hour time-to-live, decides HTTP
//! conditional (`If-None-Match` / 304) responses, and maps statistics and
//! query parameters to badge-rendering requests.

use vstd::prelude::*;
use vstd::string::StringExecFns;

pub mod badge;
pub mod cache;
pub mod conditional;
pub mod format;
pub mod guard;
pub mod request;
pub mod resolver;
pub mod stats;
pub mod strutil;

verus! {

/// Cache key for a resolved repository reference: the URL, commit id and
/// branch name joined with `#`. Two requests share a key exactly when they
/// address the same commit on the same named branch of the same URL.
pub fn repo_identifier(url: &str, sha: &str, branch_name: &str) -> (r: String)
    ensures
        r@ == url@ + "#"@ + sha@ + "#"@ + branch_name@,
{
    let mut s: String = url.to_owned();
    s.append("#");
    s.append(sha);
    s.append("#");
    s.append(branch_name);
    s
}

/// Entity-tag value for a resolved reference: the commit id and branch name
/// joined with `#`. Recomputed per request, never stored.
pub fn etag_identifier(sha: &str, branch_name: &str) -> (r: String)
    ensures
        r@ == sha@ + "#"@ + branch_name@,
{
    let mut s: String = sha.to_owned();
    s.append("#");
    s.append(branch_name);
    s
}

} // verus!
