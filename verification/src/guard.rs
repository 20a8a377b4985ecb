//! Access guard: an optional whitelist of repository owners, checked before
//! any network activity.

use vstd::prelude::*;
use crate::strutil::contains_str;

verus! {

/// Whether the owner may be queried: with no whitelist configured every
/// owner is allowed; with one, only the owners it names.
pub open spec fn spec_owner_allowed(whitelist: Option<Seq<Seq<char>>>, owner: Seq<char>) -> bool {
    match whitelist {
        None => true,
        Some(ws) => ws.contains(owner),
    }
}

/// Evaluates the owner whitelist. A rejected owner gets a fixed "forbidden"
/// badge and no network request is made for it.
pub fn owner_allowed(whitelist: &Option<Vec<String>>, owner: &str) -> (r: bool)
    ensures
        r == spec_owner_allowed(whitelist.deep_view(), owner@),
{
    match whitelist {
        None => true,
        Some(ws) => contains_str(ws, owner),
    }
}

} // verus!
