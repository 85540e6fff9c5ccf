//! The policy of the on-disk cache of fetched documents: under which name
//! a document is kept, and when a kept copy is still served.

use crate::text::{chars_of, split, split_chars, string_of};
use vstd::prelude::*;

verus! {

/// The age in seconds from which a kept copy is stale.
pub const STALE_AFTER_SECS: u64 = 3600;

/// What to do for a document that is asked for.
#[derive(Debug, Clone, Copy, PartialEq, Eq)]
pub enum CacheAction {
    /// Hand out the kept copy; nothing is fetched.
    Serve,
    /// Fetch the document once, write it over the kept copy, hand it out.
    Refetch,
}

/// The name of the directory that holds the kept copies.
pub open spec fn cache_dir() -> Seq<char> {
    ".onekp_cache"@
}

/// The name under which the document at `url` is kept: what follows the
/// last slash, or `index.html` where nothing follows it.
pub open spec fn cache_name(url: Seq<char>) -> Seq<char> {
    let last = split(url, '/').last();
    if last.len() == 0 {
        "index.html"@
    } else {
        last
    }
}

/// A copy is served only if it is there and younger than an hour.
pub open spec fn action_for(age_secs: Option<u64>) -> CacheAction {
    match age_secs {
        Some(age) => if age < 3600 {
            CacheAction::Serve
        } else {
            CacheAction::Refetch
        },
        None => CacheAction::Refetch,
    }
}

/// The name of the directory that holds the kept copies.
pub fn cache_dir_name() -> (out: &'static str)
    ensures
        out@ == cache_dir(),
{
    ".onekp_cache"
}

/// Whether a copy written `age_secs` seconds ago is stale.
pub fn is_cache_update_required(age_secs: u64) -> (stale: bool)
    ensures
        stale == (age_secs >= 3600),
{
    age_secs >= STALE_AFTER_SECS
}

/// What to do for a document whose kept copy has the given age; `None`
/// where there is no copy or its age cannot be told.
pub fn cache_action(age_secs: Option<u64>) -> (action: CacheAction)
    ensures
        action == action_for(age_secs),
{
    match age_secs {
        Some(age) => {
            if is_cache_update_required(age) {
                CacheAction::Refetch
            } else {
                CacheAction::Serve
            }
        },
        None => CacheAction::Refetch,
    }
}

/// Whether a failure to create the cache directory ends the work: one
/// that says the directory exists, or that carries no system error code,
/// does not.
pub fn is_create_dir_fatal(raw_os_error: Option<i32>) -> (fatal: bool)
    ensures
        fatal == (raw_os_error matches Some(code) && code != 17),
{
    match raw_os_error {
        Some(code) => code != 17,
        None => false,
    }
}

/// The name under which the document at `url` is kept.
pub fn cache_file_name(url: &str) -> (out: String)
    ensures
        out@ == cache_name(url@),
{
    let chars = chars_of(url);
    let pieces = split_chars(&chars, '/');
    let last = &pieces[pieces.len() - 1];
    if last.len() == 0 {
        String::from_str("index.html")
    } else {
        let out = string_of(last, 0, last.len());
        assert(last@.subrange(0, last.len() as int) =~= last@);
        out
    }
}

} // verus!
