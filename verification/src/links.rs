//! Opening links in the user's browser.

use vstd::prelude::*;
use crate::text::{trim, trimmed};

verus! {

/// The answer to a blank link.
pub const URL_EMPTY_MESSAGE: &'static str = "URL cannot be empty";

/// The link to hand to the system opener: `url` with its blank ends removed.
/// A blank link is refused.
pub fn external_url_target(url: &str) -> (r: Result<String, String>)
    ensures
        match r {
            Ok(target) => trim(url@).len() > 0 && target@ == trim(url@),
            Err(e) => trim(url@).len() == 0 && e@ == URL_EMPTY_MESSAGE@,
        },
{
    let target = trimmed(url);
    if target.as_str().is_empty() {
        Err(String::from_str(URL_EMPTY_MESSAGE))
    } else {
        Ok(target)
    }
}

} // verus!
