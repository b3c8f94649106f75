//! How a resolved snippet is referred to.
use vstd::prelude::*;

use crate::text::{owned, push_str};

verus! {

/// `{library}:{snippet}@{version}`, the canonical reference of a snippet
/// version.
pub fn canonical_reference(library: &str, snippet: &str, version: &str) -> (r: String)
    ensures
        r@ == library@ + ":"@ + snippet@ + "@"@ + version@,
{
    let mut r = owned(library);
    push_str(&mut r, ":");
    push_str(&mut r, snippet);
    push_str(&mut r, "@");
    push_str(&mut r, version);
    r
}

/// The reference shown for a resolved snippet: `@` and its canonical
/// reference.
pub fn reference_text(canonical: &str) -> (r: String)
    ensures
        r@ == "@"@ + canonical@,
{
    let mut r = owned("@");
    push_str(&mut r, canonical);
    r
}

} // verus!
