//! Manuscript documents: which saves also record a revision.
use vstd::prelude::*;
use crate::text::str_eq;

verus! {

broadcast use vstd::string::group_string_axioms;

/// Saving the body of a chapter or a scene may record an automatic
/// revision; other documents (notes and the like) keep no history.
pub fn records_revisions(owner_type: &str) -> (b: bool)
    ensures
        b == (owner_type@ == "chapter"@ || owner_type@ == "scene"@),
{
    str_eq(owner_type, "chapter") || str_eq(owner_type, "scene")
}

} // verus!
