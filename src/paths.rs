//! File-system paths, kept as text; only std::path computes with them.
use vstd::prelude::*;

verus! {

/// Relies on std::path::Path::join: `rel` resolved against `base` (`rel` itself when absolute).
#[verifier::external_body]
pub fn join_path(base: &str, rel: &str) -> String {
    std::path::Path::new(base).join(rel).to_string_lossy().into_owned()
}

/// Relies on std::path::Path::parent, taken twice: the directory two levels above `p`, if any.
#[verifier::external_body]
pub fn grandparent_dir(p: &str) -> Option<String> {
    std::path::Path::new(p).parent().and_then(|q| q.parent()).map(|q| q.to_string_lossy().into_owned())
}

/// Relies on std::path::MAIN_SEPARATOR: the separator of paths on this platform.
#[verifier::external_body]
pub fn path_separator() -> (r: char)
    ensures
        r == '/' || r == '\\',
{
    std::path::MAIN_SEPARATOR
}

} // verus!
