//! Feature paths shown relative to a base directory.

use vstd::prelude::*;
use crate::render::DefaultOutput;

verus! {

/// The path that leads from `base` to `target`, as `pathdiff` computes it;
/// `None` when there is none.
pub uninterp spec fn relative_path(target: Seq<char>, base: Seq<char>) -> Option<Seq<char>>;

/// Relies on pathdiff::diff_paths: the relative path depends on the two
/// paths alone.
#[verifier::external_body]
fn diff_paths_text(target: &str, base: &str) -> (r: Option<String>)
    ensures
        r matches Some(p) ==> relative_path(target@, base@) == Some(p@),
        r is None ==> relative_path(target@, base@) is None,
{
    pathdiff::diff_paths(target, base).map(|p| p.to_string_lossy().into_owned())
}

impl DefaultOutput {
    /// `target` as seen from the directory `cwd`, the form in which a
    /// feature's location is shown; `None` when it cannot be expressed so.
    pub fn relpath(&self, target: &str, cwd: &str) -> (r: Option<String>)
        ensures
            r matches Some(p) ==> relative_path(target@, cwd@) == Some(p@),
            r is None ==> relative_path(target@, cwd@) is None,
    {
        diff_paths_text(target, cwd)
    }
}

} // verus!
