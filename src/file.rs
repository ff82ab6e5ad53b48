//! Paths around the live configuration directory.
use vstd::prelude::*;
use crate::config::{join_path, joined_path};
use crate::errors::MyError;

verus! {

/// What `Path::parent` gives for `p`.
pub uninterp spec fn parent_of(p: Seq<char>) -> Option<Seq<char>>;

/// Relies on std's `Path::parent`: the path without its last component, or
/// nothing for a root or an empty path. A path made from a `str` converts
/// back without loss.
#[verifier::external_body]
fn path_parent(p: &str) -> (r: Option<String>)
    ensures
        r matches Some(q) ==> parent_of(p@) == Some(q@),
        r is None ==> parent_of(p@) is None,
{
    std::path::Path::new(p).parent().map(|q| q.to_string_lossy().into_owned())
}

/// The parent directory of `path`, or an error when it has none.
pub fn get_parent_or_die(path: &str) -> (r: Result<String, MyError>)
    ensures
        r matches Ok(q) ==> parent_of(path@) == Some(q@),
        r is Err <==> parent_of(path@) is None,
        r matches Err(e) ==> e matches MyError::Failed(m) && m@ == "Failed to get parent of "@ + path@,
{
    match path_parent(path) {
        Some(q) => Ok(q),
        None => Err(MyError::Failed(String::from_str("Failed to get parent of ").concat(path))),
    }
}

/// The path of the backup directory: `squid_old` beside the live directory
/// `dest`.
pub fn backup_path(dest: &str) -> (r: Result<String, MyError>)
    ensures
        r matches Ok(b) ==> exists|q: Seq<char>| parent_of(dest@) == Some(q) && b@ == joined_path(q, "squid_old"@),
        r is Err <==> parent_of(dest@) is None,
{
    proof {
        reveal_strlit("squid_old");
    }
    let parent = get_parent_or_die(dest)?;
    Ok(join_path(parent.as_str(), "squid_old"))
}

} // verus!
