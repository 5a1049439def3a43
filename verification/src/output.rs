//! Where the digest goes: the default file name, and the name of the
//! temporary file a digest is first written to. Writing is the caller's.

use vstd::prelude::*;

use crate::number::{dec, push_decimal};
use crate::text::{push_str, opt_view};

verus! {

/// Where the digest lands when the user names no target.
pub open spec fn spec_default_path(number: u64) -> Seq<char> {
    "pr-"@ + dec(number as nat) + "-digest.md"@
}

/// Where the digest lands when the user names no target.
pub fn default_path(number: u64) -> (r: String)
    ensures
        r@ == spec_default_path(number),
{
    let mut r = String::new();
    push_str(&mut r, "pr-");
    push_decimal(&mut r, number);
    push_str(&mut r, "-digest.md");
    r
}

/// What `Path::file_name` returns for the path `p`.
pub uninterp spec fn path_file_name(p: Seq<char>) -> Option<Seq<char>>;

/// What `Path::with_file_name` returns for the path `p` and the name `name`.
pub uninterp spec fn path_with_file_name(p: Seq<char>, name: Seq<char>) -> Seq<char>;

/// `Path::file_name`: the final component of the path, if there is one. The
/// contract names the result and says nothing of how paths are split.
#[verifier::external_body]
fn file_name(path: &str) -> (r: Option<String>)
    ensures
        opt_view(r) == path_file_name(path@),
{
    std::path::Path::new(path).file_name().map(|n| n.to_string_lossy().into_owned())
}

/// `Path::with_file_name`: the path with its final component replaced by
/// `name`. The contract names the result and says nothing of how paths are
/// split.
#[verifier::external_body]
fn with_file_name(path: &str, name: &str) -> (r: String)
    ensures
        r@ == path_with_file_name(path@, name@),
{
    std::path::Path::new(path).with_file_name(name).to_string_lossy().into_owned()
}

/// The name of a path with `suffix` after its file name.
pub open spec fn spec_with_suffix(path: Seq<char>, suffix: Seq<char>) -> Seq<char> {
    let name = match path_file_name(path) {
        Some(n) => n,
        None => Seq::empty(),
    };
    path_with_file_name(path, name + suffix)
}

/// `path` with `suffix` appended to its file name, so that the result sits in
/// the same directory: a temporary file is renamed over the destination, and a
/// rename is only atomic within one filesystem.
pub fn with_suffix(path: &str, suffix: &str) -> (r: String)
    ensures
        r@ == spec_with_suffix(path@, suffix@),
{
    let mut name = match file_name(path) {
        Some(n) => n,
        None => String::new(),
    };
    push_str(&mut name, suffix);
    with_file_name(path, name.as_str())
}

} // verus!
