//! File-system paths as text: joining with `/`, and the few questions that
//! only the platform's path rules can answer.

use crate::text::chars_of;
use vstd::prelude::*;
use vstd::string::*;

verus! {

/// `child` below `base`: an absolute `child` stands for itself; otherwise the
/// two are joined by one `/`, which is left out where `base` is empty or
/// already ends in one.
pub open spec fn joined(base: Seq<char>, child: Seq<char>) -> Seq<char> {
    if child.len() > 0 && child[0] == '/' {
        child
    } else if base.len() == 0 || base.last() == '/' {
        base + child
    } else {
        base + seq!['/'] + child
    }
}

/// The path of `child` below `base`.
pub fn join_path(base: &str, child: &str) -> (r: String)
    ensures
        r@ == joined(base@, child@),
{
    let b = chars_of(base);
    let c = chars_of(child);
    if c.len() > 0 && c[0] == '/' {
        return child.to_owned();
    }
    let mut out = base.to_owned();
    if b.len() > 0 && b[b.len() - 1] != '/' {
        out.push('/');
        assert(out@ =~= base@ + seq!['/']);
    }
    out.append(child);
    out
}

/// The user's home directory, as `dirs::home_dir` finds it in the
/// environment; nothing is promised of the answer.
#[verifier::external_body]
pub(crate) fn home_dir() -> (r: Option<String>) {
    dirs::home_dir().map(|p| p.to_string_lossy().into_owned())
}

/// What `std::path::Path::parent` returns for `path`: the path without its
/// last component, or nothing where it has none to leave out.
pub uninterp spec fn parent_of(path: Seq<char>) -> Option<Seq<char>>;

/// What `std::path::Path::file_name` returns for `path`: its last
/// component, or nothing where the path ends in `..` or has no component.
pub uninterp spec fn file_name_in(path: Seq<char>) -> Option<Seq<char>>;

/// The directory that holds `path`, by `std::path::Path::parent`, which
/// returns the path without its last component. Believed without proof: the
/// result is the named one, and a directory that it names is a beginning of
/// `path` and shorter than it.
#[verifier::external_body]
pub(crate) fn parent_dir(path: &str) -> (r: Option<String>)
    ensures
        r.deep_view() == parent_of(path@),
        r matches Some(p) ==> p@.len() < path@.len() && p@ == path@.take(p@.len() as int),
{
    std::path::Path::new(path).parent().map(|p| p.to_string_lossy().into_owned())
}

/// The last component of `path`, by `std::path::Path::file_name`. Believed
/// without proof: the result is the named one.
#[verifier::external_body]
pub(crate) fn file_name_of(path: &str) -> (r: Option<String>)
    ensures
        r.deep_view() == file_name_in(path@),
{
    std::path::Path::new(path).file_name().map(|n| n.to_string_lossy().into_owned())
}

} // verus!
