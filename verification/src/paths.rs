//! File-system path text, through `std::path`.

use vstd::prelude::*;

verus! {

/// `Path::is_absolute` for the path written `p`, under the path rules of
/// the platform the library is built for.
pub uninterp spec fn path_is_absolute(p: Seq<char>) -> bool;

/// The text of `Path::join(base, p)` on this platform.
pub uninterp spec fn path_joined(base: Seq<char>, p: Seq<char>) -> Seq<char>;

/// The text of `Path::file_name` of `p` on this platform.
pub uninterp spec fn path_file_name(p: Seq<char>) -> Option<Seq<char>>;

/// `Path::is_absolute`: whether `p` is absolute on this platform; named,
/// not spelled out.
#[verifier::external_body]
pub(crate) fn is_absolute_path(p: &str) -> (r: bool)
    ensures
        r == path_is_absolute(p@),
{
    std::path::Path::new(p).is_absolute()
}

/// `Path::join`: `p` resolved against `base`, as text; named, not spelled
/// out. The joined path holds `p` (it replaces `base` when absolute, else
/// follows it), so joining a non-empty `p` never gives an empty path.
#[verifier::external_body]
pub(crate) fn join_path(base: &str, p: &str) -> (r: String)
    ensures
        r@ == path_joined(base@, p@),
        p@.len() > 0 ==> r@.len() > 0,
{
    std::path::Path::new(base).join(p).to_string_lossy().into_owned()
}

/// `Path::file_name`: the last component of `p`, if any; named, not spelled out.
#[verifier::external_body]
pub(crate) fn file_name_of(p: &str) -> (r: Option<String>)
    ensures
        match r {
            Some(n) => path_file_name(p@) == Some(n@),
            None => path_file_name(p@) is None,
        },
{
    std::path::Path::new(p).file_name().map(|n| n.to_string_lossy().into_owned())
}

} // verus!
