//! File-system paths, held as text, with the few `std::path` operations the service uses.
use vstd::prelude::*;

verus! {

/// What `Path::parent` gives for a path: the path without its final component, or
/// `None` when it ends in a root or prefix or is empty.
pub uninterp spec fn path_parent(p: Seq<char>) -> Option<Seq<char>>;

/// What `Path::join` gives: `name` appended to `base` as a further component, or `name`
/// itself when it is absolute.
pub uninterp spec fn path_join(base: Seq<char>, name: Seq<char>) -> Seq<char>;

/// What `Path::is_absolute` says of a path.
pub uninterp spec fn path_is_absolute(p: Seq<char>) -> bool;

/// What `Path::starts_with` says of two paths: whether `base` is a prefix of `path`,
/// component by component.
pub uninterp spec fn path_has_prefix(path: Seq<char>, base: Seq<char>) -> bool;

/// `Path::parent`, a function of the path's text.
#[verifier::external_body]
pub(crate) fn parent_of(p: &str) -> (r: Option<String>)
    ensures
        crate::text::opt_string_view(r) == path_parent(p@),
{
    std::path::Path::new(p).parent().map(|q| q.to_string_lossy().into_owned())
}

/// `Path::join`, a function of the two texts.
#[verifier::external_body]
pub(crate) fn join(base: &str, name: &str) -> (r: String)
    ensures
        r@ == path_join(base@, name@),
{
    std::path::Path::new(base).join(name).to_string_lossy().into_owned()
}

/// `Path::is_absolute`, a function of the path's text.
#[verifier::external_body]
pub(crate) fn is_absolute(p: &str) -> (r: bool)
    ensures
        r == path_is_absolute(p@),
{
    std::path::Path::new(p).is_absolute()
}

/// What `Path::file_name` gives for a path: its final component, unless that is `..`
/// or the path ends in a root.
pub uninterp spec fn path_file_name(p: Seq<char>) -> Option<Seq<char>>;

/// What `==` on two `Path`s says: whether their components are equal.
pub uninterp spec fn paths_equal(a: Seq<char>, b: Seq<char>) -> bool;

/// `Path::file_name`, a function of the path's text.
#[verifier::external_body]
pub(crate) fn file_name_of(p: &str) -> (r: Option<String>)
    ensures
        crate::text::opt_string_view(r) == path_file_name(p@),
{
    std::path::Path::new(p).file_name().map(|n| n.to_string_lossy().into_owned())
}

/// `==` on two `Path`s, a function of the two texts.
#[verifier::external_body]
pub(crate) fn same_path(a: &str, b: &str) -> (r: bool)
    ensures
        r == paths_equal(a@, b@),
{
    std::path::Path::new(a) == std::path::Path::new(b)
}

/// `Path::starts_with`, a function of the two texts.
#[verifier::external_body]
pub(crate) fn starts_with_path(path: &str, base: &str) -> (r: bool)
    ensures
        r == path_has_prefix(path@, base@),
{
    std::path::Path::new(path).starts_with(base)
}

/// A file named `file_name` beside the file at `path`: in its directory, or bare when the
/// path has no parent.
pub open spec fn sibling_spec(path: Seq<char>, file_name: Seq<char>) -> Seq<char> {
    match path_parent(path) {
        Some(dir) => path_join(dir, file_name),
        None => file_name,
    }
}

/// A file named `file_name` beside the file at `path`.
pub fn sibling(path: &str, file_name: &str) -> (r: String)
    ensures
        r@ == sibling_spec(path@, file_name@),
{
    match parent_of(path) {
        Some(dir) => join(dir.as_str(), file_name),
        None => crate::text::owned(file_name),
    }
}

} // verus!
