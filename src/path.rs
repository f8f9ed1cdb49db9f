//! Paths of files relative to the working directory of their repository.

use vstd::prelude::*;

verus! {

/// The file lies outside the working directory found for it.
#[derive(Clone, Copy, Debug, PartialEq, Eq, Structural)]
pub struct OutsideWorkdir;

/// The part of `path` below `base`, component by component, as
/// `std::path::Path::strip_prefix` finds it.
pub uninterp spec fn path_below(path: Seq<char>, base: Seq<char>) -> Option<Seq<char>>;

/// Relies on std::path::Path::strip_prefix: the rest of `path` below `base`,
/// `None` where `base` is not a leading run of its components. The rest of a
/// `str` path is valid UTF-8, so reading it back as `str` does not fail.
#[verifier::external_body]
fn strip_base(path: &str, base: &str) -> (r: Option<String>)
    ensures
        r matches Some(s) ==> path_below(path@, base@) == Some(s@),
        r is None ==> path_below(path@, base@) is None,
{
    std::path::Path::new(path).strip_prefix(base).ok().and_then(|p| p.to_str()).map(|s| s.to_string())
}

/// `path` relative to the working directory of its repository. `None` for
/// `workdir` says that no repository was found, and the answer is `Ok(None)`.
pub fn relativize(path: &str, workdir: Option<&str>) -> (r: Result<Option<String>, OutsideWorkdir>)
    ensures
        workdir is None ==> r == Ok::<Option<String>, OutsideWorkdir>(None),
        workdir matches Some(w) ==> match path_below(path@, w@) {
            Some(rel) => r matches Ok(Some(s)) && s@ == rel,
            None => r == Err::<Option<String>, OutsideWorkdir>(OutsideWorkdir),
        },
{
    match workdir {
        None => Ok(None),
        Some(w) => match strip_base(path, w) {
            Some(rel) => Ok(Some(rel)),
            None => Err(OutsideWorkdir),
        },
    }
}

} // verus!
