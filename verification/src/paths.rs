//! What the library needs of file-system paths. Paths are taken apart and put
//! together by `std::path` and located by the `dirs` crate; nothing here is
//! proved about either. What `std::path` computes has a name here, so that
//! the library can say which path it means.

use std::path::{Path, PathBuf};
use vstd::prelude::*;

verus! {

/// `std::path::PathBuf`. The library hands paths on and never looks inside
/// one.
#[verifier::external_type_specification]
#[verifier::external_body]
pub struct ExPathBuf(PathBuf);

/// The stem of the file that the path `path` names, as `Path::file_stem` of
/// the platform's `std` finds it: the last component without its extension,
/// and nothing where the path ends in no file name.
pub uninterp spec fn file_stem_of(path: Seq<char>) -> Option<Seq<char>>;

/// `Path::file_stem` on a path given as text. The result is the stem that
/// `file_stem_of` stands for; the stem of a path that is valid text is valid
/// text itself.
#[verifier::external_body]
pub(crate) fn file_stem(path: &str) -> (stem: Option<String>)
    ensures
        stem is Some <==> file_stem_of(path@) is Some,
        stem matches Some(s) ==> file_stem_of(path@) == Some(s@),
{
    match Path::new(path).file_stem() {
        Some(stem) => stem.to_str().map(String::from),
        None => None,
    }
}

/// `dirs::home_dir`: the home directory of the user who runs the process,
/// where the system knows one. The answer depends on the user and the
/// machine, so nothing is claimed of it.
#[verifier::external_body]
pub(crate) fn home_dir() -> (home: Option<PathBuf>) {
    dirs::home_dir()
}

/// What a path holds: the bytes that `OsStr::as_encoded_bytes` gives for it.
pub uninterp spec fn path_bytes(path: PathBuf) -> Seq<u8>;

/// What a path that held `path` holds after `PathBuf::push` with the
/// component `component`, on the platform the crate is built for: the
/// component behind a separator, or the component alone where it is absolute.
pub uninterp spec fn pushed(path: Seq<u8>, component: Seq<char>) -> Seq<u8>;

/// `PathBuf::push`: extends `path` by the component `component`. What the
/// path holds afterwards depends on nothing but what it held before and the
/// component; it is what `pushed` stands for.
#[verifier::external_body]
pub(crate) fn push_component(path: &mut PathBuf, component: &str)
    ensures
        path_bytes(*final(path)) == pushed(path_bytes(*old(path)), component@),
{
    path.push(component)
}

} // verus!
