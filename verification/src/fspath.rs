//! Paths as strings: the parts of a path that std computes, and joining.
use crate::text::{chars_of, join_path, owned, push_str};
use vstd::prelude::*;

verus! {

/// The characters of an optional string.
pub open spec fn opt_chars(o: Option<String>) -> Option<Seq<char>> {
    match o {
        Some(s) => Some(s@),
        None => None,
    }
}

/// The characters of an optional string slice.
pub open spec fn opt_view(o: Option<&str>) -> Option<Seq<char>> {
    match o {
        Some(s) => Some(s@),
        None => None,
    }
}

/// The extension of a path, as `Path::extension` gives it. Path rules are those of the
/// target the crate is built for (Windows separators and prefixes differ
/// from Unix ones).
pub uninterp spec fn path_extension(p: Seq<char>) -> Option<Seq<char>>;

/// The file stem of a path, as `Path::file_stem` gives it. Path rules are those of the
/// target the crate is built for (Windows separators and prefixes differ
/// from Unix ones).
pub uninterp spec fn path_file_stem(p: Seq<char>) -> Option<Seq<char>>;

/// The parent of a path, as `Path::parent` gives it. Path rules are those of the
/// target the crate is built for (Windows separators and prefixes differ
/// from Unix ones).
pub uninterp spec fn path_parent(p: Seq<char>) -> Option<Seq<char>>;

/// Calls `std::path::Path::extension`.
///
/// Trusted: the result is the extension std computes for `p` (named
/// `path_extension`); the component rules std applies are not restated.
#[verifier::external_body]
pub(crate) fn extension_of(p: &str) -> (r: Option<String>)
    ensures
        opt_chars(r) == path_extension(p@),
{
    match std::path::Path::new(p).extension() {
        Some(e) => Some(e.to_string_lossy().into_owned()),
        None => None,
    }
}

/// Calls `std::path::Path::file_stem`.
///
/// Trusted: the result is the file stem std computes for `p` (named
/// `path_file_stem`).
#[verifier::external_body]
pub(crate) fn file_stem_of(p: &str) -> (r: Option<String>)
    ensures
        opt_chars(r) == path_file_stem(p@),
{
    match std::path::Path::new(p).file_stem() {
        Some(e) => Some(e.to_string_lossy().into_owned()),
        None => None,
    }
}

/// Calls `std::path::Path::parent`.
///
/// Trusted: the result is the parent std computes for `p` (named
/// `path_parent`).
#[verifier::external_body]
pub(crate) fn parent_of(p: &str) -> (r: Option<String>)
    ensures
        opt_chars(r) == path_parent(p@),
{
    match std::path::Path::new(p).parent() {
        Some(e) => Some(e.to_string_lossy().into_owned()),
        None => None,
    }
}

/// `base` joined with the relative name `rel`.
pub fn join(base: &str, rel: &str) -> (r: String)
    ensures
        r@ == join_path(base@, rel@),
{
    let b = chars_of(base);
    let mut r = owned(base);
    if b.len() > 0 && b[b.len() - 1] != '/' {
        push_str(&mut r, "/");
        proof {
            reveal_strlit("/");
        }
    }
    push_str(&mut r, rel);
    r
}

/// The final component of a path, as `Path::file_name` gives it. Path rules are those of the
/// target the crate is built for (Windows separators and prefixes differ
/// from Unix ones).
pub uninterp spec fn path_file_name(p: Seq<char>) -> Option<Seq<char>>;

/// Calls `std::path::Path::file_name`.
///
/// Trusted: the result is the file name std computes for `p` (named
/// `path_file_name`).
#[verifier::external_body]
pub(crate) fn file_name_of(p: &str) -> (r: Option<String>)
    ensures
        opt_chars(r) == path_file_name(p@),
{
    match std::path::Path::new(p).file_name() {
        Some(e) => Some(e.to_string_lossy().into_owned()),
        None => None,
    }
}

} // verus!
