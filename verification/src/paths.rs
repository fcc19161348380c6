//! Paths are held as `String`s. What std's `Path` computes from them
//! (component parsing, joining) is named here and obtained by calling std.

use vstd::prelude::*;
use std::path::Path;

verus! {

/// What `Path::file_name` returns for the path spelled `p` (`None` for a
/// path ending in `..` or made only of a root or prefix).
pub uninterp spec fn path_file_name(p: Seq<char>) -> Option<Seq<char>>;

/// What `Path::extension` returns for the path spelled `p`.
pub uninterp spec fn path_extension(p: Seq<char>) -> Option<Seq<char>>;

/// What `Path::parent` returns for the path spelled `p`.
pub uninterp spec fn path_parent(p: Seq<char>) -> Option<Seq<char>>;

/// What `Path::join` returns for `base` joined with `rest`.
pub uninterp spec fn path_join(base: Seq<char>, rest: Seq<char>) -> Seq<char>;

/// What `Path::strip_prefix` returns for `p` with the leading path `base` removed.
pub uninterp spec fn path_strip_prefix(p: Seq<char>, base: Seq<char>) -> Option<Seq<char>>;

/// What `Path::with_file_name` returns for `p` with its file name set to `name`.
pub uninterp spec fn path_with_file_name(p: Seq<char>, name: Seq<char>) -> Seq<char>;

/// `Path::with_file_name` of `p` and `name`, as a string.
#[verifier::external_body]
pub(crate) fn with_file_name(p: &str, name: &str) -> (r: String)
    ensures
        r@ == path_with_file_name(p@, name@),
{
    Path::new(p).with_file_name(name).to_string_lossy().into_owned()
}

/// What `Path::is_absolute` returns for the path spelled `p`.
pub uninterp spec fn path_is_absolute(p: Seq<char>) -> bool;

/// `Path::file_name` of `p`, as a string. A file name taken from a `&str` is
/// always valid UTF-8, so the conversion keeps it whole.
#[verifier::external_body]
pub(crate) fn file_name(p: &str) -> (r: Option<String>)
    ensures
        match r {
            Some(s) => path_file_name(p@) == Some(s@),
            None => path_file_name(p@) is None,
        },
{
    Path::new(p).file_name().and_then(|n| n.to_str()).map(|n| n.to_string())
}

/// `Path::extension` of `p`, as a string.
#[verifier::external_body]
pub(crate) fn extension(p: &str) -> (r: Option<String>)
    ensures
        match r {
            Some(s) => path_extension(p@) == Some(s@),
            None => path_extension(p@) is None,
        },
{
    Path::new(p).extension().and_then(|n| n.to_str()).map(|n| n.to_string())
}

/// `Path::parent` of `p`, as a string.
#[verifier::external_body]
pub(crate) fn parent(p: &str) -> (r: Option<String>)
    ensures
        match r {
            Some(s) => path_parent(p@) == Some(s@),
            None => path_parent(p@) is None,
        },
{
    Path::new(p).parent().and_then(|n| n.to_str()).map(|n| n.to_string())
}

/// `Path::join` of `base` and `rest`, as a string.
#[verifier::external_body]
pub(crate) fn join(base: &str, rest: &str) -> (r: String)
    ensures
        r@ == path_join(base@, rest@),
{
    Path::new(base).join(rest).to_string_lossy().into_owned()
}

/// `Path::strip_prefix` of `p` by `base`, as a string.
#[verifier::external_body]
pub(crate) fn strip_prefix(p: &str, base: &str) -> (r: Option<String>)
    ensures
        match r {
            Some(s) => path_strip_prefix(p@, base@) == Some(s@),
            None => path_strip_prefix(p@, base@) is None,
        },
{
    Path::new(p).strip_prefix(base).ok().and_then(|n| n.to_str()).map(|n| n.to_string())
}

/// `Path::is_absolute` of `p`.
#[verifier::external_body]
pub(crate) fn is_absolute(p: &str) -> (r: bool)
    ensures
        r == path_is_absolute(p@),
{
    Path::new(p).is_absolute()
}

/// The file name of `p`, or `"?"` when it has none.
pub open spec fn name_or_question(p: Seq<char>) -> Seq<char> {
    match path_file_name(p) {
        Some(n) => n,
        None => seq!['?'],
    }
}

/// The file name of `p`, or `"?"` when it has none.
pub fn name_of(p: &str) -> (r: String)
    ensures
        r@ == name_or_question(p@),
{
    match file_name(p) {
        Some(n) => n,
        None => {
            let mut s = String::new();
            crate::text::push_char(&mut s, '?');
            s
        },
    }
}

} // verus!
