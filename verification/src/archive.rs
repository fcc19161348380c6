//! Archives: naming, recognising formats, and the tool invocations that
//! create and extract them. Running the tools is the caller's part.

use vstd::prelude::*;
use crate::paths::{
    path_file_name, path_is_absolute, path_join, path_strip_prefix, file_name, is_absolute, join,
    strip_prefix,
};
use crate::shell::views;
use crate::text::{
    chars_of, ends_with, is_suffix, owned, push_str, to_lowercase, unicode_lower,
};

verus! {

#[derive(Debug, Clone, Copy, PartialEq, Eq, Structural)]
pub enum ArchiveError {
    /// Nothing was given to archive.
    NoFiles,
    /// The archive does not exist.
    NotFound,
    /// The file name has no known archive extension.
    Unsupported,
}

impl ArchiveError {
    /// The message shown for the error.
    pub fn message(&self) -> (r: &'static str)
        ensures
            r@ == match self {
                ArchiveError::NoFiles => "no files to archive"@,
                ArchiveError::NotFound => "archive not found"@,
                ArchiveError::Unsupported => "unsupported archive format"@,
            },
    {
        match self {
            ArchiveError::NoFiles => "no files to archive",
            ArchiveError::NotFound => "archive not found",
            ArchiveError::Unsupported => "unsupported archive format",
        }
    }
}

/// The default archive name: `<name>.tar.gz` for a single target (its file
/// name, or `archive` without one), else `archive.tar.gz`.
pub open spec fn default_name_spec(targets: Seq<Seq<char>>) -> Seq<char> {
    if targets.len() == 1 {
        match path_file_name(targets[0]) {
            Some(n) => n + ".tar.gz"@,
            None => "archive"@ + ".tar.gz"@,
        }
    } else {
        "archive.tar.gz"@
    }
}

/// A default archive name for `targets`.
pub fn default_name(targets: &[String]) -> (r: String)
    ensures
        r@ == default_name_spec(views(targets@)),
{
    if targets.len() == 1 {
        let mut s = match file_name(targets[0].as_str()) {
            Some(n) => n,
            None => owned("archive"),
        };
        push_str(&mut s, ".tar.gz");
        s
    } else {
        owned("archive.tar.gz")
    }
}

/// The archive kind a (lowercased) path names, by its ending.
pub open spec fn kind_spec(l: Seq<char>) -> Option<Seq<char>> {
    if is_suffix(".tar.gz"@, l) || is_suffix(".tgz"@, l) {
        Some("tar.gz"@)
    } else if is_suffix(".tar.bz2"@, l) || is_suffix(".tbz2"@, l) {
        Some("tar.bz2"@)
    } else if is_suffix(".tar.xz"@, l) || is_suffix(".txz"@, l) {
        Some("tar.xz"@)
    } else if is_suffix(".tar"@, l) {
        Some("tar"@)
    } else if is_suffix(".zip"@, l) {
        Some("zip"@)
    } else if is_suffix(".7z"@, l) {
        Some("7z"@)
    } else if is_suffix(".rar"@, l) {
        Some("rar"@)
    } else {
        None
    }
}

fn ends_lit(l: &[char], lit: &str) -> (r: bool)
    ensures
        r == is_suffix(lit@, l@),
{
    let v = chars_of(lit);
    ends_with(l, v.as_slice())
}

fn kind_of(l: &[char]) -> (r: Option<&'static str>)
    ensures
        match r {
            Some(k) => kind_spec(l@) == Some(k@),
            None => kind_spec(l@) is None,
        },
{
    if ends_lit(l, ".tar.gz") || ends_lit(l, ".tgz") {
        Some("tar.gz")
    } else if ends_lit(l, ".tar.bz2") || ends_lit(l, ".tbz2") {
        Some("tar.bz2")
    } else if ends_lit(l, ".tar.xz") || ends_lit(l, ".txz") {
        Some("tar.xz")
    } else if ends_lit(l, ".tar") {
        Some("tar")
    } else if ends_lit(l, ".zip") {
        Some("zip")
    } else if ends_lit(l, ".7z") {
        Some("7z")
    } else if ends_lit(l, ".rar") {
        Some("rar")
    } else {
        None
    }
}

/// Whether `path` (compared lowercased) ends in a supported archive extension.
pub fn is_archive(path: &str) -> (r: bool)
    ensures
        r == (kind_spec(unicode_lower(path@)) is Some),
{
    let l = to_lowercase(path);
    let v = chars_of(l.as_str());
    kind_of(v.as_slice()).is_some()
}

/// The archive kind of `path`, by its (lowercased) extension.
pub fn detect_type(path: &str) -> (r: Result<&'static str, ArchiveError>)
    ensures
        match r {
            Ok(k) => kind_spec(unicode_lower(path@)) == Some(k@),
            Err(e) => kind_spec(unicode_lower(path@)) is None && e == ArchiveError::Unsupported,
        },
{
    let l = to_lowercase(path);
    let v = chars_of(l.as_str());
    match kind_of(v.as_slice()) {
        Some(k) => Ok(k),
        None => Err(ArchiveError::Unsupported),
    }
}

/// A program to run for an archive operation.
pub struct ToolRun {
    pub program: &'static str,
    pub args: Vec<String>,
    /// Directory to run in, when it matters.
    pub cwd: Option<String>,
    /// Message when the program reports failure.
    pub failure: &'static str,
}

/// The extraction of an archive of kind `kind` into `dest`.
pub open spec fn extract_spec(kind: Seq<char>, archive: Seq<char>, dest: Seq<char>) -> (
    Seq<char>,
    Seq<Seq<char>>,
    Option<Seq<char>>,
    Seq<char>,
) {
    if kind == "tar.gz"@ {
        ("tar"@, seq!["-xzf"@, archive], Some(dest), "tar extraction failed"@)
    } else if kind == "tar.bz2"@ {
        ("tar"@, seq!["-xjf"@, archive], Some(dest), "tar extraction failed"@)
    } else if kind == "tar.xz"@ {
        ("tar"@, seq!["-xJf"@, archive], Some(dest), "tar extraction failed"@)
    } else if kind == "tar"@ {
        ("tar"@, seq!["-xf"@, archive], Some(dest), "tar extraction failed"@)
    } else if kind == "zip"@ {
        ("unzip"@, seq!["-q"@, archive], Some(dest), "unzip failed"@)
    } else if kind == "7z"@ {
        ("7z"@, seq!["x"@, archive, "-o"@ + dest], None, "7z extraction failed"@)
    } else {
        ("unrar"@, seq!["x"@, archive, dest], None, "unrar failed"@)
    }
}

/// The view of a `ToolRun`.
pub open spec fn run_view(r: ToolRun) -> (Seq<char>, Seq<Seq<char>>, Option<Seq<char>>, Seq<char>) {
    (
        r.program@,
        views(r.args@),
        match r.cwd {
            Some(c) => Some(c@),
            None => None,
        },
        r.failure@,
    )
}

/// How to extract `archive` into `dest` (the destination is created
/// beforehand). `archive_exists` says whether the archive is there.
pub fn extract(archive: &str, dest: &str, archive_exists: bool) -> (r: Result<ToolRun, ArchiveError>)
    ensures
        !archive_exists ==> r == Err::<ToolRun, ArchiveError>(ArchiveError::NotFound),
        archive_exists ==> match kind_spec(unicode_lower(archive@)) {
            None => r == Err::<ToolRun, ArchiveError>(ArchiveError::Unsupported),
            Some(k) => (r matches Ok(t) && run_view(t) == extract_spec(k, archive@, dest@)),
        },
{
    if !archive_exists {
        return Err(ArchiveError::NotFound);
    }
    let kind = match detect_type(archive) {
        Ok(k) => k,
        Err(e) => {
            return Err(e);
        },
    };
    let kv = chars_of(kind);
    let mut args: Vec<String> = Vec::new();
    let run = if eq_lit(kv.as_slice(), "tar.gz") {
        args.push(owned("-xzf"));
        args.push(owned(archive));
        ToolRun { program: "tar", args, cwd: Some(owned(dest)), failure: "tar extraction failed" }
    } else if eq_lit(kv.as_slice(), "tar.bz2") {
        args.push(owned("-xjf"));
        args.push(owned(archive));
        ToolRun { program: "tar", args, cwd: Some(owned(dest)), failure: "tar extraction failed" }
    } else if eq_lit(kv.as_slice(), "tar.xz") {
        args.push(owned("-xJf"));
        args.push(owned(archive));
        ToolRun { program: "tar", args, cwd: Some(owned(dest)), failure: "tar extraction failed" }
    } else if eq_lit(kv.as_slice(), "tar") {
        args.push(owned("-xf"));
        args.push(owned(archive));
        ToolRun { program: "tar", args, cwd: Some(owned(dest)), failure: "tar extraction failed" }
    } else if eq_lit(kv.as_slice(), "zip") {
        args.push(owned("-q"));
        args.push(owned(archive));
        ToolRun { program: "unzip", args, cwd: Some(owned(dest)), failure: "unzip failed" }
    } else if eq_lit(kv.as_slice(), "7z") {
        args.push(owned("x"));
        args.push(owned(archive));
        let mut o = owned("-o");
        push_str(&mut o, dest);
        args.push(o);
        ToolRun { program: "7z", args, cwd: None, failure: "7z extraction failed" }
    } else {
        args.push(owned("x"));
        args.push(owned(archive));
        args.push(owned(dest));
        ToolRun { program: "unrar", args, cwd: None, failure: "unrar failed" }
    };
    proof {
        assert(views(run.args@) =~= extract_spec(kv@, archive@, dest@).1);
    }
    Ok(run)
}

fn eq_lit(k: &[char], lit: &str) -> (r: bool)
    ensures
        r == (k@ == lit@),
{
    let v = chars_of(lit);
    crate::text::seq_eq(k, v.as_slice())
}

/// The archive's path: `name` itself when absolute, else inside `cwd`.
pub open spec fn out_path(name: Seq<char>, cwd: Seq<char>) -> Seq<char> {
    if path_is_absolute(name) {
        name
    } else {
        path_join(cwd, name)
    }
}

/// A target as passed to tar: relative to `cwd` when it lies inside it.
pub open spec fn member_arg(t: Seq<char>, cwd: Seq<char>) -> Seq<char> {
    match path_strip_prefix(t, cwd) {
        Some(rel) => rel,
        None => t,
    }
}

/// The arguments of `tar` creating archive `name` of `targets`, run in `cwd`:
/// `-czf`, the archive path, then each target (relative to `cwd` when inside it).
pub fn create(name: &str, cwd: &str, targets: &[String]) -> (r: Result<Vec<String>, ArchiveError>)
    ensures
        targets@.len() == 0 ==> r == Err::<Vec<String>, ArchiveError>(ArchiveError::NoFiles),
        targets@.len() > 0 ==> (r matches Ok(a) && a@.len() == targets@.len() + 2 && a@[0]@
            == "-czf"@ && a@[1]@ == out_path(name@, cwd@) && forall|i: int|
            0 <= i < targets@.len() ==> #[trigger] a@[i + 2]@ == member_arg(targets@[i]@, cwd@)),
{
    if targets.len() == 0 {
        return Err(ArchiveError::NoFiles);
    }
    let out = if is_absolute(name) {
        owned(name)
    } else {
        join(cwd, name)
    };
    let mut args: Vec<String> = Vec::new();
    args.push(owned("-czf"));
    args.push(out);
    let mut i: usize = 0;
    while i < targets.len()
        invariant
            i <= targets@.len(),
            args@.len() == i + 2,
            args@[0]@ == "-czf"@,
            args@[1]@ == out_path(name@, cwd@),
            forall|j: int| 0 <= j < i ==> #[trigger] args@[j + 2]@ == member_arg(targets@[j]@, cwd@),
        decreases targets@.len() - i,
    {
        let a = match strip_prefix(targets[i].as_str(), cwd) {
            Some(rel) => rel,
            None => targets[i].clone(),
        };
        args.push(a);
        i = i + 1;
    }
    Ok(args)
}

/// Every extraction reads the archive it is given and unpacks into `dest`:
/// the archive is the second argument, and the tool either runs inside
/// `dest` or names `dest` as its output directory in its last argument
/// (`dest` itself, or `-o` followed by `dest`).
pub proof fn law_extract_into_dest(kind: Seq<char>, archive: Seq<char>, dest: Seq<char>)
    ensures
        extract_spec(kind, archive, dest).1.len() >= 2,
        extract_spec(kind, archive, dest).1[1] == archive,
        extract_spec(kind, archive, dest).2 == Some(dest) || extract_spec(kind, archive, dest).1.last()
            == dest || extract_spec(kind, archive, dest).1.last() == seq!['-', 'o'] + dest,
{
    reveal_strlit("-o");
}

} // verus!
