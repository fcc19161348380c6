//! The preview pane: what kind of preview a file gets, the listing of a
//! directory or an archive, the clipping of text lines, and the lines each
//! kind of preview shows. Reading the file, decoding images and archives and
//! highlighting text are the caller's part.

use vstd::prelude::*;
use crate::paths::{extension, path_extension};
use crate::sort::{KeyOrder, insort, stable_sort};
use crate::text::{
    chars_of, dec, lex_le, lex_le_exec, lemma_lex_total, lemma_lex_trans, owned, push_dec,
    push_str, to_lowercase, unicode_lower,
};
use crate::view::{Area, Tone, push_toned, toned};
use crate::shell::views;
use vstd::string::StringSliceAdditionalSpecFns;

verus! {

/// At most this many lines or entries are shown.
pub const MAX_LINES: usize = 200;

/// At most this many bytes of a text line are shown.
pub const MAX_BYTES_PER_LINE: usize = 1024;

/// How a file is previewed, by its extension.
#[derive(Debug, Clone, Copy, PartialEq, Eq, Structural)]
pub enum FileKind {
    Image,
    Zip,
    /// A tar archive, gzip-compressed when `gz`.
    Tar { gz: bool },
    /// Anything else: shown as text when it reads as text.
    Other,
}

pub open spec fn kind_of_ext(e: Seq<char>) -> FileKind {
    if e == "png"@ || e == "jpg"@ || e == "jpeg"@ || e == "gif"@ || e == "webp"@ || e == "bmp"@
        || e == "svg"@ || e == "ico"@ {
        FileKind::Image
    } else if e == "zip"@ {
        FileKind::Zip
    } else if e == "gz"@ || e == "tgz"@ {
        FileKind::Tar { gz: true }
    } else if e == "tar"@ || e == "bz2"@ || e == "tbz2"@ || e == "xz"@ {
        FileKind::Tar { gz: false }
    } else {
        FileKind::Other
    }
}

/// How `path` is previewed: by its lowercased extension.
pub open spec fn file_kind_spec(path: Seq<char>) -> FileKind {
    match path_extension(path) {
        Some(e) => kind_of_ext(unicode_lower(e)),
        None => FileKind::Other,
    }
}

fn is_lit(v: &str, lit: &str) -> (r: bool)
    ensures
        r == (v@ == lit@),
{
    crate::text::str_eq(v, lit)
}

/// How `path` is previewed.
pub fn file_kind(path: &str) -> (r: FileKind)
    ensures
        r == file_kind_spec(path@),
{
    match extension(path) {
        Some(e) => {
            let l = to_lowercase(e.as_str());
            let e = l.as_str();
            if is_lit(e, "png") || is_lit(e, "jpg") || is_lit(e, "jpeg") || is_lit(e, "gif")
                || is_lit(e, "webp") || is_lit(e, "bmp") || is_lit(e, "svg") || is_lit(e, "ico") {
                FileKind::Image
            } else if is_lit(e, "zip") {
                FileKind::Zip
            } else if is_lit(e, "gz") || is_lit(e, "tgz") {
                FileKind::Tar { gz: true }
            } else if is_lit(e, "tar") || is_lit(e, "bz2") || is_lit(e, "tbz2") || is_lit(e, "xz") {
                FileKind::Tar { gz: false }
            } else {
                FileKind::Other
            }
        },
        None => FileKind::Other,
    }
}

/// Images the terminal can show: by the lowercased extension.
pub open spec fn is_image_spec(path: Seq<char>) -> bool {
    match path_extension(path) {
        Some(e) => {
            let l = unicode_lower(e);
            l == "png"@ || l == "jpg"@ || l == "jpeg"@ || l == "gif"@ || l == "webp"@ || l == "bmp"@
        },
        None => false,
    }
}

/// Whether `path` names an image the terminal can draw.
pub fn is_image_path(path: &str) -> (r: bool)
    ensures
        r == is_image_spec(path@),
{
    match extension(path) {
        Some(e) => {
            let l = to_lowercase(e.as_str());
            let e = l.as_str();
            is_lit(e, "png") || is_lit(e, "jpg") || is_lit(e, "jpeg") || is_lit(e, "gif") || is_lit(
                e,
                "webp",
            ) || is_lit(e, "bmp")
        },
        None => false,
    }
}

// ---------------------------------------------------------------------------
// Listings
// ---------------------------------------------------------------------------
/// A directory entry in the preview: `📁 ` before directories, two spaces
/// before files.
pub open spec fn dir_item_spec(name: Seq<char>, is_dir: bool) -> Seq<char> {
    (if is_dir {
        "📁 "@
    } else {
        "  "@
    }) + name
}

/// A line of a listing, ordered as strings are.
pub struct Item {
    pub text: String,
}

impl KeyOrder for Item {
    open spec fn sort_le(&self, other: &Self) -> bool {
        lex_le(self.text@, other.text@)
    }

    fn key_le(&self, other: &Self) -> (r: bool) {
        let a = chars_of(self.text.as_str());
        let b = chars_of(other.text.as_str());
        lex_le_exec(a.as_slice(), b.as_slice())
    }

    proof fn lemma_total(a: &Self, b: &Self) {
        lemma_lex_total(a.text@, b.text@);
    }

    proof fn lemma_trans(a: &Self, b: &Self, c: &Self) {
        lemma_lex_trans(a.text@, b.text@, c.text@);
    }
}

/// The texts of items.
pub open spec fn item_texts(v: Seq<Item>) -> Seq<Seq<char>> {
    v.map_values(|i: Item| i.text@)
}

/// The items for directory entries (name, is a directory), unsorted.
pub open spec fn dir_items(entries: Seq<(String, bool)>) -> Seq<Seq<char>> {
    entries.map_values(|e: (String, bool)| dir_item_spec(e.0@, e.1))
}

/// `x` inserted into the sorted `s` after every line not above it.
pub open spec fn ins_text(s: Seq<Seq<char>>, x: Seq<char>) -> Seq<Seq<char>>
    decreases s.len(),
{
    if s.len() == 0 {
        seq![x]
    } else if lex_le(s.last(), x) {
        s.push(x)
    } else {
        ins_text(s.drop_last(), x).push(s.last())
    }
}

/// `s` sorted in string order (stably).
pub open spec fn sort_texts(s: Seq<Seq<char>>) -> Seq<Seq<char>>
    decreases s.len(),
{
    if s.len() == 0 {
        s
    } else {
        ins_text(sort_texts(s.drop_last()), s.last())
    }
}

proof fn lemma_ins_texts(s: Seq<Item>, x: Item)
    ensures
        item_texts(crate::sort::ins(s, x)) == ins_text(item_texts(s), x.text@),
    decreases s.len(),
{
    if s.len() == 0 {
        assert(item_texts(seq![x]) =~= seq![x.text@]);
    } else {
        assert(item_texts(s).last() == s.last().text@);
        assert(item_texts(s.drop_last()) =~= item_texts(s).drop_last());
        if s.last().sort_le(&x) {
            assert(item_texts(s.push(x)) =~= item_texts(s).push(x.text@));
        } else {
            lemma_ins_texts(s.drop_last(), x);
            let t = crate::sort::ins(s.drop_last(), x);
            assert(item_texts(t.push(s.last())) =~= item_texts(t).push(s.last().text@));
        }
    }
}

proof fn lemma_insort_texts(s: Seq<Item>)
    ensures
        item_texts(insort(s)) == sort_texts(item_texts(s)),
    decreases s.len(),
{
    if s.len() > 0 {
        lemma_insort_texts(s.drop_last());
        lemma_ins_texts(insort(s.drop_last()), s.last());
        assert(item_texts(s.drop_last()) =~= item_texts(s).drop_last());
    }
}

/// The preview of a directory with `entries` (name, is a directory): its
/// items in string order, the first 200, and how many there are.
pub fn dir_listing(entries: &[(String, bool)]) -> (r: (Vec<String>, usize))
    ensures
        r.1 == entries@.len(),
        crate::shell::views(r.0@) == sort_texts(dir_items(entries@)).take(
            if entries@.len() < MAX_LINES {
                entries@.len() as int
            } else {
                MAX_LINES as int
            },
        ),
{
    let mut items: Vec<Item> = Vec::new();
    let mut i: usize = 0;
    while i < entries.len()
        invariant
            i <= entries@.len(),
            item_texts(items@) == dir_items(entries@.take(i as int)),
        decreases entries@.len() - i,
    {
        let mut s = owned(
            if entries[i].1 {
                "📁 "
            } else {
                "  "
            },
        );
        push_str(&mut s, entries[i].0.as_str());
        let ghost before = items@;
        items.push(Item { text: s });
        proof {
            assert(item_texts(items@) =~= item_texts(before).push(s@));
            assert(dir_items(entries@.take(i + 1)) =~= dir_items(entries@.take(i as int)).push(
                dir_item_spec(entries@[i as int].0@, entries@[i as int].1),
            ));
        }
        i = i + 1;
    }
    assert(entries@.take(entries@.len() as int) =~= entries@);
    let ghost unsorted = items@;
    let total = items.len();
    let sorted_items = stable_sort(items);
    proof {
        lemma_insort_texts(unsorted);
        sorted_items@.to_multiset_ensures();
        unsorted.to_multiset_ensures();
    }
    assert(sorted_items@.len() == total);
    let n = if total < MAX_LINES {
        total
    } else {
        MAX_LINES
    };
    let mut out: Vec<String> = Vec::new();
    let mut k: usize = 0;
    while k < n
        invariant
            k <= n,
            n <= sorted_items@.len(),
            crate::shell::views(out@) == item_texts(sorted_items@).take(k as int),
        decreases n - k,
    {
        let ghost before = out@;
        out.push(sorted_items[k].text.clone());
        proof {
            crate::app::lemma_views_push(before, sorted_items@[k as int].text);
            assert(item_texts(sorted_items@).take(k + 1) =~= item_texts(sorted_items@).take(
                k as int,
            ).push(sorted_items@[k as int].text@));
        }
        k = k + 1;
    }
    (out, total)
}

/// The listed names (`None` where an entry could not be read), two spaces
/// before each, at most `limit` of them.
pub open spec fn listed(names: Seq<Option<String>>, limit: nat) -> Seq<Seq<char>>
    decreases names.len(),
{
    if names.len() == 0 {
        Seq::empty()
    } else {
        let before = listed(names.drop_last(), limit);
        match names.last() {
            Some(n) => if before.len() < limit {
                before.push("  "@ + n@)
            } else {
                before
            },
            None => before,
        }
    }
}

/// The lines listing an archive's entries: each readable name after two
/// spaces, the first `limit` of them.
pub fn archive_lines(names: &[Option<String>], limit: usize) -> (r: Vec<String>)
    ensures
        views(r@) == listed(names@, limit as nat),
{
    let mut out: Vec<String> = Vec::new();
    let mut i: usize = 0;
    while i < names.len()
        invariant
            i <= names@.len(),
            views(out@) == listed(names@.take(i as int), limit as nat),
        decreases names@.len() - i,
    {
        proof {
            assert(names@.take(i + 1).drop_last() =~= names@.take(i as int));
        }
        match &names[i] {
            Some(n) => {
                if out.len() < limit {
                    let mut s = owned("  ");
                    push_str(&mut s, n.as_str());
                    let ghost before = out@;
                    out.push(s);
                    proof {
                        crate::app::lemma_views_push(before, s);
                    }
                }
            },
            None => {},
        }
        i = i + 1;
    }
    assert(names@.take(names@.len() as int) =~= names@);
    out
}

/// Whether `bytes` hold a zero byte.
pub open spec fn has_nul(bytes: Seq<u8>) -> bool {
    exists|i: int| 0 <= i < bytes.len() && bytes[i] == 0
}

/// How much of a text line is shown: its first 1024 bytes, with `…` after
/// when it was longer (`true`); `None` when what is shown holds a zero byte,
/// which marks the file as binary. A line longer than 1024 bytes must have
/// a character boundary there.
pub fn clip_line<'a>(line: &'a str) -> (r: Option<(&'a str, bool)>)
    requires
        line.spec_bytes().len() > MAX_BYTES_PER_LINE ==> vstd::utf8::is_char_boundary(
            line.spec_bytes(),
            MAX_BYTES_PER_LINE as int,
        ),
    ensures
        ({
            let n = line.spec_bytes().len();
            let keep = line.spec_bytes().take(
                if n > MAX_BYTES_PER_LINE {
                    MAX_BYTES_PER_LINE as int
                } else {
                    n as int
                },
            );
            match r {
                Some((kept, cut)) => kept.spec_bytes() == keep && cut == (n > MAX_BYTES_PER_LINE)
                    && !has_nul(keep),
                None => has_nul(keep),
            }
        }),
{
    let ghost n = line.spec_bytes().len();
    let ghost keep = line.spec_bytes().take(
        if n > MAX_BYTES_PER_LINE {
            MAX_BYTES_PER_LINE as int
        } else {
            n as int
        },
    );
    let total = line.as_bytes().len();
    let (kept, cut) = if total > MAX_BYTES_PER_LINE {
        let parts = line.split_at(MAX_BYTES_PER_LINE);
        assert(parts.0.spec_bytes() =~= keep);
        (parts.0, true)
    } else {
        assert(line.spec_bytes() =~= keep);
        (line, false)
    };
    assert(kept.spec_bytes() == keep);
    let b = kept.as_bytes();
    let mut i: usize = 0;
    while i < b.len()
        invariant
            i <= b@.len(),
            b@ == keep,
            n == line.spec_bytes().len(),
            keep == line.spec_bytes().take(
                if n > MAX_BYTES_PER_LINE {
                    MAX_BYTES_PER_LINE as int
                } else {
                    n as int
                },
            ),
            forall|j: int| 0 <= j < i ==> b@[j] != 0,
        decreases b@.len() - i,
    {
        if b[i] == 0 {
            assert(keep[i as int] == 0);
            assert(has_nul(keep));
            return None;
        }
        i = i + 1;
    }
    Some((kept, cut))
}

/// The lines of a directory preview: the count, a blank line, then the
/// items, directories in the directory colour.
pub open spec fn dir_lines_spec(items: Seq<Seq<char>>, total: nat) -> Seq<(Tone, Seq<char>)> {
    seq![(Tone::Title, " "@ + dec(total) + " items total"@), (Tone::Plain, Seq::<char>::empty())]
        + items.map_values(
        |t: Seq<char>|
            (
                if crate::text::is_prefix("📁"@, t) {
                    Tone::Dir
                } else {
                    Tone::Plain
                },
                t,
            ),
    )
}

/// The lines of a directory preview.
pub fn dir_lines(items: &[String], total: usize) -> (r: Vec<(Tone, String)>)
    ensures
        toned(r@) == dir_lines_spec(views(items@), total as nat),
{
    let mut v: Vec<(Tone, String)> = Vec::new();
    let mut h = owned(" ");
    push_dec(&mut h, total as u64);
    push_str(&mut h, " items total");
    push_toned(&mut v, Tone::Title, h);
    push_toned(&mut v, Tone::Plain, String::new());
    let ghost head = toned(v@);
    let folder = chars_of("📁");
    let mut i: usize = 0;
    while i < items.len()
        invariant
            i <= items@.len(),
            folder@ == "📁"@,
            toned(v@) == head + views(items@).take(i as int).map_values(
                |t: Seq<char>|
                    (
                        if crate::text::is_prefix("📁"@, t) {
                            Tone::Dir
                        } else {
                            Tone::Plain
                        },
                        t,
                    ),
            ),
        decreases items@.len() - i,
    {
        let cs = chars_of(items[i].as_str());
        let dir = crate::text::starts_with(cs.as_slice(), folder.as_slice());
        push_toned(
            &mut v,
            if dir {
                Tone::Dir
            } else {
                Tone::Plain
            },
            items[i].clone(),
        );
        proof {
            assert(views(items@).take(i + 1) =~= views(items@).take(i as int).push(items@[i as int]@));
        }
        i = i + 1;
    }
    proof {
        assert(views(items@).take(items@.len() as int) =~= views(items@));
        assert(head =~= seq![(Tone::Title, " "@ + dec(total as nat) + " items total"@), (Tone::Plain, Seq::<char>::empty())]);
    }
    v
}

/// The lines of an image preview: its size in pixels and in bytes.
pub fn image_lines(width: u32, height: u32, size: &str) -> (r: Vec<(Tone, String)>)
    ensures
        toned(r@) == seq![
            (Tone::Dim, " "@ + dec(width as nat) + "×"@ + dec(height as nat) + "   "@ + size@),
            (Tone::Plain, Seq::<char>::empty()),
        ],
{
    let mut v: Vec<(Tone, String)> = Vec::new();
    let mut s = owned(" ");
    push_dec(&mut s, width as u64);
    push_str(&mut s, "×");
    push_dec(&mut s, height as u64);
    push_str(&mut s, "   ");
    push_str(&mut s, size);
    push_toned(&mut v, Tone::Dim, s);
    push_toned(&mut v, Tone::Plain, String::new());
    proof {
        assert(toned(v@) =~= seq![
            (Tone::Dim, " "@ + dec(width as nat) + "×"@ + dec(height as nat) + "   "@ + size@),
            (Tone::Plain, Seq::<char>::empty()),
        ]);
    }
    v
}

/// The lines of a binary file's preview.
pub fn binary_lines(size: &str) -> (r: Vec<(Tone, String)>)
    ensures
        toned(r@) == seq![
            (Tone::Alert, " BINARY"@),
            (Tone::Plain, Seq::<char>::empty()),
            (Tone::Plain, " Size: "@ + size@),
        ],
{
    let mut v: Vec<(Tone, String)> = Vec::new();
    push_toned(&mut v, Tone::Alert, owned(" BINARY"));
    push_toned(&mut v, Tone::Plain, String::new());
    let mut s = owned(" Size: ");
    push_str(&mut s, size);
    push_toned(&mut v, Tone::Plain, s);
    proof {
        assert(toned(v@) =~= seq![
            (Tone::Alert, " BINARY"@),
            (Tone::Plain, Seq::<char>::empty()),
            (Tone::Plain, " Size: "@ + size@),
        ]);
    }
    v
}

/// The line of an empty file's preview.
pub fn empty_lines() -> (r: Vec<(Tone, String)>)
    ensures
        toned(r@) == seq![(Tone::Dim, " (empty)"@)],
{
    let mut v: Vec<(Tone, String)> = Vec::new();
    push_toned(&mut v, Tone::Dim, owned(" (empty)"));
    proof {
        assert(toned(v@) =~= seq![(Tone::Dim, " (empty)"@)]);
    }
    v
}

/// The line of a preview that failed with `e`.
pub fn error_lines(e: &str) -> (r: Vec<(Tone, String)>)
    ensures
        toned(r@) == seq![(Tone::Error, " "@ + e@)],
{
    let mut v: Vec<(Tone, String)> = Vec::new();
    let mut s = owned(" ");
    push_str(&mut s, e);
    push_toned(&mut v, Tone::Error, s);
    proof {
        assert(toned(v@) =~= seq![(Tone::Error, " "@ + e@)]);
    }
    v
}

/// Where an image goes inside a preview frame's `inner` area: below the two
/// header lines, when more than three rows are free.
pub open spec fn image_area_spec(inner: Area) -> Option<Area> {
    if inner.3 > 3 {
        Some((inner.0, (inner.1 + 2) as u16, inner.2, (inner.3 - 2) as u16))
    } else {
        None
    }
}

pub fn image_area(inner: Area) -> (r: Option<Area>)
    requires
        inner.1 + 2 <= u16::MAX,
    ensures
        r == image_area_spec(inner),
{
    if inner.3 > 3 {
        Some((inner.0, inner.1 + 2, inner.2, inner.3 - 2))
    } else {
        None
    }
}

} // verus!
