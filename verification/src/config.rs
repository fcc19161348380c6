//! User configuration: defaults, the settings read from the config file, and
//! the rewrite of the file's `[bookmarks]` table.
//!
//! Reading and writing the file, the home directory and `$EDITOR` are the
//! caller's part; TOML decoding happens there too.

use vstd::prelude::*;
use crate::icons::{IconMode, mode_spec, parse_mode};
use crate::theme::{RawTheme, Theme, apply_theme, oneshot, themed};
use crate::paths::{path_join, join};
use crate::text::{
    ascii_lower, chars_of, first_occurrence, find_first, is_prefix, next_char, next_char_exec,
    owned, push_chars, push_str, slice_vec,
    starts_with, string_of, str_eq, trim_start, trim_start_spec, contains, contains_seq,
    lemma_next_char_range, to_lowercase, unicode_lower,
};

verus! {

// ---------------------------------------------------------------------------
// String tables (a list of key/value pairs with distinct keys)
// ---------------------------------------------------------------------------
/// The table as a map; a later pair for the same key wins.
pub open spec fn table_view(v: Seq<(String, String)>) -> Map<Seq<char>, Seq<char>>
    decreases v.len(),
{
    if v.len() == 0 {
        Map::empty()
    } else {
        table_view(v.drop_last()).insert(v.last().0@, v.last().1@)
    }
}

/// No key occurs twice.
pub open spec fn distinct_keys(v: Seq<(String, String)>) -> bool {
    forall|i: int, j: int| 0 <= i < j < v.len() ==> (#[trigger] v[i]).0@ != (#[trigger] v[j]).0@
}

proof fn lemma_table_filter(v: Seq<(String, String)>, k: Seq<char>)
    ensures
        table_view(without_key(v, k)) == table_view(v).remove(k),
    decreases v.len(),
{
    reveal(Seq::filter);
    if v.len() == 0 {
        assert(without_key(v, k) =~= v);
        assert(table_view(v).remove(k) =~= Map::empty());
    } else {
        lemma_table_filter(v.drop_last(), k);
        let f = |p: (String, String)| p.0@ != k;
        if v.last().0@ == k {
            assert(without_key(v, k) == without_key(v.drop_last(), k));
            assert(table_view(v).remove(k) =~= table_view(v.drop_last()).remove(k));
        } else {
            assert(without_key(v, k) == without_key(v.drop_last(), k).push(v.last()));
            assert(without_key(v, k).drop_last() =~= without_key(v.drop_last(), k));
            assert(table_view(v).remove(k) =~= table_view(v.drop_last()).remove(k).insert(
                v.last().0@,
                v.last().1@,
            ));
        }
    }
}

/// The pairs whose key is not `k`.
pub open spec fn without_key(v: Seq<(String, String)>, k: Seq<char>) -> Seq<(String, String)> {
    v.filter(|p: (String, String)| p.0@ != k)
}

proof fn lemma_filter_keeps_distinct(v: Seq<(String, String)>, k: Seq<char>)
    requires
        distinct_keys(v),
    ensures
        distinct_keys(without_key(v, k)),
        forall|i: int| 0 <= i < without_key(v, k).len() ==> (#[trigger] without_key(v, k)[i]).0@ != k,
        forall|x: (String, String)| #[trigger] without_key(v, k).contains(x) ==> v.contains(x),
    decreases v.len(),
{
    reveal(Seq::filter);
    let f = |p: (String, String)| p.0@ != k;
    if v.len() > 0 {
        let t = v.drop_last();
        assert(distinct_keys(t)) by {
            assert forall|i: int, j: int| 0 <= i < j < t.len() implies (#[trigger] t[i]).0@ != (
            #[trigger] t[j]).0@ by {
                assert(t[i] == v[i] && t[j] == v[j]);
            }
        }
        lemma_filter_keeps_distinct(t, k);
        let r = without_key(v, k);
        if f(v.last()) {
            assert(r == without_key(t, k).push(v.last()));
            assert forall|i: int, j: int| 0 <= i < j < r.len() implies (#[trigger] r[i]).0@ != (
            #[trigger] r[j]).0@ by {
                if j == r.len() - 1 {
                    let x = r[i];
                    assert(without_key(t, k).contains(x));
                    assert(t.contains(x));
                    let m = choose|m: int| 0 <= m < t.len() && t[m] == x;
                    assert(v[m] == x);
                }
            }
            assert forall|x: (String, String)| #[trigger] r.contains(x) implies v.contains(x) by {
                if x != v.last() {
                    let m = choose|m: int| 0 <= m < r.len() && r[m] == x;
                    assert(without_key(t, k)[m] == x);
                    assert(without_key(t, k).contains(x));
                    let q = choose|q: int| 0 <= q < t.len() && t[q] == x;
                    assert(v[q] == x);
                } else {
                    assert(v[v.len() - 1] == x);
                }
            }
        } else {
            assert(r == without_key(t, k));
            assert forall|x: (String, String)| #[trigger] r.contains(x) implies v.contains(x) by {
                let q = choose|q: int| 0 <= q < t.len() && t[q] == x;
                assert(v[q] == x);
            }
        }
    }
}

/// Sets `key` to `value`, replacing an earlier value.
pub fn table_set(v: &mut Vec<(String, String)>, key: String, value: String)
    requires
        distinct_keys(old(v)@),
    ensures
        distinct_keys(final(v)@),
        table_view(final(v)@) == table_view(old(v)@).insert(key@, value@),
{
    let ghost f = |p: (String, String)| p.0@ != key@;
    let mut out: Vec<(String, String)> = Vec::new();
    let mut i: usize = 0;
    while i < v.len()
        invariant
            i <= v@.len(),
            v@ == old(v)@,
            f == (|p: (String, String)| p.0@ != key@),
            out@ == without_key(v@.take(i as int), key@),
        decreases v@.len() - i,
    {
        let keep = !str_eq(v[i].0.as_str(), key.as_str());
        proof {
            reveal(Seq::filter);
            assert(v@.take(i + 1).drop_last() =~= v@.take(i as int));
        }
        if keep {
            out.push((v[i].0.clone(), v[i].1.clone()));
        }
        i = i + 1;
    }
    assert(v@.take(v@.len() as int) =~= v@);
    proof {
        lemma_table_filter(old(v)@, key@);
        lemma_filter_keeps_distinct(old(v)@, key@);
    }
    let ghost filtered = out@;
    out.push((key, value));
    proof {
        assert(out@.drop_last() == filtered);
        assert(table_view(out@) =~= table_view(old(v)@).insert(key@, value@));
        assert forall|i: int, j: int| 0 <= i < j < out@.len() implies (#[trigger] out@[i]).0@ != (
        #[trigger] out@[j]).0@ by {
            if j == out@.len() - 1 {
                assert(out@[i] == filtered[i]);
            } else {
                assert(out@[i] == filtered[i] && out@[j] == filtered[j]);
            }
        }
    }
    *v = out;
}

/// A key's value in the table is its last pair's.
pub proof fn lemma_table_lookup(v: Seq<(String, String)>, k: Seq<char>, i: int)
    requires
        -1 <= i < v.len(),
        i >= 0 ==> v[i].0@ == k,
        forall|j: int| i < j < v.len() ==> (#[trigger] v[j]).0@ != k,
    ensures
        i < 0 ==> !table_view(v).contains_key(k),
        i >= 0 ==> table_view(v).contains_key(k) && table_view(v)[k] == v[i].1@,
    decreases v.len(),
{
    if v.len() > 0 {
        if i == v.len() - 1 {
        } else {
            let t = v.drop_last();
            assert forall|j: int| i < j < t.len() implies (#[trigger] t[j]).0@ != k by {
                assert(t[j] == v[j]);
            }
            lemma_table_lookup(t, k, i);
            assert(v[v.len() - 1].0@ != k);
        }
    }
}

/// The value for `key`.
pub fn table_get(v: &Vec<(String, String)>, key: &str) -> (r: Option<String>)
    ensures
        match r {
            Some(s) => table_view(v@).contains_key(key@) && table_view(v@)[key@] == s@,
            None => !table_view(v@).contains_key(key@),
        },
{
    let mut i = v.len();
    while i > 0
        invariant
            i <= v@.len(),
            forall|j: int| i <= j < v@.len() ==> (#[trigger] v@[j]).0@ != key@,
        decreases i,
    {
        if str_eq(v[i - 1].0.as_str(), key) {
            proof {
                lemma_table_lookup(v@, key@, i - 1);
            }
            return Some(v[i - 1].1.clone());
        }
        i = i - 1;
    }
    proof {
        lemma_table_lookup(v@, key@, -1);
    }
    None
}

/// Sets each of `keys` to `value`, in order.
pub open spec fn set_all(m: Map<Seq<char>, Seq<char>>, keys: Seq<Seq<char>>, value: Seq<char>) -> Map<
    Seq<char>,
    Seq<char>,
>
    decreases keys.len(),
{
    if keys.len() == 0 {
        m
    } else {
        set_all(m, keys.drop_last(), value).insert(keys.last(), value)
    }
}

fn table_set_all(v: &mut Vec<(String, String)>, keys: &[&str], value: &str)
    requires
        distinct_keys(old(v)@),
    ensures
        distinct_keys(final(v)@),
        table_view(final(v)@) == set_all(
            table_view(old(v)@),
            keys@.map_values(|k: &str| k@),
            value@,
        ),
{
    let mut i: usize = 0;
    while i < keys.len()
        invariant
            i <= keys@.len(),
            distinct_keys(v@),
            table_view(v@) == set_all(
                table_view(old(v)@),
                keys@.take(i as int).map_values(|k: &str| k@),
                value@,
            ),
        decreases keys@.len() - i,
    {
        table_set(v, owned(keys[i]), owned(value));
        proof {
            assert(keys@.take(i + 1).map_values(|k: &str| k@).drop_last() =~= keys@.take(
                i as int,
            ).map_values(|k: &str| k@));
        }
        i = i + 1;
    }
    assert(keys@.take(keys@.len() as int) =~= keys@);
}

// ---------------------------------------------------------------------------
// Configuration
// ---------------------------------------------------------------------------
pub struct Config {
    pub show_hidden: bool,
    pub confirm_delete: bool,
    pub editor: String,
    /// Bookmark key to path.
    pub bookmarks: Vec<(String, String)>,
    /// Lowercased file extension to opener command.
    pub openers: Vec<(String, String)>,
    pub respect_gitignore: bool,
    pub icons: IconMode,
    pub theme: Theme,
}

impl Config {
    pub open spec fn wf(&self) -> bool {
        distinct_keys(self.bookmarks@) && distinct_keys(self.openers@)
    }
}

/// Extensions opened in the editor by default.
pub open spec fn editor_exts() -> Seq<Seq<char>> {
    seq![
        "rs"@, "lua"@, "md"@, "toml"@, "py"@, "sh"@, "c"@, "h"@, "zig"@, "go"@, "js"@, "ts"@,
        "json"@, "yaml"@, "yml"@, "txt"@, "conf"@, "ini"@, "log"@, "html"@, "css"@, "xml"@,
    ]
}

pub open spec fn image_exts() -> Seq<Seq<char>> {
    seq!["png"@, "jpg"@, "jpeg"@, "gif"@, "webp"@, "svg"@, "bmp"@, "ico"@]
}

pub open spec fn video_exts() -> Seq<Seq<char>> {
    seq!["mp4"@, "mkv"@, "webm"@, "avi"@, "mov"@, "flv"@]
}

pub open spec fn audio_exts() -> Seq<Seq<char>> {
    seq!["mp3"@, "flac"@, "wav"@, "ogg"@, "opus"@, "m4a"@]
}

/// The default openers: the editor for text formats, `imv` for images,
/// `mpv` for video and audio, `zathura` for PDF.
pub open spec fn default_openers(editor: Seq<char>) -> Map<Seq<char>, Seq<char>> {
    set_all(
        set_all(
            set_all(set_all(Map::empty(), editor_exts(), editor), image_exts(), "imv"@),
            video_exts(),
            "mpv"@,
        ),
        audio_exts(),
        "mpv"@,
    ).insert("pdf"@, "zathura"@)
}

/// The default bookmarks under `home`.
pub open spec fn default_bookmarks(home: Seq<char>) -> Map<Seq<char>, Seq<char>> {
    Map::empty().insert("h"@, home).insert("d"@, path_join(home, "Downloads"@)).insert(
        "D"@,
        path_join(home, "Documents"@),
    ).insert("c"@, path_join(home, ".config"@)).insert("r"@, "/"@)
}

impl Config {
    /// The defaults, for a home directory (`/` when there is none) and an
    /// editor (`$EDITOR`, else `nvim`).
    pub fn default_with(home: &str, editor: String) -> (c: Config)
        ensures
            c.wf(),
            !c.show_hidden,
            c.confirm_delete,
            c.editor@ == editor@,
            table_view(c.bookmarks@) == default_bookmarks(home@),
            table_view(c.openers@) == default_openers(editor@),
            c.respect_gitignore,
            c.icons == IconMode::Nerd,
            c.theme == oneshot(),
    {
        let mut bookmarks: Vec<(String, String)> = Vec::new();
        table_set(&mut bookmarks, owned("h"), owned(home));
        table_set(&mut bookmarks, owned("d"), join(home, "Downloads"));
        table_set(&mut bookmarks, owned("D"), join(home, "Documents"));
        table_set(&mut bookmarks, owned("c"), join(home, ".config"));
        table_set(&mut bookmarks, owned("r"), owned("/"));
        let mut openers: Vec<(String, String)> = Vec::new();
        let ed = [
            "rs", "lua", "md", "toml", "py", "sh", "c", "h", "zig", "go", "js", "ts", "json",
            "yaml", "yml", "txt", "conf", "ini", "log", "html", "css", "xml",
        ];
        let img = ["png", "jpg", "jpeg", "gif", "webp", "svg", "bmp", "ico"];
        let vid = ["mp4", "mkv", "webm", "avi", "mov", "flv"];
        let aud = ["mp3", "flac", "wav", "ogg", "opus", "m4a"];
        table_set_all(&mut openers, &ed, editor.as_str());
        table_set_all(&mut openers, &img, "imv");
        table_set_all(&mut openers, &vid, "mpv");
        table_set_all(&mut openers, &aud, "mpv");
        table_set(&mut openers, owned("pdf"), owned("zathura"));
        proof {
            assert(ed@.map_values(|k: &str| k@) =~= editor_exts());
            assert(img@.map_values(|k: &str| k@) =~= image_exts());
            assert(vid@.map_values(|k: &str| k@) =~= video_exts());
            assert(aud@.map_values(|k: &str| k@) =~= audio_exts());
        }
        Config {
            show_hidden: false,
            confirm_delete: true,
            editor,
            bookmarks,
            openers,
            respect_gitignore: true,
            icons: IconMode::Nerd,
            theme: Theme::default(),
        }
    }
}

/// `~/rest` expanded under `home` when there is one; anything else as it is.
pub open spec fn expand_tilde_spec(s: Seq<char>, home: Option<Seq<char>>) -> Seq<char> {
    if is_prefix("~/"@, s) && home is Some {
        path_join(home->0, s.skip(2))
    } else {
        s
    }
}

/// The view of an optional string.
pub open spec fn home_view(home: Option<&str>) -> Option<Seq<char>> {
    match home {
        Some(h) => Some(h@),
        None => None,
    }
}

/// Expands a leading `~/` to the home directory.
pub fn expand_tilde(s: &str, home: Option<&str>) -> (r: String)
    ensures
        r@ == expand_tilde_spec(s@, home_view(home)),
{
    let v = chars_of(s);
    let p = chars_of("~/");
    proof {
        reveal_strlit("~/");
    }
    if starts_with(v.as_slice(), p.as_slice()) {
        if let Some(h) = home {
            let rest = slice_vec(v.as_slice(), 2, v.len());
            let rs = string_of(rest.as_slice());
            return join(h, rs.as_str());
        }
    }
    owned(s)
}

/// The `[general]` settings as read from the config file (missing keys
/// already defaulted).
pub struct RawGeneral {
    pub show_hidden: bool,
    pub confirm_delete: bool,
    pub editor: String,
    pub respect_gitignore: bool,
    pub icons: String,
}

/// The config file's contents as read.
pub struct RawConfig {
    pub general: RawGeneral,
    pub bookmarks: Vec<(String, String)>,
    pub openers: Vec<(String, String)>,
    pub theme: RawTheme,
}

/// The pairs of `raw` set into `m`, in order; keys mapped by `key_f` and
/// values by `val_f`.
pub open spec fn merged(
    m: Map<Seq<char>, Seq<char>>,
    raw: Seq<(String, String)>,
    key_f: spec_fn(Seq<char>) -> Seq<char>,
    val_f: spec_fn(Seq<char>) -> Seq<char>,
) -> Map<Seq<char>, Seq<char>>
    decreases raw.len(),
{
    if raw.len() == 0 {
        m
    } else {
        merged(m, raw.drop_last(), key_f, val_f).insert(
            key_f(raw.last().0@),
            val_f(raw.last().1@),
        )
    }
}

impl RawConfig {
    /// The configuration: `defaults` with the file's settings; bookmark
    /// paths have `~/` expanded under `home`, opener extensions are
    /// lowercased.
    pub fn into_config(self, defaults: Config, home: Option<&str>) -> (c: Config)
        requires
            defaults.wf(),
        ensures
            c.wf(),
            c.show_hidden == self.general.show_hidden,
            c.confirm_delete == self.general.confirm_delete,
            c.editor@ == self.general.editor@,
            c.respect_gitignore == self.general.respect_gitignore,
            c.icons == mode_spec(ascii_lower(self.general.icons@)),
            c.theme == themed(defaults.theme, self.theme),
            table_view(c.bookmarks@) == merged(
                table_view(defaults.bookmarks@),
                self.bookmarks@,
                |k: Seq<char>| k,
                |v: Seq<char>| expand_tilde_spec(v, home_view(home)),
            ),
            table_view(c.openers@) == merged(
                table_view(defaults.openers@),
                self.openers@,
                |k: Seq<char>| unicode_lower(k),
                |v: Seq<char>| v,
            ),
    {
        let ghost hv: Option<Seq<char>> = home_view(home);
        let ghost bf = |v: Seq<char>| expand_tilde_spec(v, home_view(home));
        let ghost of = |k: Seq<char>| unicode_lower(k);
        let mut bookmarks = defaults.bookmarks;
        let mut openers = defaults.openers;
        let mut i: usize = 0;
        while i < self.bookmarks.len()
            invariant
                i <= self.bookmarks@.len(),
                distinct_keys(bookmarks@),
                bf == (|v: Seq<char>| expand_tilde_spec(v, home_view(home))),
                table_view(bookmarks@) == merged(
                    table_view(defaults.bookmarks@),
                    self.bookmarks@.take(i as int),
                    |k: Seq<char>| k,
                    bf,
                ),
            decreases self.bookmarks@.len() - i,
        {
            let k = self.bookmarks[i].0.clone();
            let v = expand_tilde(self.bookmarks[i].1.as_str(), home);
            table_set(&mut bookmarks, k, v);
            proof {
                assert(self.bookmarks@.take(i + 1).drop_last() =~= self.bookmarks@.take(i as int));
            }
            i = i + 1;
        }
        assert(self.bookmarks@.take(self.bookmarks@.len() as int) =~= self.bookmarks@);
        let mut j: usize = 0;
        while j < self.openers.len()
            invariant
                j <= self.openers@.len(),
                distinct_keys(openers@),
                of == (|k: Seq<char>| unicode_lower(k)),
                table_view(openers@) == merged(
                    table_view(defaults.openers@),
                    self.openers@.take(j as int),
                    of,
                    |v: Seq<char>| v,
                ),
            decreases self.openers@.len() - j,
        {
            let k = to_lowercase(self.openers[j].0.as_str());
            let v = self.openers[j].1.clone();
            table_set(&mut openers, k, v);
            proof {
                assert(self.openers@.take(j + 1).drop_last() =~= self.openers@.take(j as int));
            }
            j = j + 1;
        }
        assert(self.openers@.take(self.openers@.len() as int) =~= self.openers@);
        let icons = parse_mode(self.general.icons.as_str());
        Config {
            show_hidden: self.general.show_hidden,
            confirm_delete: self.general.confirm_delete,
            editor: self.general.editor,
            bookmarks,
            openers,
            respect_gitignore: self.general.respect_gitignore,
            icons,
            theme: apply_theme(defaults.theme, &self.theme),
        }
    }
}

// ---------------------------------------------------------------------------
// Saving a bookmark into the config file's text
// ---------------------------------------------------------------------------
/// `key = "path"`.
pub open spec fn bookmark_line(key: Seq<char>, path: Seq<char>) -> Seq<char> {
    key + " = \""@ + path + "\""@
}

/// A line that sets `key` (`key =` or `key=` after indentation).
pub open spec fn sets_key(l: Seq<char>, key: Seq<char>) -> bool {
    let t = trim_start_spec(l);
    is_prefix(key + " ="@, t) || is_prefix(key + "="@, t)
}

/// The text `s` from `pos` on with every line that sets `key` replaced by
/// `line`; the other lines and the line breaks stay as they are.
pub open spec fn rewrite_from(s: Seq<char>, pos: int, key: Seq<char>, line: Seq<char>) -> Seq<char>
    decreases s.len() - pos,
{
    if pos < 0 || pos > s.len() {
        Seq::empty()
    } else {
        let e = next_char(s, pos, '\n');
        let seg = s.subrange(pos, e);
        let fixed = if sets_key(seg, key) {
            line
        } else {
            seg
        };
        if e < s.len() {
            proof {
                lemma_next_char_range(s, pos, '\n');
            }
            fixed + "\n"@ + rewrite_from(s, e + 1, key, line)
        } else {
            fixed
        }
    }
}

/// The end of the table whose body starts at `a`: the next line starting
/// with `[`, or the end of the text.
pub open spec fn section_end(existing: Seq<char>, a: int) -> int {
    match first_occurrence(existing.skip(a), "\n["@) {
        Some(q) => a + q,
        None => existing.len() as int,
    }
}

/// The table body starting at `a` has a line starting `key =`.
pub open spec fn section_mentions(existing: Seq<char>, a: int, key: Seq<char>) -> bool {
    let body = existing.subrange(a, section_end(existing, a));
    contains_seq(body, "\n"@ + key + " ="@) || contains_seq(body, "\n"@ + key + " = "@)
}

#[verifier::rlimit(100)]
fn section_end_exec(ex: &[char], a: usize) -> (r: usize)
    requires
        a <= ex@.len(),
    ensures
        r == section_end(ex@, a as int),
        a <= r <= ex@.len(),
{
    let after = slice_vec(ex, a, ex.len());
    let nl = chars_of("\n[");
    assert(after@ =~= ex@.skip(a as int));
    let end = match find_first(after.as_slice(), nl.as_slice()) {
        Some(q) => a + q,
        None => ex.len(),
    };
    assert(end == section_end(ex@, a as int));
    end
}

#[verifier::rlimit(100)]
fn section_mentions_exec(ex: &[char], a: usize, key: &str) -> (r: bool)
    requires
        a <= ex@.len(),
    ensures
        r == section_mentions(ex@, a as int, key@),
{
    let after = slice_vec(ex, a, ex.len());
    let nl = chars_of("\n[");
    assert(after@ =~= ex@.skip(a as int));
    let end = match find_first(after.as_slice(), nl.as_slice()) {
        Some(q) => a + q,
        None => ex.len(),
    };
    assert(end == section_end(ex@, a as int));
    let body = slice_vec(ex, a, end);
    let nlk = chars_cat(&['\n'], key);
    let k1 = chars_cat(nlk.as_slice(), " =");
    let k2 = chars_cat(nlk.as_slice(), " = ");
    proof {
        reveal_strlit("\n");
        assert(seq!['\n'] =~= "\n"@);
        assert(k1@ =~= "\n"@ + key@ + " ="@);
        assert(k2@ =~= "\n"@ + key@ + " = "@);
        assert(body@ == ex@.subrange(a as int, section_end(ex@, a as int)));
    }
    contains(body.as_slice(), k1.as_slice()) || contains(body.as_slice(), k2.as_slice())
}

/// The config text with bookmark `key` set to `path`.
///
/// Only the `[bookmarks]` table is rewritten. When the table already
/// mentions the key (a `\nkey =` within it), each line of the table that
/// sets the key is replaced and everything outside the table stays; when
/// it does not, the line goes right after the table's header; with no
/// table, one is appended.
#[verifier::opaque]
pub open spec fn bookmark_spec(existing: Seq<char>, key: Seq<char>, path: Seq<char>) -> Seq<char> {
    let line = bookmark_line(key, path);
    let sec = "[bookmarks]"@;
    match first_occurrence(existing, sec) {
        Some(p) => {
            let a = p + sec.len();
            if section_mentions(existing, a, key) {
                let end = section_end(existing, a);
                existing.take(a) + rewrite_from(existing.subrange(a, end), 0, key, line)
                    + existing.skip(end)
            } else {
                existing.take(a) + "\n"@ + line + existing.skip(a)
            }
        },
        None => {
            let base = if existing.len() > 0 && existing.last() != '\n' {
                existing + "\n"@
            } else {
                existing
            };
            base + "\n[bookmarks]\n"@ + line + "\n"@
        },
    }
}

fn chars_cat(a: &[char], b: &str) -> (r: Vec<char>)
    ensures
        r@ == a@ + b@,
{
    let mut v = slice_vec(a, 0, a.len());
    let bv = chars_of(b);
    let mut i: usize = 0;
    while i < bv.len()
        invariant
            i <= bv@.len(),
            v@ == a@ + bv@.take(i as int),
        decreases bv@.len() - i,
    {
        v.push(bv[i]);
        proof {
            assert(bv@.take(i + 1) =~= bv@.take(i as int).push(bv@[i as int]));
        }
        i = i + 1;
    }
    assert(bv@.take(bv@.len() as int) =~= bv@);
    v
}

fn sets_key_exec(l: &[char], key: &[char]) -> (r: bool)
    ensures
        r == sets_key(l@, key@),
{
    let t = trim_start(l);
    let p1 = chars_cat(key, " =");
    let p2 = chars_cat(key, "=");
    starts_with(t.as_slice(), p1.as_slice()) || starts_with(t.as_slice(), p2.as_slice())
}

/// The text `s` with each line that sets `key` replaced by `line`.
fn rewrite_exec(s: &[char], key: &[char], line: &[char]) -> (r: String)
    ensures
        r@ == rewrite_from(s@, 0, key@, line@),
{
    let mut out = String::new();
    let mut pos: usize = 0;
    let n = s.len();
    loop
        invariant
            n == s@.len(),
            pos <= n,
            out@ + rewrite_from(s@, pos as int, key@, line@) == rewrite_from(s@, 0, key@, line@),
        decreases n - pos,
    {
        let e = next_char_exec(s, pos, '\n');
        let seg = slice_vec(s, pos, e);
        let ghost before = out@;
        if sets_key_exec(seg.as_slice(), key) {
            push_chars(&mut out, line);
        } else {
            push_chars(&mut out, seg.as_slice());
        }
        if e < n {
            push_str(&mut out, "\n");
            proof {
                assert(out@ + rewrite_from(s@, e + 1, key@, line@) =~= before + rewrite_from(
                    s@,
                    pos as int,
                    key@,
                    line@,
                ));
            }
            pos = e + 1;
        } else {
            proof {
                assert(out@ =~= before + rewrite_from(s@, pos as int, key@, line@));
            }
            return out;
        }
    }
}

/// The text of the config file `existing` after saving bookmark `key` for
/// `path`.
#[verifier::rlimit(100)]
pub fn bookmark_text(existing: &str, key: &str, path: &str) -> (r: String)
    ensures
        r@ == bookmark_spec(existing@, key@, path@),
{
    reveal(bookmark_spec);
    let ex = chars_of(existing);
    let kv = chars_of(key);
    let mut line = owned(key);
    push_str(&mut line, " = \"");
    push_str(&mut line, path);
    push_str(&mut line, "\"");
    let lv = chars_of(line.as_str());
    let sec = chars_of("[bookmarks]");
    match find_first(ex.as_slice(), sec.as_slice()) {
        Some(p) => {
            let sl = sec.len();
            let el = ex.len();
            assert(p + sl <= el);
            let a = p + sl;
            if section_mentions_exec(ex.as_slice(), a, key) {
                let end = section_end_exec(ex.as_slice(), a);
                let head = slice_vec(ex.as_slice(), 0, a);
                let body = slice_vec(ex.as_slice(), a, end);
                let tail = slice_vec(ex.as_slice(), end, ex.len());
                let mut out = string_of(head.as_slice());
                let fixed = rewrite_exec(body.as_slice(), kv.as_slice(), lv.as_slice());
                push_str(&mut out, fixed.as_str());
                push_chars(&mut out, tail.as_slice());
                proof {
                    assert(head@ =~= ex@.take(a as int));
                    assert(tail@ =~= ex@.skip(end as int));
                }
                out
            } else {
                let head = slice_vec(ex.as_slice(), 0, a);
                let tail = slice_vec(ex.as_slice(), a, ex.len());
                let mut out = string_of(head.as_slice());
                push_str(&mut out, "\n");
                push_chars(&mut out, lv.as_slice());
                push_chars(&mut out, tail.as_slice());
                proof {
                    assert(out@ =~= ex@.take(a as int) + "\n"@ + lv@ + ex@.skip(a as int));
                }
                out
            }
        },
        None => {
            let mut out = owned(existing);
            if ex.len() > 0 && ex[ex.len() - 1] != '\n' {
                push_str(&mut out, "\n");
            }
            push_str(&mut out, "\n[bookmarks]\n");
            push_chars(&mut out, lv.as_slice());
            push_str(&mut out, "\n");
            out
        },
    }
}

// ---------------------------------------------------------------------------
// The default openers
// ---------------------------------------------------------------------------
proof fn lemma_set_all_hit(m: Map<Seq<char>, Seq<char>>, keys: Seq<Seq<char>>, v: Seq<char>, k: Seq<char>)
    requires
        keys.contains(k),
    ensures
        set_all(m, keys, v).contains_key(k),
        set_all(m, keys, v)[k] == v,
    decreases keys.len(),
{
    if keys.last() != k {
        let i = choose|i: int| 0 <= i < keys.len() && keys[i] == k;
        assert(i < keys.len() - 1);
        assert(keys.drop_last()[i] == k);
        lemma_set_all_hit(m, keys.drop_last(), v, k);
    }
}

proof fn lemma_set_all_miss(m: Map<Seq<char>, Seq<char>>, keys: Seq<Seq<char>>, v: Seq<char>, k: Seq<char>)
    requires
        !keys.contains(k),
    ensures
        set_all(m, keys, v).contains_key(k) == m.contains_key(k),
        m.contains_key(k) ==> set_all(m, keys, v)[k] == m[k],
    decreases keys.len(),
{
    if keys.len() > 0 {
        assert(keys[keys.len() - 1] == keys.last());
        assert forall|i: int| 0 <= i < keys.drop_last().len() implies keys.drop_last()[i] != k by {
            assert(keys.drop_last()[i] == keys[i]);
        }
        lemma_set_all_miss(m, keys.drop_last(), v, k);
    }
}

/// The opener a default extension `k` gets from the video or audio layer.
proof fn lemma_media_opener(editor: Seq<char>, k: Seq<char>)
    requires
        video_exts().contains(k) || audio_exts().contains(k),
        k != "pdf"@,
    ensures
        default_openers(editor).contains_key(k),
        default_openers(editor)[k] == "mpv"@,
{
    let m0 = set_all(set_all(Map::empty(), editor_exts(), editor), image_exts(), "imv"@);
    let m1 = set_all(m0, video_exts(), "mpv"@);
    if audio_exts().contains(k) {
        lemma_set_all_hit(m1, audio_exts(), "mpv"@, k);
    } else {
        lemma_set_all_hit(m0, video_exts(), "mpv"@, k);
        lemma_set_all_miss(m1, audio_exts(), "mpv"@, k);
    }
}

/// With the default configuration, whatever the editor, each video file
/// (mp4, mkv, webm, avi, mov, flv) and each audio file (mp3, flac, wav, ogg,
/// opus, m4a) opens in `mpv`, and PDF opens in `zathura`.
pub proof fn law_default_media_openers(editor: Seq<char>)
    ensures
        default_openers(editor).contains_key("mp4"@) && default_openers(editor)["mp4"@] == "mpv"@,
        default_openers(editor).contains_key("mkv"@) && default_openers(editor)["mkv"@] == "mpv"@,
        default_openers(editor).contains_key("webm"@) && default_openers(editor)["webm"@] == "mpv"@,
        default_openers(editor).contains_key("avi"@) && default_openers(editor)["avi"@] == "mpv"@,
        default_openers(editor).contains_key("mov"@) && default_openers(editor)["mov"@] == "mpv"@,
        default_openers(editor).contains_key("flv"@) && default_openers(editor)["flv"@] == "mpv"@,
        default_openers(editor).contains_key("mp3"@) && default_openers(editor)["mp3"@] == "mpv"@,
        default_openers(editor).contains_key("flac"@) && default_openers(editor)["flac"@] == "mpv"@,
        default_openers(editor).contains_key("wav"@) && default_openers(editor)["wav"@] == "mpv"@,
        default_openers(editor).contains_key("ogg"@) && default_openers(editor)["ogg"@] == "mpv"@,
        default_openers(editor).contains_key("opus"@) && default_openers(editor)["opus"@] == "mpv"@,
        default_openers(editor).contains_key("m4a"@) && default_openers(editor)["m4a"@] == "mpv"@,
        default_openers(editor).contains_key("pdf"@) && default_openers(editor)["pdf"@] == "zathura"@,
{
    reveal_strlit("mp4");
    reveal_strlit("mkv");
    reveal_strlit("webm");
    reveal_strlit("avi");
    reveal_strlit("mov");
    reveal_strlit("flv");
    reveal_strlit("mp3");
    reveal_strlit("flac");
    reveal_strlit("wav");
    reveal_strlit("ogg");
    reveal_strlit("opus");
    reveal_strlit("m4a");
    reveal_strlit("pdf");
    assert(video_exts()[0] == "mp4"@ && video_exts()[1] == "mkv"@ && video_exts()[2] == "webm"@);
    assert(video_exts()[3] == "avi"@ && video_exts()[4] == "mov"@ && video_exts()[5] == "flv"@);
    assert(audio_exts()[0] == "mp3"@ && audio_exts()[1] == "flac"@ && audio_exts()[2] == "wav"@);
    assert(audio_exts()[3] == "ogg"@ && audio_exts()[4] == "opus"@ && audio_exts()[5] == "m4a"@);
    assert("mp4"@[2] != "pdf"@[2]);
    assert("mkv"@[0] != "pdf"@[0]);
    assert("avi"@[0] != "pdf"@[0]);
    assert("mov"@[0] != "pdf"@[0]);
    assert("flv"@[0] != "pdf"@[0]);
    assert("mp3"@[0] != "pdf"@[0]);
    assert("wav"@[0] != "pdf"@[0]);
    assert("ogg"@[0] != "pdf"@[0]);
    assert("m4a"@[0] != "pdf"@[0]);
    lemma_media_opener(editor, "mp4"@);
    lemma_media_opener(editor, "mkv"@);
    lemma_media_opener(editor, "webm"@);
    lemma_media_opener(editor, "avi"@);
    lemma_media_opener(editor, "mov"@);
    lemma_media_opener(editor, "flv"@);
    lemma_media_opener(editor, "mp3"@);
    lemma_media_opener(editor, "flac"@);
    lemma_media_opener(editor, "wav"@);
    lemma_media_opener(editor, "ogg"@);
    lemma_media_opener(editor, "opus"@);
    lemma_media_opener(editor, "m4a"@);
}

} // verus!
