//! The text preview: the first lines of a file, clipped, checked for
//! binary content and highlighted with syntect's default syntaxes and one of
//! its default themes. Reading the file is the caller's part.

use vstd::prelude::*;
use syntect::easy::HighlightLines;
use syntect::highlighting::ThemeSet;
use syntect::highlighting::Theme as SyntaxTheme;
use syntect::parsing::SyntaxSet;
use crate::paths::{extension, file_name, path_extension, path_file_name};
use crate::preview::{clip_line, has_nul, MAX_BYTES_PER_LINE, MAX_LINES};
use crate::shell::views;
use crate::text::{chars_of, owned, push_str, slice_vec, string_of};
use vstd::string::StringSliceAdditionalSpecFns;

verus! {

broadcast use vstd::utf8::encode_utf8_decode_utf8;

#[verifier::external_type_specification]
#[verifier::external_body]
pub struct ExSyntaxSet(SyntaxSet);

#[verifier::external_type_specification]
#[verifier::external_body]
pub struct ExTheme(SyntaxTheme);

/// syntect's default syntax set (with newlines) and the default theme named
/// `theme_name`. Only `Highlighter::load` makes one, so every value holds
/// the default syntaxes and the theme its name says.
pub struct Highlighter {
    syntaxes: SyntaxSet,
    theme: SyntaxTheme,
    theme_name: String,
}

/// Whether syntect's default theme set (`ThemeSet::load_defaults`) has a
/// theme named `name`.
pub uninterp spec fn default_theme_exists(name: Seq<char>) -> bool;

/// The name of the syntax that `find_syntax_by_extension` finds for `token`
/// in syntect's default syntax set (`SyntaxSet::load_defaults_newlines`).
pub uninterp spec fn syntax_for_extension(token: Seq<char>) -> Option<Seq<char>>;

/// The name of the syntax that `find_syntax_by_first_line` finds for `line`
/// in syntect's default syntax set.
pub uninterp spec fn syntax_for_first_line(line: Seq<char>) -> Option<Seq<char>>;

/// What `HighlightLines::highlight_line` yields for `lines`, one after the
/// other, with the default syntax named `syntax` (plain text when there is
/// none of that name) and the default theme named `theme`: for each line its
/// pieces, each with its foreground colour (red, green, blue).
pub uninterp spec fn highlighted(theme: Seq<char>, syntax: Seq<char>, lines: Seq<Seq<char>>) -> Seq<
    Seq<((u8, u8, u8), Seq<char>)>,
>;

/// `ThemeSet::load_defaults` and the theme named `name` in it. The contract
/// claims it is there exactly when the default set has it.
#[verifier::external_body]
fn default_theme(name: &str) -> (r: Option<SyntaxTheme>)
    ensures
        r is Some <==> default_theme_exists(name@),
{
    ThemeSet::load_defaults().themes.get(name).cloned()
}

/// `ThemeSet::load_defaults` and its first theme (in name order) with its
/// name. The contract claims the name is one of the default set's.
#[verifier::external_body]
fn first_default_theme() -> (r: Option<(String, SyntaxTheme)>)
    ensures
        r matches Some((n, _)) ==> default_theme_exists(n@),
{
    ThemeSet::load_defaults().themes.into_iter().next()
}

/// `SyntaxSet::load_defaults_newlines`. Nothing is stated of the value.
#[verifier::external_body]
fn default_syntaxes() -> SyntaxSet {
    SyntaxSet::load_defaults_newlines()
}

/// A piece of highlighted text as views.
pub open spec fn piece_views(v: Seq<((u8, u8, u8), String)>) -> Seq<((u8, u8, u8), Seq<char>)> {
    v.map_values(|p: ((u8, u8, u8), String)| (p.0, p.1@))
}

/// Highlighted lines as views.
pub open spec fn lines_views(v: Seq<Vec<((u8, u8, u8), String)>>) -> Seq<Seq<((u8, u8, u8), Seq<char>)>> {
    v.map_values(|l: Vec<((u8, u8, u8), String)>| piece_views(l@))
}

impl Highlighter {
    /// The name of the theme in use.
    pub closed spec fn theme(&self) -> Seq<char> {
        self.theme_name@
    }

    /// The default syntaxes with the theme `base16-mocha.dark`, else
    /// `base16-ocean.dark`, else the first default theme; `None` when the
    /// default set has no theme at all.
    pub fn load() -> (r: Option<Highlighter>)
        ensures
            default_theme_exists("base16-mocha.dark"@) ==> (r matches Some(h) && h.theme()
                == "base16-mocha.dark"@),
            !default_theme_exists("base16-mocha.dark"@) && default_theme_exists(
                "base16-ocean.dark"@,
            ) ==> (r matches Some(h) && h.theme() == "base16-ocean.dark"@),
            r matches Some(h) ==> default_theme_exists(h.theme()),
    {
        let (name, theme) = match default_theme("base16-mocha.dark") {
            Some(t) => (owned("base16-mocha.dark"), t),
            None => match default_theme("base16-ocean.dark") {
                Some(t) => (owned("base16-ocean.dark"), t),
                None => match first_default_theme() {
                    Some((n, t)) => (n, t),
                    None => {
                        return None;
                    },
                },
            },
        };
        Some(Highlighter { syntaxes: default_syntaxes(), theme, theme_name: name })
    }

    /// `find_syntax_by_extension` in the default syntaxes, as the syntax's
    /// name.
    #[verifier::external_body]
    fn by_extension(&self, token: &str) -> (r: Option<String>)
        ensures
            match r {
                Some(n) => syntax_for_extension(token@) == Some(n@),
                None => syntax_for_extension(token@) is None,
            },
    {
        match self.syntaxes.find_syntax_by_extension(token) {
            Some(s) => Some(s.name.clone()),
            None => None,
        }
    }

    /// `find_syntax_by_first_line` in the default syntaxes, as the syntax's
    /// name.
    #[verifier::external_body]
    fn by_first_line(&self, line: &str) -> (r: Option<String>)
        ensures
            match r {
                Some(n) => syntax_for_first_line(line@) == Some(n@),
                None => syntax_for_first_line(line@) is None,
            },
    {
        match self.syntaxes.find_syntax_by_first_line(line) {
            Some(s) => Some(s.name.clone()),
            None => None,
        }
    }

    /// `HighlightLines::highlight_line` over `lines` in order, with the
    /// syntax named `syntax` (`find_syntax_by_name`, plain text when there is
    /// none) and this theme; a line that fails to highlight gives no pieces.
    /// The lines go through one highlighter because it carries the parse
    /// state from line to line.
    #[verifier::external_body]
    fn highlight(&self, syntax: &str, lines: &Vec<String>) -> (r: Vec<Vec<((u8, u8, u8), String)>>)
        ensures
            lines_views(r@) == highlighted(self.theme(), syntax@, views(lines@)),
    {
        let syn = match self.syntaxes.find_syntax_by_name(syntax) {
            Some(s) => s,
            None => self.syntaxes.find_syntax_plain_text(),
        };
        let mut h = HighlightLines::new(syn, &self.theme);
        let mut out = Vec::new();
        for l in lines.iter() {
            let pieces = h.highlight_line(l, &self.syntaxes).unwrap_or_default();
            out.push(pieces.into_iter().map(|(st, t)| ((st.foreground.r, st.foreground.g, st.foreground.b), t.to_string())).collect());
        }
        out
    }
}

/// The syntax a file is highlighted with: the one for its whole file name
/// as an extension, else for its extension, else for its first line (when
/// it could be read), else plain text.
pub open spec fn syntax_spec(path: Seq<char>, first_line: Option<Seq<char>>) -> Seq<char> {
    let name = match path_file_name(path) {
        Some(n) => n,
        None => Seq::empty(),
    };
    let ext = match path_extension(path) {
        Some(e) => e,
        None => Seq::empty(),
    };
    match syntax_for_extension(name) {
        Some(s) => s,
        None => match syntax_for_extension(ext) {
            Some(s) => s,
            None => match first_line {
                Some(l) => match syntax_for_first_line(l) {
                    Some(s) => s,
                    None => "Plain Text"@,
                },
                None => "Plain Text"@,
            },
        },
    }
}

/// The syntax the file at `path` is highlighted with, given its first line
/// (`None` when it could not be read).
pub fn syntax_for_file(hl: &Highlighter, path: &str, first_line: Option<&str>) -> (r: String)
    ensures
        r@ == syntax_spec(
            path@,
            match first_line {
                Some(l) => Some(l@),
                None => None,
            },
        ),
{
    let name = match file_name(path) {
        Some(n) => n,
        None => String::new(),
    };
    let ext = match extension(path) {
        Some(e) => e,
        None => String::new(),
    };
    match hl.by_extension(name.as_str()) {
        Some(s) => s,
        None => match hl.by_extension(ext.as_str()) {
            Some(s) => s,
            None => {
                let found = match first_line {
                    Some(l) => hl.by_first_line(l),
                    None => None,
                };
                match found {
                    Some(s) => s,
                    None => owned("Plain Text"),
                }
            },
        },
    }
}

/// The bytes of `l` that are shown: the first 1024.
pub open spec fn kept_bytes(l: Seq<char>) -> Seq<u8> {
    let b = vstd::utf8::encode_utf8(l);
    b.take(
        if b.len() > MAX_BYTES_PER_LINE {
            MAX_BYTES_PER_LINE as int
        } else {
            b.len() as int
        },
    )
}

/// A line as it is highlighted: its first 1024 bytes, `…` when it was
/// longer, and a newline.
pub open spec fn shown_line(l: Seq<char>) -> Seq<char> {
    (if vstd::utf8::encode_utf8(l).len() > MAX_BYTES_PER_LINE {
        vstd::utf8::decode_utf8(kept_bytes(l)) + "…"@
    } else {
        l
    }) + "\n"@
}

/// `s` without the newlines at its end.
pub open spec fn trim_newlines(s: Seq<char>) -> Seq<char>
    decreases s.len(),
{
    if s.len() > 0 && s.last() == '\n' {
        trim_newlines(s.drop_last())
    } else {
        s
    }
}

/// Highlighted lines with the newlines taken off the end of each piece.
pub open spec fn trimmed(v: Seq<Seq<((u8, u8, u8), Seq<char>)>>) -> Seq<Seq<((u8, u8, u8), Seq<char>)>> {
    v.map_values(
        |l: Seq<((u8, u8, u8), Seq<char>)>|
            l.map_values(|p: ((u8, u8, u8), Seq<char>)| (p.0, trim_newlines(p.1))),
    )
}

/// How many of `n` lines are previewed.
pub open spec fn previewed(n: nat) -> int {
    if n < MAX_LINES {
        n as int
    } else {
        MAX_LINES as int
    }
}

fn trim_newlines_exec(s: &str) -> (r: String)
    ensures
        r@ == trim_newlines(s@),
{
    let v = chars_of(s);
    let mut end = v.len();
    assert(v@.take(v@.len() as int) =~= v@);
    while end > 0 && v[end - 1] == '\n'
        invariant
            end <= v@.len(),
            trim_newlines(v@) == trim_newlines(v@.take(end as int)),
        decreases end,
    {
        assert(v@.take(end as int).drop_last() =~= v@.take(end - 1));
        end = end - 1;
    }
    let t = slice_vec(v.as_slice(), 0, end);
    assert(t@ =~= v@.take(end as int));
    string_of(t.as_slice())
}

/// The preview of a text file from its first lines `raw` (without their
/// line ends), the file's `path` and its first line as read (`None` when it
/// could not be read): the first 200 lines clipped to 1024 bytes (`…` when
/// cut) and highlighted, each piece without its trailing newlines; `None`
/// when a shown part of one of them holds a zero byte, which marks the file
/// as binary. A line longer than 1024 bytes must have a character boundary
/// there.
pub fn text_preview_lines(hl: &Highlighter, path: &str, first_line: Option<&str>, raw: &Vec<String>) -> (r: Option<Vec<Vec<((u8, u8, u8), String)>>>)
    requires
        forall|i: int|
            0 <= i < raw@.len() ==> vstd::utf8::encode_utf8(#[trigger] raw@[i]@).len()
                > MAX_BYTES_PER_LINE ==> vstd::utf8::is_char_boundary(
                vstd::utf8::encode_utf8(raw@[i]@),
                MAX_BYTES_PER_LINE as int,
            ),
    ensures
        r is None <==> exists|i: int|
            0 <= i < previewed(raw@.len()) && has_nul(kept_bytes(#[trigger] raw@[i]@)),
        r matches Some(v) ==> lines_views(v@) == trimmed(
            highlighted(
                hl.theme(),
                syntax_spec(
                    path@,
                    match first_line {
                        Some(l) => Some(l@),
                        None => None,
                    },
                ),
                views(raw@).take(previewed(raw@.len())).map_values(|l: Seq<char>| shown_line(l)),
            ),
        ),
{
    let n = if raw.len() < MAX_LINES {
        raw.len()
    } else {
        MAX_LINES
    };
    let mut shown: Vec<String> = Vec::new();
    let mut i: usize = 0;
    while i < n
        invariant
            i <= n,
            n == previewed(raw@.len()),
            n <= raw@.len(),
            forall|j: int|
                0 <= j < raw@.len() ==> vstd::utf8::encode_utf8(#[trigger] raw@[j]@).len()
                    > MAX_BYTES_PER_LINE ==> vstd::utf8::is_char_boundary(
                    vstd::utf8::encode_utf8(raw@[j]@),
                    MAX_BYTES_PER_LINE as int,
                ),
            forall|j: int| 0 <= j < i ==> !has_nul(kept_bytes(#[trigger] raw@[j]@)),
            views(shown@) == views(raw@).take(i as int).map_values(|l: Seq<char>| shown_line(l)),
        decreases n - i,
    {
        let line = raw[i].as_str();
        assert(line.spec_bytes() == vstd::utf8::encode_utf8(raw@[i as int]@));
        match clip_line(line) {
            None => {
                return None;
            },
            Some((kept, cut)) => {
                let mut s = owned(kept);
                if cut {
                    push_str(&mut s, "…");
                }
                push_str(&mut s, "\n");
                proof {
                    let l = raw@[i as int]@;
                    assert(kept.spec_bytes() == kept_bytes(l));
                    assert(vstd::utf8::decode_utf8(vstd::utf8::encode_utf8(kept@)) == kept@);
                    assert(vstd::utf8::decode_utf8(vstd::utf8::encode_utf8(l)) == l);
                    if !cut {
                        assert(kept_bytes(l) =~= vstd::utf8::encode_utf8(l));
                    }
                    assert(s@ == shown_line(l));
                    assert(views(raw@).take(i + 1) =~= views(raw@).take(i as int).push(l));
                }
                let ghost before = shown@;
                shown.push(s);
                proof {
                    crate::app::lemma_views_push(before, s);
                    assert(views(raw@).take(i + 1).map_values(|l: Seq<char>| shown_line(l))
                        =~= views(raw@).take(i as int).map_values(|l: Seq<char>| shown_line(l)).push(
                        shown_line(raw@[i as int]@),
                    ));
                }
            },
        }
        i = i + 1;
    }
    let syntax = syntax_for_file(hl, path, first_line);
    let lit = hl.highlight(syntax.as_str(), &shown);
    let mut out: Vec<Vec<((u8, u8, u8), String)>> = Vec::new();
    let mut k: usize = 0;
    while k < lit.len()
        invariant
            k <= lit@.len(),
            lines_views(out@) == trimmed(lines_views(lit@.take(k as int))),
        decreases lit@.len() - k,
    {
        let line = &lit[k];
        let mut pieces: Vec<((u8, u8, u8), String)> = Vec::new();
        let mut m: usize = 0;
        while m < line.len()
            invariant
                m <= line@.len(),
                piece_views(pieces@) == piece_views(line@.take(m as int)).map_values(
                    |p: ((u8, u8, u8), Seq<char>)| (p.0, trim_newlines(p.1)),
                ),
            decreases line@.len() - m,
        {
            let t = trim_newlines_exec(line[m].1.as_str());
            let ghost before = pieces@;
            pieces.push((line[m].0, t));
            proof {
                assert(piece_views(pieces@) =~= piece_views(before).push((line@[m as int].0, t@)));
                assert(line@.take(m + 1) =~= line@.take(m as int).push(line@[m as int]));
                assert(piece_views(line@.take(m + 1)) =~= piece_views(line@.take(m as int)).push(
                    (line@[m as int].0, line@[m as int].1@),
                ));
            }
            m = m + 1;
        }
        proof {
            assert(line@.take(line@.len() as int) =~= line@);
        }
        let ghost before = out@;
        out.push(pieces);
        proof {
            assert(lines_views(out@) =~= lines_views(before).push(piece_views(pieces@)));
            assert(lit@.take(k + 1) =~= lit@.take(k as int).push(lit@[k as int]));
            assert(lines_views(lit@.take(k + 1)) =~= lines_views(lit@.take(k as int)).push(
                piece_views(lit@[k as int]@),
            ));
        }
        k = k + 1;
    }
    proof {
        assert(lit@.take(lit@.len() as int) =~= lit@);
    }
    Some(out)
}

} // verus!
