//! What the screen shows: the text of the header, the tab strip, the panes,
//! the status line, the dialogs and the chord hints, and where each popup
//! goes. Painting it in colour is the caller's part: each piece of text
//! comes with a `Tone` that names its style.

use vstd::prelude::*;
use crate::app::{App, ConfirmKind, OpMode, path_set};
use crate::sort::{KeyOrder, stable_sort};
use crate::text::{lex_le, lex_le_exec, lemma_lex_total, lemma_lex_trans, is_prefix, str_eq};
use crate::folder::{FileEntry, Folder, rows};
use crate::git::{GitStatus, GitStatusView};
use crate::keybind::{Mode, ordered};
use crate::paths::{file_name, path_file_name};
use crate::shell::views;
use crate::text::{
    chars_of, dec, owned, pad_left, pad_left_spec, pad_right, pad_right_spec, push_chars,
    push_dec, push_str, slice_vec, string_of,
};

verus! {

/// The style of a piece of text.
#[derive(Debug, Clone, Copy, PartialEq, Eq, Structural)]
pub enum Tone {
    /// The program name: accent background, bold.
    Brand,
    /// Default colours.
    Plain,
    /// Bold foreground.
    Strong,
    /// Dimmed.
    Dim,
    /// Accent colour.
    Accent,
    /// Warning colour.
    Warn,
    /// Error colour.
    Error,
    /// Directory colour.
    Dir,
    /// The active item: accent background, bold.
    Active,
    /// The split partner: visual background, bold.
    Partner,
    /// A heading: accent colour, bold.
    Title,
    /// A warning heading: warning colour, bold.
    Alert,
}

/// Texts with their tones, as views.
pub open spec fn toned(v: Seq<(Tone, String)>) -> Seq<(Tone, Seq<char>)> {
    v.map_values(|p: (Tone, String)| (p.0, p.1@))
}

proof fn lemma_toned_push(v: Seq<(Tone, String)>, p: (Tone, String))
    ensures
        toned(v.push(p)) == toned(v).push((p.0, p.1@)),
{
    assert(toned(v.push(p)) =~= toned(v).push((p.0, p.1@)));
}

pub(crate) fn push_toned(v: &mut Vec<(Tone, String)>, t: Tone, s: String)
    ensures
        toned(final(v)@) == toned(old(v)@).push((t, s@)),
{
    let ghost before = v@;
    v.push((t, s));
    proof {
        lemma_toned_push(before, (t, s));
    }
}

// ---------------------------------------------------------------------------
// Git segment
// ---------------------------------------------------------------------------
/// The colours of the git segment.
#[derive(Debug, Clone, Copy, PartialEq, Eq, Structural)]
pub enum GitTone {
    /// Clean and level with upstream: green.
    Clean,
    /// Uncommitted changes: yellow.
    Dirty,
    /// Clean but ahead or behind: accent.
    Moved,
}

pub open spec fn git_tone(g: GitStatusView) -> GitTone {
    if g.clean && g.ahead == 0 && g.behind == 0 {
        GitTone::Clean
    } else if !g.clean {
        GitTone::Dirty
    } else {
        GitTone::Moved
    }
}

/// `mark n` after a space when `n` is not zero.
pub open spec fn count_part(mark: Seq<char>, n: nat) -> Seq<char> {
    if n > 0 {
        " "@ + mark + dec(n)
    } else {
        Seq::empty()
    }
}

/// The git segment's text: the branch, then the counts that are not zero.
pub open spec fn git_text(g: GitStatusView) -> Seq<char> {
    "  "@ + g.branch + count_part("↑"@, g.ahead) + count_part("↓"@, g.behind) + count_part(
        "+"@,
        g.staged,
    ) + count_part("~"@, g.modified) + count_part("?"@, g.untracked) + " "@
}

fn push_count(s: &mut String, mark: &str, n: u64)
    ensures
        final(s)@ == old(s)@ + count_part(mark@, n as nat),
{
    if n > 0 {
        push_str(s, " ");
        push_str(s, mark);
        push_dec(s, n);
    }
}

/// The git segment of the header.
pub fn git_segment(g: &GitStatus) -> (r: (GitTone, String))
    ensures
        r.0 == git_tone(g@),
        r.1@ == git_text(g@),
{
    let tone = if g.clean && g.ahead == 0 && g.behind == 0 {
        GitTone::Clean
    } else if !g.clean {
        GitTone::Dirty
    } else {
        GitTone::Moved
    };
    let mut s = owned("  ");
    push_str(&mut s, g.branch.as_str());
    push_count(&mut s, "↑", g.ahead as u64);
    push_count(&mut s, "↓", g.behind as u64);
    push_count(&mut s, "+", g.staged as u64);
    push_count(&mut s, "~", g.modified as u64);
    push_count(&mut s, "?", g.untracked as u64);
    push_str(&mut s, " ");
    (tone, s)
}

/// Where the git segment of `width` characters goes on a header row at `x`
/// of `area_width` columns: right-aligned with one column spare, as
/// `(x, width)`; nothing when it does not fit.
pub open spec fn git_place_spec(x: int, area_width: int, width: int) -> Option<(int, int)> {
    if width < area_width {
        Some((x + area_width - width - 1, width + 1))
    } else {
        None
    }
}

/// Where the git segment `text` goes on the header row.
pub fn git_place(x: u16, area_width: u16, text: &str) -> (r: Option<(u16, u16)>)
    requires
        x + area_width <= u16::MAX,
    ensures
        match r {
            Some((a, b)) => git_place_spec(x as int, area_width as int, text@.len() as int) == Some(
                (a as int, b as int),
            ),
            None => git_place_spec(x as int, area_width as int, text@.len() as int) is None,
        },
{
    let n = chars_of(text).len();
    if n < area_width as usize {
        let w = n as u16;
        Some((x + area_width - w - 1, w + 1))
    } else {
        None
    }
}

// ---------------------------------------------------------------------------
// Header and tab strip
// ---------------------------------------------------------------------------
/// The header: the program name, the active tab's directory, then markers
/// for shown dotfiles, the text filter and the selection.
pub open spec fn header_spec(a: App) -> Seq<(Tone, Seq<char>)> {
    let f = a.tabs@[a.active as int];
    seq![(Tone::Brand, " machina "@), (Tone::Plain, " "@), (Tone::Strong, f.path@)] + (if f.show_hidden {
        seq![(Tone::Dim, "  [hidden]"@)]
    } else {
        Seq::empty()
    }) + (if f.filter@.len() > 0 {
        seq![(Tone::Accent, "  /"@ + f.filter@)]
    } else {
        Seq::empty()
    }) + (if a.selected@.len() > 0 {
        seq![(Tone::Warn, "  ["@ + dec(a.selected@.len()) + " selected]"@)]
    } else {
        Seq::empty()
    })
}

/// The header's texts.
pub fn header(app: &App) -> (r: Vec<(Tone, String)>)
    requires
        app.wf(),
    ensures
        toned(r@) == header_spec(*app),
{
    let f = app.current();
    let mut v: Vec<(Tone, String)> = Vec::new();
    push_toned(&mut v, Tone::Brand, owned(" machina "));
    push_toned(&mut v, Tone::Plain, owned(" "));
    push_toned(&mut v, Tone::Strong, f.path.clone());
    let ghost base = toned(v@);
    if f.show_hidden {
        push_toned(&mut v, Tone::Dim, owned("  [hidden]"));
    }
    let ghost h = toned(v@);
    if chars_of(f.filter.as_str()).len() > 0 {
        let mut s = owned("  /");
        push_str(&mut s, f.filter.as_str());
        push_toned(&mut v, Tone::Accent, s);
    }
    let ghost g = toned(v@);
    if app.selected.len() > 0 {
        let mut s = owned("  [");
        push_dec(&mut s, app.selected.len() as u64);
        push_str(&mut s, " selected]");
        push_toned(&mut v, Tone::Warn, s);
    }
    proof {
        assert(base =~= seq![(Tone::Brand, " machina "@), (Tone::Plain, " "@), (Tone::Strong, f.path@)]);
        assert(toned(v@) =~= header_spec(*app));
    }
    v
}

/// A tab's label: its number from one and its directory's name (`/`
/// without one).
pub open spec fn tab_label_spec(i: nat, path: Seq<char>) -> Seq<char> {
    " "@ + dec(i + 1) + " "@ + match path_file_name(path) {
        Some(n) => n,
        None => "/"@,
    } + " "@
}

/// How a tab's label looks: the active tab, the split partner, or dimmed.
pub open spec fn tab_tone(a: App, i: int) -> Tone {
    if i == a.active {
        Tone::Active
    } else if a.split == Some(i as usize) {
        Tone::Partner
    } else {
        Tone::Dim
    }
}

/// The tab strip: each tab's label followed by a space.
pub open spec fn tab_strip_spec(a: App, n: nat) -> Seq<(Tone, Seq<char>)>
    decreases n,
{
    if n == 0 {
        Seq::empty()
    } else {
        let i = (n - 1) as int;
        tab_strip_spec(a, (n - 1) as nat) + seq![
            (tab_tone(a, i), tab_label_spec(i as nat, a.tabs@[i].path@)),
            (Tone::Plain, " "@),
        ]
    }
}

/// The tab strip's texts.
pub fn tab_strip(app: &App) -> (r: Vec<(Tone, String)>)
    requires
        app.tabs@.len() < usize::MAX,
    ensures
        toned(r@) == tab_strip_spec(*app, app.tabs@.len()),
{
    let mut v: Vec<(Tone, String)> = Vec::new();
    let mut i: usize = 0;
    while i < app.tabs.len()
        invariant
            i <= app.tabs@.len(),
            app.tabs@.len() < usize::MAX,
            toned(v@) == tab_strip_spec(*app, i as nat),
        decreases app.tabs@.len() - i,
    {
        let tone = if i == app.active {
            Tone::Active
        } else if app.split == Some(i) {
            Tone::Partner
        } else {
            Tone::Dim
        };
        let mut s = owned(" ");
        push_dec(&mut s, (i + 1) as u64);
        push_str(&mut s, " ");
        match file_name(app.tabs[i].path.as_str()) {
            Some(n) => push_str(&mut s, n.as_str()),
            None => push_str(&mut s, "/"),
        }
        push_str(&mut s, " ");
        push_toned(&mut v, tone, s);
        push_toned(&mut v, Tone::Plain, owned(" "));
        proof {
            assert(toned(v@) =~= tab_strip_spec(*app, (i + 1) as nat));
        }
        i = i + 1;
    }
    v
}

// ---------------------------------------------------------------------------
// Panes
// ---------------------------------------------------------------------------
/// How an entry row looks.
#[derive(Debug, Clone, Copy, PartialEq, Eq, Structural)]
pub enum RowTone {
    /// Under the cursor of the active pane.
    Cursor,
    /// In the selection.
    Marked,
    /// In the visual range.
    Ranged,
    Dir,
    File,
}

/// One entry row of a pane: the marker and name column, the size column and
/// the time column; `cursor` rows draw all three in the row's style, others
/// dim the last two.
pub struct PaneRow {
    pub tone: RowTone,
    pub cursor: bool,
    pub name: String,
    pub size: String,
    pub time: String,
}

/// The name cut to `w` characters, the last one then `…`.
pub open spec fn cut_name(name: Seq<char>, w: nat) -> Seq<char> {
    if name.len() > w {
        name.take(if w >= 1 { w - 1 } else { 0 }) + "…"@
    } else {
        name
    }
}

/// The width of the name column in a pane `width` columns wide.
pub open spec fn name_width(width: u16) -> nat {
    if width >= 26 {
        (width - 26) as nat
    } else {
        0
    }
}

/// The entries a pane of `height` rows shows, from the scroll offset.
pub open spec fn shown(f: Folder, height: u16) -> Seq<FileEntry> {
    f.files@.subrange(
        f.offset as int,
        if f.offset + rows(height) < f.files@.len() {
            f.offset + rows(height)
        } else {
            f.files@.len() as int
        },
    )
}

/// What the row for `e`, the `k`-th entry of its pane, shows: `active` when
/// the pane has the focus, `range` the visual range, `size` the entry's
/// size as text.
pub open spec fn row_spec(
    a: App,
    f: Folder,
    active: bool,
    range: Option<(usize, usize)>,
    width: u16,
    k: int,
    e: FileEntry,
    size: Seq<char>,
    r: PaneRow,
) -> bool {
    let is_sel = active && k == f.cursor;
    let is_vis = match range {
        Some((s, t)) => s <= k <= t,
        None => false,
    };
    let is_multi = path_set(a.selected@).contains(e.path@);
    let w = name_width(width);
    &&& r.cursor == is_sel
    &&& r.tone == (if is_sel {
        RowTone::Cursor
    } else if is_multi {
        RowTone::Marked
    } else if is_vis {
        RowTone::Ranged
    } else if e.is_dir {
        RowTone::Dir
    } else {
        RowTone::File
    })
    &&& r.name@ == (if is_multi {
        "*"@
    } else {
        " "@
    }) + "   "@ + pad_right_spec(cut_name(e.name@, w), w)
    &&& r.size@ == " "@ + pad_left_spec(
        if e.is_dir {
            Seq::empty()
        } else {
            size
        },
        9,
    ) + " "@
    &&& r.time@ == pad_left_spec(e.modified@, 11)
}

/// The visual range shown in a pane: the marked range in the pane with the
/// focus, none elsewhere.
pub open spec fn pane_range(a: App, active: bool) -> Option<(usize, usize)> {
    if active {
        ordered(a.keybind.visual_start, a.keybind.visual_end)
    } else {
        None
    }
}

fn cut_name_exec(name: &str, w: usize) -> (r: String)
    ensures
        r@ == cut_name(name@, w as nat),
{
    let v = chars_of(name);
    if v.len() > w {
        let keep = if w >= 1 {
            w - 1
        } else {
            0
        };
        let head = slice_vec(v.as_slice(), 0, keep);
        let mut s = string_of(head.as_slice());
        push_str(&mut s, "…");
        proof {
            assert(head@ =~= name@.take(keep as int));
        }
        s
    } else {
        owned(name)
    }
}

/// Whether `path` is in the selection.
fn is_selected(app: &App, path: &str) -> (r: bool)
    ensures
        r == path_set(app.selected@).contains(path@),
{
    let mut i: usize = 0;
    while i < app.selected.len()
        invariant
            i <= app.selected@.len(),
            forall|j: int| 0 <= j < i ==> app.selected@[j]@ != path@,
        decreases app.selected@.len() - i,
    {
        if crate::text::str_eq(app.selected[i].as_str(), path) {
            proof {
                assert(views(app.selected@)[i as int] == path@);
            }
            return true;
        }
        i = i + 1;
    }
    proof {
        if views(app.selected@).contains(path@) {
            let k = choose|k: int| 0 <= k < views(app.selected@).len() && views(app.selected@)[k] == path@;
            assert(app.selected@[k]@ == path@);
        }
    }
    false
}

/// The row for the entry `e` at index `k` of a pane.
fn pane_row(
    app: &App,
    f: &Folder,
    active: bool,
    range: Option<(usize, usize)>,
    width: u16,
    k: usize,
    e: &FileEntry,
    size: &str,
) -> (r: PaneRow)
    ensures
        row_spec(*app, *f, active, range, width, k as int, *e, size@, r),
{
    let is_sel = active && k == f.cursor;
    let is_vis = match range {
        Some((s, t)) => s <= k && k <= t,
        None => false,
    };
    let is_multi = is_selected(app, e.path.as_str());
    let w: usize = if width >= 26 {
        (width - 26) as usize
    } else {
        0
    };
    let tone = if is_sel {
        RowTone::Cursor
    } else if is_multi {
        RowTone::Marked
    } else if is_vis {
        RowTone::Ranged
    } else if e.is_dir {
        RowTone::Dir
    } else {
        RowTone::File
    };
    let mut name = owned(if is_multi {
        "*"
    } else {
        " "
    });
    push_str(&mut name, "   ");
    let cut = cut_name_exec(e.name.as_str(), w);
    let padded = pad_right(cut.as_str(), w);
    push_str(&mut name, padded.as_str());
    let mut size_cell = owned(" ");
    let sz = pad_left(
        if e.is_dir {
            ""
        } else {
            size
        },
        9,
    );
    push_str(&mut size_cell, sz.as_str());
    push_str(&mut size_cell, " ");
    let time = pad_left(e.modified.as_str(), 11);
    proof {
        reveal_strlit("");
        assert(""@ =~= Seq::<char>::empty());
    }
    PaneRow { tone, cursor: is_sel, name, size: size_cell, time }
}

/// The rows of tab `tab`'s pane, `height` rows and `width` columns, with
/// `sizes` the shown entries' sizes as text.
pub fn pane_rows(app: &App, tab: usize, active: bool, height: u16, width: u16, sizes: &[String]) -> (r: Vec<PaneRow>)
    requires
        tab < app.tabs@.len(),
        app.tabs@[tab as int].offset <= app.tabs@[tab as int].files@.len(),
        sizes@.len() == shown(app.tabs@[tab as int], height).len(),
    ensures
        r@.len() == shown(app.tabs@[tab as int], height).len(),
        forall|i: int|
            0 <= i < r@.len() ==> row_spec(
                *app,
                app.tabs@[tab as int],
                active,
                pane_range(*app, active),
                width,
                app.tabs@[tab as int].offset + i,
                shown(app.tabs@[tab as int], height)[i],
                sizes@[i]@,
                #[trigger] r@[i],
            ),
{
    let f = &app.tabs[tab];
    let range = if active {
        app.keybind.get_visual_range()
    } else {
        None
    };
    let entries = f.visible_files(height);
    let ghost s = shown(*f, height);
    assert(entries@ == s);
    let total = f.files.len();
    let mut out: Vec<PaneRow> = Vec::new();
    let mut i: usize = 0;
    while i < entries.len()
        invariant
            i <= entries@.len(),
            tab < app.tabs@.len(),
            total == f.files@.len(),
            f.offset + s.len() <= f.files@.len(),
            entries@ == s,
            s == shown(*f, height),
            *f == app.tabs@[tab as int],
            f.offset <= f.files@.len(),
            sizes@.len() == s.len(),
            range == pane_range(*app, active),
            out@.len() == i,
            forall|j: int|
                0 <= j < i ==> row_spec(
                    *app,
                    *f,
                    active,
                    range,
                    width,
                    f.offset + j,
                    s[j],
                    sizes@[j]@,
                    #[trigger] out@[j],
                ),
        decreases entries@.len() - i,
    {
        assert(f.offset + i <= f.files@.len());
        let row = pane_row(app, f, active, range, width, f.offset + i, &entries[i], sizes[i].as_str());
        out.push(row);
        i = i + 1;
    }
    out
}

/// The pane's title: the entry count, with `-- VISUAL --` in the active
/// pane in visual mode; an inactive pane names its directory.
pub open spec fn pane_title_spec(a: App, f: Folder, active: bool) -> Seq<char> {
    if active {
        if a.keybind.mode == Mode::Visual {
            " "@ + dec(f.files@.len()) + " files  -- VISUAL -- "@
        } else {
            " "@ + dec(f.files@.len()) + " files "@
        }
    } else {
        " "@ + match path_file_name(f.path@) {
            Some(n) => n,
            None => "/"@,
        } + ": "@ + dec(f.files@.len()) + " files "@
    }
}

/// The title of tab `tab`'s pane.
pub fn pane_title(app: &App, tab: usize, active: bool) -> (r: String)
    requires
        tab < app.tabs@.len(),
    ensures
        r@ == pane_title_spec(*app, app.tabs@[tab as int], active),
{
    let f = &app.tabs[tab];
    let n = f.files.len() as u64;
    let mut s = owned(" ");
    if active {
        push_dec(&mut s, n);
        if app.keybind.mode == Mode::Visual {
            push_str(&mut s, " files  -- VISUAL -- ");
        } else {
            push_str(&mut s, " files ");
        }
    } else {
        match file_name(f.path.as_str()) {
            Some(name) => push_str(&mut s, name.as_str()),
            None => push_str(&mut s, "/"),
        }
        push_str(&mut s, ": ");
        push_dec(&mut s, n);
        push_str(&mut s, " files ");
    }
    s
}

/// Which tabs the two panes of the split show, left then right: the lower
/// index on the left.
pub open spec fn pane_order_spec(active: usize, split: usize) -> (usize, usize) {
    if active < split {
        (active, split)
    } else {
        (split, active)
    }
}

pub fn pane_order(active: usize, split: usize) -> (r: (usize, usize))
    ensures
        r == pane_order_spec(active, split),
{
    if active < split {
        (active, split)
    } else {
        (split, active)
    }
}

// ---------------------------------------------------------------------------
// Status line
// ---------------------------------------------------------------------------
/// The clipboard label of a mode.
pub open spec fn op_label(m: OpMode) -> Seq<char> {
    match m {
        OpMode::Copy => "yank"@,
        OpMode::Cut => "cut"@,
        OpMode::Link => "link"@,
    }
}

/// The status line: the newest message, the clipboard, and the chord key
/// waiting (`pending`).
pub open spec fn status_spec(a: App, pending: Option<char>) -> Seq<(Tone, Seq<char>)> {
    (if a.messages@.len() > 0 {
        seq![(Tone::Dim, " "@ + a.messages@.last()@)]
    } else {
        Seq::empty()
    }) + (match a.file_op {
        Some(op) => seq![
            (Tone::Plain, "  "@),
            (Tone::Accent, "["@ + op_label(op.mode) + " "@ + dec(op.files@.len()) + "]"@),
        ],
        None => Seq::empty(),
    }) + (match pending {
        Some(c) => seq![(Tone::Plain, "  "@), (Tone::Warn, "("@ + seq![c] + ")"@)],
        None => Seq::empty(),
    })
}

/// The status line's texts, with `pending` the chord key still waiting.
pub fn status(app: &App, pending: Option<char>) -> (r: Vec<(Tone, String)>)
    ensures
        toned(r@) == status_spec(*app, pending),
{
    let mut v: Vec<(Tone, String)> = Vec::new();
    let n = app.messages.len();
    if n > 0 {
        let mut s = owned(" ");
        push_str(&mut s, app.messages[n - 1].as_str());
        push_toned(&mut v, Tone::Dim, s);
    }
    let ghost m = toned(v@);
    match &app.file_op {
        Some(op) => {
            push_toned(&mut v, Tone::Plain, owned("  "));
            let mut s = owned("[");
            push_str(
                &mut s,
                match op.mode {
                    OpMode::Copy => "yank",
                    OpMode::Cut => "cut",
                    OpMode::Link => "link",
                },
            );
            push_str(&mut s, " ");
            push_dec(&mut s, op.files.len() as u64);
            push_str(&mut s, "]");
            push_toned(&mut v, Tone::Accent, s);
        },
        None => {},
    }
    let ghost o = toned(v@);
    match pending {
        Some(c) => {
            push_toned(&mut v, Tone::Plain, owned("  "));
            let mut s = owned("(");
            crate::text::push_char(&mut s, c);
            push_str(&mut s, ")");
            push_toned(&mut v, Tone::Warn, s);
            proof {
                assert("("@.push(c) + ")"@ =~= "("@ + seq![c] + ")"@);
            }
        },
        None => {},
    }
    proof {
        assert(toned(v@) =~= status_spec(*app, pending));
    }
    v
}

// ---------------------------------------------------------------------------
// Popups
// ---------------------------------------------------------------------------
/// A box on the screen: column, row, width, height.
pub type Area = (u16, u16, u16, u16);

/// The question box: 40 to 80 columns (20 fewer than the screen), 5 rows,
/// centred.
pub open spec fn confirm_box_spec(area: Area) -> (int, int, int, int) {
    let (x, y, width, height) = area;
    let a = if width >= 20 { width - 20 } else { 0 };
    let b = if a < 80 { a } else { 80 };
    let w = if b > 40 { b } else { 40 };
    (x + (width - w) / 2, y + (height - 5) / 2, w, 5)
}

/// Where the question box goes. The screen must be at least 40 columns and
/// 5 rows.
pub fn confirm_box(area: Area) -> (r: Area)
    requires
        area.2 >= 40,
        area.3 >= 5,
        area.0 + area.2 <= u16::MAX,
        area.1 + area.3 <= u16::MAX,
    ensures
        (r.0 as int, r.1 as int, r.2 as int, r.3 as int) == confirm_box_spec(area),
{
    let (x, y, width, height) = area;
    let a = if width >= 20 {
        width - 20
    } else {
        0
    };
    let b = if a < 80 {
        a
    } else {
        80
    };
    let w = if b > 40 {
        b
    } else {
        40
    };
    (x + (width - w) / 2, y + (height - 5) / 2, w, 5)
}

/// The question box's title.
pub open spec fn confirm_title_spec(k: ConfirmKind) -> Seq<char> {
    match k {
        ConfirmKind::DeletePermanent => " ! PERMANENT DELETE "@,
        ConfirmKind::DeleteTrash => " trash "@,
        ConfirmKind::Archive { .. } => " archive "@,
    }
}

/// The question box's colour.
pub open spec fn confirm_tone_spec(k: ConfirmKind) -> Tone {
    match k {
        ConfirmKind::DeletePermanent => Tone::Error,
        ConfirmKind::DeleteTrash => Tone::Warn,
        ConfirmKind::Archive { .. } => Tone::Accent,
    }
}

/// The question box's title and colour.
pub fn confirm_title(k: &ConfirmKind) -> (r: (&'static str, Tone))
    ensures
        r.0@ == confirm_title_spec(*k),
        r.1 == confirm_tone_spec(*k),
{
    match k {
        ConfirmKind::DeletePermanent => (" ! PERMANENT DELETE ", Tone::Error),
        ConfirmKind::DeleteTrash => (" trash ", Tone::Warn),
        ConfirmKind::Archive { .. } => (" archive ", Tone::Accent),
    }
}

/// The paste dialog box: up to 60 columns (4 fewer than the screen), 7
/// rows, centred.
pub open spec fn paste_box_spec(area: Area) -> (int, int, int, int) {
    let (x, y, width, height) = area;
    let a = if width >= 4 { width - 4 } else { 0 };
    let w = if a < 60 { a } else { 60 };
    (x + (width - w) / 2, y + (height - 7) / 2, w, 7)
}

/// Where the paste dialog goes. The screen must be at least 7 rows.
pub fn paste_box(area: Area) -> (r: Area)
    requires
        area.3 >= 7,
        area.0 + area.2 <= u16::MAX,
        area.1 + area.3 <= u16::MAX,
    ensures
        (r.0 as int, r.1 as int, r.2 as int, r.3 as int) == paste_box_spec(area),
{
    let (x, y, width, height) = area;
    let a = if width >= 4 {
        width - 4
    } else {
        0
    };
    let w = if a < 60 {
        a
    } else {
        60
    };
    (x + (width - w) / 2, y + (height - 7) / 2, w, 7)
}

/// The paste dialog's line: how many files, and where they go.
pub open spec fn paste_info_spec(a: App, dest: Option<Seq<char>>) -> Seq<char> {
    " "@ + dec(
        match a.file_op {
            Some(op) => op.files@.len(),
            None => 0,
        },
    ) + " item(s) → "@ + match dest {
        Some(d) => d,
        None => a.tabs@[a.active as int].path@,
    }
}

/// The paste dialog's line for a dialog aimed at `dest` (the active tab's
/// directory when `None`).
pub fn paste_info(app: &App, dest: &Option<String>) -> (r: String)
    requires
        app.wf(),
    ensures
        r@ == paste_info_spec(
            *app,
            match dest {
                Some(d) => Some(d@),
                None => None,
            },
        ),
{
    let n: usize = match &app.file_op {
        Some(op) => op.files.len(),
        None => 0,
    };
    let mut s = owned(" ");
    push_dec(&mut s, n as u64);
    push_str(&mut s, " item(s) → ");
    match dest {
        Some(d) => push_str(&mut s, d.as_str()),
        None => push_str(&mut s, app.current().path.as_str()),
    }
    s
}

/// The paste dialog's choices, the one chosen marked.
pub open spec fn paste_options_spec(selected: usize) -> Seq<(Tone, Seq<char>)> {
    seq![
        (if selected == 0 { Tone::Active } else { Tone::Plain }, "  Copy  "@),
        (Tone::Plain, "   "@),
        (if selected == 1 { Tone::Active } else { Tone::Plain }, "  Move  "@),
        (Tone::Plain, "   "@),
        (if selected == 2 { Tone::Active } else { Tone::Plain }, "  Link  "@),
        (Tone::Plain, "   "@),
    ]
}

/// The paste dialog's choices.
pub fn paste_options(selected: usize) -> (r: Vec<(Tone, String)>)
    ensures
        toned(r@) == paste_options_spec(selected),
{
    let mut v: Vec<(Tone, String)> = Vec::new();
    push_toned(&mut v, if selected == 0 { Tone::Active } else { Tone::Plain }, owned("  Copy  "));
    push_toned(&mut v, Tone::Plain, owned("   "));
    push_toned(&mut v, if selected == 1 { Tone::Active } else { Tone::Plain }, owned("  Move  "));
    push_toned(&mut v, Tone::Plain, owned("   "));
    push_toned(&mut v, if selected == 2 { Tone::Active } else { Tone::Plain }, owned("  Link  "));
    push_toned(&mut v, Tone::Plain, owned("   "));
    proof {
        assert(toned(v@) =~= paste_options_spec(selected));
    }
    v
}

/// The help box: up to 80 columns and 34 rows (4 fewer than the screen),
/// centred.
pub open spec fn help_box_spec(area: Area) -> (int, int, int, int) {
    let (x, y, width, height) = area;
    let a = if width >= 4 { width - 4 } else { 0 };
    let w = if a < 80 { a } else { 80 };
    let b = if height >= 4 { height - 4 } else { 0 };
    let h = if b < 34 { b } else { 34 };
    (x + (width - w) / 2, y + (height - h) / 2, w, h)
}

/// Where the help box goes.
pub fn help_box(area: Area) -> (r: Area)
    requires
        area.0 + area.2 <= u16::MAX,
        area.1 + area.3 <= u16::MAX,
    ensures
        (r.0 as int, r.1 as int, r.2 as int, r.3 as int) == help_box_spec(area),
{
    let (x, y, width, height) = area;
    let a = if width >= 4 {
        width - 4
    } else {
        0
    };
    let w = if a < 80 {
        a
    } else {
        80
    };
    let b = if height >= 4 {
        height - 4
    } else {
        0
    };
    let h = if b < 34 {
        b
    } else {
        34
    };
    (x + (width - w) / 2, y + (height - h) / 2, w, h)
}

// ---------------------------------------------------------------------------
// Chord hints
// ---------------------------------------------------------------------------
/// One chord hint: the second key and what it does.
pub struct Hint {
    pub key: String,
    pub desc: String,
}

impl KeyOrder for Hint {
    open spec fn sort_le(&self, other: &Self) -> bool {
        lex_le(self.key@, other.key@)
    }

    fn key_le(&self, other: &Self) -> (r: bool) {
        let a = chars_of(self.key.as_str());
        let b = chars_of(other.key.as_str());
        lex_le_exec(a.as_slice(), b.as_slice())
    }

    proof fn lemma_total(a: &Self, b: &Self) {
        lemma_lex_total(a.key@, b.key@);
    }

    proof fn lemma_trans(a: &Self, b: &Self, c: &Self) {
        lemma_lex_trans(a.key@, b.key@, c.key@);
    }
}

/// A path shown short: the home directory written `~`.
pub open spec fn short_path_spec(p: Seq<char>, home: Option<Seq<char>>) -> Seq<char> {
    match home {
        Some(h) => if is_prefix(h, p) {
            "~"@ + p.skip(h.len() as int)
        } else {
            p
        },
        None => p,
    }
}

/// `p` with the home directory `home` written `~`.
pub fn short_path(p: &str, home: Option<&str>) -> (r: String)
    ensures
        r@ == short_path_spec(
            p@,
            match home {
                Some(h) => Some(h@),
                None => None,
            },
        ),
{
    match home {
        Some(h) => {
            let pv = chars_of(p);
            let hv = chars_of(h);
            if crate::text::starts_with(pv.as_slice(), hv.as_slice()) {
                let rest = slice_vec(pv.as_slice(), hv.len(), pv.len());
                let mut s = owned("~");
                push_chars(&mut s, rest.as_slice());
                s
            } else {
                owned(p)
            }
        },
        None => owned(p),
    }
}

/// A hint as a pair of views.
pub open spec fn hint_view(h: Hint) -> (Seq<char>, Seq<char>) {
    (h.key@, h.desc@)
}

/// The hints as views.
pub open spec fn hint_views(v: Seq<Hint>) -> Seq<(Seq<char>, Seq<char>)> {
    v.map_values(|h: Hint| hint_view(h))
}

/// The fixed hints of a chord begun with `chord`.
pub open spec fn fixed_hints(chord: char) -> Seq<(Seq<char>, Seq<char>)> {
    if chord == 'g' {
        seq![("g"@, "top of list"@), ("t"@, "next tab"@), ("T"@, "prev tab"@)]
    } else if chord == 'y' {
        seq![
            ("y"@, "yank (copy) file"@),
            ("p"@, "copy path to clipboard"@),
            ("n"@, "copy filename to clipboard"@),
            ("d"@, "copy dirname to clipboard"@),
        ]
    } else {
        seq![("d"@, "cut file"@)]
    }
}

/// The hint for a bookmark `key` at `path`.
pub open spec fn bookmark_hint(key: Seq<char>, path: Seq<char>, home: Option<Seq<char>>) -> (Seq<char>, Seq<char>) {
    (key, "→ "@ + short_path_spec(path, home))
}

/// The chord label.
pub open spec fn chord_label_spec(chord: char) -> Seq<char> {
    if chord == 'g' {
        "g — goto/tab"@
    } else if chord == 'y' {
        "y — yank/copy"@
    } else {
        "d — cut"@
    }
}

fn push_hint(v: &mut Vec<Hint>, key: &str, desc: &str)
    ensures
        hint_views(final(v)@) == hint_views(old(v)@).push((key@, desc@)),
{
    let ghost before = v@;
    v.push(Hint { key: owned(key), desc: owned(desc) });
    proof {
        assert(hint_views(v@) =~= hint_views(before).push((key@, desc@)));
    }
}

/// `r` holds one hint per bookmark in `bm`, in key order, each path shown
/// short against `home`.
pub open spec fn bookmark_hints_spec(r: Seq<Hint>, bm: Seq<(String, String)>, home: Option<Seq<char>>) -> bool {
    &&& r.len() == bm.len()
    &&& forall|i: int, j: int|
        #![trigger r[i], r[j]]
        0 <= i < j < r.len() ==> lex_le(r[i].key@, r[j].key@)
    &&& forall|i: int|
        #![trigger r[i]]
        0 <= i < r.len() ==> exists|j: int|
            0 <= j < bm.len() && hint_view(r[i]) == bookmark_hint(bm[j].0@, bm[j].1@, home)
    &&& forall|j: int|
        #![trigger bm[j]]
        0 <= j < bm.len() ==> exists|i: int|
            0 <= i < r.len() && hint_view(r[i]) == bookmark_hint(bm[j].0@, bm[j].1@, home)
}

/// One hint per bookmark in `bm`, in key order, each path shown short
/// against `home`.
fn bookmark_hints(bm: &Vec<(String, String)>, home: Option<&str>) -> (r: Vec<Hint>)
    ensures
        bookmark_hints_spec(
            r@,
            bm@,
            match home {
                Some(h) => Some(h@),
                None => None,
            },
        ),
{
    let ghost hv = match home {
        Some(h) => Some(h@),
        None => None,
    };
    let mut marks: Vec<Hint> = Vec::new();
    let mut i: usize = 0;
    while i < bm.len()
        invariant
            i <= bm@.len(),
            marks@.len() == i,
            hv == (match home {
                Some(h) => Some(h@),
                None => None,
            }),
            forall|k: int|
                #![trigger marks@[k]]
                0 <= k < i ==> hint_view(marks@[k]) == bookmark_hint(bm@[k].0@, bm@[k].1@, hv),
        decreases bm@.len() - i,
    {
        let mut d = owned("→ ");
        let sp = short_path(bm[i].1.as_str(), home);
        push_str(&mut d, sp.as_str());
        marks.push(Hint { key: bm[i].0.clone(), desc: d });
        i = i + 1;
    }
    let ghost unsorted = marks@;
    let sm = stable_sort(marks);
    proof {
        unsorted.to_multiset_ensures();
        sm@.to_multiset_ensures();
        assert forall|i: int|
            #![trigger sm@[i]]
            0 <= i < sm@.len() implies exists|j: int|
                0 <= j < bm@.len() && hint_view(sm@[i]) == bookmark_hint(bm@[j].0@, bm@[j].1@, hv) by {
            assert(sm@.contains(sm@[i]));
            assert(sm@.to_multiset().count(sm@[i]) > 0);
            assert(unsorted.contains(sm@[i]));
            let j = choose|j: int| 0 <= j < unsorted.len() && unsorted[j] == sm@[i];
            assert(hint_view(unsorted[j]) == bookmark_hint(bm@[j].0@, bm@[j].1@, hv));
        }
        assert forall|j: int|
            #![trigger bm@[j]]
            0 <= j < bm@.len() implies exists|i: int|
                0 <= i < sm@.len() && hint_view(sm@[i]) == bookmark_hint(bm@[j].0@, bm@[j].1@, hv) by {
            assert(unsorted.contains(unsorted[j]));
            assert(unsorted.to_multiset().count(unsorted[j]) > 0);
            assert(sm@.contains(unsorted[j]));
            let i = choose|i: int| 0 <= i < sm@.len() && sm@[i] == unsorted[j];
            assert(hint_view(unsorted[j]) == bookmark_hint(bm@[j].0@, bm@[j].1@, hv));
        }
        assert forall|i: int, j: int|
            #![trigger sm@[i], sm@[j]]
            0 <= i < j < sm@.len() implies lex_le(sm@[i].key@, sm@[j].key@) by {
            assert(sm@[i].sort_le(&sm@[j]));
        }
        assert(sm@.len() == unsorted.len()) by {
            assert(sm@.to_multiset().len() == unsorted.to_multiset().len());
        }
    }
    sm
}

/// The hints shown while a chord begun with `chord` waits, with its label:
/// for `g` the fixed ones then one per bookmark in key order (each path
/// shown short against `home`); for `y` and `d` the fixed ones; nothing for
/// another key.
pub fn chord_hints(app: &App, chord: char, home: Option<&str>) -> (r: Option<(&'static str, Vec<Hint>)>)
    requires
        app.wf(),
    ensures
        (chord != 'g' && chord != 'y' && chord != 'd') ==> r is None,
        (chord == 'g' || chord == 'y' || chord == 'd') ==> (r matches Some((label, v)) && label@
            == chord_label_spec(chord) && hint_views(v@).take(fixed_hints(chord).len() as int)
            == fixed_hints(chord)),
        (chord == 'y' || chord == 'd') ==> (r matches Some((_, v)) && hint_views(v@) == fixed_hints(
            chord,
        )),
        chord == 'g' ==> (r matches Some((_, v)) && v@.len() >= 3 && bookmark_hints_spec(
            v@.skip(3),
            app.config.bookmarks@,
            match home {
                Some(h) => Some(h@),
                None => None,
            },
        )),
{
    let mut v: Vec<Hint> = Vec::new();
    if chord == 'g' {
        push_hint(&mut v, "g", "top of list");
        push_hint(&mut v, "t", "next tab");
        push_hint(&mut v, "T", "prev tab");
        let marks = bookmark_hints(&app.config.bookmarks, home);
        let ghost head = v@;
        assert(hint_views(head).len() == 3);
        assert(head.len() == 3);
        let ghost sm = marks@;
        for h in it: marks
            invariant
                sm == it.seq(),
                v@ == head + sm.take(it.index() as int),
        {
            v.push(h);
            proof {
                assert(sm.take(it.index() + 1) =~= sm.take(it.index() as int).push(h));
            }
        }
        proof {
            assert(sm.take(sm.len() as int) =~= sm);
            assert(v@.skip(3) =~= sm);
            assert(hint_views(v@).take(3) =~= hint_views(head));
        }
        Some(("g — goto/tab", v))
    } else if chord == 'y' {
        push_hint(&mut v, "y", "yank (copy) file");
        push_hint(&mut v, "p", "copy path to clipboard");
        push_hint(&mut v, "n", "copy filename to clipboard");
        push_hint(&mut v, "d", "copy dirname to clipboard");
        proof {
            assert(hint_views(v@).take(4) =~= hint_views(v@));
        }
        Some(("y — yank/copy", v))
    } else if chord == 'd' {
        push_hint(&mut v, "d", "cut file");
        proof {
            assert(hint_views(v@).take(1) =~= hint_views(v@));
        }
        Some(("d — cut", v))
    } else {
        None
    }
}

/// The widest text among the hints' keys (`keys`) or descriptions.
pub open spec fn widest(v: Seq<Hint>, keys: bool) -> nat
    decreases v.len(),
{
    if v.len() == 0 {
        0
    } else {
        let w = if keys { v.last().key@.len() } else { v.last().desc@.len() };
        let r = widest(v.drop_last(), keys);
        if w > r { w } else { r }
    }
}

fn widest_exec(v: &Vec<Hint>, keys: bool) -> (r: usize)
    ensures
        r == widest(v@, keys),
{
    let mut best: usize = 0;
    let mut i: usize = 0;
    while i < v.len()
        invariant
            i <= v@.len(),
            best == widest(v@.take(i as int), keys),
        decreases v@.len() - i,
    {
        let w = if keys {
            chars_of(v[i].key.as_str()).len()
        } else {
            chars_of(v[i].desc.as_str()).len()
        };
        proof {
            assert(v@.take(i + 1).drop_last() =~= v@.take(i as int));
        }
        if w > best {
            best = w;
        }
        i = i + 1;
    }
    assert(v@.take(v@.len() as int) =~= v@);
    best
}

/// One hint line: the key right-aligned to `key_w`, then the description.
pub open spec fn hint_line_spec(h: Hint, key_w: nat) -> (Seq<char>, Seq<char>) {
    (" "@ + pad_left_spec(h.key@, key_w) + " "@, "  "@ + h.desc@)
}

/// The key and description texts of a hint line.
pub fn hint_line(h: &Hint, key_w: usize) -> (r: (String, String))
    ensures
        (r.0@, r.1@) == hint_line_spec(*h, key_w as nat),
{
    let mut k = owned(" ");
    let pk = pad_left(h.key.as_str(), key_w);
    push_str(&mut k, pk.as_str());
    push_str(&mut k, " ");
    let mut d = owned("  ");
    push_str(&mut d, h.desc.as_str());
    (k, d)
}

/// The hint box, at the bottom right: wide enough for the widest key and
/// description (at least 20 columns, at most 4 fewer than the screen), one
/// row per hint plus the frame (at most 4 fewer than the screen).
pub open spec fn hint_box_spec(area: Area, n: nat, key_w: nat, desc_w: nat) -> (int, int, int, int) {
    let (x, y, width, height) = area;
    let want = ((key_w + desc_w + 6) as u16) as int;
    let a = if want > 20 { want } else { 20 };
    let cap = if width >= 4 { width - 4 } else { 0 };
    let w = if a < cap { a } else { cap };
    let want_h = (n as u16) + 2;
    let cap_h = if height >= 4 { height - 4 } else { 0 };
    let h = if want_h < cap_h { want_h } else { cap_h };
    (
        x + (if width >= w + 2 { width - (w + 2) } else { 0 }),
        y + (if height >= h + 3 { height - (h + 3) } else { 0 }),
        w,
        h,
    )
}

/// Where the hint box for `hints` goes, and the width of its key column.
pub fn hint_box(area: Area, hints: &Vec<Hint>) -> (r: (Area, usize))
    requires
        (hints@.len() as u16) + 2 <= u16::MAX,
        area.0 + area.2 <= u16::MAX,
        area.1 + area.3 <= u16::MAX,
        widest(hints@, true) + widest(hints@, false) + 6 <= usize::MAX,
    ensures
        r.1 == widest(hints@, true),
        (r.0.0 as int, r.0.1 as int, r.0.2 as int, r.0.3 as int) == hint_box_spec(
            area,
            hints@.len(),
            widest(hints@, true),
            widest(hints@, false),
        ),
{
    let (x, y, width, height) = area;
    let key_w = widest_exec(hints, true);
    let desc_w = widest_exec(hints, false);
    let want = (key_w + desc_w + 6) as u16;
    let a = if want > 20 {
        want
    } else {
        20
    };
    let cap = if width >= 4 {
        width - 4
    } else {
        0
    };
    let w = if a < cap {
        a
    } else {
        cap
    };
    let want_h = (hints.len() as u16) + 2;
    let cap_h = if height >= 4 {
        height - 4
    } else {
        0
    };
    let h = if want_h < cap_h {
        want_h
    } else {
        cap_h
    };
    let bx = x + (if width >= w + 2 {
        width - (w + 2)
    } else {
        0
    });
    let by = y + (if height >= h + 3 {
        height - (h + 3)
    } else {
        0
    });
    ((bx, by, w, h), key_w)
}

// ---------------------------------------------------------------------------
// Input bar and body
// ---------------------------------------------------------------------------
/// The input bar while it is open: the prompt, a space, the text, and the
/// cursor mark.
pub open spec fn input_spec(a: App) -> Seq<(Tone, Seq<char>)> {
    if a.input.active {
        seq![
            (Tone::Active, a.input.prompt@),
            (Tone::Plain, " "@),
            (Tone::Plain, a.input.buffer@),
            (Tone::Accent, "▏"@),
        ]
    } else {
        Seq::empty()
    }
}

/// The input bar's texts (none while it is closed).
pub fn input_bar(app: &App) -> (r: Vec<(Tone, String)>)
    ensures
        toned(r@) == input_spec(*app),
{
    let mut v: Vec<(Tone, String)> = Vec::new();
    if app.input.active {
        push_toned(&mut v, Tone::Active, app.input.prompt.clone());
        push_toned(&mut v, Tone::Plain, owned(" "));
        push_toned(&mut v, Tone::Plain, app.input.buffer.clone());
        push_toned(&mut v, Tone::Accent, owned("▏"));
    }
    proof {
        assert(toned(v@) =~= input_spec(*app));
    }
    v
}

/// What the body shows.
#[derive(Debug, Clone, Copy, PartialEq, Eq, Structural)]
pub enum Body {
    /// Two panes, the tabs `left` and `right`, without a preview.
    Split { left: usize, right: usize },
    /// The active tab's pane and the preview.
    Preview,
    /// The active tab's pane alone.
    Single,
}

pub open spec fn body_spec(a: App) -> Body {
    match a.split {
        Some(s) => {
            let (l, r) = pane_order_spec(a.active, s);
            Body::Split { left: l, right: r }
        },
        None => if a.preview_visible {
            Body::Preview
        } else {
            Body::Single
        },
    }
}

/// What the body shows: the split when there is one, else the pane with
/// the preview when it is on.
pub fn body(app: &App) -> (r: Body)
    ensures
        r == body_spec(*app),
{
    match app.split {
        Some(s) => {
            let (l, r) = pane_order(app.active, s);
            Body::Split { left: l, right: r }
        },
        None => if app.preview_visible {
            Body::Preview
        } else {
            Body::Single
        },
    }
}

} // verus!
