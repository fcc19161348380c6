//! What a key press does: the keys of normal mode (with two-key chords),
//! visual mode, the input bar and the dialogs, as changes to the
//! application state and, where outside work is needed (reading a
//! directory, launching a program, touching files), an `Action` for the
//! caller to carry out. The outcome of that work comes back through the
//! `finish_*` functions.

use vstd::prelude::*;
use crate::app::{
    App, Confirm, FileOp, HelpVisible, OpMode, PasteDialog, all_selected, cur, focus_swapped, logged, logs,
    paths_of, selection_cleared, selection_grown, selection_toggled, tab_back, tab_closed,
    tab_forward,
};
use crate::folder::FileEntry;
use crate::git::GitStatus;
use crate::app::ConfirmKind;
use crate::keybind::ordered;
use crate::shell::views;
use crate::archive::{default_name, default_name_spec};
use crate::config::{table_get, table_view};
use crate::folder::{
    bottom_step, down_step, filter_cleared, filter_set, hidden_toggled, jumped, page_down_step,
    page_up_step, top_step, up_step,
};
use crate::input::{
    Input, InputAction, backspaced, closed, create_spec, deleted, moved_left, moved_right,
    parse_create, stem_end, typed,
};
use crate::paths::{join, path_join};
use crate::shell::{expand, expand_from, parse, parse_spec};
use crate::text::{char_lower_head, chars_of, string_of, trim, trim_spec};
use crate::keybind::{KeybindState, Mode};
use crate::opener::{base_name, is_terminal_app, opener_for, opener_spec, terminal_app_spec};
use crate::ops::{
    confirm_no, confirm_yes, declined, cut_targets, delete_asked, delete_targets_permanent, open_paste_dialog, paste_opened,
    send_to_other_pane, sent_to_other, stashed, trash_asked, trash_targets, yank_targets,
};
use crate::shell::ShellCmd;
use crate::text::{dec, owned, push_char, push_dec, push_str};

verus! {

/// The key pressed.
#[derive(Debug, Clone, Copy, PartialEq, Eq, Structural)]
pub enum KeyCode {
    Char(char),
    Esc,
    Enter,
    Backspace,
    Delete,
    Left,
    Right,
    Up,
    Down,
    Home,
    End,
    PageUp,
    PageDown,
    Tab,
    /// Any other key.
    Other,
}

/// The modifiers held: none, exactly Control, or any other combination.
#[derive(Debug, Clone, Copy, PartialEq, Eq, Structural)]
pub enum Mods {
    Empty,
    Control,
    Other,
}

#[derive(Debug, Clone, Copy, PartialEq, Eq, Structural)]
pub struct Key {
    pub code: KeyCode,
    pub mods: Mods,
}

/// What a key means in normal mode.
#[derive(Debug, Clone, Copy, PartialEq, Eq, Structural)]
pub enum Cmd {
    // Second keys of chords.
    /// `gg`
    Top,
    /// `gt`
    NextTab,
    /// `gT`
    PrevTab,
    /// `yy`
    Yank,
    /// `yp`
    CopyPath,
    /// `yn`
    CopyName,
    /// `yd`
    CopyDir,
    /// `dd`
    Cut,
    /// `g` and a bookmark's key
    Bookmark(char),
    // Single keys.
    Quit,
    /// Go to the parent directory (`h`, `H`, Left); the selection stays.
    Parent,
    /// Clear the selection, or go to the parent directory when nothing is
    /// selected (Esc).
    Leave,
    Down,
    Up,
    /// Enter the hovered directory, or open the hovered file.
    Open,
    PageDown,
    PageUp,
    /// The first key of a chord.
    StartChord(char),
    Bottom,
    Paste,
    Trash,
    DeleteForever,
    Rename,
    /// Rename with the cursor before the extension.
    RenameStem,
    Create,
    Search,
    Jump,
    Teleport,
    Archive,
    ShellPrompt,
    SendToOther,
    ToggleHidden,
    Reload,
    Visual,
    ToggleSelect,
    SelectAll,
    ClearSelection,
    NewTab,
    CloseTab,
    Split,
    SwapFocus,
    TogglePreview,
    Edit,
    OpenShell,
    Help,
    Nothing,
}

/// What a single key means in normal mode.
pub open spec fn single_cmd(key: Key) -> Cmd {
    let m = key.mods;
    match key.code {
        KeyCode::Char(c) => {
            if c == 'q' {
                Cmd::Quit
            } else if c == 'h' || c == 'H' {
                Cmd::Parent
            } else if c == 'j' {
                Cmd::Down
            } else if c == 'k' {
                Cmd::Up
            } else if c == 'l' {
                Cmd::Open
            } else if c == 'd' && m == Mods::Control {
                Cmd::PageDown
            } else if c == 'u' && m == Mods::Control {
                Cmd::PageUp
            } else if (c == 'g' || c == 'y' || c == 'd') && m == Mods::Empty {
                Cmd::StartChord(c)
            } else if c == 'G' {
                Cmd::Bottom
            } else if c == 'p' {
                Cmd::Paste
            } else if c == 'x' {
                Cmd::Trash
            } else if c == 'D' {
                Cmd::DeleteForever
            } else if c == 'r' {
                Cmd::Rename
            } else if c == 'A' {
                Cmd::RenameStem
            } else if c == 'a' && m == Mods::Empty {
                Cmd::Create
            } else if c == '/' {
                Cmd::Search
            } else if c == 'f' {
                Cmd::Jump
            } else if c == 'T' {
                Cmd::Teleport
            } else if c == 'z' {
                Cmd::Archive
            } else if c == '!' {
                Cmd::ShellPrompt
            } else if c == '>' {
                Cmd::SendToOther
            } else if c == '.' {
                Cmd::ToggleHidden
            } else if c == 'R' {
                Cmd::Reload
            } else if c == 'v' || c == 'V' {
                Cmd::Visual
            } else if c == 's' {
                Cmd::ToggleSelect
            } else if c == 'a' && m == Mods::Control {
                Cmd::SelectAll
            } else if c == 'c' && m == Mods::Control {
                Cmd::ClearSelection
            } else if c == 't' {
                Cmd::NewTab
            } else if c == 'w' && m == Mods::Control {
                Cmd::CloseTab
            } else if c == '|' {
                Cmd::Split
            } else if c == 'P' {
                Cmd::TogglePreview
            } else if c == ' ' {
                Cmd::Edit
            } else if c == 'S' {
                Cmd::OpenShell
            } else if c == '?' {
                Cmd::Help
            } else {
                Cmd::Nothing
            }
        },
        KeyCode::Left => Cmd::Parent,
        KeyCode::Esc => Cmd::Leave,
        KeyCode::Down => Cmd::Down,
        KeyCode::Up => Cmd::Up,
        KeyCode::Right | KeyCode::Enter => Cmd::Open,
        KeyCode::PageDown => Cmd::PageDown,
        KeyCode::PageUp => Cmd::PageUp,
        KeyCode::Tab => Cmd::SwapFocus,
        _ => Cmd::Nothing,
    }
}

/// The meaning of `key` as the second key of a chord begun with `first`,
/// when it completes one; `bookmarked` tells whether a key has a bookmark.
pub open spec fn chord_cmd(first: char, key: Key, bookmarked: spec_fn(char) -> bool) -> Option<Cmd> {
    match key.code {
        KeyCode::Char(c) => {
            if first == 'g' && c == 'g' {
                Some(Cmd::Top)
            } else if first == 'g' && c == 't' {
                Some(Cmd::NextTab)
            } else if first == 'g' && c == 'T' {
                Some(Cmd::PrevTab)
            } else if first == 'y' && c == 'y' {
                Some(Cmd::Yank)
            } else if first == 'y' && c == 'p' {
                Some(Cmd::CopyPath)
            } else if first == 'y' && c == 'n' {
                Some(Cmd::CopyName)
            } else if first == 'y' && c == 'd' {
                Some(Cmd::CopyDir)
            } else if first == 'd' && c == 'd' {
                Some(Cmd::Cut)
            } else if first == 'g' && bookmarked(c) {
                Some(Cmd::Bookmark(c))
            } else {
                None
            }
        },
        _ => None,
    }
}

/// What `key` means in normal mode with `pending` the chord key still
/// waiting: a completed chord, else the key on its own.
pub open spec fn normal_cmd(pending: Option<char>, key: Key, bookmarked: spec_fn(char) -> bool) -> Cmd {
    match pending {
        Some(first) => match chord_cmd(first, key, bookmarked) {
            Some(c) => c,
            None => single_cmd(key),
        },
        None => single_cmd(key),
    }
}

/// The meaning of a single key in normal mode.
pub fn single_command(key: Key) -> (r: Cmd)
    ensures
        r == single_cmd(key),
{
    let m = key.mods;
    match key.code {
        KeyCode::Char(c) => {
            if c == 'q' {
                Cmd::Quit
            } else if c == 'h' || c == 'H' {
                Cmd::Parent
            } else if c == 'j' {
                Cmd::Down
            } else if c == 'k' {
                Cmd::Up
            } else if c == 'l' {
                Cmd::Open
            } else if c == 'd' && m == Mods::Control {
                Cmd::PageDown
            } else if c == 'u' && m == Mods::Control {
                Cmd::PageUp
            } else if (c == 'g' || c == 'y' || c == 'd') && m == Mods::Empty {
                Cmd::StartChord(c)
            } else if c == 'G' {
                Cmd::Bottom
            } else if c == 'p' {
                Cmd::Paste
            } else if c == 'x' {
                Cmd::Trash
            } else if c == 'D' {
                Cmd::DeleteForever
            } else if c == 'r' {
                Cmd::Rename
            } else if c == 'A' {
                Cmd::RenameStem
            } else if c == 'a' && m == Mods::Empty {
                Cmd::Create
            } else if c == '/' {
                Cmd::Search
            } else if c == 'f' {
                Cmd::Jump
            } else if c == 'T' {
                Cmd::Teleport
            } else if c == 'z' {
                Cmd::Archive
            } else if c == '!' {
                Cmd::ShellPrompt
            } else if c == '>' {
                Cmd::SendToOther
            } else if c == '.' {
                Cmd::ToggleHidden
            } else if c == 'R' {
                Cmd::Reload
            } else if c == 'v' || c == 'V' {
                Cmd::Visual
            } else if c == 's' {
                Cmd::ToggleSelect
            } else if c == 'a' && m == Mods::Control {
                Cmd::SelectAll
            } else if c == 'c' && m == Mods::Control {
                Cmd::ClearSelection
            } else if c == 't' {
                Cmd::NewTab
            } else if c == 'w' && m == Mods::Control {
                Cmd::CloseTab
            } else if c == '|' {
                Cmd::Split
            } else if c == 'P' {
                Cmd::TogglePreview
            } else if c == ' ' {
                Cmd::Edit
            } else if c == 'S' {
                Cmd::OpenShell
            } else if c == '?' {
                Cmd::Help
            } else {
                Cmd::Nothing
            }
        },
        KeyCode::Left => Cmd::Parent,
        KeyCode::Esc => Cmd::Leave,
        KeyCode::Down => Cmd::Down,
        KeyCode::Up => Cmd::Up,
        KeyCode::Right | KeyCode::Enter => Cmd::Open,
        KeyCode::PageDown => Cmd::PageDown,
        KeyCode::PageUp => Cmd::PageUp,
        KeyCode::Tab => Cmd::SwapFocus,
        _ => Cmd::Nothing,
    }
}

/// Outside work that a key asks for. The caller carries it out and reports
/// the outcome through the matching `finish_*` function, where there is one.
pub enum Action {
    /// Nothing to do outside.
    Stay,
    /// Leave the program.
    Quit,
    /// Read the parent of the active tab's directory and move there
    /// (`Folder::parent`).
    Parent,
    /// Read `dir` and move the active tab into it (`Folder::enter_dir`).
    Enter { dir: String },
    /// Launch `cmd` on `path`; `in_terminal` when the program takes over the
    /// terminal.
    Open { path: String, cmd: String, in_terminal: bool },
    /// Move the active tab to the bookmark `key` at `target`, if it exists.
    Bookmark { key: char, target: String },
    /// Put `text` on the system clipboard.
    Clipboard { text: String },
    /// Trash `targets` now (no question asked).
    Trash { targets: Vec<String> },
    /// Read the active tab's directory again.
    Reload,
    /// Open `path` in a new tab.
    NewTab { path: String },
    /// Open `path` in a new tab shown beside the active one.
    Split { path: String },
    /// Edit `path` with `editor`, from `cwd`.
    Edit { editor: String, path: String, cwd: String },
    /// Start an interactive shell in `cwd`.
    OpenShell { cwd: String },
    /// Paste the clipboard's files as `mode` (into `dest`, else the active
    /// tab's directory).
    Paste { mode: OpMode, dest: Option<String> },
    /// Carry out the question that was answered yes.
    Confirmed { confirm: Confirm },
    /// Rename `from` (the hovered entry, if any) to `to`.
    Rename { from: Option<String>, to: String, old_name: String, new_name: String },
    /// Create the file or directory `name` at `path`.
    Create { is_dir: bool, path: String, name: String },
    /// Measure `targets`, then ask before archiving them as `name` in `cwd`
    /// (`ask_archive`).
    EstimateArchive { name: String, cwd: String, targets: Vec<String> },
    /// Run the expanded shell command from `cwd`.
    Shell { command: ShellCmd, cwd: String },
    /// Move the active tab to the typed path (`teleport_path` expands it).
    Teleport { path: String },
}

/// The targets a trash key hands back to be trashed at once.
pub open spec fn trash_now(act: Action) -> Option<Vec<String>> {
    match act {
        Action::Trash { targets } => Some(targets),
        _ => None,
    }
}

/// `b` is `a` with only the active tab changed.
pub open spec fn tab_now(a: App, b: App) -> bool {
    b == (App { tabs: b.tabs, ..a }) && b.tabs@ == a.tabs@.update(a.active as int, cur(b))
}

/// `b` is `a` with the input bar opened for `action`, showing `prompt`,
/// holding `text`, the cursor at `cursor`.
pub open spec fn bar_opened(a: App, b: App, action: InputAction, prompt: Seq<char>, text: Seq<char>, cursor: int) -> bool {
    &&& b == (App { input: b.input, ..a })
    &&& b.input.active
    &&& b.input.action == action
    &&& b.input.prompt@ == prompt
    &&& b.input.buffer@ == text
    &&& b.input.cursor == cursor
}

/// Whether a key has a bookmark.
pub open spec fn bookmarked(a: App) -> spec_fn(char) -> bool {
    |c: char| table_view(a.config.bookmarks@).contains_key(seq![c])
}

/// What opening the hovered entry of `f` asks for: entering a directory,
/// launching the configured opener on a file, or nothing.
pub open spec fn open_action(f: crate::folder::Folder, openers: Map<Seq<char>, Seq<char>>, act: Action) -> bool {
    match f.hovered_spec() {
        Some(e) => if e.is_dir {
            act matches Action::Enter { dir } && dir@ == e.path@
        } else {
            act matches Action::Open { path, cmd, in_terminal } && path@ == e.path@ && cmd@
                == opener_spec(e.path@, openers) && in_terminal == terminal_app_spec(
                base_name(cmd@),
            )
        },
        None => act is Stay,
    }
}

/// What a normal-mode command makes of the state `a` and asks for.
pub open spec fn normal_effect(a: App, b: App, cmd: Cmd, act: Action) -> bool {
    match cmd {
        Cmd::Top => act is Stay && tab_now(a, b) && top_step(cur(a), cur(b)),
        Cmd::NextTab => act is Stay && tab_forward(a, b),
        Cmd::PrevTab => act is Stay && tab_back(a, b),
        Cmd::Yank => act is Stay && stashed(a, b, OpMode::Copy, "yanked "@),
        Cmd::CopyPath => b == a && match cur(a).hovered_spec() {
            Some(e) => act matches Action::Clipboard { text } && text@ == e.path@,
            None => act is Stay,
        },
        Cmd::CopyName => b == a && match cur(a).hovered_spec() {
            Some(e) => act matches Action::Clipboard { text } && text@ == e.name@,
            None => act is Stay,
        },
        Cmd::CopyDir => b == a && (act matches Action::Clipboard { text } && text@ == cur(a).path@),
        Cmd::Cut => act is Stay && stashed(a, b, OpMode::Cut, "cut "@),
        Cmd::Bookmark(c) => b == a && (act matches Action::Bookmark { key, target } && key == c
            && target@ == table_view(a.config.bookmarks@)[seq![c]]),
        Cmd::Quit => b == a && act is Quit,
        Cmd::Parent => b == a && act is Parent,
        Cmd::Leave => if a.selected@.len() > 0 {
            act is Stay && selection_cleared(a, b)
        } else {
            b == a && act is Parent
        },
        Cmd::Down => act is Stay && tab_now(a, b) && down_step(cur(a), cur(b), 40),
        Cmd::Up => act is Stay && tab_now(a, b) && up_step(cur(a), cur(b)),
        Cmd::Open => b == a && open_action(cur(a), table_view(a.config.openers@), act),
        Cmd::PageDown => act is Stay && tab_now(a, b) && page_down_step(cur(a), cur(b), 40),
        Cmd::PageUp => act is Stay && tab_now(a, b) && page_up_step(cur(a), cur(b), 40),
        Cmd::StartChord(c) => act is Stay && b == (App { keybind: b.keybind, ..a }) && b.keybind
            == (KeybindState { pending_key: b.keybind.pending_key, ..a.keybind }) && (
        b.keybind.pending_key matches Some((k, _)) && k == c),
        Cmd::Bottom => act is Stay && tab_now(a, b) && bottom_step(cur(a), cur(b)),
        Cmd::Paste => act is Stay && paste_opened(a, b),
        Cmd::Trash => (act is Stay || act is Trash) && trash_asked(a, b, trash_now(act)),
        Cmd::DeleteForever => act is Stay && delete_asked(a, b),
        Cmd::Rename => act is Stay && match cur(a).hovered_spec() {
            Some(e) => bar_opened(a, b, InputAction::Rename, "rename: "@, e.name@, e.name@.len() as int),
            None => b == a,
        },
        Cmd::RenameStem => act is Stay && match cur(a).hovered_spec() {
            Some(e) => bar_opened(a, b, InputAction::Rename, "rename: "@, e.name@, stem_end(e.name@)),
            None => b == a,
        },
        Cmd::Create => act is Stay && bar_opened(
            a,
            b,
            InputAction::Create,
            "new (f=name / d=name): "@,
            Seq::empty(),
            0,
        ),
        Cmd::Search => act is Stay && bar_opened(a, b, InputAction::Search, "search: "@, Seq::empty(), 0),
        Cmd::Jump => act is Stay && bar_opened(a, b, InputAction::JumpToChar, "jump to: "@, Seq::empty(), 0),
        Cmd::Teleport => act is Stay && bar_opened(
            a,
            b,
            InputAction::Teleport,
            "teleport: "@,
            Seq::empty(),
            0,
        ),
        Cmd::Archive => act is Stay && if a.target_views().len() == 0 {
            logs(a, b, "nothing to archive"@)
        } else {
            bar_opened(
                a,
                b,
                InputAction::Archive,
                "archive: "@,
                default_name_spec(a.target_views()),
                default_name_spec(a.target_views()).len() as int,
            )
        },
        Cmd::ShellPrompt => act is Stay && bar_opened(
            a,
            b,
            InputAction::Shell,
            "$ (use $f $@ $d ; trailing & = bg): "@,
            Seq::empty(),
            0,
        ),
        Cmd::SendToOther => act is Stay && sent_to_other(a, b),
        Cmd::ToggleHidden => act is Stay && exists|m: App|
            #![trigger tab_now(a, m)]
            tab_now(a, m) && hidden_toggled(cur(a), cur(m)) && logs(
                m,
                b,
                if cur(m).show_hidden {
                    "hidden: on"@
                } else {
                    "hidden: off"@
                },
            ),
        Cmd::Reload => act is Reload && logs(a, b, "reloaded"@),
        Cmd::Visual => act is Stay && b == (App {
            keybind: KeybindState {
                mode: Mode::Visual,
                visual_start: Some(cur(a).cursor),
                visual_end: Some(cur(a).cursor),
                ..a.keybind
            },
            ..a
        }),
        Cmd::ToggleSelect => act is Stay && exists|m: App|
            #![trigger tab_now(m, b)]
            (match cur(a).hovered_spec() {
                Some(e) => selection_toggled(a, m, e.path@),
                None => m == a,
            }) && tab_now(m, b) && down_step(cur(m), cur(b), 40),
        Cmd::SelectAll => act is Stay && exists|m: App|
            #![trigger all_selected(a, m)]
            all_selected(a, m) && logs(m, b, "selected "@ + dec(m.selected@.len()) + " item(s)"@),
        Cmd::ClearSelection => act is Stay && exists|m: App|
            #![trigger selection_cleared(a, m)]
            selection_cleared(a, m) && logs(m, b, "cleared selection"@),
        Cmd::NewTab => b == a && (act matches Action::NewTab { path } && path@ == cur(a).path@),
        Cmd::CloseTab => act is Stay && tab_closed(a, b),
        Cmd::Split => match a.split {
            Some(_) => act is Stay && b == (App { split: None, ..a }),
            None => b == a && (act matches Action::Split { path } && path@ == cur(a).path@),
        },
        Cmd::SwapFocus => act is Stay && focus_swapped(a, b),
        Cmd::TogglePreview => act is Stay && b == (App { preview_visible: !a.preview_visible, ..a }),
        Cmd::Edit => b == a && match cur(a).hovered_spec() {
            Some(e) => act matches Action::Edit { editor, path, cwd } && editor@ == a.config.editor@
                && path@ == e.path@ && cwd@ == cur(a).path@,
            None => act is Stay,
        },
        Cmd::OpenShell => b == a && (act matches Action::OpenShell { cwd } && cwd@ == cur(a).path@),
        Cmd::Help => act is Stay && b == (App { help: HelpVisible::Shown, ..a }),
        Cmd::Nothing => act is Stay && b == a,
    }
}

/// `c` as a one-character string.
fn char_string(c: char) -> (r: String)
    ensures
        r@ == seq![c],
{
    let mut s = String::new();
    push_char(&mut s, c);
    s
}

/// Moves the active tab's cursor for a motion command.
fn run_motion(app: &mut App, cmd: Cmd)
    requires
        old(app).wf(),
        cmd is Top || cmd is Down || cmd is Up || cmd is PageDown || cmd is PageUp || cmd is Bottom,
    ensures
        final(app).wf(),
        normal_effect(*old(app), *final(app), cmd, Action::Stay),
{
    match cmd {
        Cmd::Top => app.current_mut().cursor_top(),
        Cmd::Down => app.current_mut().cursor_down(40),
        Cmd::Up => app.current_mut().cursor_up(),
        Cmd::PageDown => app.current_mut().page_down(40),
        Cmd::PageUp => app.current_mut().page_up(40),
        _ => app.current_mut().cursor_bottom(),
    }
    proof {
        assert(app.tabs@[app.active as int] == cur(*app));
        assert forall|i: int| 0 <= i < app.tabs@.len() implies (#[trigger] app.tabs@[i]).wf() by {
            if i != app.active {
                assert(app.tabs@[i] == old(app).tabs@[i]);
            }
        }
    }
}

/// Opens the input bar for `action` with an empty text.
fn prompt(app: &mut App, action: InputAction, text: &str)
    ensures
        bar_opened(*old(app), *final(app), action, text@, Seq::empty(), 0),
        old(app).wf() ==> final(app).wf(),
{
    app.input.open(action, owned(text), String::new());
}

/// Carries out a normal-mode command.
pub fn run_normal(app: &mut App, cmd: Cmd) -> (act: Action)
    requires
        old(app).wf(),
        cmd matches Cmd::Bookmark(c) ==> bookmarked(*old(app))(c),
    ensures
        final(app).wf(),
        normal_effect(*old(app), *final(app), cmd, act),
{
    match cmd {
        Cmd::Top | Cmd::Down | Cmd::Up | Cmd::PageDown | Cmd::PageUp | Cmd::Bottom => {
            run_motion(app, cmd);
            Action::Stay
        },
        Cmd::NextTab => {
            app.next_tab();
            Action::Stay
        },
        Cmd::PrevTab => {
            app.prev_tab();
            Action::Stay
        },
        Cmd::Yank => {
            yank_targets(app);
            Action::Stay
        },
        Cmd::Cut => {
            cut_targets(app);
            Action::Stay
        },
        Cmd::CopyPath => match app.current().hovered() {
            Some(e) => Action::Clipboard { text: e.path.clone() },
            None => Action::Stay,
        },
        Cmd::CopyName => match app.current().hovered() {
            Some(e) => Action::Clipboard { text: e.name.clone() },
            None => Action::Stay,
        },
        Cmd::CopyDir => Action::Clipboard { text: app.current().path.clone() },
        Cmd::Bookmark(c) => {
            let k = char_string(c);
            match table_get(&app.config.bookmarks, k.as_str()) {
                Some(target) => Action::Bookmark { key: c, target },
                None => Action::Stay,
            }
        },
        Cmd::Quit => Action::Quit,
        Cmd::Parent => Action::Parent,
        Cmd::Leave => {
            if app.selected.len() > 0 {
                app.clear_selected();
                Action::Stay
            } else {
                Action::Parent
            }
        },
        Cmd::Open => {
            let f = app.current();
            match f.hovered() {
                Some(e) => {
                    if e.is_dir {
                        Action::Enter { dir: e.path.clone() }
                    } else {
                        let cmd = opener_for(e.path.as_str(), &app.config);
                        let in_terminal = is_terminal_app(cmd.as_str());
                        Action::Open { path: e.path.clone(), cmd, in_terminal }
                    }
                },
                None => Action::Stay,
            }
        },
        Cmd::StartChord(c) => {
            app.keybind.set_pending(c);
            Action::Stay
        },
        Cmd::Paste => {
            open_paste_dialog(app);
            Action::Stay
        },
        Cmd::Trash => match trash_targets(app) {
            Some(targets) => Action::Trash { targets },
            None => Action::Stay,
        },
        Cmd::DeleteForever => {
            delete_targets_permanent(app);
            Action::Stay
        },
        Cmd::Rename | Cmd::RenameStem => {
            let name = match app.current().hovered() {
                Some(e) => e.name.clone(),
                None => {
                    return Action::Stay;
                },
            };
            if let Cmd::Rename = cmd {
                app.input.open(InputAction::Rename, owned("rename: "), name);
            } else {
                app.input.open_before_ext(InputAction::Rename, owned("rename: "), name);
            }
            Action::Stay
        },
        Cmd::Create => {
            prompt(app, InputAction::Create, "new (f=name / d=name): ");
            Action::Stay
        },
        Cmd::Search => {
            prompt(app, InputAction::Search, "search: ");
            Action::Stay
        },
        Cmd::Jump => {
            prompt(app, InputAction::JumpToChar, "jump to: ");
            Action::Stay
        },
        Cmd::Teleport => {
            prompt(app, InputAction::Teleport, "teleport: ");
            Action::Stay
        },
        Cmd::Archive => {
            let targets = app.targets();
            if targets.len() == 0 {
                app.message(owned("nothing to archive"));
            } else {
                let name = default_name(targets.as_slice());
                app.input.open(InputAction::Archive, owned("archive: "), name);
            }
            Action::Stay
        },
        Cmd::ShellPrompt => {
            prompt(app, InputAction::Shell, "$ (use $f $@ $d ; trailing & = bg): ");
            Action::Stay
        },
        Cmd::SendToOther => {
            send_to_other_pane(app);
            Action::Stay
        },
        Cmd::ToggleHidden => {
            let ghost a = *app;
            app.current_mut().toggle_hidden();
            proof {
                lemma_tabs_wf_after(a, *app);
            }
            let ghost m = *app;
            let on = app.current().show_hidden;
            app.message(owned(if on { "hidden: on" } else { "hidden: off" }));
            proof {
                assert(tab_now(a, m));
            }
            Action::Stay
        },
        Cmd::Reload => {
            app.message(owned("reloaded"));
            Action::Reload
        },
        Cmd::Visual => {
            let c = app.current().cursor;
            app.keybind.enter_visual(c);
            Action::Stay
        },
        Cmd::ToggleSelect => {
            let ghost a = *app;
            match app.current().hovered() {
                Some(e) => {
                    let p = e.path.clone();
                    app.toggle_selected(p);
                },
                None => {},
            }
            let ghost m = *app;
            app.current_mut().cursor_down(40);
            proof {
                lemma_tabs_wf_after(m, *app);
                assert(tab_now(m, *app));
            }
            Action::Stay
        },
        Cmd::SelectAll => {
            app.select_all();
            let ghost m = *app;
            let n = app.selected.len();
            let mut msg = owned("selected ");
            push_dec(&mut msg, n as u64);
            push_str(&mut msg, " item(s)");
            app.message(msg);
            proof {
                assert(all_selected(*old(app), m));
            }
            Action::Stay
        },
        Cmd::ClearSelection => {
            app.clear_selected();
            let ghost m = *app;
            app.message(owned("cleared selection"));
            proof {
                assert(selection_cleared(*old(app), m));
            }
            Action::Stay
        },
        Cmd::NewTab => Action::NewTab { path: app.current().path.clone() },
        Cmd::CloseTab => {
            app.close_tab();
            Action::Stay
        },
        Cmd::Split => {
            if app.split.is_some() {
                app.split = None;
                Action::Stay
            } else {
                Action::Split { path: app.current().path.clone() }
            }
        },
        Cmd::SwapFocus => {
            app.swap_split_focus();
            Action::Stay
        },
        Cmd::TogglePreview => {
            app.preview_visible = !app.preview_visible;
            Action::Stay
        },
        Cmd::Edit => match app.current().hovered() {
            Some(e) => Action::Edit {
                editor: app.config.editor.clone(),
                path: e.path.clone(),
                cwd: app.current().path.clone(),
            },
            None => Action::Stay,
        },
        Cmd::OpenShell => Action::OpenShell { cwd: app.current().path.clone() },
        Cmd::Help => {
            app.help = HelpVisible::Shown;
            Action::Stay
        },
        Cmd::Nothing => Action::Stay,
    }
}

/// After the active tab changed alone, with its cursor still on an entry,
/// every tab is well formed.
proof fn lemma_tabs_wf_after(a: App, b: App)
    requires
        a.wf(),
        tab_now(a, b),
        cur(b).wf(),
    ensures
        b.wf(),
{
    assert forall|i: int| 0 <= i < b.tabs@.len() implies (#[trigger] b.tabs@[i]).wf() by {
        if i != a.active {
            assert(b.tabs@[i] == a.tabs@[i]);
        }
    }
}

/// `a` with the pending chord key dropped, when one was taken (`pending`).
pub open spec fn unpend(a: App, pending: Option<char>) -> App {
    match pending {
        Some(_) => App { keybind: KeybindState { pending_key: None, ..a.keybind }, ..a },
        None => a,
    }
}

/// The chord key waiting, whether or not it has expired.
pub open spec fn waiting(k: KeybindState) -> Option<char> {
    match k.pending_key {
        Some((c, _)) => Some(c),
        None => None,
    }
}

/// The chord that `key` completes after `first`, if any.
fn chord_command(app: &App, first: char, key: Key) -> (r: Option<Cmd>)
    ensures
        r == chord_cmd(first, key, bookmarked(*app)),
{
    match key.code {
        KeyCode::Char(c) => {
            if first == 'g' && c == 'g' {
                Some(Cmd::Top)
            } else if first == 'g' && c == 't' {
                Some(Cmd::NextTab)
            } else if first == 'g' && c == 'T' {
                Some(Cmd::PrevTab)
            } else if first == 'y' && c == 'y' {
                Some(Cmd::Yank)
            } else if first == 'y' && c == 'p' {
                Some(Cmd::CopyPath)
            } else if first == 'y' && c == 'n' {
                Some(Cmd::CopyName)
            } else if first == 'y' && c == 'd' {
                Some(Cmd::CopyDir)
            } else if first == 'd' && c == 'd' {
                Some(Cmd::Cut)
            } else if first == 'g' {
                let k = char_string(c);
                if table_get(&app.config.bookmarks, k.as_str()).is_some() {
                    Some(Cmd::Bookmark(c))
                } else {
                    None
                }
            } else {
                None
            }
        },
        _ => None,
    }
}

/// Handles a normal-mode key, with `pending` the chord key still waiting
/// (`None` when there is none or it has expired): a chord key is dropped
/// once the next key comes, whether or not they make a chord.
pub fn normal_key(app: &mut App, key: Key, pending: Option<char>) -> (act: Action)
    requires
        old(app).wf(),
    ensures
        final(app).wf(),
        normal_effect(
            unpend(*old(app), pending),
            *final(app),
            normal_cmd(pending, key, bookmarked(*old(app))),
            act,
        ),
{
    let cmd = match pending {
        Some(first) => {
            app.keybind.clear_pending();
            match chord_command(app, first, key) {
                Some(c) => c,
                None => single_command(key),
            }
        },
        None => single_command(key),
    };
    run_normal(app, cmd)
}

/// Handles a key in normal mode. A chord key waits at most a second: that
/// is up to the clock, so the key is taken as completing the chord begun
/// with the waiting key, or, once it has expired, as a key on its own.
pub fn handle_normal(app: &mut App, key: Key) -> (act: Action)
    requires
        old(app).wf(),
    ensures
        final(app).wf(),
        exists|p: Option<char>|
            #![trigger unpend(*old(app), p)]
            (p is None || p == waiting(old(app).keybind)) && normal_effect(
                unpend(*old(app), p),
                *final(app),
                normal_cmd(p, key, bookmarked(*old(app))),
                act,
            ),
{
    let p = app.keybind.get_pending();
    let act = normal_key(app, key, p);
    proof {
        assert(unpend(*old(app), p) == unpend(*old(app), p));
    }
    act
}

/// What a key means in visual mode.
#[derive(Debug, Clone, Copy, PartialEq, Eq, Structural)]
pub enum VisualCmd {
    Exit,
    Down,
    Up,
    PageDown,
    PageUp,
    Bottom,
    Top,
    /// Add the range to the selection.
    Select,
    /// Yank the range.
    Yank,
    /// Cut the range.
    Cut,
    /// Add the range to the selection and trash the selection.
    Trash,
    /// Add the range to the selection and delete the selection for good.
    DeleteForever,
    Quit,
    Nothing,
}

/// What a key means in visual mode.
pub open spec fn visual_cmd(key: Key) -> VisualCmd {
    match key.code {
        KeyCode::Esc => VisualCmd::Exit,
        KeyCode::Down => VisualCmd::Down,
        KeyCode::Up => VisualCmd::Up,
        KeyCode::PageDown => VisualCmd::PageDown,
        KeyCode::PageUp => VisualCmd::PageUp,
        KeyCode::Char(c) => {
            if c == 'v' || c == 'V' {
                VisualCmd::Exit
            } else if c == 'j' {
                VisualCmd::Down
            } else if c == 'k' {
                VisualCmd::Up
            } else if c == 'G' {
                VisualCmd::Bottom
            } else if c == 'g' {
                VisualCmd::Top
            } else if c == 's' {
                VisualCmd::Select
            } else if c == 'y' {
                VisualCmd::Yank
            } else if c == 'd' {
                VisualCmd::Cut
            } else if c == 'x' {
                VisualCmd::Trash
            } else if c == 'D' {
                VisualCmd::DeleteForever
            } else if c == 'q' {
                VisualCmd::Quit
            } else {
                VisualCmd::Nothing
            }
        },
        _ => VisualCmd::Nothing,
    }
}

pub fn visual_command(key: Key) -> (r: VisualCmd)
    ensures
        r == visual_cmd(key),
{
    match key.code {
        KeyCode::Esc => VisualCmd::Exit,
        KeyCode::Down => VisualCmd::Down,
        KeyCode::Up => VisualCmd::Up,
        KeyCode::PageDown => VisualCmd::PageDown,
        KeyCode::PageUp => VisualCmd::PageUp,
        KeyCode::Char(c) => {
            if c == 'v' || c == 'V' {
                VisualCmd::Exit
            } else if c == 'j' {
                VisualCmd::Down
            } else if c == 'k' {
                VisualCmd::Up
            } else if c == 'G' {
                VisualCmd::Bottom
            } else if c == 'g' {
                VisualCmd::Top
            } else if c == 's' {
                VisualCmd::Select
            } else if c == 'y' {
                VisualCmd::Yank
            } else if c == 'd' {
                VisualCmd::Cut
            } else if c == 'x' {
                VisualCmd::Trash
            } else if c == 'D' {
                VisualCmd::DeleteForever
            } else if c == 'q' {
                VisualCmd::Quit
            } else {
                VisualCmd::Nothing
            }
        },
        _ => VisualCmd::Nothing,
    }
}

/// The commands that act on the marked range.
pub open spec fn uses_range(cmd: VisualCmd) -> bool {
    cmd is Select || cmd is Yank || cmd is Cut || cmd is Trash || cmd is DeleteForever
}

/// The marked range, its ends ordered.
pub open spec fn visual_range(a: App) -> Option<(usize, usize)> {
    ordered(a.keybind.visual_start, a.keybind.visual_end)
}

/// The marked range starts on a shown entry (or nothing is marked). The
/// range is cut at the last entry; a start past the end cannot be cut.
pub open spec fn range_ok(a: App) -> bool {
    match visual_range(a) {
        Some((s, _)) => s < cur(a).files@.len(),
        None => true,
    }
}

/// The paths of the entries from `s` to `e`, cut at the last entry.
pub open spec fn range_paths(files: Seq<FileEntry>, s: int, e: int) -> Seq<Seq<char>> {
    let last = if e < files.len() - 1 {
        e
    } else {
        files.len() - 1
    };
    paths_of(files.subrange(s, last + 1))
}

/// The paths marked in `a`.
pub open spec fn marked(a: App) -> Seq<Seq<char>> {
    match visual_range(a) {
        Some((s, e)) => range_paths(cur(a).files@, s as int, e as int),
        None => Seq::empty(),
    }
}

/// `k` out of visual mode.
pub open spec fn exited(k: KeybindState) -> KeybindState {
    KeybindState { mode: Mode::Normal, visual_start: None, visual_end: None, ..k }
}

/// `a` out of visual mode.
pub open spec fn leave_visual(a: App) -> App {
    App { keybind: exited(a.keybind), ..a }
}

/// The marked paths added to the selection of `a`, when a range is marked.
pub open spec fn range_selected(a: App, m: App) -> bool {
    match visual_range(a) {
        Some(_) => selection_grown(a, m, marked(a)),
        None => m == a,
    }
}

/// The marked range put on the clipboard as `mode`, with `verb N item(s)`
/// logged, and visual mode left.
pub open spec fn range_stashed(a: App, b: App, mode: OpMode, verb: Seq<char>) -> bool {
    match visual_range(a) {
        Some(_) => {
            &&& b == (App { file_op: b.file_op, messages: b.messages, keybind: exited(a.keybind), ..a })
            &&& b.file_op matches Some(op) && op.mode == mode && views(op.files@) == marked(a)
            &&& views(b.messages@) == logged(
                views(a.messages@),
                verb + dec(marked(a).len()) + " item(s)"@,
            )
        },
        None => b == leave_visual(a),
    }
}

/// What a visual-mode command makes of the state `a` and asks for.
pub open spec fn visual_effect(a: App, b: App, cmd: VisualCmd, act: Action) -> bool {
    match cmd {
        VisualCmd::Exit => act is Stay && b == leave_visual(a),
        VisualCmd::Down | VisualCmd::Up | VisualCmd::PageDown | VisualCmd::PageUp
        | VisualCmd::Bottom | VisualCmd::Top => {
            &&& act is Stay
            &&& b == (App { tabs: b.tabs, keybind: b.keybind, ..a })
            &&& b.tabs@ == a.tabs@.update(a.active as int, cur(b))
            &&& b.keybind == (KeybindState { visual_end: Some(cur(b).cursor), ..a.keybind })
            &&& match cmd {
                VisualCmd::Down => down_step(cur(a), cur(b), 40),
                VisualCmd::Up => up_step(cur(a), cur(b)),
                VisualCmd::PageDown => page_down_step(cur(a), cur(b), 40),
                VisualCmd::PageUp => page_up_step(cur(a), cur(b), 40),
                VisualCmd::Bottom => bottom_step(cur(a), cur(b)),
                _ => top_step(cur(a), cur(b)),
            }
        },
        VisualCmd::Select => act is Stay && exists|m: App|
            #![trigger range_selected(a, m)]
            range_selected(a, m) && logs(
                leave_visual(m),
                b,
                "selected "@ + dec(b.selected@.len()),
            ),
        VisualCmd::Yank => act is Stay && range_stashed(a, b, OpMode::Copy, "yanked "@),
        VisualCmd::Cut => act is Stay && range_stashed(a, b, OpMode::Cut, "cut "@),
        VisualCmd::Trash => (act is Stay || act is Trash) && exists|m: App|
            #![trigger range_selected(a, m)]
            range_selected(a, m) && trash_asked(leave_visual(m), b, trash_now(act)),
        VisualCmd::DeleteForever => act is Stay && exists|m: App|
            #![trigger range_selected(a, m)]
            range_selected(a, m) && delete_asked(leave_visual(m), b),
        VisualCmd::Quit => act is Quit && b == a,
        VisualCmd::Nothing => act is Stay && b == a,
    }
}

/// The paths of `files[s..=e]`, the range cut at the last entry.
fn range_path_list(files: &Vec<FileEntry>, s: usize, e: usize) -> (r: Vec<String>)
    requires
        s < files@.len(),
        s <= e,
    ensures
        views(r@) == range_paths(files@, s as int, e as int),
{
    let last = if e < files.len() - 1 {
        e
    } else {
        files.len() - 1
    };
    let ghost sub = files@.subrange(s as int, last + 1);
    let mut out: Vec<String> = Vec::new();
    let mut i = s;
    while i <= last
        invariant
            s <= i <= last + 1,
            last < files@.len(),
            last < usize::MAX,
            sub == files@.subrange(s as int, last + 1),
            views(out@) == paths_of(sub.take(i - s)),
        decreases last + 1 - i,
    {
        let ghost before = out@;
        out.push(files[i].path.clone());
        proof {
            crate::app::lemma_views_push(before, files@[i as int].path);
            assert(sub.take(i + 1 - s) =~= sub.take(i - s).push(files@[i as int]));
            assert(paths_of(sub.take(i + 1 - s)) =~= paths_of(sub.take(i - s)).push(
                files@[i as int].path@,
            ));
        }
        i = i + 1;
    }
    assert(sub.take(last + 1 - s) =~= sub);
    out
}

/// The marked paths.
fn marked_paths(app: &App) -> (r: Option<Vec<String>>)
    requires
        app.wf(),
        range_ok(*app),
    ensures
        match visual_range(*app) {
            Some(_) => r matches Some(v) && views(v@) == marked(*app),
            None => r is None,
        },
{
    match app.keybind.get_visual_range() {
        Some((s, e)) => Some(range_path_list(&app.current().files, s, e)),
        None => None,
    }
}

/// Moves the cursor for a visual-mode motion and stretches the range to it.
fn visual_motion(app: &mut App, cmd: VisualCmd)
    requires
        old(app).wf(),
        old(app).keybind.mode == Mode::Visual,
        cmd is Down || cmd is Up || cmd is PageDown || cmd is PageUp || cmd is Bottom || cmd is Top,
    ensures
        final(app).wf(),
        visual_effect(*old(app), *final(app), cmd, Action::Stay),
{
    match cmd {
        VisualCmd::Down => app.current_mut().cursor_down(40),
        VisualCmd::Up => app.current_mut().cursor_up(),
        VisualCmd::PageDown => app.current_mut().page_down(40),
        VisualCmd::PageUp => app.current_mut().page_up(40),
        VisualCmd::Bottom => app.current_mut().cursor_bottom(),
        _ => app.current_mut().cursor_top(),
    }
    proof {
        lemma_tabs_wf_after(*old(app), *app);
    }
    let c = app.current().cursor;
    app.keybind.extend_visual(c);
}

/// Adds the marked paths to the selection, if a range is marked.
fn select_marked(app: &mut App)
    requires
        old(app).wf(),
        range_ok(*old(app)),
    ensures
        final(app).wf(),
        range_selected(*old(app), *final(app)),
{
    match marked_paths(app) {
        Some(paths) => app.add_selected(paths.as_slice()),
        None => {},
    }
}

/// Puts the marked range on the clipboard as `mode` and leaves visual mode.
fn stash_marked(app: &mut App, mode: OpMode, verb: &str)
    requires
        old(app).wf(),
        range_ok(*old(app)),
    ensures
        final(app).wf(),
        range_stashed(*old(app), *final(app), mode, verb@),
{
    match marked_paths(app) {
        Some(paths) => {
            let n = paths.len();
            app.file_op = Some(FileOp { mode, files: paths });
            let mut msg = owned(verb);
            push_dec(&mut msg, n as u64);
            push_str(&mut msg, " item(s)");
            app.message(msg);
        },
        None => {},
    }
    app.keybind.exit_visual();
}

/// Carries out a visual-mode command.
pub fn run_visual(app: &mut App, cmd: VisualCmd) -> (act: Action)
    requires
        old(app).wf(),
        old(app).keybind.mode == Mode::Visual,
        uses_range(cmd) ==> range_ok(*old(app)),
    ensures
        final(app).wf(),
        visual_effect(*old(app), *final(app), cmd, act),
{
    match cmd {
        VisualCmd::Exit => {
            app.keybind.exit_visual();
            Action::Stay
        },
        VisualCmd::Down | VisualCmd::Up | VisualCmd::PageDown | VisualCmd::PageUp
        | VisualCmd::Bottom | VisualCmd::Top => {
            visual_motion(app, cmd);
            Action::Stay
        },
        VisualCmd::Select => {
            select_marked(app);
            let ghost m = *app;
            app.keybind.exit_visual();
            let n = app.selected.len();
            let mut msg = owned("selected ");
            push_dec(&mut msg, n as u64);
            app.message(msg);
            proof {
                assert(range_selected(*old(app), m));
            }
            Action::Stay
        },
        VisualCmd::Yank => {
            stash_marked(app, OpMode::Copy, "yanked ");
            Action::Stay
        },
        VisualCmd::Cut => {
            stash_marked(app, OpMode::Cut, "cut ");
            Action::Stay
        },
        VisualCmd::Trash => {
            select_marked(app);
            let ghost m = *app;
            app.keybind.exit_visual();
            let act = match trash_targets(app) {
                Some(targets) => Action::Trash { targets },
                None => Action::Stay,
            };
            proof {
                assert(range_selected(*old(app), m));
            }
            act
        },
        VisualCmd::DeleteForever => {
            select_marked(app);
            let ghost m = *app;
            app.keybind.exit_visual();
            delete_targets_permanent(app);
            proof {
                assert(range_selected(*old(app), m));
            }
            Action::Stay
        },
        VisualCmd::Quit => Action::Quit,
        VisualCmd::Nothing => Action::Stay,
    }
}

/// Handles a key in visual mode.
pub fn handle_visual(app: &mut App, key: Key) -> (act: Action)
    requires
        old(app).wf(),
        old(app).keybind.mode == Mode::Visual,
        uses_range(visual_cmd(key)) ==> range_ok(*old(app)),
    ensures
        final(app).wf(),
        visual_effect(*old(app), *final(app), visual_cmd(key), act),
{
    let cmd = visual_command(key);
    run_visual(app, cmd)
}

/// The hovered entry's path, if any.
pub open spec fn hovered_path(f: crate::folder::Folder) -> Option<Seq<char>> {
    match f.hovered_spec() {
        Some(e) => Some(e.path@),
        None => None,
    }
}

/// What entering `value` in the bar opened for `action` makes of the state
/// `a` (the bar already closed) and asks for.
pub open spec fn commit_effect(a: App, b: App, action: InputAction, value: Seq<char>, act: Action) -> bool {
    match action {
        InputAction::Rename => if value.len() == 0 {
            act is Stay && b == a
        } else {
            &&& b == a
            &&& act matches Action::Rename { from, to, old_name, new_name }
            &&& match cur(a).hovered_spec() {
                Some(e) => from matches Some(f) && f@ == e.path@ && old_name@ == e.name@,
                None => from is None && old_name@.len() == 0,
            }
            &&& to@ == path_join(cur(a).path@, value)
            &&& new_name@ == value
        },
        InputAction::Create => match create_spec(value) {
            None => act is Stay && logs(a, b, "create cancelled"@),
            Some((d, n)) => b == a && (act matches Action::Create { is_dir, path, name } && is_dir
                == d && name@ == n && path@ == path_join(cur(a).path@, n)),
        },
        InputAction::JumpToChar => act is Stay && if value.len() > 0 {
            tab_now(a, b) && exists|found: bool| #[trigger]
                jumped(cur(a), cur(b), char_lower_head(value[0]), found)
        } else {
            b == a
        },
        InputAction::Archive => if trim_spec(value).len() == 0 {
            act is Stay && logs(a, b, "archive cancelled"@)
        } else if a.target_views().len() == 0 {
            act is Stay && logs(a, b, "nothing to archive"@)
        } else {
            b == a && (act matches Action::EstimateArchive { name, cwd, targets } && name@
                == trim_spec(value) && cwd@ == cur(a).path@ && views(targets@) == a.target_views())
        },
        InputAction::Shell => match parse_spec(value) {
            None => act is Stay && logs(a, b, "empty command"@),
            Some((raw, bg)) => b == a && (act matches Action::Shell { command, cwd }
                && command.background == bg && command.raw@ == expand_from(
                raw,
                0,
                hovered_path(cur(a)),
                views(a.selected@),
                cur(a).path@,
            ) && cwd@ == cur(a).path@),
        },
        InputAction::Teleport => if trim_spec(value).len() == 0 {
            act is Stay && logs(a, b, "teleport cancelled"@)
        } else {
            b == a && (act matches Action::Teleport { path } && path@ == trim_spec(value))
        },
        _ => act is Stay && b == a,
    }
}

/// Carries out what was entered in the bar.
pub fn commit_input(app: &mut App, action: InputAction, value: String) -> (act: Action)
    requires
        old(app).wf(),
    ensures
        final(app).wf(),
        commit_effect(*old(app), *final(app), action, value@, act),
{
    match action {
        InputAction::Rename => {
            if chars_of(value.as_str()).len() == 0 {
                return Action::Stay;
            }
            let f = app.current();
            let (from, old_name) = match f.hovered() {
                Some(e) => (Some(e.path.clone()), e.name.clone()),
                None => (None, String::new()),
            };
            let to = join(f.path.as_str(), value.as_str());
            Action::Rename { from, to, old_name, new_name: value }
        },
        InputAction::Create => match parse_create(value.as_str()) {
            None => {
                app.message(owned("create cancelled"));
                Action::Stay
            },
            Some((is_dir, name)) => {
                let path = join(app.current().path.as_str(), name.as_str());
                Action::Create { is_dir, path, name }
            },
        },
        InputAction::JumpToChar => {
            let v = chars_of(value.as_str());
            if v.len() > 0 {
                let found = app.current_mut().jump_to_char(v[0]);
                proof {
                    lemma_tabs_wf_after(*old(app), *app);
                    assert(jumped(cur(*old(app)), cur(*app), char_lower_head(value@[0]), found));
                }
            }
            Action::Stay
        },
        InputAction::Archive => {
            let v = chars_of(value.as_str());
            let t = trim(v.as_slice());
            if t.len() == 0 {
                app.message(owned("archive cancelled"));
                return Action::Stay;
            }
            let targets = app.targets();
            if targets.len() == 0 {
                app.message(owned("nothing to archive"));
                return Action::Stay;
            }
            let cwd = app.current().path.clone();
            Action::EstimateArchive { name: string_of(t.as_slice()), cwd, targets }
        },
        InputAction::Shell => match parse(value.as_str()) {
            None => {
                app.message(owned("empty command"));
                Action::Stay
            },
            Some(cmd) => {
                let f = app.current();
                let hovered: Option<&str> = match f.hovered() {
                    Some(e) => Some(e.path.as_str()),
                    None => None,
                };
                let raw = expand(cmd.raw.as_str(), hovered, app.selected.as_slice(), f.path.as_str());
                Action::Shell {
                    command: ShellCmd { raw, background: cmd.background },
                    cwd: f.path.clone(),
                }
            },
        },
        InputAction::Teleport => {
            let v = chars_of(value.as_str());
            let t = trim(v.as_slice());
            if t.len() == 0 {
                app.message(owned("teleport cancelled"));
                return Action::Stay;
            }
            Action::Teleport { path: string_of(t.as_slice()) }
        },
        _ => Action::Stay,
    }
}

/// `b` is `a` with the bar edited to `b.input` and, while searching, the
/// active tab filtered by the new text.
pub open spec fn bar_edited(a: App, b: App) -> bool {
    &&& b == (App { input: b.input, tabs: b.tabs, ..a })
    &&& if a.input.action == InputAction::Search {
        b.tabs@ == a.tabs@.update(a.active as int, cur(b)) && filter_set(cur(a), cur(b), b.input.buffer@)
    } else {
        b.tabs == a.tabs
    }
}

/// What a key does while the input bar is open.
pub open spec fn input_effect(a: App, b: App, key: Key, act: Action) -> bool {
    match key.code {
        KeyCode::Esc => {
            &&& act is Stay
            &&& b == (App { input: b.input, tabs: b.tabs, ..a })
            &&& closed(a.input, b.input)
            &&& b.tabs@ == a.tabs@.update(a.active as int, cur(b))
            &&& filter_cleared(cur(a), cur(b))
        },
        KeyCode::Enter => exists|m: App|
            #![trigger commit_effect(m, b, a.input.action, a.input.buffer@, act)]
            m == (App { input: m.input, ..a }) && closed(a.input, m.input) && commit_effect(
                m,
                b,
                a.input.action,
                a.input.buffer@,
                act,
            ),
        KeyCode::Backspace => act is Stay && bar_edited(a, b) && backspaced(a.input, b.input),
        KeyCode::Delete => act is Stay && bar_edited(a, b) && deleted(a.input, b.input),
        KeyCode::Char(c) => act is Stay && bar_edited(a, b) && typed(a.input, b.input, c),
        KeyCode::Left => act is Stay && b == (App { input: b.input, ..a }) && moved_left(a.input, b.input),
        KeyCode::Right => act is Stay && b == (App { input: b.input, ..a }) && moved_right(a.input, b.input),
        KeyCode::Home => act is Stay && b == (App { input: Input { cursor: 0, ..a.input }, ..a }),
        KeyCode::End => act is Stay && b == (App {
            input: Input { cursor: a.input.buffer@.len() as usize, ..a.input },
            ..a
        }),
        _ => act is Stay && b == a,
    }
}

/// Filters the active tab by the bar's text while searching.
fn follow_search(app: &mut App)
    requires
        old(app).wf(),
    ensures
        final(app).wf(),
        final(app).input == old(app).input,
        if old(app).input.action == InputAction::Search {
            &&& *final(app) == (App { tabs: final(app).tabs, ..*old(app) })
            &&& final(app).tabs@ == old(app).tabs@.update(old(app).active as int, cur(*final(app)))
            &&& filter_set(cur(*old(app)), cur(*final(app)), old(app).input.buffer@)
        } else {
            *final(app) == *old(app)
        },
{
    if app.input.action == InputAction::Search {
        let buf = app.input.buffer.clone();
        app.current_mut().set_filter(buf);
        proof {
            lemma_tabs_wf_after(*old(app), *app);
        }
    }
}

/// Handles a key while the input bar is open.
pub fn handle_input(app: &mut App, key: Key) -> (act: Action)
    requires
        old(app).wf(),
        key.code is Char ==> old(app).input.cursor < usize::MAX,
    ensures
        final(app).wf(),
        input_effect(*old(app), *final(app), key, act),
{
    match key.code {
        KeyCode::Esc => {
            app.input.close();
            let ghost m = *app;
            app.current_mut().clear_filter();
            proof {
                lemma_tabs_wf_after(m, *app);
            }
            Action::Stay
        },
        KeyCode::Enter => {
            let action = app.input.action;
            let value = app.input.buffer.clone();
            app.input.close();
            let ghost m = *app;
            let act = commit_input(app, action, value);
            proof {
                assert(commit_effect(m, *app, old(app).input.action, old(app).input.buffer@, act));
            }
            act
        },
        KeyCode::Backspace => {
            app.input.backspace();
            follow_search(app);
            Action::Stay
        },
        KeyCode::Delete => {
            app.input.delete();
            follow_search(app);
            Action::Stay
        },
        KeyCode::Left => {
            app.input.move_left();
            Action::Stay
        },
        KeyCode::Right => {
            app.input.move_right();
            Action::Stay
        },
        KeyCode::Home => {
            app.input.move_home();
            Action::Stay
        },
        KeyCode::End => {
            app.input.move_end();
            Action::Stay
        },
        KeyCode::Char(c) => {
            app.input.insert(c);
            follow_search(app);
            Action::Stay
        },
        _ => Action::Stay,
    }
}

/// The paste mode a dialog choice stands for.
pub open spec fn choice_mode(selected: usize) -> OpMode {
    if selected == 1 {
        OpMode::Cut
    } else if selected == 2 {
        OpMode::Link
    } else {
        OpMode::Copy
    }
}

/// `a` with the paste dialog's choice set to `selected`.
pub open spec fn choose_paste(a: App, d: PasteDialog, selected: usize) -> App {
    App { paste_dialog: Some(PasteDialog { selected, ..d }), ..a }
}

/// What a key does while the paste dialog is open.
pub open spec fn paste_effect(a: App, b: App, key: Key, act: Action) -> bool {
    match a.paste_dialog {
        Some(d) => match key.code {
            KeyCode::Esc | KeyCode::Char('q') => act is Stay && b == (App { paste_dialog: None, ..a }),
            KeyCode::Left | KeyCode::Char('h') => act is Stay && b == choose_paste(
                a,
                d,
                if d.selected > 0 {
                    (d.selected - 1) as usize
                } else {
                    0
                },
            ),
            KeyCode::Right | KeyCode::Char('l') => act is Stay && b == choose_paste(
                a,
                d,
                if d.selected + 1 < 2 {
                    (d.selected + 1) as usize
                } else {
                    2
                },
            ),
            KeyCode::Char('c') => act is Stay && b == choose_paste(a, d, 0),
            KeyCode::Char('m') => act is Stay && b == choose_paste(a, d, 1),
            KeyCode::Char('s') => act is Stay && b == choose_paste(a, d, 2),
            KeyCode::Enter => b == (App { paste_dialog: None, ..a }) && act == (Action::Paste {
                mode: choice_mode(d.selected),
                dest: d.dest_override,
            }),
            _ => act is Stay && b == a,
        },
        None => act is Stay && b == a,
    }
}

/// Handles a key while the paste dialog is open.
pub fn handle_paste_dialog(app: &mut App, key: Key) -> (act: Action)
    requires
        old(app).wf(),
    ensures
        final(app).wf(),
        paste_effect(*old(app), *final(app), key, act),
{
    let d = match app.paste_dialog.take() {
        Some(d) => d,
        None => {
            return Action::Stay;
        },
    };
    let choice = match key.code {
        KeyCode::Esc | KeyCode::Char('q') => {
            return Action::Stay;
        },
        KeyCode::Left | KeyCode::Char('h') => if d.selected > 0 {
            d.selected - 1
        } else {
            0
        },
        KeyCode::Right | KeyCode::Char('l') => if d.selected + 1 < 2 {
            d.selected + 1
        } else {
            2
        },
        KeyCode::Char('c') => 0,
        KeyCode::Char('m') => 1,
        KeyCode::Char('s') => 2,
        KeyCode::Enter => {
            let mode = if d.selected == 1 {
                OpMode::Cut
            } else if d.selected == 2 {
                OpMode::Link
            } else {
                OpMode::Copy
            };
            return Action::Paste { mode, dest: d.dest_override };
        },
        _ => {
            app.paste_dialog = Some(d);
            return Action::Stay;
        },
    };
    app.paste_dialog = Some(PasteDialog { selected: choice, ..d });
    Action::Stay
}

/// What a key does while a yes/no question is open.
pub open spec fn confirm_effect(a: App, b: App, key: Key, act: Action) -> bool {
    match a.confirm {
        Some(c) => match key.code {
            KeyCode::Char('y') | KeyCode::Char('Y') => b == (App { confirm: None, ..a }) && act
                == (Action::Confirmed { confirm: c }),
            KeyCode::Char('n') | KeyCode::Char('N') | KeyCode::Esc => act is Stay && declined(a, b),
            _ => act is Stay && b == a,
        },
        None => act is Stay && b == a,
    }
}

/// Handles a key while a yes/no question is open.
pub fn handle_confirm(app: &mut App, key: Key) -> (act: Action)
    requires
        old(app).wf(),
    ensures
        final(app).wf(),
        confirm_effect(*old(app), *final(app), key, act),
{
    if app.confirm.is_none() {
        return Action::Stay;
    }
    match key.code {
        KeyCode::Char('y') | KeyCode::Char('Y') => match confirm_yes(app) {
            Some(confirm) => Action::Confirmed { confirm },
            None => Action::Stay,
        },
        KeyCode::Char('n') | KeyCode::Char('N') | KeyCode::Esc => {
            confirm_no(app);
            Action::Stay
        },
        _ => Action::Stay,
    }
}

/// What a key does while the help screen is shown.
pub open spec fn help_effect(a: App, b: App, key: Key, act: Action) -> bool {
    act is Stay && match key.code {
        KeyCode::Esc | KeyCode::Char('q') | KeyCode::Char('?') => b == (App {
            help: HelpVisible::Hidden,
            ..a
        }),
        _ => b == a,
    }
}

/// Handles a key while the help screen is shown.
pub fn handle_help(app: &mut App, key: Key) -> (act: Action)
    ensures
        help_effect(*old(app), *final(app), key, act),
        old(app).wf() ==> final(app).wf(),
{
    match key.code {
        KeyCode::Esc | KeyCode::Char('q') | KeyCode::Char('?') => {
            app.help = HelpVisible::Hidden;
        },
        _ => {},
    }
    Action::Stay
}

/// No dialog, question, help screen or input bar takes the key.
pub open spec fn nothing_open(a: App) -> bool {
    a.help != HelpVisible::Shown && a.paste_dialog is None && a.confirm is None && !a.input.active
}

/// The keys that can be handled: rejected are a character typed into a bar
/// whose cursor is already at the largest index, and a range command in
/// visual mode whose range starts past the shown entries.
pub open spec fn key_ok(a: App, key: Key) -> bool {
    &&& (a.help != HelpVisible::Shown && a.paste_dialog is None && a.confirm is None
        && a.input.active && key.code is Char) ==> a.input.cursor < usize::MAX
    &&& (nothing_open(a) && a.keybind.mode == Mode::Visual && uses_range(visual_cmd(key)))
        ==> range_ok(a)
}

/// What a key does: the help screen, the paste dialog, a question and the
/// input bar take it first, in that order; else normal or visual mode.
pub open spec fn key_effect(a: App, b: App, key: Key, act: Action) -> bool {
    if a.help == HelpVisible::Shown {
        help_effect(a, b, key, act)
    } else if a.paste_dialog is Some {
        paste_effect(a, b, key, act)
    } else if a.confirm is Some {
        confirm_effect(a, b, key, act)
    } else if a.input.active {
        input_effect(a, b, key, act)
    } else if a.keybind.mode == Mode::Normal {
        exists|p: Option<char>|
            #![trigger unpend(a, p)]
            (p is None || p == waiting(a.keybind)) && normal_effect(
                unpend(a, p),
                b,
                normal_cmd(p, key, bookmarked(a)),
                act,
            )
    } else {
        visual_effect(a, b, visual_cmd(key), act)
    }
}

/// Handles a key press.
pub fn handle_key(app: &mut App, key: Key) -> (act: Action)
    requires
        old(app).wf(),
        key_ok(*old(app), key),
    ensures
        final(app).wf(),
        key_effect(*old(app), *final(app), key, act),
{
    if app.help == HelpVisible::Shown {
        return handle_help(app, key);
    }
    if app.paste_dialog.is_some() {
        return handle_paste_dialog(app, key);
    }
    if app.confirm.is_some() {
        return handle_confirm(app, key);
    }
    if app.input.active {
        return handle_input(app, key);
    }
    match app.keybind.mode {
        Mode::Normal => handle_normal(app, key),
        Mode::Visual => handle_visual(app, key),
    }
}

// ---------------------------------------------------------------------------
// Outcomes of the outside work
// ---------------------------------------------------------------------------
/// `a`, then `b`.
fn concat(a: &str, b: &str) -> (r: String)
    ensures
        r@ == a@ + b@,
{
    let mut s = owned(a);
    push_str(&mut s, b);
    s
}

/// The message after opening a file with `cmd`: `opened in` for a program
/// that took over the terminal (its failure ends the session before this),
/// else `launched:` or `open failed:` with the error.
pub open spec fn open_msg(cmd: Seq<char>, failure: Option<Seq<char>>) -> Seq<char> {
    if terminal_app_spec(base_name(cmd)) {
        "opened in "@ + base_name(cmd)
    } else {
        match failure {
            None => "launched: "@ + base_name(cmd),
            Some(e) => "open failed: "@ + e,
        }
    }
}

/// Opt-string view.
pub open spec fn opt_view(o: Option<String>) -> Option<Seq<char>> {
    match o {
        Some(s) => Some(s@),
        None => None,
    }
}

/// Records how opening a file with `cmd` went.
pub fn finish_open(app: &mut App, cmd: &str, failure: Option<String>)
    requires
        old(app).wf(),
    ensures
        final(app).wf(),
        logs(*old(app), *final(app), open_msg(cmd@, opt_view(failure))),
{
    let short = crate::opener::short_cmd(cmd);
    let msg = if is_terminal_app(cmd) {
        concat("opened in ", short.as_str())
    } else {
        match failure {
            None => concat("launched: ", short.as_str()),
            Some(e) => concat("open failed: ", e.as_str()),
        }
    };
    app.message(msg);
}

/// Records how putting `text` on the clipboard went.
pub fn finish_clipboard(app: &mut App, text: &str, failure: Option<String>)
    requires
        old(app).wf(),
    ensures
        final(app).wf(),
        logs(
            *old(app),
            *final(app),
            match failure {
                None => "clipboard: "@ + text@,
                Some(e) => "clipboard failed: "@ + e@,
            },
        ),
{
    let msg = match failure {
        None => concat("clipboard: ", text),
        Some(e) => concat("clipboard failed: ", e.as_str()),
    };
    app.message(msg);
}

/// Moves the active tab to a bookmark's `target` (read into `listing`) when
/// it exists; otherwise logs that bookmark `key` was not found.
pub fn go_bookmark(
    app: &mut App,
    key: char,
    target: String,
    exists: bool,
    listing: Option<Vec<FileEntry>>,
    git: Option<GitStatus>,
)
    requires
        old(app).wf(),
    ensures
        final(app).wf(),
        !exists ==> logs(*old(app), *final(app), "bookmark "@ + seq![key] + " not found"@),
        exists ==> {
            &&& tab_now(*old(app), *final(app))
            &&& cur(*final(app)).path@ == target@
            &&& cur(*final(app)).all_files@ == (match listing {
                Some(v) => crate::sort::insort(v@),
                None => Seq::<FileEntry>::empty(),
            })
            &&& cur(*final(app)).files@ == crate::folder::visible(
                cur(*final(app)).all_files@,
                cur(*old(app)).show_hidden,
                cur(*old(app)).filter@,
            )
            &&& cur(*final(app)).cursor == 0 && cur(*final(app)).offset == 0
            &&& cur(*final(app)).git == git
            &&& cur(*final(app)).filter == cur(*old(app)).filter
            &&& cur(*final(app)).show_hidden == cur(*old(app)).show_hidden
        },
{
    if exists {
        let f = app.current_mut();
        f.path = target;
        f.refill(listing, git);
        proof {
            lemma_tabs_wf_after(*old(app), *app);
        }
    } else {
        let mut msg = owned("bookmark ");
        push_char(&mut msg, key);
        assert(msg@ =~= "bookmark "@ + seq![key]);
        push_str(&mut msg, " not found");
        app.message(msg);
    }
}

/// Reads the active tab's directory again (`listing`) and puts the cursor
/// on the entry named `name`, if it is shown (after creating or renaming
/// it).
pub fn reload_at(app: &mut App, listing: Option<Vec<FileEntry>>, git: Option<GitStatus>, name: &str)
    requires
        old(app).wf(),
    ensures
        final(app).wf(),
        tab_now(*old(app), *final(app)),
        cur(*final(app)).path == cur(*old(app)).path,
        cur(*final(app)).all_files@ == (match listing {
            Some(v) => crate::sort::insort(v@),
            None => Seq::<FileEntry>::empty(),
        }),
        cur(*final(app)).files@ == crate::folder::visible(
            cur(*final(app)).all_files@,
            cur(*old(app)).show_hidden,
            cur(*old(app)).filter@,
        ),
        cur(*final(app)).cursor == (match crate::folder::position_of(cur(*final(app)).files@, name@) {
            Some(i) => i,
            None => 0,
        }),
        cur(*final(app)).offset == 0,
        cur(*final(app)).git == git,
{
    let f = app.current_mut();
    f.refill(listing, git);
    f.select_name(name);
    proof {
        lemma_tabs_wf_after(*old(app), *app);
    }
}

/// Records how a rename of `old_name` to `new_name` went.
pub fn finish_rename(app: &mut App, old_name: &str, new_name: &str, failure: Option<String>)
    requires
        old(app).wf(),
    ensures
        final(app).wf(),
        logs(
            *old(app),
            *final(app),
            match failure {
                None => "renamed: "@ + old_name@ + " → "@ + new_name@,
                Some(e) => "rename failed: "@ + e@,
            },
        ),
{
    let msg = match failure {
        None => {
            let mut m = concat("renamed: ", old_name);
            push_str(&mut m, " → ");
            push_str(&mut m, new_name);
            m
        },
        Some(e) => concat("rename failed: ", e.as_str()),
    };
    app.message(msg);
}

/// Records how creating the file or directory `name` went.
pub fn finish_create(app: &mut App, is_dir: bool, name: &str, failure: Option<String>)
    requires
        old(app).wf(),
    ensures
        final(app).wf(),
        logs(
            *old(app),
            *final(app),
            match failure {
                None => (if is_dir {
                    "created dir: "@
                } else {
                    "created file: "@
                }) + name@,
                Some(e) => (if is_dir {
                    "mkdir failed: "@
                } else {
                    "create failed: "@
                }) + e@,
            },
        ),
{
    let msg = match failure {
        None => concat(
            if is_dir {
                "created dir: "
            } else {
                "created file: "
            },
            name,
        ),
        Some(e) => concat(
            if is_dir {
                "mkdir failed: "
            } else {
                "create failed: "
            },
            e.as_str(),
        ),
    };
    app.message(msg);
}

/// The question before archiving.
pub open spec fn archive_question(n: nat, size: Seq<char>, name: Seq<char>) -> Seq<char> {
    "Archive "@ + dec(n) + " item(s) ("@ + size + ") → "@ + name + "? (y/N)"@
}

/// Asks before archiving `targets` as `name` in `cwd`, showing their total
/// size as `size`.
pub fn ask_archive(app: &mut App, name: String, cwd: String, targets: Vec<String>, size: &str)
    requires
        old(app).wf(),
    ensures
        final(app).wf(),
        *final(app) == (App { confirm: final(app).confirm, ..*old(app) }),
        final(app).confirm matches Some(c) && c.kind == (ConfirmKind::Archive { name, cwd })
            && c.targets == targets && c.message@ == archive_question(
            targets@.len() as nat,
            size@,
            name@,
        ),
{
    let mut msg = owned("Archive ");
    push_dec(&mut msg, targets.len() as u64);
    push_str(&mut msg, " item(s) (");
    push_str(&mut msg, size);
    push_str(&mut msg, ") → ");
    push_str(&mut msg, name.as_str());
    push_str(&mut msg, "? (y/N)");
    app.confirm = Some(Confirm { kind: ConfirmKind::Archive { name, cwd }, message: msg, targets });
}

/// How a shell command was run.
#[derive(Debug, Clone, Copy, PartialEq, Eq, Structural)]
pub enum ShellWay {
    /// Detached, in the background.
    Background,
    /// In a new tmux pane.
    Tmux,
    /// In the foreground, with the screen handed over.
    Foreground,
}

/// How a shell command is run: in the background when it asks to be, else
/// in a new tmux pane inside tmux, else in the foreground.
pub open spec fn shell_way_spec(background: bool, in_tmux: bool) -> ShellWay {
    if background {
        ShellWay::Background
    } else if in_tmux {
        ShellWay::Tmux
    } else {
        ShellWay::Foreground
    }
}

/// How to run `cmd`, given whether this runs inside tmux.
pub fn shell_way(cmd: &ShellCmd, in_tmux: bool) -> (r: ShellWay)
    ensures
        r == shell_way_spec(cmd.background, in_tmux),
{
    if cmd.background {
        ShellWay::Background
    } else if in_tmux {
        ShellWay::Tmux
    } else {
        ShellWay::Foreground
    }
}

/// Records how running the shell command `cmd` went: background and tmux
/// runs log their outcome; a foreground run is queued to run once the key
/// is handled.
pub fn finish_shell(app: &mut App, cmd: ShellCmd, way: ShellWay, failure: Option<String>)
    requires
        old(app).wf(),
    ensures
        final(app).wf(),
        way == ShellWay::Foreground ==> exists|m: App|
            #![trigger logs(*old(app), m, "running: "@ + cmd.raw@)]
            logs(*old(app), m, "running: "@ + cmd.raw@) && *final(app) == (App {
                pending_fg_shell: Some(cmd),
                ..m
            }),
        way == ShellWay::Background ==> logs(
            *old(app),
            *final(app),
            match failure {
                None => "bg: "@ + cmd.raw@,
                Some(e) => "shell failed: "@ + e@,
            },
        ),
        way == ShellWay::Tmux ==> logs(
            *old(app),
            *final(app),
            match failure {
                None => "tmux: "@ + cmd.raw@,
                Some(e) => "tmux failed: "@ + e@,
            },
        ),
{
    match way {
        ShellWay::Foreground => {
            let msg = concat("running: ", cmd.raw.as_str());
            app.message(msg);
            let ghost m = *app;
            app.pending_fg_shell = Some(cmd);
            proof {
                assert(logs(*old(app), m, "running: "@ + cmd.raw@));
            }
        },
        ShellWay::Background => {
            let msg = match failure {
                None => concat("bg: ", cmd.raw.as_str()),
                Some(e) => concat("shell failed: ", e.as_str()),
            };
            app.message(msg);
        },
        ShellWay::Tmux => {
            let msg = match failure {
                None => concat("tmux: ", cmd.raw.as_str()),
                Some(e) => concat("tmux failed: ", e.as_str()),
            };
            app.message(msg);
        },
    }
}

/// Records how opening the editor `editor` in a tmux pane went.
pub fn finish_tmux_edit(app: &mut App, editor: &str, failure: Option<String>)
    requires
        old(app).wf(),
    ensures
        final(app).wf(),
        logs(
            *old(app),
            *final(app),
            match failure {
                None => "tmux: "@ + editor@,
                Some(e) => "tmux failed: "@ + e@,
            },
        ),
{
    let msg = match failure {
        None => concat("tmux: ", editor),
        Some(e) => concat("tmux failed: ", e.as_str()),
    };
    app.message(msg);
}

/// Records how opening a shell in a tmux pane went.
pub fn finish_tmux_shell(app: &mut App, failure: Option<String>)
    requires
        old(app).wf(),
    ensures
        final(app).wf(),
        logs(
            *old(app),
            *final(app),
            match failure {
                None => "tmux shell"@,
                Some(e) => "tmux failed: "@ + e@,
            },
        ),
{
    let msg = match failure {
        None => owned("tmux shell"),
        Some(e) => concat("tmux failed: ", e.as_str()),
    };
    app.message(msg);
}

/// The typed path with a leading `~` replaced by the home directory (when
/// it is known).
pub open spec fn teleport_spec(path: Seq<char>, home: Option<Seq<char>>) -> Seq<char> {
    if path.len() > 0 && path[0] == '~' {
        match home {
            Some(h) => h + path.skip(1),
            None => path,
        }
    } else {
        path
    }
}

/// Expands a leading `~` in a typed path.
pub fn teleport_path(path: &str, home: Option<&str>) -> (r: String)
    ensures
        r@ == teleport_spec(
            path@,
            match home {
                Some(h) => Some(h@),
                None => None,
            },
        ),
{
    let v = chars_of(path);
    if v.len() > 0 && v[0] == '~' {
        match home {
            Some(h) => {
                let mut s = owned(h);
                let rest = crate::text::slice_vec(v.as_slice(), 1, v.len());
                crate::text::push_chars(&mut s, rest.as_slice());
                s
            },
            None => owned(path),
        }
    } else {
        owned(path)
    }
}

/// What was found at a teleport target.
#[derive(Debug, Clone, Copy, PartialEq, Eq, Structural)]
pub enum Found {
    Nothing,
    File,
    Dir,
}

/// Moves the active tab to `path` (read into `listing`) when it is a
/// directory; otherwise logs why not.
pub fn finish_teleport(
    app: &mut App,
    path: String,
    found: Found,
    listing: Option<Vec<FileEntry>>,
    git: Option<GitStatus>,
)
    requires
        old(app).wf(),
    ensures
        final(app).wf(),
        found == Found::Nothing ==> logs(
            *old(app),
            *final(app),
            "os error: no file or directory found (os error 2)"@,
        ),
        found == Found::File ==> logs(
            *old(app),
            *final(app),
            "os error: not a directory (os error 20)"@,
        ),
        found == Found::Dir ==> exists|m: App|
            #![trigger tab_now(*old(app), m)]
            tab_now(*old(app), m) && cur(m).path@ == path@ && cur(m).filter@.len() == 0
                && cur(m).all_files@ == (match listing {
                Some(v) => crate::sort::insort(v@),
                None => Seq::<FileEntry>::empty(),
            }) && cur(m).files@ == crate::folder::visible(
                cur(m).all_files@,
                cur(*old(app)).show_hidden,
                Seq::<char>::empty(),
            ) && cur(m).cursor == 0 && cur(m).offset == 0 && cur(m).git == git && cur(m).show_hidden
                == cur(*old(app)).show_hidden && logs(m, *final(app), "teleported to: "@ + path@),
{
    match found {
        Found::Nothing => app.message(owned("os error: no file or directory found (os error 2)")),
        Found::File => app.message(owned("os error: not a directory (os error 20)")),
        Found::Dir => {
            let msg = concat("teleported to: ", path.as_str());
            app.current_mut().load_path(path, listing, git);
            proof {
                lemma_tabs_wf_after(*old(app), *app);
            }
            let ghost m = *app;
            app.message(msg);
            proof {
                assert(tab_now(*old(app), m));
            }
        },
    }
}

/// The page keys page the way they say, with any modifiers and whatever
/// chord key is waiting. PageDown means what Ctrl-d means and PageUp what
/// Ctrl-u means. After PageDown the cursor is 36 entries further down,
/// stopping at the last entry; after PageUp it is 36 entries further up,
/// stopping at the first; the entries stay as they were.
pub proof fn law_page_keys(a: App, b: App, mods: Mods, pending: Option<char>, act: Action)
    requires
        a.wf(),
    ensures
        normal_cmd(pending, Key { code: KeyCode::PageDown, mods }, bookmarked(a)) == single_cmd(
            Key { code: KeyCode::Char('d'), mods: Mods::Control },
        ),
        normal_cmd(pending, Key { code: KeyCode::PageUp, mods }, bookmarked(a)) == single_cmd(
            Key { code: KeyCode::Char('u'), mods: Mods::Control },
        ),
        normal_effect(a, b, normal_cmd(pending, Key { code: KeyCode::PageDown, mods }, bookmarked(a)), act)
            ==> {
            let n = cur(a).files@.len();
            &&& act is Stay
            &&& cur(b).files == cur(a).files
            &&& cur(b).cursor >= cur(a).cursor
            &&& cur(a).cursor + 36 < n ==> cur(b).cursor == cur(a).cursor + 36
            &&& cur(a).cursor + 36 >= n && n > 0 ==> cur(b).cursor == n - 1
        },
        normal_effect(a, b, normal_cmd(pending, Key { code: KeyCode::PageUp, mods }, bookmarked(a)), act)
            ==> {
            &&& act is Stay
            &&& cur(b).files == cur(a).files
            &&& cur(b).cursor <= cur(a).cursor
            &&& cur(a).cursor >= 36 ==> cur(b).cursor == cur(a).cursor - 36
            &&& cur(a).cursor < 36 ==> cur(b).cursor == 0
        },
{
    assert(cur(a).wf());
}

/// `g` then `g` goes to the top: the first `g` waits for a second key, the
/// second completes the chord.
pub proof fn law_gg_is_top(bookmarked: spec_fn(char) -> bool)
    ensures
        normal_cmd(None, Key { code: KeyCode::Char('g'), mods: Mods::Empty }, bookmarked)
            == Cmd::StartChord('g'),
        normal_cmd(Some('g'), Key { code: KeyCode::Char('g'), mods: Mods::Empty }, bookmarked)
            == Cmd::Top,
{
}

/// Escape first clears the selection; once it is empty, escape goes to the
/// parent directory.
pub proof fn law_escape_twice(a: App, b: App, c: App, act1: Action, act2: Action)
    requires
        a.selected@.len() > 0,
        normal_effect(a, b, single_cmd(Key { code: KeyCode::Esc, mods: Mods::Empty }), act1),
        normal_effect(b, c, single_cmd(Key { code: KeyCode::Esc, mods: Mods::Empty }), act2),
    ensures
        act1 is Stay,
        b.selected@.len() == 0,
        b.tabs == a.tabs,
        act2 is Parent,
        c == b,
{
}

/// The persistent selection survives navigation: moving the cursor,
/// switching tabs or panes, opening the hovered entry, going to the parent
/// directory (`h`, `H`, Left), and Esc while nothing is selected all keep
/// it as it was.
pub proof fn law_selection_survives_navigation(a: App, b: App, cmd: Cmd, act: Action)
    requires
        normal_effect(a, b, cmd, act),
        cmd is Top || cmd is Down || cmd is Up || cmd is PageDown || cmd is PageUp || cmd is Bottom
            || cmd is NextTab || cmd is PrevTab || cmd is SwapFocus || cmd is Open || cmd is Parent || (cmd is Leave
            && a.selected@.len() == 0),
    ensures
        b.selected == a.selected,
{
}

/// Entering visual mode and leaving it again restores normal mode with no
/// range marked and nothing else changed.
pub proof fn law_visual_round_trip(a: App, b: App, c: App, act1: Action, act2: Action)
    requires
        a.keybind.mode == Mode::Normal,
        a.keybind.visual_start is None,
        a.keybind.visual_end is None,
        normal_effect(a, b, Cmd::Visual, act1),
        visual_effect(b, c, VisualCmd::Exit, act2),
    ensures
        c == a,
{
}

/// A key typed into the bar and taken back with backspace leaves the bar's
/// text as it was, and a live search filters by that same text again.
pub proof fn law_search_type_backspace(a: App, b: App, c: App, ch: char)
    requires
        a.input.cursor <= a.input.buffer@.len(),
        input_effect(a, b, Key { code: KeyCode::Char(ch), mods: Mods::Empty }, Action::Stay),
        input_effect(b, c, Key { code: KeyCode::Backspace, mods: Mods::Empty }, Action::Stay),
    ensures
        c.input.buffer@ == a.input.buffer@,
        c.input.cursor == a.input.cursor,
        a.input.action == InputAction::Search ==> filter_set(cur(b), cur(c), a.input.buffer@),
{
    crate::input::law_type_then_backspace(a.input, b.input, c.input, ch);
}

} // verus!
