//! Application state: tabs, split view, the multi-selection, messages and
//! dialogs.

use vstd::prelude::*;
use std::collections::VecDeque;
use crate::config::Config;
use crate::du_view::DuView;
use crate::folder::{FileEntry, Folder, refiltered};
use crate::input::Input;
use crate::keybind::{KeybindState, Mode};
use crate::shell::{ShellCmd, views};
use crate::text::str_eq;
use crate::trash_view::TrashView;
use crate::undo::UndoStack;

verus! {

/// The most status messages kept.
pub const MAX_MESSAGES: usize = 5;

#[derive(Debug, Clone, Copy, PartialEq, Eq, Structural)]
pub enum OpMode {
    Copy,
    Cut,
    Link,
}

/// Files yanked or cut, waiting to be pasted.
pub struct FileOp {
    pub mode: OpMode,
    pub files: Vec<String>,
}

pub enum ConfirmKind {
    DeleteTrash,
    DeletePermanent,
    Archive { name: String, cwd: String },
}

/// A yes/no question about an operation on `targets`.
pub struct Confirm {
    pub kind: ConfirmKind,
    pub message: String,
    pub targets: Vec<String>,
}

/// The Copy / Move / Link choice shown before pasting.
pub struct PasteDialog {
    /// 0 = copy, 1 = move, 2 = link
    pub selected: usize,
    pub default: usize,
    pub dest_override: Option<String>,
}

#[derive(Debug, Clone, Copy, PartialEq, Eq, Structural)]
pub enum HelpVisible {
    Hidden,
    Shown,
}

pub struct App {
    pub tabs: Vec<Folder>,
    pub active: usize,
    /// When `Some(i)`, tab `i` shows in the other pane.
    pub split: Option<usize>,
    /// The persistent multi-selection, without repeats.
    pub selected: Vec<String>,
    pub keybind: KeybindState,
    pub file_op: Option<FileOp>,
    pub messages: VecDeque<String>,
    pub preview_visible: bool,
    pub input: Input,
    pub confirm: Option<Confirm>,
    pub paste_dialog: Option<PasteDialog>,
    pub help: HelpVisible,
    pub config: Config,
    pub pending_fg_shell: Option<ShellCmd>,
    pub trash_view: Option<TrashView>,
    pub du_view: Option<DuView>,
    pub undo_stack: UndoStack,
}

/// The set of selected paths.
pub open spec fn path_set(v: Seq<String>) -> Set<Seq<char>> {
    views(v).to_set()
}

/// No path is selected twice.
pub open spec fn no_repeats(v: Seq<String>) -> bool {
    views(v).no_duplicates()
}

/// The status log after `msg`: the newest five are kept.
pub open spec fn logged(msgs: Seq<Seq<char>>, msg: Seq<char>) -> Seq<Seq<char>> {
    if msgs.len() + 1 > MAX_MESSAGES {
        msgs.push(msg).drop_first()
    } else {
        msgs.push(msg)
    }
}

impl App {
    /// At least one tab; the active tab and the split tab exist; each tab's
    /// cursor is on an entry; the selection has no repeats; the config's
    /// tables have distinct keys; at most five messages; the paste dialog's
    /// choice is one of its three.
    pub open spec fn wf(&self) -> bool {
        &&& self.tabs@.len() > 0
        &&& self.active < self.tabs@.len()
        &&& (self.split matches Some(s) ==> s < self.tabs@.len())
        &&& forall|i: int| 0 <= i < self.tabs@.len() ==> (#[trigger] self.tabs@[i]).wf()
        &&& no_repeats(self.selected@)
        &&& self.config.wf()
        &&& self.messages@.len() <= MAX_MESSAGES
        &&& (self.paste_dialog matches Some(d) ==> d.selected <= 2)
    }

    /// The application with its first tab (already read), before any key.
    /// The tab shows hidden files as the config says.
    pub fn new(first: Folder, config: Config) -> (app: App)
        requires
            config.wf(),
        ensures
            app.wf(),
            app.tabs@.len() == 1,
            refiltered(
                first,
                app.tabs@[0],
                config.show_hidden,
                first.filter@,
                first.cursor as int,
                first.offset as int,
            ),
            app.config == config,
            app.active == 0,
            app.split is None,
            app.selected@.len() == 0,
            app.file_op is None,
            app.messages@.len() == 0,
            app.preview_visible,
            !app.input.active,
            app.input.buffer@.len() == 0,
            app.input.cursor == 0,
            app.keybind.mode == Mode::Normal,
            app.keybind.pending_key is None,
            app.keybind.visual_start is None,
            app.keybind.visual_end is None,
            app.confirm is None,
            app.paste_dialog is None,
            app.help == HelpVisible::Hidden,
            app.pending_fg_shell is None,
            app.trash_view is None,
            app.du_view is None,
            app.undo_stack.ops@.len() == 0,
    {
        let mut folder = first;
        folder.show_hidden = config.show_hidden;
        folder.apply_filter();
        let mut tabs = Vec::new();
        tabs.push(folder);
        App {
            tabs,
            active: 0,
            split: None,
            selected: Vec::new(),
            keybind: KeybindState::default(),
            file_op: None,
            messages: VecDeque::new(),
            preview_visible: true,
            input: Input::default(),
            confirm: None,
            paste_dialog: None,
            help: HelpVisible::Hidden,
            config,
            pending_fg_shell: None,
            trash_view: None,
            du_view: None,
            undo_stack: UndoStack::default(),
        }
    }

    /// The active tab.
    pub fn current(&self) -> (r: &Folder)
        requires
            self.wf(),
        ensures
            *r == self.tabs@[self.active as int],
    {
        &self.tabs[self.active]
    }

    /// The active tab, to change.
    pub fn current_mut(&mut self) -> (r: &mut Folder)
        requires
            old(self).wf(),
        ensures
            *final(self) == (App { tabs: final(self).tabs, ..*old(self) }),
            *r == old(self).tabs@[old(self).active as int],
            final(self).tabs@ == old(self).tabs@.update(old(self).active as int, *final(r)),
    {
        &mut self.tabs[self.active]
    }

    /// Logs a status message; only the newest five are kept.
    pub fn message(&mut self, msg: String)
        ensures
            logs(*old(self), *final(self), msg@),
            old(self).wf() ==> final(self).wf(),
    {
        let ghost m = msg@;
        self.messages.push_back(msg);
        if self.messages.len() > MAX_MESSAGES {
            self.messages.pop_front();
            proof {
                assert(views(self.messages@) =~= views(old(self).messages@).push(m).drop_first());
            }
        } else {
            proof {
                assert(views(self.messages@) =~= views(old(self).messages@).push(m));
            }
        }
    }

    /// Opens `folder` (already read) as a new tab, with the config's hidden
    /// setting applied and the cursor and scroll at the top, and makes it
    /// active.
    pub fn new_tab(&mut self, folder: Folder)
        requires
            old(self).wf(),
        ensures
            *final(self) == (App { tabs: final(self).tabs, active: final(self).active, ..*old(self) }),
            final(self).wf(),
            final(self).tabs@.len() == old(self).tabs@.len() + 1,
            final(self).tabs@.take(old(self).tabs@.len() as int) == old(self).tabs@,
            refiltered(folder, final(self).tabs@.last(), old(self).config.show_hidden, folder.filter@, 0, 0),
            final(self).tabs@.last().cursor == 0,
            final(self).tabs@.last().offset == 0,
            final(self).active == old(self).tabs@.len(),
    {
        let mut f = folder;
        f.show_hidden = self.config.show_hidden;
        f.cursor = 0;
        f.offset = 0;
        f.apply_filter();
        self.tabs.push(f);
        self.active = self.tabs.len() - 1;
        proof {
            assert(self.tabs@.take(old(self).tabs@.len() as int) =~= old(self).tabs@);
            assert forall|i: int| 0 <= i < self.tabs@.len() implies (#[trigger] self.tabs@[i]).wf() by {
                if i < old(self).tabs@.len() {
                    assert(self.tabs@[i] == old(self).tabs@[i]);
                }
            }
        }
    }

    /// Closes the active tab (never the last one). The split tab index
    /// follows the removal, and the split closes when its tab is closed.
    pub fn close_tab(&mut self)
        requires
            old(self).wf(),
        ensures
            final(self).wf(),
            tab_closed(*old(self), *final(self)),
    {
        if self.tabs.len() <= 1 {
            return;
        }
        let removed = self.active;
        self.tabs.remove(removed);
        if let Some(s) = self.split {
            if s == removed {
                self.split = None;
            } else if s > removed {
                self.split = Some(s - 1);
            }
        }
        if self.active >= self.tabs.len() {
            self.active = self.tabs.len() - 1;
        }
        proof {
            assert forall|i: int| 0 <= i < self.tabs@.len() implies (#[trigger] self.tabs@[i]).wf() by {
                if i < removed {
                    assert(self.tabs@[i] == old(self).tabs@[i]);
                } else {
                    assert(self.tabs@[i] == old(self).tabs@[i + 1]);
                }
            }
        }
    }

    /// The next tab, wrapping around.
    pub fn next_tab(&mut self)
        requires
            old(self).wf(),
        ensures
            final(self).wf(),
            tab_forward(*old(self), *final(self)),
    {
        if self.tabs.len() == 0 {
            return;
        }
        self.active = if self.active + 1 == self.tabs.len() {
            0
        } else {
            self.active + 1
        };
        proof {
            if old(self).active + 1 == old(self).tabs@.len() {
                vstd::arithmetic::div_mod::lemma_mod_self_0(old(self).tabs@.len() as int);
            } else {
                vstd::arithmetic::div_mod::lemma_small_mod(
                    (old(self).active + 1) as nat,
                    old(self).tabs@.len() as nat,
                );
            }
        }
    }

    /// The previous tab, wrapping around.
    pub fn prev_tab(&mut self)
        requires
            old(self).wf(),
        ensures
            final(self).wf(),
            tab_back(*old(self), *final(self)),
    {
        if self.tabs.len() == 0 {
            return;
        }
        self.active = if self.active == 0 {
            self.tabs.len() - 1
        } else {
            self.active - 1
        };
    }

    /// Closes the split view when it is open; otherwise opens `fresh` (the
    /// active tab's directory, read again) as a new active tab, shown side by
    /// side with the tab that was active.
    pub fn toggle_split(&mut self, fresh: Folder)
        requires
            old(self).wf(),
        ensures
            *final(self) == (App { tabs: final(self).tabs, active: final(self).active, split: final(self).split, ..*old(self) }),
            final(self).wf(),
            old(self).split is Some ==> {
                &&& final(self).split is None
                &&& final(self).tabs == old(self).tabs
                &&& final(self).active == old(self).active
            },
            old(self).split is None ==> {
                &&& final(self).tabs@.len() == old(self).tabs@.len() + 1
                &&& final(self).tabs@.take(old(self).tabs@.len() as int) == old(self).tabs@
                &&& refiltered(fresh, final(self).tabs@.last(), old(self).config.show_hidden, fresh.filter@, 0, 0)
                &&& final(self).active == old(self).tabs@.len()
                &&& final(self).split == Some(old(self).active)
            },
            final(self).selected == old(self).selected,
            final(self).messages == old(self).messages,
            final(self).config == old(self).config,
    {
        if self.split.is_some() {
            self.split = None;
            return;
        }
        let was = self.active;
        self.new_tab(fresh);
        self.split = Some(was);
    }

    /// Moves focus to the other pane of the split.
    pub fn swap_split_focus(&mut self)
        requires
            old(self).wf(),
        ensures
            final(self).wf(),
            focus_swapped(*old(self), *final(self)),
    {
        if let Some(s) = self.split {
            let was = self.active;
            self.active = s;
            self.split = Some(was);
        }
    }

    /// Index of `path` in the selection.
    fn selected_index(&self, path: &str) -> (r: Option<usize>)
        ensures
            match r {
                Some(i) => i < self.selected@.len() && self.selected@[i as int]@ == path@,
                None => !path_set(self.selected@).contains(path@),
            },
    {
        let mut i: usize = 0;
        while i < self.selected.len()
            invariant
                i <= self.selected@.len(),
                forall|j: int| 0 <= j < i ==> self.selected@[j]@ != path@,
            decreases self.selected@.len() - i,
        {
            if str_eq(self.selected[i].as_str(), path) {
                return Some(i);
            }
            i = i + 1;
        }
        proof {
            if views(self.selected@).contains(path@) {
                let k = choose|k: int| 0 <= k < views(self.selected@).len() && views(self.selected@)[k] == path@;
                assert(self.selected@[k]@ == path@);
            }
        }
        None
    }

    /// Adds `path` to the selection, or removes it when it is there.
    pub fn toggle_selected(&mut self, path: String)
        requires
            old(self).wf(),
        ensures
            final(self).wf(),
            selection_toggled(*old(self), *final(self), path@),
    {
        match self.selected_index(path.as_str()) {
            Some(i) => {
                let ghost before = self.selected@;
                self.selected.remove(i);
                proof {
                    lemma_remove_from_set(before, i as int);
                    assert(views(before)[i as int] == path@);
                    assert(path_set(before).contains(path@));
                }
            },
            None => {
                let ghost before = self.selected@;
                self.selected.push(path);
                proof {
                    lemma_push_to_set(before, path);
                }
            },
        }
    }

    /// Empties the selection.
    pub fn clear_selected(&mut self)
        requires
            old(self).wf(),
        ensures
            final(self).wf(),
            selection_cleared(*old(self), *final(self)),
    {
        self.selected = Vec::new();
        proof {
            assert(views(self.selected@) =~= Seq::<Seq<char>>::empty());
        }
    }

    /// Adds every shown entry of the active tab to the selection.
    pub fn select_all(&mut self)
        requires
            old(self).wf(),
        ensures
            final(self).wf(),
            all_selected(*old(self), *final(self)),
    {
        let ghost files = self.tabs@[self.active as int].files@;
        let ghost paths = views(files.map_values(|e: FileEntry| e.path));
        let n = self.tabs[self.active].files.len();
        assert(paths.len() == n);
        let mut i: usize = 0;
        while i < n
            invariant
                self.wf(),
                i <= n,
                n == files.len(),
                paths.len() == n,
                paths == views(files.map_values(|e: FileEntry| e.path)),
                self.tabs@[self.active as int].files@ == files,
                self.tabs == old(self).tabs,
                self.active == old(self).active,
                self.split == old(self).split,
                self.messages == old(self).messages,
                self.config == old(self).config,
                *self == (App { selected: self.selected, ..*old(self) }),
                path_set(self.selected@) == path_set(old(self).selected@).union(
                    paths.take(i as int).to_set(),
                ),
            decreases n - i,
        {
            let p = self.tabs[self.active].files[i].path.clone();
            assert(paths[i as int] == p@);
            let ghost before = path_set(self.selected@);
            match self.selected_index(p.as_str()) {
                None => {
                    let ghost b = self.selected@;
                    self.selected.push(p);
                    proof {
                        lemma_push_to_set(b, p);
                    }
                },
                Some(k) => {
                    proof {
                        assert(views(self.selected@)[k as int] == p@);
                        assert(path_set(self.selected@).contains(p@));
                    }
                },
            }
            proof {
                assert(paths.take(i + 1) =~= paths.take(i as int) + seq![p@]);
                Seq::lemma_to_set_insert_commutes(paths.take(i as int), p@);
                assert(path_set(self.selected@) =~= path_set(old(self).selected@).union(
                    paths.take(i + 1).to_set(),
                ));
            }
            i = i + 1;
        }
        assert(paths.take(n as int) =~= paths);
    }

    /// Adds `paths` to the selection (those already in it stay once).
    pub fn add_selected(&mut self, paths: &[String])
        requires
            old(self).wf(),
        ensures
            final(self).wf(),
            selection_grown(*old(self), *final(self), views(paths@)),
    {
        let mut i: usize = 0;
        while i < paths.len()
            invariant
                self.wf(),
                i <= paths@.len(),
                *self == (App { selected: self.selected, ..*old(self) }),
                path_set(self.selected@) == path_set(old(self).selected@).union(
                    views(paths@).take(i as int).to_set(),
                ),
            decreases paths@.len() - i,
        {
            let p = paths[i].clone();
            match self.selected_index(p.as_str()) {
                None => {
                    let ghost b = self.selected@;
                    self.selected.push(p);
                    proof {
                        lemma_push_to_set(b, p);
                    }
                },
                Some(k) => {
                    proof {
                        assert(views(self.selected@)[k as int] == p@);
                        assert(path_set(self.selected@).contains(p@));
                    }
                },
            }
            proof {
                assert(views(paths@).take(i + 1) =~= views(paths@).take(i as int) + seq![p@]);
                Seq::lemma_to_set_insert_commutes(views(paths@).take(i as int), p@);
                assert(path_set(self.selected@) =~= path_set(old(self).selected@).union(
                    views(paths@).take(i + 1).to_set(),
                ));
            }
            i = i + 1;
        }
        assert(views(paths@).take(paths@.len() as int) =~= views(paths@));
    }

    /// What an operation acts on: the selection when there is one, else the
    /// hovered entry, else nothing.
    pub open spec fn target_views(&self) -> Seq<Seq<char>> {
        if self.selected@.len() > 0 {
            views(self.selected@)
        } else {
            match self.tabs@[self.active as int].hovered_spec() {
                Some(e) => seq![e.path@],
                None => Seq::empty(),
            }
        }
    }

    /// The files an operation acts on: the selection when there is one,
    /// else the hovered entry, else none.
    pub fn targets(&self) -> (r: Vec<String>)
        requires
            self.wf(),
        ensures
            views(r@) == self.target_views(),
    {
        if self.selected.len() > 0 {
            let mut out: Vec<String> = Vec::new();
            let mut i: usize = 0;
            while i < self.selected.len()
                invariant
                    i <= self.selected@.len(),
                    views(out@) == views(self.selected@.take(i as int)),
                decreases self.selected@.len() - i,
            {
                let ghost old_out = out@;
                out.push(self.selected[i].clone());
                proof {
                    lemma_views_push(self.selected@.take(i as int), self.selected@[i as int]);
                    assert(self.selected@.take(i + 1) =~= self.selected@.take(i as int).push(
                        self.selected@[i as int],
                    ));
                    lemma_views_push(old_out, self.selected@[i as int]);
                }
                i = i + 1;
            }
            assert(self.selected@.take(self.selected@.len() as int) =~= self.selected@);
            out
        } else {
            match self.current().hovered() {
                Some(e) => {
                    let mut out: Vec<String> = Vec::new();
                    out.push(e.path.clone());
                    assert(views(out@) =~= seq![e.path@]);
                    out
                },
                None => Vec::new(),
            }
        }
    }
}

pub proof fn lemma_views_push(v: Seq<String>, x: String)
    ensures
        views(v.push(x)) == views(v).push(x@),
{
    assert(views(v.push(x)) =~= views(v).push(x@));
}

proof fn lemma_remove_from_set(v: Seq<String>, i: int)
    requires
        no_repeats(v),
        0 <= i < v.len(),
    ensures
        no_repeats(v.remove(i)),
        path_set(v.remove(i)) == path_set(v).remove(v[i]@),
{
    let w = v.remove(i);
    assert(views(w) =~= views(v).remove(i));
    assert forall|a: int, b: int| 0 <= a < views(w).len() && 0 <= b < views(w).len() && a != b implies views(w)[a] != views(w)[b] by {
        let a2 = if a < i { a } else { a + 1 };
        let b2 = if b < i { b } else { b + 1 };
        assert(views(w)[a] == views(v)[a2]);
        assert(views(w)[b] == views(v)[b2]);
    }
    assert forall|x: Seq<char>| path_set(w).contains(x) <==> path_set(v).remove(v[i]@).contains(x) by {
        if path_set(w).contains(x) {
            let k = choose|k: int| 0 <= k < views(w).len() && views(w)[k] == x;
            let k2 = if k < i { k } else { k + 1 };
            assert(views(v)[k2] == x);
            assert(views(v)[i] == v[i]@);
        }
        if path_set(v).remove(v[i]@).contains(x) {
            let k = choose|k: int| 0 <= k < views(v).len() && views(v)[k] == x;
            assert(k != i);
            let k2 = if k < i { k } else { k - 1 };
            assert(views(w)[k2] == x);
        }
    }
    assert(path_set(w) =~= path_set(v).remove(v[i]@));
}

proof fn lemma_push_to_set(v: Seq<String>, p: String)
    requires
        no_repeats(v),
        !path_set(v).contains(p@),
    ensures
        no_repeats(v.push(p)),
        path_set(v.push(p)) == path_set(v).insert(p@),
{
    let w = v.push(p);
    assert(views(w) =~= views(v).push(p@));
    assert forall|a: int, b: int| 0 <= a < views(w).len() && 0 <= b < views(w).len() && a != b implies views(w)[a] != views(w)[b] by {
        if a == v.len() {
            assert(!views(v).contains(p@));
            if b < v.len() {
                assert(views(v)[b] == views(w)[b]);
            }
        } else if b == v.len() {
            assert(!views(v).contains(p@));
            assert(views(v)[a] == views(w)[a]);
        }
    }
    assert forall|x: Seq<char>| path_set(w).contains(x) <==> path_set(v).insert(p@).contains(x) by {
        if path_set(w).contains(x) {
            let k = choose|k: int| 0 <= k < views(w).len() && views(w)[k] == x;
            if k < v.len() {
                assert(views(v)[k] == x);
            }
        }
        if path_set(v).contains(x) {
            let k = choose|k: int| 0 <= k < views(v).len() && views(v)[k] == x;
            assert(views(w)[k] == x);
        }
        if x == p@ {
            assert(views(w)[v.len() as int] == x);
        }
    }
    assert(path_set(w) =~= path_set(v).insert(p@));
}

/// Toggling the same path twice leaves the selection as it was (as a set)
/// and changes nothing else.
pub proof fn law_toggle_twice(a: App, b: App, c: App, p: Seq<char>)
    requires
        selection_toggled(a, b, p),
        selection_toggled(b, c, p),
    ensures
        path_set(c.selected@) == path_set(a.selected@),
        c == (App { selected: c.selected, ..a }),
{
    let s = path_set(a.selected@);
    if s.contains(p) {
        assert(s.remove(p).insert(p) =~= s);
    } else {
        assert(s.insert(p).remove(p) =~= s);
    }
}

/// Going to the next tab and back lands on the tab one started from.
pub proof fn law_next_then_prev(a: App, b: App, c: App)
    requires
        a.wf(),
        tab_forward(a, b),
        tab_back(b, c),
    ensures
        c == a,
{
    let n = a.tabs@.len() as int;
    if a.active + 1 == n {
        vstd::arithmetic::div_mod::lemma_mod_self_0(n);
    } else {
        vstd::arithmetic::div_mod::lemma_small_mod((a.active + 1) as nat, n as nat);
    }
}

/// The status log keeps at most five messages and ends with the newest.
pub proof fn law_message_log(msgs: Seq<Seq<char>>, msg: Seq<char>)
    requires
        msgs.len() <= MAX_MESSAGES,
    ensures
        logged(msgs, msg).len() <= MAX_MESSAGES,
        logged(msgs, msg).last() == msg,
{
}

// ---------------------------------------------------------------------------
// What each operation makes of the application state
// ---------------------------------------------------------------------------
/// The active tab.
pub open spec fn cur(a: App) -> Folder {
    a.tabs@[a.active as int]
}

/// `b` is `a` with `msg` logged.
pub open spec fn logs(a: App, b: App, msg: Seq<char>) -> bool {
    b == (App { messages: b.messages, ..a }) && views(b.messages@) == logged(views(a.messages@), msg)
}

/// The active tab closed (never the last one); the split tab index follows
/// the removal and the split closes with its tab.
pub open spec fn tab_closed(a: App, b: App) -> bool {
    &&& b == (App { tabs: b.tabs, active: b.active, split: b.split, ..a })
    &&& a.tabs@.len() <= 1 ==> b == a
    &&& a.tabs@.len() > 1 ==> {
        &&& b.tabs@ == a.tabs@.remove(a.active as int)
        &&& b.split == match a.split {
            Some(s) => if s == a.active {
                None
            } else if s > a.active {
                Some((s - 1) as usize)
            } else {
                Some(s)
            },
            None => None,
        }
        &&& b.active == (if a.active >= b.tabs@.len() {
            b.tabs@.len() - 1
        } else {
            a.active as int
        })
    }
}

/// The next tab, wrapping around.
pub open spec fn tab_forward(a: App, b: App) -> bool {
    b == (App { active: b.active, ..a }) && b.active == (a.active + 1) % (a.tabs@.len() as int)
}

/// The previous tab, wrapping around.
pub open spec fn tab_back(a: App, b: App) -> bool {
    b == (App { active: b.active, ..a }) && b.active == (if a.active == 0 {
        a.tabs@.len() - 1
    } else {
        a.active - 1
    })
}

/// Focus on the other pane of the split, when there is one.
pub open spec fn focus_swapped(a: App, b: App) -> bool {
    b == (App { active: b.active, split: b.split, ..a }) && match a.split {
        Some(s) => b.active == s && b.split == Some(a.active),
        None => b == a,
    }
}

/// `p` added to the selection, or removed when it was there.
pub open spec fn selection_toggled(a: App, b: App, p: Seq<char>) -> bool {
    b == (App { selected: b.selected, ..a }) && path_set(b.selected@) == (if path_set(
        a.selected@,
    ).contains(p) {
        path_set(a.selected@).remove(p)
    } else {
        path_set(a.selected@).insert(p)
    })
}

/// The selection emptied.
pub open spec fn selection_cleared(a: App, b: App) -> bool {
    b == (App { selected: b.selected, ..a }) && b.selected@.len() == 0
}

/// The paths of `files`.
pub open spec fn paths_of(files: Seq<FileEntry>) -> Seq<Seq<char>> {
    views(files.map_values(|e: FileEntry| e.path))
}

/// Every shown entry of the active tab added to the selection.
pub open spec fn all_selected(a: App, b: App) -> bool {
    b == (App { selected: b.selected, ..a }) && path_set(b.selected@) == path_set(a.selected@).union(
        paths_of(cur(a).files@).to_set(),
    )
}

/// `paths` added to the selection.
pub open spec fn selection_grown(a: App, b: App, paths: Seq<Seq<char>>) -> bool {
    b == (App { selected: b.selected, ..a }) && path_set(b.selected@) == path_set(a.selected@).union(
        paths.to_set(),
    )
}

} // verus!
