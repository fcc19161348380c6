//! File operations on the application state: yank, cut, the paste dialog,
//! trashing and deleting with confirmation.
//!
//! Copying, moving, trashing and deleting files is the caller's part; these
//! functions decide what to do and record the outcome it reports.

use vstd::prelude::*;
use crate::app::{App, Confirm, ConfirmKind, FileOp, OpMode, PasteDialog, logged};
use crate::paths::{name_or_question, path_join, file_name, join};
use crate::shell::views;
use crate::text::{chars_of, dec, owned, push_dec, push_str, rfind_char, slice_vec, string_of, push_chars};

verus! {

/// `""` for one, `"s"` otherwise.
pub open spec fn plural_spec(n: nat) -> Seq<char> {
    if n == 1 {
        ""@
    } else {
        "s"@
    }
}

pub fn plural(n: usize) -> (r: &'static str)
    ensures
        r@ == plural_spec(n as nat),
{
    if n == 1 {
        ""
    } else {
        "s"
    }
}

/// `a`, the number `n`, then `b`.
fn numbered(a: &str, n: usize, b: &str) -> (r: String)
    ensures
        r@ == a@ + dec(n as nat) + b@,
{
    let mut s = owned(a);
    push_dec(&mut s, n as u64);
    push_str(&mut s, b);
    s
}

/// `verb N itemS`.
pub open spec fn items_msg(verb: Seq<char>, n: nat) -> Seq<char> {
    verb + dec(n) + " item"@ + plural_spec(n)
}

fn items_message(verb: &str, n: usize) -> (r: String)
    ensures
        r@ == items_msg(verb@, n as nat),
{
    let mut s = numbered(verb, n, " item");
    push_str(&mut s, plural(n));
    s
}

/// Puts the targets on the clipboard for `mode`, logging `verb N item(s)`.
fn stash(app: &mut App, mode: OpMode, verb: &str)
    requires
        old(app).wf(),
    ensures
        final(app).wf(),
        stashed(*old(app), *final(app), mode, verb@),
{
    let targets = app.targets();
    if targets.len() == 0 {
        return;
    }
    let n = targets.len();
    app.file_op = Some(FileOp { mode, files: targets });
    let m = items_message(verb, n);
    app.message(m);
}

/// Yanks the targets (selection, else hovered entry) for copying.
pub fn yank_targets(app: &mut App)
    requires
        old(app).wf(),
    ensures
        final(app).wf(),
        stashed(*old(app), *final(app), OpMode::Copy, "yanked "@),
{
    stash(app, OpMode::Copy, "yanked ");
}

/// Cuts the targets (selection, else hovered entry) for moving.
pub fn cut_targets(app: &mut App)
    requires
        old(app).wf(),
    ensures
        final(app).wf(),
        stashed(*old(app), *final(app), OpMode::Cut, "cut "@),
{
    stash(app, OpMode::Cut, "cut ");
}

/// The dialog choice for a clipboard mode: 0 copy, 1 move, 2 link.
pub open spec fn mode_index(m: OpMode) -> usize {
    match m {
        OpMode::Copy => 0,
        OpMode::Cut => 1,
        OpMode::Link => 2,
    }
}

/// Opens the paste dialog on the clipboard's mode; with an empty clipboard
/// it logs `clipboard empty` instead.
pub fn open_paste_dialog(app: &mut App)
    requires
        old(app).wf(),
    ensures
        final(app).wf(),
        paste_opened(*old(app), *final(app)),
{
    let default: usize = match &app.file_op {
        Some(op) => match op.mode {
            OpMode::Copy => 0,
            OpMode::Cut => 1,
            OpMode::Link => 2,
        },
        None => {
            app.message(owned("clipboard empty"));
            return;
        },
    };
    app.paste_dialog = Some(PasteDialog { selected: default, default, dest_override: None });
}

/// Yanks the targets and opens the paste dialog aimed at the other pane of
/// the split (copy preselected).
pub fn send_to_other_pane(app: &mut App)
    requires
        old(app).wf(),
    ensures
        final(app).wf(),
        sent_to_other(*old(app), *final(app)),
{
    let other = match app.split {
        Some(o) => o,
        None => {
            app.message(owned("not in split mode (press `|`)"));
            return;
        },
    };
    let targets = app.targets();
    if targets.len() == 0 {
        return;
    }
    let dest = app.tabs[other].path.clone();
    let n = targets.len();
    app.file_op = Some(FileOp { mode: OpMode::Copy, files: targets });
    app.paste_dialog = Some(PasteDialog { selected: 0, default: 0, dest_override: Some(dest) });
    let m = numbered("send ", n, " item(s) to other pane");
    app.message(m);
}

/// Starts a paste: the clipboard's files and the destination directory
/// (`dest_override`, else the active tab's). With an empty clipboard it logs
/// `clipboard empty` and returns `None`.
pub fn begin_paste(app: &mut App, dest_override: Option<String>) -> (r: Option<(Vec<String>, String)>)
    requires
        old(app).wf(),
    ensures
        *final(app) == (App { messages: final(app).messages, ..*old(app) }),
        final(app).wf(),
        match old(app).file_op {
            None => r is None && views(final(app).messages@) == logged(
                views(old(app).messages@),
                "clipboard empty"@,
            ),
            Some(op) => r matches Some((files, dest)) && views(files@) == views(op.files@) && dest@
                == (match dest_override {
                Some(d) => d@,
                None => old(app).tabs@[old(app).active as int].path@,
            }) && final(app).messages == old(app).messages,
        },
{
    let files = match &app.file_op {
        Some(op) => {
            let mut v: Vec<String> = Vec::new();
            let mut i: usize = 0;
            while i < op.files.len()
                invariant
                    i <= op.files@.len(),
                    views(v@) == views(op.files@.take(i as int)),
                decreases op.files@.len() - i,
            {
                let ghost before = v@;
                v.push(op.files[i].clone());
                proof {
                    crate::app::lemma_views_push(before, op.files@[i as int]);
                    crate::app::lemma_views_push(op.files@.take(i as int), op.files@[i as int]);
                    assert(op.files@.take(i + 1) =~= op.files@.take(i as int).push(op.files@[i as int]));
                }
                i = i + 1;
            }
            assert(op.files@.take(op.files@.len() as int) =~= op.files@);
            v
        },
        None => {
            app.message(owned("clipboard empty"));
            return None;
        },
    };
    let dest = match dest_override {
        Some(d) => d,
        None => app.current().path.clone(),
    };
    Some((files, dest))
}

/// `copied`, `moved` or `linked`.
pub open spec fn paste_label(mode: OpMode) -> Seq<char> {
    match mode {
        OpMode::Copy => "copied"@,
        OpMode::Cut => "moved"@,
        OpMode::Link => "linked"@,
    }
}

/// `label N`, with ` (M skipped)` when some failed.
pub open spec fn outcome_msg(label: Seq<char>, ok: nat, skipped: nat) -> Seq<char> {
    if skipped > 0 {
        label + " "@ + dec(ok) + " ("@ + dec(skipped) + " skipped)"@
    } else {
        label + " "@ + dec(ok)
    }
}

fn outcome_message(label: &str, ok: usize, skipped: usize) -> (r: String)
    ensures
        r@ == outcome_msg(label@, ok as nat, skipped as nat),
{
    let mut s = owned(label);
    push_str(&mut s, " ");
    push_dec(&mut s, ok as u64);
    if skipped > 0 {
        push_str(&mut s, " (");
        push_dec(&mut s, skipped as u64);
        push_str(&mut s, " skipped)");
    }
    s
}

/// Records a paste of which `ok` files went through and `skipped` failed:
/// logs the outcome, empties the clipboard after a move or link (a yank
/// stays), and clears the selection.
pub fn finish_paste(app: &mut App, mode: OpMode, ok: usize, skipped: usize)
    requires
        old(app).wf(),
    ensures
        *final(app) == (App { file_op: final(app).file_op, messages: final(app).messages, selected: final(app).selected, ..*old(app) }),
        final(app).wf(),
        views(final(app).messages@) == logged(
            views(old(app).messages@),
            outcome_msg(paste_label(mode), ok as nat, skipped as nat),
        ),
        mode == OpMode::Copy ==> final(app).file_op == old(app).file_op,
        mode != OpMode::Copy ==> final(app).file_op is None,
        final(app).selected@.len() == 0,
{
    let label = match mode {
        OpMode::Copy => "copied",
        OpMode::Cut => "moved",
        OpMode::Link => "linked",
    };
    let m = outcome_message(label, ok, skipped);
    app.message(m);
    if mode == OpMode::Cut || mode == OpMode::Link {
        app.file_op = None;
    }
    app.clear_selected();
}

/// The question before acting on `targets`: for one target its file name
/// (`?` without one), else the count.
pub open spec fn question(one_pre: Seq<char>, many_pre: Seq<char>, many_post: Seq<char>, targets: Seq<Seq<char>>) -> Seq<char> {
    if targets.len() == 1 {
        one_pre + name_or_question(targets[0]) + "? (y/N)"@
    } else {
        many_pre + dec(targets.len()) + " item"@ + plural_spec(targets.len()) + many_post
    }
}

fn question_message(one_pre: &str, many_pre: &str, many_post: &str, targets: &Vec<String>) -> (r: String)
    ensures
        r@ == question(one_pre@, many_pre@, many_post@, views(targets@)),
{
    if targets.len() == 1 {
        let mut s = owned(one_pre);
        match file_name(targets[0].as_str()) {
            Some(n) => push_str(&mut s, n.as_str()),
            None => {
                push_str(&mut s, "?");
                proof {
                    reveal_strlit("?");
                    assert("?"@ =~= seq!['?']);
                }
            },
        }
        push_str(&mut s, "? (y/N)");
        s
    } else {
        let mut s = items_message(many_pre, targets.len());
        push_str(&mut s, many_post);
        s
    }
}

/// Asks before trashing the targets; when the config turns confirmation off
/// it returns them to be trashed at once (the outcome goes to `finish_trash`).
pub fn trash_targets(app: &mut App) -> (now: Option<Vec<String>>)
    requires
        old(app).wf(),
    ensures
        final(app).wf(),
        trash_asked(*old(app), *final(app), now),
{
    let targets = app.targets();
    if targets.len() == 0 {
        return None;
    }
    if !app.config.confirm_delete {
        return Some(targets);
    }
    let msg = question_message("Move to trash: ", "Move ", " to trash? (y/N)", &targets);
    app.confirm = Some(Confirm { kind: ConfirmKind::DeleteTrash, message: msg, targets });
    None
}

/// Asks before deleting the targets permanently.
pub fn delete_targets_permanent(app: &mut App)
    requires
        old(app).wf(),
    ensures
        final(app).wf(),
        delete_asked(*old(app), *final(app)),
{
    let targets = app.targets();
    if targets.len() == 0 {
        return;
    }
    let msg = question_message("PERMANENTLY delete: ", "PERMANENTLY delete ", "? (y/N)", &targets);
    app.confirm = Some(Confirm { kind: ConfirmKind::DeletePermanent, message: msg, targets });
}

/// Accepts the open question: takes it off the screen and returns it, to be
/// carried out (its outcome then goes to `finish_trash`, `finish_delete` or
/// `finish_archive`).
pub fn confirm_yes(app: &mut App) -> (c: Option<Confirm>)
    requires
        old(app).wf(),
    ensures
        final(app).wf(),
        c == old(app).confirm,
        *final(app) == (App { confirm: None, ..*old(app) }),
{
    app.confirm.take()
}

/// Declines the open question.
pub fn confirm_no(app: &mut App)
    requires
        old(app).wf(),
    ensures
        final(app).wf(),
        declined(*old(app), *final(app)),
{
    app.confirm = None;
    app.message(owned("cancelled"));
}

/// Records a trash run: `ok` items trashed, `skipped` failed. Logs the
/// outcome and clears the selection.
pub fn finish_trash(app: &mut App, ok: usize, skipped: usize)
    requires
        old(app).wf(),
    ensures
        *final(app) == (App { messages: final(app).messages, selected: final(app).selected, ..*old(app) }),
        final(app).wf(),
        views(final(app).messages@) == logged(
            views(old(app).messages@),
            outcome_msg("trashed"@, ok as nat, skipped as nat),
        ),
        final(app).selected@.len() == 0,
{
    let m = outcome_message("trashed", ok, skipped);
    app.message(m);
    app.clear_selected();
}

/// Records a permanent deletion: `ok` removed, `skipped` failed.
pub fn finish_delete(app: &mut App, ok: usize, skipped: usize)
    requires
        old(app).wf(),
    ensures
        *final(app) == (App { messages: final(app).messages, selected: final(app).selected, ..*old(app) }),
        final(app).wf(),
        views(final(app).messages@) == logged(
            views(old(app).messages@),
            outcome_msg("deleted"@, ok as nat, skipped as nat),
        ),
        final(app).selected@.len() == 0,
{
    let m = outcome_message("deleted", ok, skipped);
    app.message(m);
    app.clear_selected();
}

/// Records an archive run for `name`: `failure` holds the error text when
/// it failed.
pub fn finish_archive(app: &mut App, name: &str, failure: Option<String>)
    requires
        old(app).wf(),
    ensures
        *final(app) == (App { messages: final(app).messages, selected: final(app).selected, ..*old(app) }),
        final(app).wf(),
        views(final(app).messages@) == logged(
            views(old(app).messages@),
            match failure {
                None => "archived → "@ + name@,
                Some(e) => "archive failed: "@ + e@,
            },
        ),
        final(app).selected@.len() == 0,
{
    let m = match failure {
        None => {
            let mut s = owned("archived → ");
            push_str(&mut s, name);
            s
        },
        Some(e) => {
            let mut s = owned("archive failed: ");
            push_str(&mut s, e.as_str());
            s
        },
    };
    app.message(m);
    app.clear_selected();
}

/// The `n`-th alternative name for `name` when it is taken: `stem (n).ext`,
/// split at the last `.` unless that is the first character.
pub open spec fn alternative_name(name: Seq<char>, n: nat) -> Seq<char> {
    let cut = if exists|i: int|
        0 < i < name.len() && name[i] == '.' && forall|j: int| i < j < name.len() ==> name[j] != '.' {
        choose|i: int|
            0 < i < name.len() && name[i] == '.' && forall|j: int| i < j < name.len() ==> name[j] != '.'
    } else {
        name.len() as int
    };
    name.take(cut) + " ("@ + dec(n) + ")"@ + name.skip(cut)
}

/// Where a pasted `name` goes in `dir` when the plain name is taken: the
/// `n`-th alternative (`stem (n).ext`).
pub fn dest_candidate(dir: &str, name: &str, n: u32) -> (r: String)
    ensures
        r@ == path_join(dir@, alternative_name(name@, n as nat)),
{
    let s = alternative(name, n);
    join(dir, s.as_str())
}

/// The `n`-th alternative for `name` (`stem (n).ext`).
pub fn alternative(name: &str, n: u32) -> (r: String)
    ensures
        r@ == alternative_name(name@, n as nat),
{
    let v = chars_of(name);
    let cut = match rfind_char(v.as_slice(), '.') {
        Some(i) if i > 0 => i,
        _ => v.len(),
    };
    proof {
        let p = name@;
        if cut < p.len() {
            let c = choose|i: int|
                0 < i < p.len() && p[i] == '.' && forall|j: int| i < j < p.len() ==> p[j] != '.';
            assert(0 < c < p.len() && p[c] == '.' && forall|j: int| c < j < p.len() ==> p[j] != '.');
            if c < cut {
                assert(p[cut as int] == '.');
            }
            if cut < c {
                assert(p[c] != '.');
            }
        } else {
            assert forall|i: int| 0 < i < p.len() && p[i] == '.' implies exists|j: int|
                i < j < p.len() && p[j] == '.' by {
            }
        }
    }
    let stem = slice_vec(v.as_slice(), 0, cut);
    let ext = slice_vec(v.as_slice(), cut, v.len());
    let mut s = string_of(stem.as_slice());
    push_str(&mut s, " (");
    push_dec(&mut s, n as u64);
    push_str(&mut s, ")");
    push_chars(&mut s, ext.as_slice());
    s
}

/// The `n`-th name tried for a pasted `name`: the name itself first, then
/// its alternatives.
pub open spec fn candidate(name: Seq<char>, n: nat) -> Seq<char> {
    if n == 0 {
        name
    } else {
        alternative_name(name, n)
    }
}

/// How many names are tried before giving up.
pub const MAX_TRIES: u32 = 1000;

/// The first name tried, from the `n`-th on, that is not in `taken`; the
/// plain `name` when all the tries are taken.
pub open spec fn first_free(name: Seq<char>, taken: Seq<Seq<char>>, n: nat) -> Seq<char>
    decreases MAX_TRIES - n,
{
    if n >= MAX_TRIES {
        name
    } else if !taken.contains(candidate(name, n)) {
        candidate(name, n)
    } else {
        first_free(name, taken, n + 1)
    }
}

proof fn lemma_first_free(name: Seq<char>, taken: Seq<Seq<char>>, n: nat)
    ensures
        !taken.contains(first_free(name, taken, n)) || forall|m: nat|
            n <= m < MAX_TRIES ==> taken.contains(#[trigger] candidate(name, m)),
    decreases MAX_TRIES - n,
{
    if n < MAX_TRIES && taken.contains(candidate(name, n)) {
        lemma_first_free(name, taken, n + 1);
        assert(first_free(name, taken, n) == first_free(name, taken, n + 1));
        if taken.contains(first_free(name, taken, n)) {
            assert forall|m: nat| n <= m < MAX_TRIES implies taken.contains(
                #[trigger] candidate(name, m),
            ) by {
                if m > n {
                    assert(n + 1 <= m);
                }
            }
        }
    }
}

/// Whether `c` is one of `taken`.
fn is_taken(taken: &Vec<String>, c: &str) -> (r: bool)
    ensures
        r == views(taken@).contains(c@),
{
    let mut i: usize = 0;
    while i < taken.len()
        invariant
            i <= taken@.len(),
            forall|j: int| 0 <= j < i ==> taken@[j]@ != c@,
        decreases taken@.len() - i,
    {
        if crate::text::str_eq(taken[i].as_str(), c) {
            assert(views(taken@)[i as int] == c@);
            return true;
        }
        i = i + 1;
    }
    proof {
        if views(taken@).contains(c@) {
            let k = choose|k: int| 0 <= k < views(taken@).len() && views(taken@)[k] == c@;
            assert(taken@[k]@ == c@);
        }
    }
    false
}

/// The name a pasted `name` gets in a directory holding the names `taken`:
/// the name itself when it is free, else the first free `stem (n).ext` for
/// n from 1 to 999, else the name itself.
pub fn unique_name(name: &str, taken: &Vec<String>) -> (r: String)
    ensures
        r@ == first_free(name@, views(taken@), 0),
        !views(taken@).contains(r@) || forall|m: nat|
            m < MAX_TRIES ==> views(taken@).contains(#[trigger] candidate(name@, m)),
{
    proof {
        lemma_first_free(name@, views(taken@), 0);
    }
    let mut n: u32 = 0;
    while n < MAX_TRIES
        invariant
            n <= MAX_TRIES,
            first_free(name@, views(taken@), 0) == first_free(name@, views(taken@), n as nat),
        decreases MAX_TRIES - n,
    {
        let c = if n == 0 {
            owned(name)
        } else {
            alternative(name, n)
        };
        assert(c@ == candidate(name@, n as nat));
        if !is_taken(taken, c.as_str()) {
            return c;
        }
        n = n + 1;
    }
    owned(name)
}

// ---------------------------------------------------------------------------
// What each operation makes of the application state
// ---------------------------------------------------------------------------
/// The targets put on the clipboard for `mode`, with `verb N item(s)`
/// logged; without targets nothing changes.
pub open spec fn stashed(a: App, b: App, mode: OpMode, verb: Seq<char>) -> bool {
    &&& b == (App { file_op: b.file_op, messages: b.messages, ..a })
    &&& a.target_views().len() == 0 ==> b == a
    &&& a.target_views().len() > 0 ==> {
        &&& b.file_op matches Some(op) && op.mode == mode && views(op.files@) == a.target_views()
        &&& views(b.messages@) == logged(views(a.messages@), items_msg(verb, a.target_views().len()))
    }
}

/// The paste dialog opened on the clipboard's mode; with an empty clipboard
/// `clipboard empty` logged instead.
pub open spec fn paste_opened(a: App, b: App) -> bool {
    &&& b == (App { paste_dialog: b.paste_dialog, messages: b.messages, ..a })
    &&& match a.file_op {
        Some(op) => b.paste_dialog matches Some(d) && d.selected == mode_index(op.mode) && d.default
            == mode_index(op.mode) && d.dest_override is None && b.messages == a.messages,
        None => b.paste_dialog == a.paste_dialog && views(b.messages@) == logged(
            views(a.messages@),
            "clipboard empty"@,
        ),
    }
}

/// The targets yanked and the paste dialog opened aimed at the other pane
/// (copy preselected); outside split mode a hint is logged instead.
pub open spec fn sent_to_other(a: App, b: App) -> bool {
    &&& b == (App { file_op: b.file_op, paste_dialog: b.paste_dialog, messages: b.messages, ..a })
    &&& a.split is None ==> views(b.messages@) == logged(
        views(a.messages@),
        "not in split mode (press `|`)"@,
    ) && b.file_op == a.file_op && b.paste_dialog == a.paste_dialog
    &&& a.split matches Some(other) ==> (if a.target_views().len() == 0 {
        b == a
    } else {
        &&& b.file_op matches Some(op) && op.mode == OpMode::Copy && views(op.files@)
            == a.target_views()
        &&& b.paste_dialog matches Some(d) && d.selected == 0 && d.default == 0
            && (d.dest_override matches Some(p) && p@ == a.tabs@[other as int].path@)
        &&& views(b.messages@) == logged(
            views(a.messages@),
            "send "@ + dec(a.target_views().len()) + " item(s) to other pane"@,
        )
    })
}

/// Trashing the targets asked about, or, when the config turns the question
/// off, the targets handed back in `now` to be trashed at once.
pub open spec fn trash_asked(a: App, b: App, now: Option<Vec<String>>) -> bool {
    &&& b == (App { confirm: b.confirm, ..a })
    &&& a.target_views().len() == 0 ==> now is None && b == a
    &&& a.target_views().len() > 0 && !a.config.confirm_delete ==> (now matches Some(t) && views(t@)
        == a.target_views() && b == a)
    &&& a.target_views().len() > 0 && a.config.confirm_delete ==> {
        &&& now is None
        &&& b.confirm matches Some(c) && c.kind == ConfirmKind::DeleteTrash && views(c.targets@)
            == a.target_views() && c.message@ == question(
            "Move to trash: "@,
            "Move "@,
            " to trash? (y/N)"@,
            a.target_views(),
        )
    }
}

/// Deleting the targets for good asked about.
pub open spec fn delete_asked(a: App, b: App) -> bool {
    &&& b == (App { confirm: b.confirm, ..a })
    &&& a.target_views().len() == 0 ==> b == a
    &&& a.target_views().len() > 0 ==> (b.confirm matches Some(c) && c.kind
        == ConfirmKind::DeletePermanent && views(c.targets@) == a.target_views() && c.message@
        == question("PERMANENTLY delete: "@, "PERMANENTLY delete "@, "? (y/N)"@, a.target_views()))
}

/// The open question declined: gone, and `cancelled` logged.
pub open spec fn declined(a: App, b: App) -> bool {
    b == (App { confirm: None, messages: b.messages, ..a }) && views(b.messages@) == logged(
        views(a.messages@),
        "cancelled"@,
    )
}

/// The paste dialog opens on the way the files were taken: copy after a
/// yank, move after a cut.
pub proof fn law_paste_follows_clipboard(a: App, b: App, c: App, mode: OpMode, verb: Seq<char>)
    requires
        a.target_views().len() > 0,
        stashed(a, b, mode, verb),
        paste_opened(b, c),
    ensures
        c.paste_dialog matches Some(d) && d.selected == mode_index(mode),
        mode == OpMode::Copy ==> (c.paste_dialog matches Some(d) && d.selected == 0),
        mode == OpMode::Cut ==> (c.paste_dialog matches Some(d) && d.selected == 1),
{
}

} // verus!
