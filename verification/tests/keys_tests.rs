use machina::app::{App, ConfirmKind, HelpVisible, OpMode};
use machina::config::Config;
use machina::folder::{FileEntry, Folder};
use machina::input::InputAction;
use machina::keybind::Mode;
use machina::keys::{
    finish_clipboard, finish_create, finish_open, finish_rename, finish_shell, finish_teleport,
    go_bookmark, handle_key, teleport_path, Action, Found, Key, KeyCode, Mods, ShellWay,
};
use machina::shell::ShellCmd;

fn entry(dir: &str, name: &str, is_dir: bool) -> FileEntry {
    FileEntry {
        path: format!("{}/{}", dir, name),
        name: name.to_string(),
        is_dir,
        size: 10,
        modified: "01-02 03:04".to_string(),
        git: None,
    }
}

fn folder_at(dir: &str, items: &[(&str, bool)]) -> Folder {
    let mut f = Folder::new(dir.to_string());
    f.refill(Some(items.iter().map(|(n, d)| entry(dir, n, *d)).collect()), None);
    f
}

fn app() -> App {
    let config = Config::default_with("/home/u", "nvim".to_string());
    App::new(
        folder_at("/t", &[("a.txt", false), ("b.txt", false), ("c.md", false), ("dir", true)]),
        config,
    )
}

fn k(c: char) -> Key {
    Key { code: KeyCode::Char(c), mods: Mods::Empty }
}

fn code(c: KeyCode) -> Key {
    Key { code: c, mods: Mods::Empty }
}

fn ctrl(c: char) -> Key {
    Key { code: KeyCode::Char(c), mods: Mods::Control }
}

fn press(a: &mut App, keys: &[Key]) -> Action {
    let mut last = Action::Stay;
    for key in keys {
        last = handle_key(a, *key);
    }
    last
}

fn typed(a: &mut App, s: &str) {
    for c in s.chars() {
        handle_key(a, k(c));
    }
}

fn last_message(a: &App) -> String {
    a.messages.back().cloned().unwrap_or_default()
}

fn hovered(a: &App) -> String {
    a.current().hovered().map(|e| e.name.clone()).unwrap_or_default()
}

#[test]
fn motion_keys_move_cursor() {
    let mut a = app();
    assert_eq!(hovered(&a), "dir");
    press(&mut a, &[k('j'), k('j')]);
    assert_eq!(hovered(&a), "b.txt");
    press(&mut a, &[k('k')]);
    assert_eq!(hovered(&a), "a.txt");
    press(&mut a, &[k('G')]);
    assert_eq!(hovered(&a), "c.md");
    press(&mut a, &[code(KeyCode::Up), code(KeyCode::Down)]);
    assert_eq!(hovered(&a), "c.md");
}

#[test]
fn g_then_g_goes_to_top() {
    let mut a = app();
    press(&mut a, &[k('G')]);
    assert_eq!(a.current().cursor, 3);
    press(&mut a, &[k('g')]);
    assert!(a.keybind.pending_key.is_some());
    press(&mut a, &[k('g')]);
    assert_eq!(a.current().cursor, 0);
    assert!(a.keybind.pending_key.is_none());
}

#[test]
fn quit_key_quits() {
    let mut a = app();
    assert!(matches!(press(&mut a, &[k('q')]), Action::Quit));
}

#[test]
fn escape_clears_selection_then_goes_up() {
    let mut a = app();
    press(&mut a, &[k('s')]);
    assert_eq!(a.selected, vec!["/t/dir"]);
    assert_eq!(hovered(&a), "a.txt");
    assert!(matches!(press(&mut a, &[code(KeyCode::Esc)]), Action::Stay));
    assert!(a.selected.is_empty());
    assert!(matches!(press(&mut a, &[code(KeyCode::Esc)]), Action::Parent));
    assert!(matches!(press(&mut a, &[k('h')]), Action::Parent));
}

#[test]
fn open_enters_directories_and_launches_files() {
    let mut a = app();
    match press(&mut a, &[k('l')]) {
        Action::Enter { dir } => assert_eq!(dir, "/t/dir"),
        _ => panic!("expected Enter"),
    }
    press(&mut a, &[k('j')]);
    match press(&mut a, &[code(KeyCode::Enter)]) {
        Action::Open { path, cmd, in_terminal } => {
            assert_eq!(path, "/t/a.txt");
            assert_eq!(cmd, "nvim");
            assert!(in_terminal);
        }
        _ => panic!("expected Open"),
    }
}

#[test]
fn yank_chord_and_paste_dialog() {
    let mut a = app();
    press(&mut a, &[k('j'), k('y'), k('y')]);
    assert_eq!(last_message(&a), "yanked 1 item");
    let op = a.file_op.as_ref().unwrap();
    assert_eq!(op.mode, OpMode::Copy);
    assert_eq!(op.files, vec!["/t/a.txt"]);
    press(&mut a, &[k('p')]);
    assert_eq!(a.paste_dialog.as_ref().unwrap().selected, 0);
    press(&mut a, &[k('l')]);
    assert_eq!(a.paste_dialog.as_ref().unwrap().selected, 1);
    press(&mut a, &[code(KeyCode::Right), k('l')]);
    assert_eq!(a.paste_dialog.as_ref().unwrap().selected, 2);
    press(&mut a, &[k('h')]);
    assert_eq!(a.paste_dialog.as_ref().unwrap().selected, 1);
    match press(&mut a, &[code(KeyCode::Enter)]) {
        Action::Paste { mode, dest } => {
            assert_eq!(mode, OpMode::Cut);
            assert!(dest.is_none());
        }
        _ => panic!("expected Paste"),
    }
    assert!(a.paste_dialog.is_none());
}

#[test]
fn cut_chord_opens_dialog_on_move() {
    let mut a = app();
    press(&mut a, &[k('s'), k('s'), k('d'), k('d')]);
    assert_eq!(last_message(&a), "cut 2 items");
    press(&mut a, &[k('p')]);
    assert_eq!(a.paste_dialog.as_ref().unwrap().selected, 1);
    press(&mut a, &[k('q')]);
    assert!(a.paste_dialog.is_none());
}

#[test]
fn paste_with_empty_clipboard() {
    let mut a = app();
    press(&mut a, &[k('p')]);
    assert!(a.paste_dialog.is_none());
    assert_eq!(last_message(&a), "clipboard empty");
}

#[test]
fn trash_asks_and_can_be_declined() {
    let mut a = app();
    press(&mut a, &[k('j'), k('x')]);
    let c = a.confirm.as_ref().unwrap();
    assert_eq!(c.message, "Move to trash: a.txt? (y/N)");
    assert!(matches!(c.kind, ConfirmKind::DeleteTrash));
    press(&mut a, &[k('N')]);
    assert!(a.confirm.is_none());
    assert_eq!(last_message(&a), "cancelled");
}

#[test]
fn trash_without_question_when_configured() {
    let mut a = app();
    a.config.confirm_delete = false;
    match press(&mut a, &[k('x')]) {
        Action::Trash { targets } => assert_eq!(targets, vec!["/t/dir"]),
        _ => panic!("expected Trash"),
    }
    assert!(a.confirm.is_none());
}

#[test]
fn permanent_delete_always_asks() {
    let mut a = app();
    a.config.confirm_delete = false;
    press(&mut a, &[k('s'), k('s'), k('D')]);
    let c = a.confirm.as_ref().unwrap();
    assert_eq!(c.message, "PERMANENTLY delete 2 items? (y/N)");
    match press(&mut a, &[k('y')]) {
        Action::Confirmed { confirm } => {
            assert!(matches!(confirm.kind, ConfirmKind::DeletePermanent));
            assert_eq!(confirm.targets.len(), 2);
        }
        _ => panic!("expected Confirmed"),
    }
    assert!(a.confirm.is_none());
}

#[test]
fn visual_range_yank() {
    let mut a = app();
    press(&mut a, &[k('v')]);
    assert_eq!(a.keybind.mode, Mode::Visual);
    press(&mut a, &[k('j'), k('j'), k('y')]);
    assert_eq!(a.keybind.mode, Mode::Normal);
    assert_eq!(last_message(&a), "yanked 3 item(s)");
    assert_eq!(a.file_op.as_ref().unwrap().files, vec!["/t/dir", "/t/a.txt", "/t/b.txt"]);
}

#[test]
fn visual_range_upwards_select() {
    let mut a = app();
    press(&mut a, &[k('G'), k('V'), k('k'), k('s')]);
    assert_eq!(last_message(&a), "selected 2");
    let mut s = a.selected.clone();
    s.sort();
    assert_eq!(s, vec!["/t/b.txt", "/t/c.md"]);
    assert!(a.keybind.visual_start.is_none());
}

#[test]
fn visual_cut_and_exit() {
    let mut a = app();
    press(&mut a, &[k('v'), k('G'), k('d')]);
    assert_eq!(last_message(&a), "cut 4 item(s)");
    assert_eq!(a.file_op.as_ref().unwrap().mode, OpMode::Cut);
    press(&mut a, &[k('v'), code(KeyCode::Esc)]);
    assert_eq!(a.keybind.mode, Mode::Normal);
}

#[test]
fn search_filters_live_and_escape_clears() {
    let mut a = app();
    press(&mut a, &[k('/')]);
    assert!(a.input.active);
    assert_eq!(a.input.prompt, "search: ");
    typed(&mut a, "TX");
    assert_eq!(a.current().files.len(), 2);
    press(&mut a, &[code(KeyCode::Backspace)]);
    assert_eq!(a.current().filter, "T");
    press(&mut a, &[code(KeyCode::Esc)]);
    assert!(!a.input.active);
    assert_eq!(a.current().files.len(), 4);
}

#[test]
fn create_command_is_parsed() {
    let mut a = app();
    press(&mut a, &[k('a')]);
    typed(&mut a, "d=newdir/");
    match press(&mut a, &[code(KeyCode::Enter)]) {
        Action::Create { is_dir, path, name } => {
            assert!(is_dir);
            assert_eq!(name, "newdir");
            assert_eq!(path, "/t/newdir");
        }
        _ => panic!("expected Create"),
    }
    press(&mut a, &[k('a')]);
    typed(&mut a, "   ");
    assert!(matches!(press(&mut a, &[code(KeyCode::Enter)]), Action::Stay));
    assert_eq!(last_message(&a), "create cancelled");
}

#[test]
fn rename_prompts_with_name() {
    let mut a = app();
    press(&mut a, &[k('j'), k('r')]);
    assert_eq!(a.input.buffer, "a.txt");
    assert_eq!(a.input.cursor, 5);
    press(&mut a, &[code(KeyCode::Esc), k('A')]);
    assert_eq!(a.input.cursor, 1);
    press(&mut a, &[code(KeyCode::Home), code(KeyCode::Delete)]);
    typed(&mut a, "z");
    assert_eq!(a.input.buffer, "z.txt");
    match press(&mut a, &[code(KeyCode::Enter)]) {
        Action::Rename { from, to, old_name, new_name } => {
            assert_eq!(from, Some("/t/a.txt".to_string()));
            assert_eq!(to, "/t/z.txt");
            assert_eq!(old_name, "a.txt");
            assert_eq!(new_name, "z.txt");
        }
        _ => panic!("expected Rename"),
    }
}

#[test]
fn archive_prompt_and_estimate() {
    let mut a = app();
    press(&mut a, &[k('j'), k('z')]);
    assert_eq!(a.input.buffer, "a.txt.tar.gz");
    match press(&mut a, &[code(KeyCode::Enter)]) {
        Action::EstimateArchive { name, cwd, targets } => {
            assert_eq!(name, "a.txt.tar.gz");
            assert_eq!(cwd, "/t");
            assert_eq!(targets, vec!["/t/a.txt"]);
        }
        _ => panic!("expected EstimateArchive"),
    }
}

#[test]
fn shell_command_expands_templates() {
    let mut a = app();
    press(&mut a, &[k('j'), k('!')]);
    typed(&mut a, "wc -l $f $d &");
    match press(&mut a, &[code(KeyCode::Enter)]) {
        Action::Shell { command, cwd } => {
            assert_eq!(command.raw, "wc -l /t/a.txt /t");
            assert!(command.background);
            assert_eq!(cwd, "/t");
        }
        _ => panic!("expected Shell"),
    }
    press(&mut a, &[k('!'), code(KeyCode::Enter)]);
    assert_eq!(last_message(&a), "empty command");
}

#[test]
fn teleport_and_tilde() {
    let mut a = app();
    press(&mut a, &[k('T')]);
    assert_eq!(a.input.action, InputAction::Teleport);
    typed(&mut a, "  ~/x  ");
    match press(&mut a, &[code(KeyCode::Enter)]) {
        Action::Teleport { path } => {
            assert_eq!(path, "~/x");
            assert_eq!(teleport_path(&path, Some("/home/u")), "/home/u/x");
            assert_eq!(teleport_path(&path, None), "~/x");
        }
        _ => panic!("expected Teleport"),
    }
    finish_teleport(&mut a, "/nowhere".to_string(), Found::Nothing, None, None);
    assert_eq!(last_message(&a), "os error: no file or directory found (os error 2)");
    finish_teleport(&mut a, "/t/a.txt".to_string(), Found::File, None, None);
    assert_eq!(last_message(&a), "os error: not a directory (os error 20)");
    finish_teleport(&mut a, "/w".to_string(), Found::Dir, Some(vec![entry("/w", "q", false)]), None);
    assert_eq!(a.current().path, "/w");
    assert_eq!(last_message(&a), "teleported to: /w");
}

#[test]
fn jump_prompt_moves_cursor() {
    let mut a = app();
    press(&mut a, &[k('f')]);
    typed(&mut a, "c");
    press(&mut a, &[code(KeyCode::Enter)]);
    assert_eq!(hovered(&a), "c.md");
}

#[test]
fn bookmarks_and_clipboard_chords() {
    let mut a = app();
    match press(&mut a, &[k('g'), k('h')]) {
        Action::Bookmark { key, target } => {
            assert_eq!(key, 'h');
            assert_eq!(target, "/home/u");
        }
        _ => panic!("expected Bookmark"),
    }
    go_bookmark(&mut a, 'q', "/gone".to_string(), false, None, None);
    assert_eq!(last_message(&a), "bookmark q not found");
    go_bookmark(&mut a, 'h', "/home/u".to_string(), true, Some(vec![entry("/home/u", "f", false)]), None);
    assert_eq!(a.current().path, "/home/u");
    let mut b = app();
    match press(&mut b, &[k('y'), k('d')]) {
        Action::Clipboard { text } => assert_eq!(text, "/t"),
        _ => panic!("expected Clipboard"),
    }
    match press(&mut b, &[k('y'), k('n')]) {
        Action::Clipboard { text } => assert_eq!(text, "dir"),
        _ => panic!("expected Clipboard"),
    }
    match press(&mut b, &[k('y'), k('p')]) {
        Action::Clipboard { text } => assert_eq!(text, "/t/dir"),
        _ => panic!("expected Clipboard"),
    }
    finish_clipboard(&mut b, "/t/dir", None);
    assert_eq!(last_message(&b), "clipboard: /t/dir");
    finish_clipboard(&mut b, "/t/dir", Some("no display".to_string()));
    assert_eq!(last_message(&b), "clipboard failed: no display");
}

#[test]
fn unknown_chord_falls_through_to_key() {
    let mut a = app();
    press(&mut a, &[k('g'), k('j')]);
    assert_eq!(hovered(&a), "a.txt");
    assert!(a.keybind.pending_key.is_none());
}

#[test]
fn tabs_and_split_keys() {
    let mut a = app();
    match press(&mut a, &[k('t')]) {
        Action::NewTab { path } => assert_eq!(path, "/t"),
        _ => panic!("expected NewTab"),
    }
    a.new_tab(folder_at("/t", &[]));
    press(&mut a, &[k('g'), k('t')]);
    assert_eq!(a.active, 0);
    press(&mut a, &[k('g'), k('T')]);
    assert_eq!(a.active, 1);
    press(&mut a, &[ctrl('w')]);
    assert_eq!(a.tabs.len(), 1);
    match press(&mut a, &[k('|')]) {
        Action::Split { path } => assert_eq!(path, "/t"),
        _ => panic!("expected Split"),
    }
    press(&mut a, &[k('>')]);
    assert_eq!(last_message(&a), "not in split mode (press `|`)");
}

#[test]
fn view_toggles_and_help() {
    let mut a = app();
    press(&mut a, &[k('P')]);
    assert!(!a.preview_visible);
    press(&mut a, &[k('.')]);
    assert_eq!(last_message(&a), "hidden: on");
    press(&mut a, &[k('?')]);
    assert_eq!(a.help, HelpVisible::Shown);
    assert!(matches!(press(&mut a, &[k('q')]), Action::Stay));
    assert_eq!(a.help, HelpVisible::Hidden);
    press(&mut a, &[ctrl('a')]);
    assert_eq!(last_message(&a), "selected 4 item(s)");
    press(&mut a, &[ctrl('c')]);
    assert_eq!(last_message(&a), "cleared selection");
    assert!(matches!(press(&mut a, &[k('R')]), Action::Reload));
    assert_eq!(last_message(&a), "reloaded");
}

#[test]
fn page_keys_with_control() {
    let mut a = app();
    press(&mut a, &[ctrl('d')]);
    assert_eq!(a.current().cursor, 3);
    press(&mut a, &[ctrl('u')]);
    assert_eq!(a.current().cursor, 0);
}

#[test]
fn editor_and_shell_keys() {
    let mut a = app();
    match press(&mut a, &[k(' ')]) {
        Action::Edit { editor, path, cwd } => {
            assert_eq!(editor, "nvim");
            assert_eq!(path, "/t/dir");
            assert_eq!(cwd, "/t");
        }
        _ => panic!("expected Edit"),
    }
    match press(&mut a, &[k('S')]) {
        Action::OpenShell { cwd } => assert_eq!(cwd, "/t"),
        _ => panic!("expected OpenShell"),
    }
}

#[test]
fn outcome_messages() {
    let mut a = app();
    finish_open(&mut a, "/usr/bin/mpv", None);
    assert_eq!(last_message(&a), "launched: mpv");
    finish_open(&mut a, "mpv", Some("not found".to_string()));
    assert_eq!(last_message(&a), "open failed: not found");
    finish_open(&mut a, "/usr/bin/nvim", None);
    assert_eq!(last_message(&a), "opened in nvim");
    finish_rename(&mut a, "a", "b", None);
    assert_eq!(last_message(&a), "renamed: a → b");
    finish_rename(&mut a, "a", "b", Some("denied".to_string()));
    assert_eq!(last_message(&a), "rename failed: denied");
    finish_create(&mut a, true, "d", None);
    assert_eq!(last_message(&a), "created dir: d");
    finish_create(&mut a, false, "f", Some("exists".to_string()));
    assert_eq!(last_message(&a), "create failed: exists");
    finish_shell(&mut a, ShellCmd { raw: "ls".to_string(), background: true }, ShellWay::Background, None);
    assert_eq!(last_message(&a), "bg: ls");
    finish_shell(&mut a, ShellCmd { raw: "ls".to_string(), background: false }, ShellWay::Foreground, None);
    assert_eq!(last_message(&a), "running: ls");
    assert_eq!(a.pending_fg_shell.as_ref().unwrap().raw, "ls");
}

#[test]
fn selection_survives_navigation() {
    let mut a = app();
    press(&mut a, &[k('s')]);
    assert_eq!(a.selected, vec!["/t/dir".to_string()]);
    press(&mut a, &[k('j'), k('G'), k('k'), ctrl('d'), ctrl('u')]);
    press(&mut a, &[k('t')]);
    let mut b = a;
    let folder = folder_at("/t", &[("x", false)]);
    b.new_tab(folder);
    press(&mut b, &[k('g'), k('t'), k('g'), k('T')]);
    assert_eq!(b.selected, vec!["/t/dir".to_string()]);
}

#[test]
fn parent_keys_keep_selection() {
    let mut a = app();
    press(&mut a, &[k('s')]);
    assert!(matches!(press(&mut a, &[k('h')]), Action::Parent));
    assert_eq!(a.selected, vec!["/t/dir"]);
    assert!(matches!(press(&mut a, &[code(KeyCode::Left)]), Action::Parent));
    assert!(matches!(press(&mut a, &[k('H')]), Action::Parent));
    assert_eq!(a.selected, vec!["/t/dir"]);
    assert!(matches!(press(&mut a, &[code(KeyCode::Esc)]), Action::Stay));
    assert!(a.selected.is_empty());
}
