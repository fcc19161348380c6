use machina::app::App;
use machina::config::Config;
use machina::folder::{FileEntry, Folder};

fn entry(dir: &str, name: &str, is_dir: bool) -> FileEntry {
    FileEntry {
        path: format!("{}/{}", dir, name),
        name: name.to_string(),
        is_dir,
        size: 10,
        modified: "01-02 03:04".to_string(),
        git: None,
    }
}

fn folder_at(dir: &str, items: &[(&str, bool)]) -> Folder {
    let mut f = Folder::new(dir.to_string());
    f.refill(Some(items.iter().map(|(n, d)| entry(dir, n, *d)).collect()), None);
    f
}

fn app() -> App {
    let config = Config::default_with("/home/u", "nvim".to_string());
    App::new(folder_at("/t", &[("a.txt", false), ("b.txt", false), ("dir", true), (".hidden", false)]), config)
}

fn sorted_selection(a: &App) -> Vec<String> {
    let mut v = a.selected.clone();
    v.sort();
    v
}

#[test]
fn new_app_starts_with_one_tab() {
    let a = app();
    assert_eq!(a.tabs.len(), 1);
    assert_eq!(a.active, 0);
    assert!(a.split.is_none());
    assert!(a.messages.is_empty());
    assert!(a.preview_visible);
    // dotfiles follow the config (hidden by default)
    assert_eq!(a.current().files.len(), 3);
}

#[test]
fn toggling_a_path_twice_restores_selection() {
    let mut a = app();
    a.toggle_selected("/t/a.txt".to_string());
    assert_eq!(sorted_selection(&a), vec!["/t/a.txt"]);
    a.toggle_selected("/t/b.txt".to_string());
    a.toggle_selected("/t/a.txt".to_string());
    assert_eq!(sorted_selection(&a), vec!["/t/b.txt"]);
    a.toggle_selected("/t/b.txt".to_string());
    assert!(a.selected.is_empty());
}

#[test]
fn next_then_previous_tab_returns() {
    let mut a = app();
    a.new_tab(folder_at("/u", &[]));
    a.new_tab(folder_at("/v", &[]));
    assert_eq!(a.active, 2);
    a.next_tab();
    assert_eq!(a.active, 0);
    a.prev_tab();
    assert_eq!(a.active, 2);
    a.prev_tab();
    a.next_tab();
    assert_eq!(a.active, 2);
}

#[test]
fn last_tab_cannot_be_closed() {
    let mut a = app();
    a.close_tab();
    assert_eq!(a.tabs.len(), 1);
    a.new_tab(folder_at("/u", &[]));
    a.close_tab();
    assert_eq!(a.tabs.len(), 1);
    assert_eq!(a.current().path, "/t");
}

#[test]
fn closing_a_tab_shifts_split_index() {
    let mut a = app();
    a.toggle_split(folder_at("/t", &[]));
    assert_eq!(a.tabs.len(), 2);
    assert_eq!(a.active, 1);
    assert_eq!(a.split, Some(0));
    a.swap_split_focus();
    assert_eq!((a.active, a.split), (0, Some(1)));
    a.close_tab();
    assert_eq!(a.split, Some(0));
    assert_eq!(a.active, 0);
    assert_eq!(a.tabs.len(), 1);
    a.split = Some(0);
    a.new_tab(folder_at("/v", &[]));
    a.active = 0;
    a.close_tab();
    assert_eq!(a.split, None);
}

#[test]
fn message_log_keeps_newest_five() {
    let mut a = app();
    for i in 0..7 {
        a.message(format!("m{}", i));
    }
    let v: Vec<String> = a.messages.iter().cloned().collect();
    assert_eq!(v, vec!["m2", "m3", "m4", "m5", "m6"]);
}

#[test]
fn targets_are_selection_else_hovered() {
    let mut a = app();
    assert_eq!(a.targets(), vec!["/t/dir"]);
    a.toggle_selected("/t/b.txt".to_string());
    a.toggle_selected("/t/a.txt".to_string());
    assert_eq!(a.targets(), vec!["/t/b.txt", "/t/a.txt"]);
    a.clear_selected();
    let mut empty = App::new(folder_at("/e", &[]), Config::default_with("/", "nvim".to_string()));
    assert!(empty.targets().is_empty());
    empty.select_all();
    assert!(empty.selected.is_empty());
}

#[test]
fn select_all_adds_shown_entries_once() {
    let mut a = app();
    a.toggle_selected("/t/a.txt".to_string());
    a.select_all();
    assert_eq!(sorted_selection(&a), vec!["/t/a.txt", "/t/b.txt", "/t/dir"]);
    a.add_selected(&["/t/a.txt".to_string(), "/x".to_string()]);
    assert_eq!(sorted_selection(&a), vec!["/t/a.txt", "/t/b.txt", "/t/dir", "/x"]);
}

#[test]
fn split_pairs_with_the_tab_that_was_active() {
    let mut a = app();
    a.new_tab(folder_at("/u", &[]));
    a.new_tab(folder_at("/v", &[]));
    a.prev_tab();
    a.prev_tab();
    assert_eq!(a.active, 0);
    a.toggle_split(folder_at("/t", &[]));
    assert_eq!(a.tabs.len(), 4);
    assert_eq!(a.active, 3);
    assert_eq!(a.split, Some(0));
    assert_eq!(a.tabs[3].path, "/t");
    assert_eq!(a.tabs[3].cursor, 0);
}

#[test]
fn new_tab_starts_at_the_top_and_filtered() {
    let mut a = app();
    let mut f = folder_at("/u", &[("x", false), (".y", false), ("z", false)]);
    f.cursor = 2;
    a.new_tab(f);
    let t = a.current();
    assert_eq!(t.cursor, 0);
    assert_eq!(t.offset, 0);
    assert_eq!(t.files.len(), 2);
    assert_eq!(a.active, 1);
}
